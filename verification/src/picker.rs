//! The picker as its host sees it: a table loaded once, the result of the
//! latest query, and the grid rows made from it.

use vstd::prelude::*;
use crate::cache::ResultCache;
use crate::entry::{entry_of, Emoji, ROW_WIDTH};
use crate::list::{filtered, EmojiList};
use crate::rows::{flatten, row_views, rows_of, stored, Row};

verus! {

/// Why a table was turned down.
#[derive(Clone, Copy, Debug, PartialEq, Eq)]
pub enum LoadError {
    /// The table has `len` entries, which does not fill whole rows.
    RaggedTable { len: usize },
}

/// The table and the result on display.
#[derive(Clone, Debug)]
pub struct Picker {
    corpus: EmojiList,
    cache: ResultCache,
}

impl Picker {
    /// The table, as loaded.
    pub closed spec fn corpus(&self) -> Seq<Emoji> {
        self.corpus@
    }

    /// The result on display.
    pub closed spec fn shown(&self) -> Seq<Emoji> {
        self.cache@
    }

    /// The table fills whole rows. `load` makes it so, and nothing changes
    /// the table afterwards.
    pub open spec fn whole_rows(&self) -> bool {
        self.corpus().len() % (ROW_WIDTH as nat) == 0
    }

    /// Loads the table. A table whose length is no multiple of the row width
    /// is turned down; any other is taken, and shown in full until the first
    /// query.
    pub fn load(table: &[(&'static str, &'static str)]) -> (loaded: Result<Picker, LoadError>)
        ensures
            loaded is Ok <==> table@.len() % (ROW_WIDTH as nat) == 0,
            loaded matches Ok(picker) ==> {
                &&& picker.whole_rows()
                &&& picker.corpus() == table@.map_values(
                    |pair: (&'static str, &'static str)| entry_of(pair),
                )
                &&& picker.shown() == picker.corpus()
            },
            loaded matches Err(error) ==> error == (LoadError::RaggedTable { len: table.len() }),
    {
        let len: usize = table.len();
        if len % ROW_WIDTH != 0 {
            return Err(LoadError::RaggedTable { len });
        }
        let corpus = EmojiList::new(table);
        let shown = EmojiList::new(table);
        Ok(Picker { corpus, cache: ResultCache::new(shown) })
    }

    /// The table, as loaded.
    pub fn table(&self) -> (table: &EmojiList)
        ensures
            table@ == self.corpus(),
    {
        &self.corpus
    }

    /// Filters the table by `new_query` and makes that the result on
    /// display. The table itself never changes.
    pub fn on_query_changed(&mut self, new_query: &str)
        ensures
            final(self).corpus() == old(self).corpus(),
            final(self).shown() == filtered(old(self).corpus(), new_query@),
    {
        let result = self.corpus.filter(new_query);
        self.cache.replace(result);
    }

    /// The result on display.
    pub fn current(&self) -> (result: &EmojiList)
        ensures
            result@ == self.shown(),
    {
        self.cache.current()
    }

    /// The result on display as grid rows, made anew on each call.
    pub fn rows(&self) -> (rows: Vec<Row>)
        ensures
            row_views(rows@) == rows_of(self.shown()),
            flatten(row_views(rows@)) == self.shown(),
    {
        self.cache.current().chunks()
    }

    /// The glyph to hand out when the slot in row `row`, column `col` of the
    /// grid is activated. Padding and places outside the grid give none.
    pub fn activate(&self, row: usize, col: usize) -> (glyph: Option<&'static str>)
        ensures
            glyph == if col < ROW_WIDTH && row * ROW_WIDTH + col < self.shown().len() {
                Some(self.shown()[row * ROW_WIDTH + col].glyph)
            } else {
                None
            },
    {
        match self.cache.current().activate(row, col) {
            Some(entry) => Some(entry.glyph),
            None => None,
        }
    }

    /// Writes row `index` back into the result on display; the table is not
    /// touched.
    pub fn store_row(&mut self, index: usize, row: &Row)
        ensures
            final(self).corpus() == old(self).corpus(),
            final(self).shown() == stored(old(self).shown(), index as int, row@),
    {
        self.cache.store_row(index, row);
    }
}

} // verus!
