//! The slot that holds the result on display.

use vstd::prelude::*;
use crate::entry::Emoji;
use crate::list::EmojiList;
use crate::rows::{stored, Row};

verus! {

/// Owner of the one result that is current. Installing a new result drops the
/// one before it; nothing else can retire it.
#[derive(Clone, Debug)]
pub struct ResultCache {
    current: EmojiList,
}

impl View for ResultCache {
    type V = Seq<Emoji>;

    closed spec fn view(&self) -> Seq<Emoji> {
        self.current@
    }
}

impl ResultCache {
    /// A cache whose current result is `initial`.
    pub fn new(initial: EmojiList) -> (cache: ResultCache)
        ensures
            cache@ == initial@,
    {
        ResultCache { current: initial }
    }

    /// Makes `new_result` the current result. The result held before is
    /// released by this call and cannot be reached any more.
    pub fn replace(&mut self, new_result: EmojiList)
        ensures
            final(self)@ == new_result@,
    {
        self.current = new_result;
    }

    /// The current result.
    pub fn current(&self) -> (result: &EmojiList)
        ensures
            result@ == self@,
    {
        &self.current
    }

    /// Writes row `index` back into the current result; see
    /// [`EmojiList::store_row`].
    pub fn store_row(&mut self, index: usize, row: &Row)
        ensures
            final(self)@ == stored(old(self)@, index as int, row@),
    {
        self.current.store_row(index, row);
    }
}

} // verus!
