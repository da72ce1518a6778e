//! Cutting a list into rows of five for a grid, and writing a row back.
//!
//! The last row of a list whose length is no multiple of five is filled up
//! with [`Slot::Empty`], which holds no entry and can be told apart from any
//! real one.

use vstd::prelude::*;
use crate::entry::{Emoji, ROW_WIDTH};
use crate::list::EmojiList;

verus! {

/// One place in a grid row.
#[derive(Clone, Copy, Debug, PartialEq, Eq)]
pub enum Slot {
    /// A real entry of the list.
    Filled(Emoji),
    /// Padding after the end of the list.
    Empty,
}

/// A grid row: always [`ROW_WIDTH`] slots.
#[derive(Clone, Copy, Debug, PartialEq, Eq)]
pub struct Row {
    pub slots: [Slot; ROW_WIDTH],
}

impl View for Row {
    type V = Seq<Slot>;

    open spec fn view(&self) -> Seq<Slot> {
        self.slots@
    }
}

/// Number of rows that a list of `len` entries needs: `len / 5`, rounded up.
pub open spec fn row_count(len: nat) -> nat {
    ((len + ROW_WIDTH - 1) / (ROW_WIDTH as int)) as nat
}

/// What stands in column `col` of row `row`: the entry at `5 * row + col`, or
/// padding where the list has ended.
pub open spec fn slot_of(list: Seq<Emoji>, row: int, col: int) -> Slot {
    let at = row * ROW_WIDTH + col;
    if 0 <= at < list.len() {
        Slot::Filled(list[at])
    } else {
        Slot::Empty
    }
}

/// The slots of row `row`.
pub open spec fn row_of(list: Seq<Emoji>, row: int) -> Seq<Slot> {
    Seq::new(ROW_WIDTH as nat, |col: int| slot_of(list, row, col))
}

/// All the rows of a list, top to bottom.
pub open spec fn rows_of(list: Seq<Emoji>) -> Seq<Seq<Slot>> {
    Seq::new(row_count(list.len()), |row: int| row_of(list, row))
}

/// The slots of each row.
pub open spec fn row_views(rows: Seq<Row>) -> Seq<Seq<Slot>> {
    rows.map_values(|row: Row| row@)
}

/// The real entries among some slots, in order, padding left out.
pub open spec fn real_entries(slots: Seq<Slot>) -> Seq<Emoji>
    decreases slots.len(),
{
    if slots.len() == 0 {
        Seq::empty()
    } else {
        let front = real_entries(slots.drop_last());
        match slots.last() {
            Slot::Filled(entry) => front.push(entry),
            Slot::Empty => front,
        }
    }
}

/// The real entries of the rows, one row after the other.
pub open spec fn flatten(rows: Seq<Seq<Slot>>) -> Seq<Emoji>
    decreases rows.len(),
{
    if rows.len() == 0 {
        Seq::empty()
    } else {
        flatten(rows.drop_last()) + real_entries(rows.last())
    }
}

/// `at`, but no further than `len`.
spec fn clip(at: int, len: nat) -> int {
    if at < len {
        at
    } else {
        len as int
    }
}

/// The list after row `row` has been written back from `slots`: a real entry
/// of the row replaces the one at its place in the list; padding in the row,
/// and whatever the row holds past the end of the list, changes nothing.
pub open spec fn stored(list: Seq<Emoji>, row: int, slots: Seq<Slot>) -> Seq<Emoji> {
    Seq::new(
        list.len(),
        |at: int|
            {
                let col = at - row * ROW_WIDTH;
                if 0 <= col < slots.len() {
                    match slots[col] {
                        Slot::Filled(entry) => entry,
                        Slot::Empty => list[at],
                    }
                } else {
                    list[at]
                }
            },
    )
}

impl Slot {
    /// The entry in the slot; padding holds none.
    pub fn entry(&self) -> (entry: Option<Emoji>)
        ensures
            entry == match *self {
                Slot::Filled(e) => Some(e),
                Slot::Empty => None,
            },
    {
        match *self {
            Slot::Filled(e) => Some(e),
            Slot::Empty => None,
        }
    }
}

impl Row {
    /// The real entries of the row, in order.
    pub fn entries(&self) -> (entries: Vec<Emoji>)
        ensures
            entries@ == real_entries(self@),
    {
        let mut entries: Vec<Emoji> = Vec::new();
        let mut col: usize = 0;
        while col < ROW_WIDTH
            invariant
                col <= ROW_WIDTH,
                entries@ == real_entries(self@.take(col as int)),
            decreases ROW_WIDTH - col,
        {
            proof {
                assert(self@.take(col as int + 1).drop_last() == self@.take(col as int));
            }
            match self.slots[col] {
                Slot::Filled(e) => {
                    entries.push(e);
                },
                Slot::Empty => {},
            }
            col += 1;
        }
        assert(self@.take(ROW_WIDTH as int) == self@);
        entries
    }
}

impl EmojiList {
    /// Number of rows that the list fills, the last one perhaps in part.
    pub fn row_count(&self) -> (count: usize)
        ensures
            count == row_count(self@.len()),
    {
        let len: usize = self.data_len();
        if len % ROW_WIDTH == 0 {
            len / ROW_WIDTH
        } else {
            len / ROW_WIDTH + 1
        }
    }

    /// Row `index`, which must be one of the list's rows.
    fn row_at(&self, index: usize) -> (row: Row)
        requires
            index < row_count(self@.len()),
        ensures
            row@ == row_of(self@, index as int),
    {
        let len: usize = self.data_len();
        let base: usize = index * ROW_WIDTH;
        let mut slots: [Slot; ROW_WIDTH] = [Slot::Empty;ROW_WIDTH];
        let mut col: usize = 0;
        while col < ROW_WIDTH
            invariant
                col <= ROW_WIDTH,
                len == self@.len(),
                base == index * ROW_WIDTH,
                base < len,
                forall|c: int| 0 <= c < col ==> slots@[c] == slot_of(self@, index as int, c),
                forall|c: int| col <= c < ROW_WIDTH ==> slots@[c] == Slot::Empty,
            decreases ROW_WIDTH - col,
        {
            if col < len - base {
                match self.get(base + col) {
                    Some(entry) => {
                        slots[col] = Slot::Filled(entry);
                    },
                    None => {},
                }
            }
            col += 1;
        }
        assert(slots@ =~= row_of(self@, index as int));
        Row { slots }
    }

    /// Row `index` of the grid, if the list reaches that far.
    pub fn row(&self, index: usize) -> (row: Option<Row>)
        ensures
            row is Some <==> index < row_count(self@.len()),
            row matches Some(r) ==> r@ == row_of(self@, index as int),
    {
        if index < self.row_count() {
            Some(self.row_at(index))
        } else {
            None
        }
    }

    /// The whole list as rows of five, the last one padded. An empty list
    /// has no rows.
    pub fn chunks(&self) -> (rows: Vec<Row>)
        ensures
            row_views(rows@) == rows_of(self@),
            rows@.len() == row_count(self@.len()),
            flatten(row_views(rows@)) == self@,
    {
        let count: usize = self.row_count();
        let mut rows: Vec<Row> = Vec::new();
        let mut index: usize = 0;
        while index < count
            invariant
                index <= count,
                count == row_count(self@.len()),
                rows@.len() == index,
                forall|r: int| 0 <= r < index ==> (#[trigger] rows@[r])@ == row_of(self@, r),
            decreases count - index,
        {
            let row = self.row_at(index);
            rows.push(row);
            index += 1;
        }
        proof {
            assert(row_views(rows@) =~= rows_of(self@));
            lemma_rows_rebuild(self@);
        }
        rows
    }

    /// The entry that the slot in row `row`, column `col` shows. Padding,
    /// a column past the row's width and a row past the last give none.
    pub fn activate(&self, row: usize, col: usize) -> (entry: Option<Emoji>)
        ensures
            entry == if col < ROW_WIDTH && row * ROW_WIDTH + col < self@.len() {
                Some(self@[row * ROW_WIDTH + col])
            } else {
                None
            },
    {
        let len: usize = self.data_len();
        if col < ROW_WIDTH && row < self.row_count() {
            let base: usize = row * ROW_WIDTH;
            if col < len - base {
                self.get(base + col)
            } else {
                None
            }
        } else {
            None
        }
    }

    /// Writes row `index` back into the list after a host has worked on it.
    /// Only real entries at places that the list has are taken over; the
    /// length never changes.
    pub fn store_row(&mut self, index: usize, row: &Row)
        ensures
            final(self)@ == stored(old(self)@, index as int, row@),
    {
        if index < self.row_count() {
            let len: usize = self.data_len();
            let base: usize = index * ROW_WIDTH;
            let mut col: usize = 0;
            while col < ROW_WIDTH
                invariant
                    col <= ROW_WIDTH,
                    len == old(self)@.len(),
                    base == index * ROW_WIDTH,
                    base < len,
                    self@ == stored(old(self)@, index as int, row@.take(col as int)),
                decreases ROW_WIDTH - col,
            {
                if col < len - base {
                    match row.slots[col] {
                        Slot::Filled(entry) => {
                            self.set(base + col, entry);
                        },
                        Slot::Empty => {},
                    }
                }
                col += 1;
                assert(self@ =~= stored(old(self)@, index as int, row@.take(col as int)));
            }
            assert(row@.take(ROW_WIDTH as int) == row@);
        } else {
            assert(self@ =~= stored(old(self)@, index as int, row@));
        }
    }
}

/// The real entries of the first `cols` slots of a row are the entries of the
/// list from the row's start, as far as the list goes.
proof fn lemma_row_prefix(list: Seq<Emoji>, row: int, cols: int)
    requires
        0 <= row,
        0 <= cols <= ROW_WIDTH,
    ensures
        real_entries(row_of(list, row).take(cols)) == list.subrange(
            clip(row * ROW_WIDTH, list.len()),
            clip(row * ROW_WIDTH + cols, list.len()),
        ),
    decreases cols,
{
    let slots = row_of(list, row).take(cols);
    if cols == 0 {
        assert(real_entries(slots) =~= list.subrange(
            clip(row * ROW_WIDTH, list.len()),
            clip(row * ROW_WIDTH, list.len()),
        ));
    } else {
        lemma_row_prefix(list, row, cols - 1);
        assert(slots.drop_last() == row_of(list, row).take(cols - 1));
        assert(slots.last() == slot_of(list, row, cols - 1));
        assert(real_entries(slots) =~= list.subrange(
            clip(row * ROW_WIDTH, list.len()),
            clip(row * ROW_WIDTH + cols, list.len()),
        ));
    }
}

/// The real entries of the first `rows` rows are the first `5 * rows`
/// entries of the list, as far as the list goes.
proof fn lemma_rows_prefix(list: Seq<Emoji>, rows: int)
    requires
        0 <= rows <= row_count(list.len()),
    ensures
        flatten(rows_of(list).take(rows)) == list.take(clip(rows * ROW_WIDTH, list.len())),
    decreases rows,
{
    let upto = rows_of(list).take(rows);
    if rows == 0 {
        assert(flatten(upto) =~= list.take(0));
    } else {
        lemma_rows_prefix(list, rows - 1);
        lemma_row_prefix(list, rows - 1, ROW_WIDTH as int);
        assert(upto.drop_last() == rows_of(list).take(rows - 1));
        assert(upto.last() == row_of(list, rows - 1));
        assert(row_of(list, rows - 1).take(ROW_WIDTH as int) == row_of(list, rows - 1));
        assert(flatten(upto) =~= list.take(clip(rows * ROW_WIDTH, list.len())));
    }
}

/// Putting the real entries of all rows one after the other gives the list
/// back; the rows number `len / 5` rounded up, and each has five slots.
pub proof fn lemma_rows_rebuild(list: Seq<Emoji>)
    ensures
        flatten(rows_of(list)) == list,
        rows_of(list).len() == row_count(list.len()),
        row_count(list.len()) * ROW_WIDTH >= list.len(),
        row_count(list.len()) * ROW_WIDTH < list.len() + ROW_WIDTH,
        forall|row: int| 0 <= row < rows_of(list).len() ==> (#[trigger] rows_of(list)[row]).len()
            == ROW_WIDTH,
{
    let count = row_count(list.len());
    lemma_rows_prefix(list, count as int);
    assert(rows_of(list).take(count as int) == rows_of(list));
    assert(list.take(list.len() as int) == list);
}

/// In every row but the last all five slots are real; in the last the real
/// ones come first and at least one is real.
pub proof fn lemma_padding_is_trailing(list: Seq<Emoji>, row: int, col: int)
    requires
        0 <= row < row_count(list.len()),
        0 <= col < ROW_WIDTH,
    ensures
        row + 1 < row_count(list.len()) ==> rows_of(list)[row][col] is Filled,
        rows_of(list)[row][0] is Filled,
        rows_of(list)[row][col] is Empty ==> forall|later: int|
            col <= later < ROW_WIDTH ==> (#[trigger] rows_of(list)[row][later]) is Empty,
{
}

/// A list that fills whole rows has no padding anywhere.
pub proof fn lemma_whole_rows_no_padding(list: Seq<Emoji>, row: int, col: int)
    requires
        list.len() % (ROW_WIDTH as nat) == 0,
        0 <= row < row_count(list.len()),
        0 <= col < ROW_WIDTH,
    ensures
        rows_of(list)[row][col] == Slot::Filled(list[row * ROW_WIDTH + col]),
        row_count(list.len()) * ROW_WIDTH == list.len(),
{
}

/// Writing back a row as it was read changes nothing.
pub proof fn lemma_store_unchanged_row(list: Seq<Emoji>, row: int)
    ensures
        stored(list, row, row_of(list, row)) == list,
{
    assert(stored(list, row, row_of(list, row)) =~= list);
}

/// What a row holds in its padding places has no effect on what is stored:
/// two rows that agree wherever the list has an entry store the same.
pub proof fn lemma_store_ignores_padding(list: Seq<Emoji>, row: int, a: Seq<Slot>, b: Seq<Slot>)
    requires
        a.len() == ROW_WIDTH,
        b.len() == ROW_WIDTH,
        forall|col: int|
            0 <= col < ROW_WIDTH && 0 <= row * ROW_WIDTH + col < list.len() ==> a[col] == b[col],
    ensures
        stored(list, row, a) == stored(list, row, b),
{
    assert(stored(list, row, a) =~= stored(list, row, b));
}

} // verus!
