//! The entries of the table, and the slots of a grid row.

use vstd::prelude::*;

verus! {

/// Number of slots in a grid row.
pub const ROW_WIDTH: usize = 5;

/// A glyph together with the text that describes it.
#[derive(Clone, Copy, Debug, PartialEq, Eq)]
pub struct Emoji {
    pub description: &'static str,
    pub glyph: &'static str,
}

impl Emoji {
    /// Builds the entry that a `(description, glyph)` pair stands for.
    pub fn from_pair(pair: (&'static str, &'static str)) -> (entry: Emoji)
        ensures
            entry == entry_of(pair),
    {
        Emoji { description: pair.0, glyph: pair.1 }
    }
}

/// The entry that a `(description, glyph)` pair stands for.
pub open spec fn entry_of(pair: (&'static str, &'static str)) -> Emoji {
    Emoji { description: pair.0, glyph: pair.1 }
}

} // verus!
