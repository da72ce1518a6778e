//! An ordered list of entries, and the filter that selects from it.

use vstd::prelude::*;
use crate::entry::{entry_of, Emoji};
use crate::matcher::{accepts, is_subsequence, is_substring, lemma_accepted_is_subsequence, score};

verus! {

/// An ordered list of entries: the whole table, or what a query selected from
/// it.
#[derive(Clone, Debug)]
pub struct EmojiList {
    entries: Vec<Emoji>,
}

impl View for EmojiList {
    type V = Seq<Emoji>;

    closed spec fn view(&self) -> Seq<Emoji> {
        self.entries@
    }
}

/// The entries of `corpus` that the query accepts, in the order of `corpus`.
pub open spec fn filtered(corpus: Seq<Emoji>, query: Seq<char>) -> Seq<Emoji> {
    corpus.filter(|e: Emoji| accepts(e.description@, query))
}

/// `picks` lists positions below `full_len`, strictly ascending.
pub open spec fn ascending_positions(picks: Seq<int>, full_len: nat) -> bool {
    &&& forall|k: int| 0 <= k < picks.len() ==> 0 <= #[trigger] picks[k] < full_len
    &&& forall|j: int, k: int| 0 <= j < k < picks.len() ==> picks[j] < picks[k]
}

/// `part` is what stands in `full` at the positions `picks`.
pub open spec fn selected_by(part: Seq<Emoji>, full: Seq<Emoji>, picks: Seq<int>) -> bool {
    &&& picks.len() == part.len()
    &&& ascending_positions(picks, full.len())
    &&& forall|k: int| 0 <= k < part.len() ==> #[trigger] part[k] == full[picks[k]]
}

/// `part` can be had from `full` by leaving entries out, without moving any.
pub open spec fn is_selection_of(part: Seq<Emoji>, full: Seq<Emoji>) -> bool {
    exists|picks: Seq<int>| selected_by(part, full, picks)
}

impl EmojiList {
    /// Builds a list from `(description, glyph)` pairs, keeping their order.
    pub fn new(emoji: &[(&'static str, &'static str)]) -> (list: EmojiList)
        ensures
            list@ == emoji@.map_values(|pair: (&'static str, &'static str)| entry_of(pair)),
    {
        let mut entries: Vec<Emoji> = Vec::new();
        let n: usize = emoji.len();
        let mut i: usize = 0;
        while i < n
            invariant
                i <= n,
                n == emoji@.len(),
                entries@ == emoji@.take(i as int).map_values(
                    |pair: (&'static str, &'static str)| entry_of(pair),
                ),
            decreases n - i,
        {
            entries.push(Emoji::from_pair(emoji[i]));
            i += 1;
        }
        assert(emoji@.take(n as int) == emoji@);
        EmojiList { entries }
    }

    /// Wraps entries that are already built.
    pub fn from_entries(entries: Vec<Emoji>) -> (list: EmojiList)
        ensures
            list@ == entries@,
    {
        EmojiList { entries }
    }

    /// The entries, in order.
    pub fn as_slice(&self) -> (entries: &[Emoji])
        ensures
            entries@ == self@,
    {
        self.entries.as_slice()
    }

    /// Number of entries.
    pub fn data_len(&self) -> (len: usize)
        ensures
            len == self@.len(),
    {
        self.entries.len()
    }

    /// The entry at `index`, if there is one.
    pub fn get(&self, index: usize) -> (entry: Option<Emoji>)
        ensures
            entry == if index < self@.len() {
                Some(self@[index as int])
            } else {
                None
            },
    {
        if index < self.entries.len() {
            Some(self.entries[index])
        } else {
            None
        }
    }

    /// Puts `entry` at `index`, leaving every other position and the length
    /// as they were.
    pub(crate) fn set(&mut self, index: usize, entry: Emoji)
        requires
            index < old(self)@.len(),
        ensures
            final(self)@ == old(self)@.update(index as int, entry),
    {
        self.entries[index] = entry;
    }

    /// Selects the entries whose description matches `search`, in the order
    /// they have in the list. An empty search selects everything.
    pub fn filter(&self, search: &str) -> (result: EmojiList)
        ensures
            result@ == filtered(self@, search@),
            search@.len() == 0 ==> result@ == self@,
            is_selection_of(result@, self@),
    {
        let mut kept: Vec<Emoji> = Vec::new();
        let n: usize = self.entries.len();
        let mut i: usize = 0;
        while i < n
            invariant
                i <= n,
                n == self.entries@.len(),
                kept@ == filtered(self.entries@.take(i as int), search@),
            decreases n - i,
        {
            let entry = self.entries[i];
            let verdict = score(entry.description, search);
            proof {
                lemma_filtered_step(self.entries@.take(i as int + 1), search@);
                assert(self.entries@.take(i as int + 1).drop_last() == self.entries@.take(
                    i as int,
                ));
            }
            if verdict.is_some() {
                kept.push(entry);
            }
            i += 1;
        }
        proof {
            assert(self.entries@.take(n as int) == self.entries@);
            if search@.len() == 0 {
                lemma_filter_empty_query(self@, search@);
            }
            lemma_filter_is_selection(self@, search@);
        }
        EmojiList { entries: kept }
    }

    /// The coarse "nothing to repaint" signal: two lists count as the same
    /// as soon as they have the same length, whatever they hold.
    pub fn same(&self, other: &EmojiList) -> (unchanged: bool)
        ensures
            unchanged == (self@.len() == other@.len()),
    {
        self.entries.len() == other.entries.len()
    }
}

/// How the filter treats the last entry of a non-empty list.
pub proof fn lemma_filtered_step(corpus: Seq<Emoji>, query: Seq<char>)
    requires
        corpus.len() > 0,
    ensures
        filtered(corpus, query) == if accepts(corpus.last().description@, query) {
            filtered(corpus.drop_last(), query).push(corpus.last())
        } else {
            filtered(corpus.drop_last(), query)
        },
{
    reveal(Seq::filter);
}

/// Filtering an empty list gives an empty list.
pub proof fn lemma_filtered_empty(corpus: Seq<Emoji>, query: Seq<char>)
    requires
        corpus.len() == 0,
    ensures
        filtered(corpus, query) == corpus,
{
    reveal(Seq::filter);
}

/// With an empty query the filter returns the whole list, in order.
pub proof fn lemma_filter_empty_query(corpus: Seq<Emoji>, query: Seq<char>)
    requires
        query.len() == 0,
    ensures
        filtered(corpus, query) == corpus,
    decreases corpus.len(),
{
    if corpus.len() == 0 {
        lemma_filtered_empty(corpus, query);
    } else {
        lemma_filtered_step(corpus, query);
        lemma_filter_empty_query(corpus.drop_last(), query);
        assert(corpus.drop_last().push(corpus.last()) == corpus);
    }
}

/// What is in a sequence after one more entry was pushed.
proof fn lemma_push_contains(s: Seq<Emoji>, last: Emoji, entry: Emoji)
    ensures
        s.push(last).contains(entry) <==> (s.contains(entry) || entry == last),
{
    let longer = s.push(last);
    if s.contains(entry) {
        let i = choose|i: int| 0 <= i < s.len() && s[i] == entry;
        assert(longer[i] == entry);
    }
    if entry == last {
        assert(longer[s.len() as int] == entry);
    }
    if longer.contains(entry) && entry != last {
        let i = choose|i: int| 0 <= i < longer.len() && longer[i] == entry;
        assert(s[i] == entry);
    }
}

/// An entry is in the result exactly when it is in the list and its
/// description is accepted.
pub proof fn lemma_filter_membership(corpus: Seq<Emoji>, query: Seq<char>, entry: Emoji)
    ensures
        filtered(corpus, query).contains(entry) <==> (corpus.contains(entry) && accepts(
            entry.description@,
            query,
        )),
    decreases corpus.len(),
{
    if corpus.len() == 0 {
        lemma_filtered_empty(corpus, query);
    } else {
        let front = corpus.drop_last();
        let last = corpus.last();
        lemma_filtered_step(corpus, query);
        lemma_filter_membership(front, query, entry);
        assert(front.push(last) == corpus);
        lemma_push_contains(front, last, entry);
        lemma_push_contains(filtered(front, query), last, entry);
    }
}

/// An entry whose description contains the query literally is in the result,
/// whatever the fuzzy scorer says of it.
pub proof fn lemma_filter_keeps_literal(corpus: Seq<Emoji>, query: Seq<char>, index: int)
    requires
        0 <= index < corpus.len(),
        is_substring(corpus[index].description@, query),
    ensures
        filtered(corpus, query).contains(corpus[index]),
{
    lemma_filter_membership(corpus, query, corpus[index]);
}

/// Every entry of the result is accepted: its description holds the query's
/// characters in order, ASCII case ignored.
pub proof fn lemma_filter_results_accepted(corpus: Seq<Emoji>, query: Seq<char>, index: int)
    requires
        0 <= index < filtered(corpus, query).len(),
    ensures
        accepts(filtered(corpus, query)[index].description@, query),
        is_subsequence(query, filtered(corpus, query)[index].description@),
        corpus.contains(filtered(corpus, query)[index]),
{
    let entry = filtered(corpus, query)[index];
    assert(filtered(corpus, query).contains(entry));
    lemma_filter_membership(corpus, query, entry);
    lemma_accepted_is_subsequence(entry.description@, query);
}

/// The result is the list with entries left out: nothing is added, moved or
/// repeated.
pub proof fn lemma_filter_is_selection(corpus: Seq<Emoji>, query: Seq<char>)
    ensures
        is_selection_of(filtered(corpus, query), corpus),
        filtered(corpus, query).len() <= corpus.len(),
    decreases corpus.len(),
{
    if corpus.len() == 0 {
        lemma_filtered_empty(corpus, query);
        assert(selected_by(filtered(corpus, query), corpus, Seq::<int>::empty()));
    } else {
        let front = corpus.drop_last();
        lemma_filtered_step(corpus, query);
        lemma_filter_is_selection(front, query);
        let kept = filtered(front, query);
        let picks = choose|picks: Seq<int>| selected_by(kept, front, picks);
        if accepts(corpus.last().description@, query) {
            let more = picks.push(corpus.len() - 1);
            assert(selected_by(kept.push(corpus.last()), corpus, more));
        } else {
            assert(selected_by(kept, corpus, picks));
        }
    }
}

} // verus!
