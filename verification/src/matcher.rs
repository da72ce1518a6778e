//! Deciding whether one description matches a query.
//!
//! A query matches when it is empty, when the description contains it
//! literally, or when the fuzzy scorer rates the pair above
//! [`SCORE_THRESHOLD`]. The scorer is the clangd-style matcher of the
//! `fuzzy-matcher` crate; its scoring formula is not restated here, only named.

use vstd::prelude::*;

verus! {

/// A fuzzy score counts as a match only when it is strictly above this.
pub const SCORE_THRESHOLD: i64 = 25;

/// Why a description was accepted.
#[derive(Clone, Copy, Debug, PartialEq, Eq)]
pub enum Match {
    /// The query is empty, which accepts everything.
    Always,
    /// The description contains the query as it is written.
    Literal,
    /// The fuzzy scorer gave this score, which is above the threshold.
    Fuzzy(i64),
}

/// `needle` stands in `hay` at offset `at`, character for character.
pub open spec fn occurs_at(hay: Seq<char>, needle: Seq<char>, at: int) -> bool {
    &&& 0 <= at
    &&& at + needle.len() <= hay.len()
    &&& hay.subrange(at, at + needle.len()) == needle
}

/// `needle` is a contiguous part of `hay`.
pub open spec fn is_substring(hay: Seq<char>, needle: Seq<char>) -> bool {
    exists|at: int| occurs_at(hay, needle, at)
}

/// The code point of `c`, with the letters `A` to `Z` moved onto `a` to `z`.
pub open spec fn fold_ascii_case(c: char) -> int {
    let code = c as int;
    if 0x41 <= code <= 0x5a {
        code + 0x20
    } else {
        code
    }
}

/// The two characters are equal once ASCII case is ignored.
pub open spec fn same_letter(a: char, b: char) -> bool {
    fold_ascii_case(a) == fold_ascii_case(b)
}

/// The characters of `pattern` occur in `choice` in the same order, not
/// necessarily next to each other, ASCII case ignored.
pub open spec fn is_subsequence(pattern: Seq<char>, choice: Seq<char>) -> bool
    decreases choice.len(),
{
    if pattern.len() == 0 {
        true
    } else if choice.len() == 0 {
        false
    } else {
        ||| same_letter(pattern.last(), choice.last()) && is_subsequence(
            pattern.drop_last(),
            choice.drop_last(),
        )
        ||| is_subsequence(pattern, choice.drop_last())
    }
}

/// What the fuzzy scorer returns for a choice and a pattern.
pub uninterp spec fn clangd_score(choice: Seq<char>, pattern: Seq<char>) -> Option<i64>;

/// What a fuzzy score amounts to: a match when there is a score and it is
/// above the threshold.
pub open spec fn fuzzy_verdict(score: Option<i64>) -> Option<Match> {
    match score {
        Some(s) => if s > SCORE_THRESHOLD {
            Some(Match::Fuzzy(s))
        } else {
            None
        },
        None => None,
    }
}

/// The verdict on a description and a query.
pub open spec fn verdict_of(candidate: Seq<char>, query: Seq<char>) -> Option<Match> {
    if query.len() == 0 {
        Some(Match::Always)
    } else if is_substring(candidate, query) {
        Some(Match::Literal)
    } else if is_subsequence(query, candidate) {
        fuzzy_verdict(clangd_score(candidate, query))
    } else {
        None
    }
}

/// The description is accepted for the query.
pub open spec fn accepts(candidate: Seq<char>, query: Seq<char>) -> bool {
    verdict_of(candidate, query) is Some
}

/// Calls `str::contains` with a string pattern. Trusted: the result says
/// whether `needle` is a contiguous part of `hay`.
#[verifier::external_body]
fn literal_contains(hay: &str, needle: &str) -> (found: bool)
    ensures
        found == is_substring(hay@, needle@),
{
    hay.contains(needle)
}

/// Calls `fuzzy_matcher::clangd::fuzzy_match`. Trusted: the result depends on
/// the two strings alone, and there is a score exactly when the pattern's
/// characters occur in the choice in order, ASCII case ignored. Nothing is
/// claimed about the size of the score.
#[verifier::external_body]
fn clangd_fuzzy_match(choice: &str, pattern: &str) -> (score: Option<i64>)
    ensures
        score == clangd_score(choice@, pattern@),
        score is Some <==> is_subsequence(pattern@, choice@),
{
    fuzzy_matcher::clangd::fuzzy_match(choice, pattern)
}

/// Turns a fuzzy score into a verdict.
pub fn judge_fuzzy(score: Option<i64>) -> (verdict: Option<Match>)
    ensures
        verdict == fuzzy_verdict(score),
{
    match score {
        Some(s) => if s > SCORE_THRESHOLD {
            Some(Match::Fuzzy(s))
        } else {
            None
        },
        None => None,
    }
}

/// Matches one description against a query.
pub fn score(candidate: &str, query: &str) -> (verdict: Option<Match>)
    ensures
        verdict == verdict_of(candidate@, query@),
{
    if query.is_empty() {
        Some(Match::Always)
    } else if literal_contains(candidate, query) {
        Some(Match::Literal)
    } else {
        judge_fuzzy(clangd_fuzzy_match(candidate, query))
    }
}

/// Appending characters to the choice keeps a subsequence a subsequence.
pub proof fn lemma_subsequence_extend(pattern: Seq<char>, choice: Seq<char>, tail: Seq<char>)
    requires
        is_subsequence(pattern, choice),
    ensures
        is_subsequence(pattern, choice + tail),
    decreases tail.len(),
{
    if tail.len() == 0 {
        assert(choice + tail =~= choice);
    } else {
        lemma_subsequence_extend(pattern, choice, tail.drop_last());
        assert((choice + tail).drop_last() =~= choice + tail.drop_last());
    }
}

/// Putting characters in front of the choice keeps a subsequence a
/// subsequence.
pub proof fn lemma_subsequence_prepend(pattern: Seq<char>, head: Seq<char>, choice: Seq<char>)
    requires
        is_subsequence(pattern, choice),
    ensures
        is_subsequence(pattern, head + choice),
    decreases choice.len(),
{
    if pattern.len() > 0 {
        assert((head + choice).drop_last() =~= head + choice.drop_last());
        if same_letter(pattern.last(), choice.last()) && is_subsequence(
            pattern.drop_last(),
            choice.drop_last(),
        ) {
            lemma_subsequence_prepend(pattern.drop_last(), head, choice.drop_last());
        } else {
            lemma_subsequence_prepend(pattern, head, choice.drop_last());
        }
    }
}

/// Every sequence is a subsequence of itself.
pub proof fn lemma_subsequence_reflexive(s: Seq<char>)
    ensures
        is_subsequence(s, s),
    decreases s.len(),
{
    if s.len() > 0 {
        lemma_subsequence_reflexive(s.drop_last());
    }
}

/// A contiguous part is in particular a subsequence.
pub proof fn lemma_substring_is_subsequence(hay: Seq<char>, needle: Seq<char>)
    requires
        is_substring(hay, needle),
    ensures
        is_subsequence(needle, hay),
{
    let at = choose|at: int| occurs_at(hay, needle, at);
    let head = hay.subrange(0, at);
    let tail = hay.subrange(at + needle.len(), hay.len() as int);
    lemma_subsequence_reflexive(needle);
    lemma_subsequence_prepend(needle, head, needle);
    lemma_subsequence_extend(needle, head + needle, tail);
    assert(head + needle + tail =~= hay);
}

/// An empty query accepts every description.
pub proof fn lemma_empty_query_accepts(candidate: Seq<char>, query: Seq<char>)
    requires
        query.len() == 0,
    ensures
        verdict_of(candidate, query) == Some(Match::Always),
        accepts(candidate, query),
{
}

/// A description that contains the query literally is accepted, whatever the
/// fuzzy scorer would say of the pair.
pub proof fn lemma_literal_accepts(candidate: Seq<char>, query: Seq<char>)
    requires
        is_substring(candidate, query),
    ensures
        accepts(candidate, query),
{
}

/// Whatever is accepted holds the query's characters in order, ASCII case
/// ignored.
pub proof fn lemma_accepted_is_subsequence(candidate: Seq<char>, query: Seq<char>)
    requires
        accepts(candidate, query),
    ensures
        is_subsequence(query, candidate),
{
    if query.len() > 0 && is_substring(candidate, query) {
        lemma_substring_is_subsequence(candidate, query);
    }
}

/// A fuzzy verdict is a match exactly for scores above the threshold, and
/// then it carries the score.
pub proof fn lemma_threshold(score: Option<i64>)
    ensures
        fuzzy_verdict(score) is Some <==> (score is Some && score->0 > SCORE_THRESHOLD),
        fuzzy_verdict(score) matches Some(m) ==> m == Match::Fuzzy(score->0),
{
}

} // verus!
