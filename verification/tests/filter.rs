use emoji_picker::{Emoji, EmojiList};

const FRUIT: [(&str, &str); 5] =
    [("apple", "🍎"), ("banana", "🍌"), ("grape", "🍇"), ("pear", "🍐"), ("kiwi", "🥝")];

fn descriptions(list: &EmojiList) -> Vec<&'static str> {
    list.as_slice().iter().map(|e| e.description).collect()
}

#[test]
fn new_keeps_pairs_in_order() {
    let list = EmojiList::new(&FRUIT);
    assert_eq!(list.data_len(), 5);
    assert_eq!(list.get(0), Some(Emoji { description: "apple", glyph: "🍎" }));
    assert_eq!(list.get(4), Some(Emoji { description: "kiwi", glyph: "🥝" }));
    assert_eq!(list.get(5), None);
    assert_eq!(descriptions(&list), vec!["apple", "banana", "grape", "pear", "kiwi"]);
}

#[test]
fn new_of_nothing_is_empty() {
    let list = EmojiList::new(&[]);
    assert_eq!(list.data_len(), 0);
    assert_eq!(list.get(0), None);
}

#[test]
fn from_pair_keeps_both_parts() {
    let entry = Emoji::from_pair(("pear", "🍐"));
    assert_eq!(entry.description, "pear");
    assert_eq!(entry.glyph, "🍐");
}

#[test]
fn empty_query_returns_whole_corpus() {
    let corpus = EmojiList::new(&FRUIT);
    let all = corpus.filter("");
    assert_eq!(all.data_len(), 5);
    assert_eq!(all.as_slice(), corpus.as_slice());
}

#[test]
fn filter_keeps_literal_matches_whatever_their_score() {
    let corpus = EmojiList::new(&FRUIT);
    // "a" scores far below the threshold inside "banana" and "grape".
    assert_eq!(descriptions(&corpus.filter("a")), vec!["apple", "banana", "grape", "pear"]);
    assert_eq!(descriptions(&corpus.filter("nan")), vec!["banana"]);
    assert_eq!(descriptions(&corpus.filter("rap")), vec!["grape"]);
}

#[test]
fn filter_keeps_corpus_order() {
    let corpus = EmojiList::new(&FRUIT);
    let result = corpus.filter("p");
    assert_eq!(descriptions(&result), vec!["apple", "grape", "pear"]);
    let mut from: usize = 0;
    for kept in result.as_slice() {
        let found = corpus.as_slice()[from..].iter().position(|e| e == kept);
        assert!(found.is_some());
        from += found.unwrap() + 1;
    }
}

#[test]
fn filter_accepts_fuzzy_matches() {
    let corpus = EmojiList::new(&FRUIT);
    assert_eq!(descriptions(&corpus.filter("gp")), vec!["grape"]);
    assert_eq!(descriptions(&corpus.filter("bna")), vec!["banana"]);
}

#[test]
fn filter_without_match_is_empty() {
    let corpus = EmojiList::new(&FRUIT);
    let none = corpus.filter("zzz");
    assert_eq!(none.data_len(), 0);
    assert!(none.chunks().is_empty());
}

#[test]
fn filter_is_repeatable_and_leaves_corpus_alone() {
    let corpus = EmojiList::new(&FRUIT);
    let first = corpus.filter("e");
    let second = corpus.filter("e");
    assert_eq!(first.as_slice(), second.as_slice());
    assert_eq!(descriptions(&corpus), vec!["apple", "banana", "grape", "pear", "kiwi"]);
}

#[test]
fn filter_of_filter_narrows() {
    let corpus = EmojiList::new(&FRUIT);
    let with_p = corpus.filter("p");
    assert_eq!(descriptions(&with_p.filter("ea")), vec!["pear"]);
}

#[test]
fn same_looks_at_length_only() {
    let a = EmojiList::new(&[("apple", "🍎"), ("banana", "🍌")]);
    let b = EmojiList::new(&[("pear", "🍐"), ("kiwi", "🥝")]);
    let c = EmojiList::new(&[("pear", "🍐")]);
    assert_ne!(a.as_slice(), b.as_slice());
    assert!(a.same(&b));
    assert!(b.same(&a));
    assert!(a.same(&a));
    assert!(!a.same(&c));
    assert!(!c.same(&b));
    assert!(EmojiList::new(&[]).same(&EmojiList::new(&[])));
}

#[test]
fn from_entries_wraps_as_given() {
    let entries = vec![Emoji { description: "kiwi", glyph: "🥝" }];
    let list = EmojiList::from_entries(entries.clone());
    assert_eq!(list.as_slice(), entries.as_slice());
}
