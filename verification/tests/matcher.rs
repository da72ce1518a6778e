use emoji_picker::{judge_fuzzy, score, Match, SCORE_THRESHOLD};

#[test]
fn empty_query_accepts_anything() {
    assert_eq!(score("banana", ""), Some(Match::Always));
    assert_eq!(score("", ""), Some(Match::Always));
}

#[test]
fn literal_substring_is_accepted() {
    assert_eq!(score("banana", "nan"), Some(Match::Literal));
    assert_eq!(score("banana", "banana"), Some(Match::Literal));
    assert_eq!(score("grinning face", "face"), Some(Match::Literal));
}

#[test]
fn literal_substring_bypasses_threshold() {
    let raw = fuzzy_matcher::clangd::fuzzy_match("banana", "a");
    assert!(matches!(raw, Some(s) if s <= SCORE_THRESHOLD));
    assert_eq!(judge_fuzzy(raw), None);
    assert_eq!(score("banana", "a"), Some(Match::Literal));
}

#[test]
fn literal_match_is_case_sensitive() {
    assert_ne!(score("apple", "APPLE"), Some(Match::Literal));
    assert_eq!(score("apple", "apple"), Some(Match::Literal));
}

#[test]
fn fuzzy_match_above_threshold_is_accepted() {
    assert_eq!(score("axbycz", "abc"), Some(Match::Fuzzy(74)));
    assert_eq!(score("red apple", "rapl"), Some(Match::Fuzzy(92)));
}

#[test]
fn fuzzy_match_ignores_ascii_case() {
    assert_eq!(score("apple", "APPLE"), Some(Match::Fuzzy(118)));
}

#[test]
fn fuzzy_match_at_or_below_threshold_is_rejected() {
    let raw = fuzzy_matcher::clangd::fuzzy_match("kiwi", "ii");
    assert_eq!(raw, Some(-2));
    assert_eq!(score("kiwi", "ii"), None);
    assert_eq!(score("axbycz", "xyz"), None);
}

#[test]
fn query_that_is_no_subsequence_is_rejected() {
    assert_eq!(score("abc", "abx"), None);
    assert_eq!(score("grape", "kiwi"), None);
    assert_eq!(score("", "a"), None);
}

#[test]
fn score_agrees_with_the_scorer() {
    let cases = [
        ("axbycz", "abc"),
        ("axbycz", "xyz"),
        ("grape", "gp"),
        ("grape", "rae"),
        ("pear", "pr"),
        ("kiwi", "kw"),
        ("Hello, 世界", "H世"),
        ("abcdefaghi", "中"),
    ];
    for (candidate, query) in cases {
        assert!(!candidate.contains(query));
        let raw = fuzzy_matcher::clangd::fuzzy_match(candidate, query);
        assert_eq!(score(candidate, query), judge_fuzzy(raw));
    }
}

fn in_order_ignoring_ascii_case(pattern: &str, choice: &str) -> bool {
    let mut wanted = pattern.chars().peekable();
    for c in choice.chars() {
        if let Some(p) = wanted.peek() {
            if p.eq_ignore_ascii_case(&c) {
                wanted.next();
            }
        }
    }
    wanted.peek().is_none()
}

#[test]
fn scorer_gives_a_score_exactly_for_subsequences() {
    let words = ["", "a", "A", "ab", "ba", "abc", "aXbYc", "kiwi", "KIWI", "é", "É", "a é", "世界", "Hello, 世界"];
    for choice in words {
        for pattern in words {
            let raw = fuzzy_matcher::clangd::fuzzy_match(choice, pattern);
            assert_eq!(raw.is_some(), in_order_ignoring_ascii_case(pattern, choice));
            if !pattern.is_empty() && !choice.contains(pattern) {
                assert_eq!(score(choice, pattern), judge_fuzzy(raw));
            }
        }
    }
}

#[test]
fn threshold_is_strict() {
    assert_eq!(SCORE_THRESHOLD, 25);
    assert_eq!(judge_fuzzy(None), None);
    assert_eq!(judge_fuzzy(Some(25)), None);
    assert_eq!(judge_fuzzy(Some(26)), Some(Match::Fuzzy(26)));
    assert_eq!(judge_fuzzy(Some(-1)), None);
    assert_eq!(judge_fuzzy(Some(i64::MIN)), None);
    assert_eq!(judge_fuzzy(Some(i64::MAX)), Some(Match::Fuzzy(i64::MAX)));
}
