use attic_logic::text::{
    chars_of, concat_strs, eq_ignore_case, i64_decimal, join, split_on, split_words,
    str_eq, str_lt, substring, trim_bounds, u64_decimal,
};

#[test]
fn words_split_on_unicode_whitespace() {
    assert_eq!(
        split_words(" a\tbb\u{3000}c\u{85}\n"),
        vec!["a", "bb", "c"]
    );
    assert!(split_words("").is_empty());
    assert_eq!(split_words("x"), vec!["x"]);
    assert_eq!(split_words("a\u{a0}b"), "a\u{a0}b".split_whitespace().collect::<Vec<_>>());
}

#[test]
fn pieces_keep_empty_ones() {
    assert_eq!(split_on(",a,,b,", ','), vec!["", "a", "", "b", ""]);
    assert_eq!(split_on("", ','), vec![""]);
}

#[test]
fn trimming_matches_str_trim() {
    for s in ["  a b \t", "", "   ", "x", "\u{2003}y\u{2003}"] {
        let cs = chars_of(s);
        let (lo, hi) = trim_bounds(&cs, 0, cs.len());
        assert_eq!(substring(s, lo, hi), s.trim());
    }
}

#[test]
fn order_matches_str_ord() {
    let samples = ["", "a", "b", "ab", "aa", "é", "z", "Z", "\u{10000}", "\u{ffff}"];
    for a in samples {
        for b in samples {
            assert_eq!(str_lt(a, b), a < b, "{a:?} < {b:?}");
            assert_eq!(str_eq(a, b), a == b);
        }
    }
}

#[test]
fn case_insensitive_ascii() {
    assert!(eq_ignore_case("TrUe", "true"));
    assert!(!eq_ignore_case("trüe", "TRÜE"));
    assert!(eq_ignore_case("", ""));
}

#[test]
fn decimals() {
    assert_eq!(u64_decimal(0), "0");
    assert_eq!(u64_decimal(10), "10");
    assert_eq!(u64_decimal(u64::MAX), u64::MAX.to_string());
    assert_eq!(i64_decimal(-7), "-7");
    assert_eq!(i64_decimal(i64::MIN), i64::MIN.to_string());
}

#[test]
fn joining_and_quoting() {
    let parts = vec!["a".to_string(), "b".to_string(), "c".to_string()];
    assert_eq!(join(&parts, "; "), "a; b; c");
    assert_eq!(join(&Vec::new(), "; "), "");
    assert_eq!(concat_strs("ab", "cd"), "abcd");
}
