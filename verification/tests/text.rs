use oden_webrtc_server::text::{decimal_text, join, replace_first};

#[test]
fn decimal_has_no_leading_zeros() {
    assert_eq!(decimal_text(0), "0");
    assert_eq!(decimal_text(9), "9");
    assert_eq!(decimal_text(10), "10");
    assert_eq!(decimal_text(4000), "4000");
    assert_eq!(decimal_text(1234567890), "1234567890");
    assert_eq!(decimal_text(u64::MAX), "18446744073709551615");
}

#[test]
fn decimal_agrees_with_std() {
    for n in 0u64..2000 {
        assert_eq!(decimal_text(n), n.to_string());
    }
}

#[test]
fn different_numbers_have_different_numerals() {
    assert_ne!(decimal_text(1), decimal_text(10));
    assert_ne!(decimal_text(12), decimal_text(21));
}

#[test]
fn join_separates_neighbours_only() {
    let none: Vec<String> = Vec::new();
    assert_eq!(join(&none, " "), "");
    assert_eq!(join(&vec!["a".to_string()], " "), "a");
    assert_eq!(
        join(&vec!["a".to_string(), "".to_string(), "c".to_string()], ", "),
        "a, , c"
    );
}

#[test]
fn only_the_first_occurrence_is_replaced() {
    assert_eq!(replace_first("abcabc", "bc", "X"), "aXabc");
    assert_eq!(replace_first("aaa", "aa", "b"), "ba");
    assert_eq!(replace_first("abc", "abc", ""), "");
    assert_eq!(replace_first("xxabc", "abc", "y"), "xxy");
}

#[test]
fn a_text_without_the_pattern_is_unchanged() {
    assert_eq!(replace_first("abc", "d", "X"), "abc");
    assert_eq!(replace_first("ab", "abc", "X"), "ab");
    assert_eq!(replace_first("", "a", "X"), "");
}

#[test]
fn replacing_agrees_with_std() {
    for (t, p) in [
        ("a\u{e4}b\u{1F600}c", "b\u{1F600}"),
        ("stun://stun://x", "stun://"),
        ("abc", ""),
        ("", ""),
        ("\u{e4}\u{e4}", "\u{e4}"),
    ] {
        assert_eq!(replace_first(t, p, "<\u{fc}>"), t.replacen(p, "<\u{fc}>", 1));
    }
}
