use wowl::text::{
    contains_char, contains_str, is_whitespace, join_strings, push_decimal, str_equal, trim_str,
};

#[test]
fn trim_removes_surrounding_white_space() {
    assert_eq!(trim_str("  a b \t\n"), "a b");
    assert_eq!(trim_str("\u{3000}x\u{a0}"), "x");
    assert_eq!(trim_str("   "), "");
    assert_eq!(trim_str(""), "");
    assert_eq!(trim_str("inner  space"), "inner  space");
}

#[test]
fn contains_finds_substrings() {
    assert!(contains_str("abc", "bc"));
    assert!(!contains_str("abc", "cd"));
    assert!(contains_str("", ""));
    assert!(!contains_str("ab", "abc"));
    assert!(contains_char("a?b", '?'));
    assert!(!contains_char("ab", '?'));
}

#[test]
fn join_puts_separator_between_pieces() {
    let pieces = vec!["a".to_string(), "b".to_string(), "c".to_string()];
    assert_eq!(join_strings(&pieces, " "), "a b c");
    assert_eq!(join_strings(&vec!["only".to_string()], ", "), "only");
    assert_eq!(join_strings(&Vec::new(), " "), "");
}

#[test]
fn decimal_notation() {
    let mut s = String::new();
    push_decimal(&mut s, 0);
    assert_eq!(s, "0");
    let mut s = String::from("n=");
    push_decimal(&mut s, 1234567890);
    assert_eq!(s, "n=1234567890");
    let mut s = String::new();
    push_decimal(&mut s, u64::MAX);
    assert_eq!(s, "18446744073709551615");
}

#[test]
fn string_equality() {
    assert!(str_equal("bing", "bing"));
    assert!(!str_equal("bing", "Bing"));
    assert!(!str_equal("bing", "bin"));
}

#[test]
fn white_space_agrees_with_std() {
    for c in (0u32..=0x10FFFF).filter_map(char::from_u32) {
        assert_eq!(is_whitespace(c), c.is_whitespace(), "{:?}", c);
    }
}

#[test]
fn trim_agrees_with_std() {
    for s in ["", " ", "a", "\u{2003}a b\u{205f}", "\t\n x \r", "\u{200b}x\u{200b}"] {
        assert_eq!(trim_str(s), s.trim());
    }
}
