use portal_server_agent::text::{
    all_digits, control, has_char, joined, same, skip_space, space, to_chars, to_lower, trimmed,
    without_trailing, write_decimal,
};

#[test]
fn characters_are_classed_as_unicode_does() {
    for n in 0..=0x10ffff_u32 {
        if let Some(c) = char::from_u32(n) {
            assert_eq!(space(c), c.is_whitespace(), "{n:x}");
            assert_eq!(control(c), c.is_control(), "{n:x}");
            assert_eq!(to_lower(c), c.to_ascii_lowercase(), "{n:x}");
        }
    }
}

#[test]
fn texts_are_trimmed() {
    for s in ["", " ", "a", " a ", "\u{3000}a b\t\n", "a\u{a0}", "\u{2003}", " a"] {
        assert_eq!(trimmed(s), s.trim());
    }
    assert_eq!(skip_space(&to_chars(" \t é ")), 3);
    assert_eq!(skip_space(&to_chars("  ")), 2);
}

#[test]
fn trailing_copies_are_taken_off() {
    for s in ["", "/", "a", "a/", "a///", "//a/b//", "a/ /"] {
        assert_eq!(without_trailing(s, '/'), s.trim_end_matches('/'));
    }
}

#[test]
fn numbers_are_written_in_decimal() {
    for n in [0, 1, 9, 10, 11, 99, 100, 4111, -1, -10, i32::MAX, i32::MIN, -2147483647] {
        assert_eq!(write_decimal(n), n.to_string());
    }
}

#[test]
fn texts_are_searched_and_joined() {
    assert!(has_char("abc", 'c'));
    assert!(!has_char("abc", 'd'));
    assert!(!has_char("", 'a'));
    assert!(all_digits("0123456789"));
    assert!(all_digits(""));
    assert!(!all_digits("12a"));
    assert!(!all_digits("١٢"));
    assert!(same("é", "é"));
    assert!(!same("a", "b"));
    let parts: Vec<String> = ["a", "", "c"].iter().map(|s| s.to_string()).collect();
    assert_eq!(joined(&parts, "\n"), "a\n\nc");
    assert_eq!(joined(&Vec::new(), "\n"), "");
    assert_eq!(joined(&vec!["x".to_string()], "\n"), "x");
}
