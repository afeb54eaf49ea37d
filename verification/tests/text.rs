use shared::text::{
    bool_text, chars_of, ends_with_char, flag, is_blank, is_whitespace, join, parse_bool,
    parse_i32, same_text, starts_with, text_before, trim, trim_end_char, trim_start_char,
};

#[test]
fn trim_matches_std() {
    for s in ["  a b  ", "\u{3000}x\u{85}", "", "   ", "abc", "\t\n\r y \u{2029}", "é ü"] {
        assert_eq!(trim(s), s.trim());
        assert_eq!(is_blank(s), s.trim().is_empty());
    }
}

#[test]
fn whitespace_matches_std() {
    for c in ['\t', ' ', 'a', '\u{a0}', '\u{1680}', '\u{200b}', '\u{3000}', '\u{feff}', 'ж'] {
        assert_eq!(is_whitespace(c), c.is_whitespace());
    }
}

#[test]
fn char_trims_match_std() {
    for s in ["//a/b//", "a", "", "///", "/x"] {
        assert_eq!(trim_start_char(s, '/'), s.trim_start_matches('/'));
        assert_eq!(trim_end_char(s, '/'), s.trim_end_matches('/'));
        assert_eq!(ends_with_char(s, '/'), s.ends_with('/'));
    }
}

#[test]
fn parse_i32_matches_std() {
    for s in [
        "0", "-0", "+7", "42", "-2147483648", "2147483647", "2147483648", "-2147483649",
        "99999999999", "", "-", "+", "1a", " 1", "1 ", "١", "00012",
    ] {
        assert_eq!(parse_i32(s), s.parse::<i32>().ok(), "input {s:?}");
    }
}

#[test]
fn bools_round_trip() {
    assert_eq!(bool_text(true), "true");
    assert_eq!(bool_text(false), "false");
    assert_eq!(parse_bool("true"), Some(true));
    assert_eq!(parse_bool("false"), Some(false));
    assert_eq!(parse_bool("True"), None);
    assert!(flag("true"));
    assert!(!flag("yes"));
    for b in [true, false] {
        assert_eq!(parse_bool(&bool_text(b)), Some(b));
    }
}

#[test]
fn join_and_compare() {
    let v = vec!["a".to_string(), "bc".to_string(), "".to_string()];
    assert_eq!(join(&v, ", "), v.join(", "));
    assert_eq!(join(&Vec::new(), ","), "");
    assert!(same_text("abc", "abc"));
    assert!(!same_text("abc", "abd"));
    assert!(starts_with("https://x", "https://"));
    assert!(!starts_with("http", "https://"));
    assert_eq!(chars_of("жx"), vec!['ж', 'x']);
}

#[test]
fn text_order_matches_string_order() {
    let words = ["", "a", "ab", "b", "B", "Россия", "Европа", "z", "aa", "é"];
    for a in words {
        for b in words {
            assert_eq!(text_before(a, b), a.to_string() < b.to_string(), "{a:?} {b:?}");
        }
    }
}
