use ssh_config_editor::text::{is_whitespace, split_once_str, str_equal, trim_str};

#[test]
fn trim_removes_unicode_white_space() {
    assert_eq!(trim_str("  a b \t"), "a b");
    assert_eq!(trim_str("\u{3000}x\u{2003}\u{85}"), "x");
    assert_eq!(trim_str(" \n\r "), "");
    assert_eq!(trim_str(""), "");
    assert_eq!(trim_str("plain"), "plain");
}

#[test]
fn whitespace_matches_std() {
    for c in ['\t', '\n', ' ', '\u{a0}', '\u{1680}', '\u{2000}', '\u{200a}', '\u{3000}', 'a', '=', '\u{200b}', '#'] {
        assert_eq!(is_whitespace(c), c.is_whitespace(), "{:?}", c);
    }
}

#[test]
fn split_once_takes_first_occurrence() {
    assert_eq!(split_once_str("a = b = c", " ="), Some(("a", " b = c")));
    assert_eq!(split_once_str("k=v", "="), Some(("k", "v")));
    assert_eq!(split_once_str("kv", "="), None);
    assert_eq!(split_once_str("", " "), None);
    assert_eq!(split_once_str("ab", ""), Some(("", "ab")));
    assert_eq!(split_once_str("é x", " "), Some(("é", "x")));
}

#[test]
fn str_equal_compares_characters() {
    assert!(str_equal("Host", "Host"));
    assert!(!str_equal("Host", "host"));
    assert!(!str_equal("Hos", "Host"));
    assert!(str_equal("", ""));
}
