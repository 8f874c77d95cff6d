//! The string helpers the policies and parsers are built on.

use infinitty_core::text::{split_lines, split_str, str_eq, trim_str};

#[test]
fn str_eq_compares_by_content() {
    assert!(str_eq("abc", "abc"));
    assert!(!str_eq("abc", "abd"));
    assert!(!str_eq("abc", "abcd"));
    assert!(str_eq("", ""));
    assert!(!str_eq("", "x"));
}

#[test]
fn split_str_keeps_empty_segments() {
    assert_eq!(split_str("a/b/c", '/'), vec!["a", "b", "c"]);
    assert_eq!(split_str("/a//b/", '/'), vec!["", "a", "", "b", ""]);
    assert_eq!(split_str("", '/'), vec![""]);
    assert_eq!(split_str("10.0.0.5", '.'), vec!["10", "0", "0", "5"]);
}

#[test]
fn trim_strips_whitespace_at_both_ends() {
    assert_eq!(trim_str("  main\n"), "main");
    assert_eq!(trim_str("\t \r\n"), "");
    assert_eq!(trim_str("dev"), "dev");
    assert_eq!(trim_str(" a b "), "a b");
    assert_eq!(trim_str(""), "");
}

#[test]
fn split_lines_matches_std_line_semantics() {
    assert_eq!(split_lines("a\nb\r\nc\n"), vec!["a", "b", "c"]);
    assert_eq!(split_lines(""), Vec::<String>::new());
    assert_eq!(split_lines("x"), vec!["x"]);
    assert_eq!(split_lines("a\n\nb"), vec!["a", "", "b"]);
    // A carriage return not followed by a newline is kept.
    assert_eq!(split_lines("a\r"), vec!["a\r"]);
}
