use weblab_macros::{equals_str, join, trimmed};

#[test]
fn trimmed_removes_outer_white_space() {
    assert_eq!(trimmed("  a b \t\n"), "a b");
    assert_eq!(trimmed("\u{2003}x\u{3000}"), "x");
    assert_eq!(trimmed(" \t "), "");
    assert_eq!(trimmed("no"), "no");
}

#[test]
fn join_puts_separator_between() {
    assert_eq!(join(&vec![], "\n"), "");
    assert_eq!(join(&vec!["a".to_string()], "\n"), "a");
    assert_eq!(join(&vec!["a".to_string(), "".to_string(), "c".to_string()], "\n"), "a\n\nc");
}

#[test]
fn equals_str_compares_text() {
    assert!(equals_str(&"weblab".to_string(), "weblab"));
    assert!(!equals_str(&"weblab".to_string(), "weblabs"));
}
