use openhuman::text::{eq_ignore_ascii_case_exec, push_decimal, starts_with, str_eq, trimmed};

#[test]
fn trim_removes_unicode_white_space() {
    assert_eq!(trimmed("  \t hi there \n"), "hi there");
    assert_eq!(trimmed("\u{3000}x\u{a0}"), "x");
    assert_eq!(trimmed("   "), "");
}

#[test]
fn decimal_text() {
    let mut s = String::from("+");
    push_decimal(&mut s, 0);
    push_decimal(&mut s, 1234);
    assert_eq!(s, "+01234");
}

#[test]
fn ascii_case_insensitive_compare() {
    assert!(eq_ignore_ascii_case_exec("WorkTree", "worktree"));
    assert!(!eq_ignore_ascii_case_exec("worktrees", "worktree"));
    assert!(!eq_ignore_ascii_case_exec("Ä", "ä"));
}

#[test]
fn prefix_and_equality() {
    assert!(starts_with("skill__read", "skill__"));
    assert!(!starts_with("ski", "skill__"));
    assert!(str_eq("abc", "abc"));
    assert!(!str_eq("abc", "abd"));
}
