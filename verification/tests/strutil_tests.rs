use nightwatch_updater::strutil::{
    char_ieq, str_chars_len, str_contains_str, str_eq_str, str_icontains, str_iends_with,
    str_starts_with, trim_str,
};

#[test]
fn length_counts_characters_not_bytes() {
    assert_eq!(str_chars_len("abc"), 3);
    assert_eq!(str_chars_len(""), 0);
    assert_eq!(str_chars_len("абв"), 3);
}

#[test]
fn equality_is_character_wise() {
    assert!(str_eq_str("abc", "abc"));
    assert!(!str_eq_str("abc", "abd"));
    assert!(!str_eq_str("abc", "ab"));
    assert!(str_eq_str("", ""));
}

#[test]
fn prefix_and_substring_search() {
    assert!(str_starts_with("Foo-v2", "Foo"));
    assert!(!str_starts_with("MyFoo", "Foo"));
    assert!(str_contains_str("MyFooPack", "Foo"));
    assert!(!str_contains_str("MyF0oPack", "Foo"));
    assert!(str_contains_str("anything", ""));
    assert!(!str_contains_str("ab", "abc"));
}

#[test]
fn case_insensitive_search_folds_ascii_only() {
    assert!(char_ieq('A', 'a'));
    assert!(char_ieq('z', 'Z'));
    assert!(!char_ieq('a', 'b'));
    assert!(str_icontains("Application/ZIP", "zip"));
    assert!(str_iends_with("pack.ZiP", ".zip"));
    assert!(!str_iends_with("pack.zip.bak", ".zip"));
    // Non-ASCII letters are not folded.
    assert!(!str_icontains("ЗИП", "зип"));
}

#[test]
fn trimming_removes_outer_whitespace_only() {
    assert_eq!(trim_str("  a b \t"), "a b");
    assert_eq!(trim_str("a"), "a");
    assert_eq!(trim_str("   "), "");
    assert_eq!(trim_str(""), "");
    assert_eq!(trim_str("\r\nx\r\n"), "x");
}
