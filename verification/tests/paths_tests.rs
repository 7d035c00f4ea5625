use nightwatch_updater::paths::{is_safe_segment_str, join_path_segs, sanitize_rel_path};

#[test]
fn plain_relative_paths_sanitize_to_their_segments() {
    let v = sanitize_rel_path("dir/sub/file.lua").expect("safe path");
    assert_eq!(v, vec!["dir".to_string(), "sub".to_string(), "file.lua".to_string()]);
}

#[test]
fn backslashes_separate_segments_too() {
    let v = sanitize_rel_path("dir\\file.lua").expect("safe path");
    assert_eq!(v, vec!["dir".to_string(), "file.lua".to_string()]);
}

#[test]
fn parent_references_are_rejected() {
    assert!(sanitize_rel_path("../../evil").is_none());
    assert!(sanitize_rel_path("a/../b").is_none());
    assert!(sanitize_rel_path("..").is_none());
}

#[test]
fn absolute_and_degenerate_paths_are_handled() {
    // A leading separator only drops an empty segment; the rest must be safe.
    assert_eq!(sanitize_rel_path("/abs/file").unwrap(), vec!["abs".to_string(), "file".to_string()]);
    // Nothing usable at all is rejected.
    assert!(sanitize_rel_path("/").is_none());
    assert!(sanitize_rel_path("").is_none());
    assert!(sanitize_rel_path(".").is_none());
    assert!(sanitize_rel_path("././.").is_none());
}

#[test]
fn drive_letters_and_nul_are_rejected() {
    assert!(sanitize_rel_path("C:\\evil").is_none());
    assert!(sanitize_rel_path("a\u{0}b").is_none());
}

#[test]
fn dot_and_empty_segments_are_dropped() {
    let v = sanitize_rel_path("a//./b/").expect("safe path");
    assert_eq!(v, vec!["a".to_string(), "b".to_string()]);
}

#[test]
fn join_builds_canonical_paths() {
    let v = vec!["a".to_string(), "b".to_string(), "c.lua".to_string()];
    assert_eq!(join_path_segs(&v), "a/b/c.lua");
    let one = vec!["solo".to_string()];
    assert_eq!(join_path_segs(&one), "solo");
    let none: Vec<String> = Vec::new();
    assert_eq!(join_path_segs(&none), "");
}

#[test]
fn safe_segment_check() {
    assert!(is_safe_segment_str("Foo"));
    assert!(is_safe_segment_str("Foo-1.2"));
    assert!(!is_safe_segment_str(""));
    assert!(!is_safe_segment_str("."));
    assert!(!is_safe_segment_str(".."));
    assert!(!is_safe_segment_str("a/b"));
    assert!(!is_safe_segment_str("a\\b"));
    assert!(!is_safe_segment_str("C:"));
}
