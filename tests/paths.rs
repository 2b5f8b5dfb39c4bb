use artifact_server::paths::{decimal_string, is_safe_relative_path, join_path, join_segments, stays_inside_path};

#[test]
fn join_path_inserts_one_separator() {
    assert_eq!(join_path("out", "a/b.txt"), "out/a/b.txt");
    assert_eq!(join_path("out/", "a/b.txt"), "out/a/b.txt");
    assert_eq!(join_path("", "a/b.txt"), "a/b.txt");
    assert_eq!(join_path("out", "/etc/passwd"), "/etc/passwd");
    assert_eq!(join_path("out", ""), "out/");
}

#[test]
fn join_segments_from_index() {
    let segs: Vec<String> = vec!["x".to_string(), "static".to_string(), "js".to_string(), "app.js".to_string()];
    assert_eq!(join_segments(&segs, 0), "x/static/js/app.js");
    assert_eq!(join_segments(&segs, 2), "js/app.js");
    assert_eq!(join_segments(&segs, 4), "");
}

#[test]
fn safe_relative_paths() {
    assert!(is_safe_relative_path("a/b.txt"));
    assert!(is_safe_relative_path("a/..b/c"));
    assert!(is_safe_relative_path("a/b../c"));
    assert!(is_safe_relative_path("./a"));
    assert!(!is_safe_relative_path(""));
    assert!(!is_safe_relative_path("/a"));
    assert!(!is_safe_relative_path(".."));
    assert!(!is_safe_relative_path("../a"));
    assert!(!is_safe_relative_path("a/../../b"));
    assert!(!is_safe_relative_path("a/.."));
}

#[test]
fn decimal_notation() {
    assert_eq!(decimal_string(0), "0");
    assert_eq!(decimal_string(7), "7");
    assert_eq!(decimal_string(42), "42");
    assert_eq!(decimal_string(1000), "1000");
    assert_eq!(decimal_string(u32::MAX), "4294967295");
}

#[test]
fn paths_that_stay_inside() {
    assert!(stays_inside_path(""));
    assert!(stays_inside_path("a/b"));
    assert!(!stays_inside_path("/a"));
    assert!(!stays_inside_path("a/../.."));
}
