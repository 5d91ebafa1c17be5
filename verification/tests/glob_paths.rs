use treeboot_core::glob::{is_glob_source, split_glob_source};
use treeboot_core::paths::{join_paths, normalize_lexical, parent_or_dot};

#[test]
fn is_glob_source_should_detect_unescaped_metacharacters() {
    assert!(is_glob_source("certs/*.pem"));
    assert!(is_glob_source("file?.txt"));
    assert!(is_glob_source("file[0-9].txt"));
    assert!(!is_glob_source("certs/a.pem"));
    assert!(!is_glob_source(r"certs/\*.pem"));
}

#[test]
fn split_glob_source_should_use_longest_literal_prefix() {
    let split = split_glob_source("traefik/certs/*.pem").expect("glob should split");

    assert_eq!(split.base, "traefik/certs");
    assert_eq!(split.components, vec!["*.pem".to_owned()]);
}

#[test]
fn split_glob_source_should_reject_parent_components_after_pattern() {
    let error = split_glob_source("certs/*/../other").expect_err("should fail");

    assert!(error.message().contains("`..`"));
}

#[test]
fn normalize_lexical_should_resolve_parent_components() {
    assert_eq!(normalize_lexical("/repo/worktree/../outside"), "/repo/outside");
}

#[test]
fn normalize_lexical_should_drop_current_directory_components() {
    assert_eq!(normalize_lexical("/repo/./a/./b"), "/repo/a/b");
    assert_eq!(normalize_lexical("/.."), "/");
}

#[test]
fn join_paths_should_replace_base_with_absolute_path() {
    assert_eq!(join_paths("/repo", "a/b"), "/repo/a/b");
    assert_eq!(join_paths("/repo", "/etc/x"), "/etc/x");
    assert_eq!(parent_or_dot("file"), "");
    assert_eq!(parent_or_dot("/repo/file"), "/repo");
}
