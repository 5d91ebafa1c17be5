use treeboot_core::context::{resolve_worktree_path, Worktree};

#[test]
fn resolve_worktree_path_should_join_relative_paths() {
    assert_eq!(resolve_worktree_path("/repo-worktree", ".env"), "/repo-worktree/.env");
}

#[test]
fn resolve_worktree_path_should_keep_absolute_paths() {
    assert_eq!(resolve_worktree_path("/repo-worktree", "/tmp/.env"), "/tmp/.env");
}

#[test]
fn worktree_is_root_should_compare_paths() {
    let root = Worktree::from_parts("/repo".to_owned(), "/repo".to_owned(), "main".to_owned(), vec![]);
    let other =
        Worktree::from_parts("/repo".to_owned(), "/repo-wt".to_owned(), "main".to_owned(), vec![]);
    assert!(root.is_root());
    assert!(!other.is_root());
}

#[test]
fn environment_input_root_candidates_should_ignore_empty_values_in_order() {
    let environment = treeboot_core::runtime::EnvironmentInput {
        treeboot_root_path: Some(treeboot_core::runtime::EnvValue::Unicode(String::new())),
        codex_source_tree_path: Some(treeboot_core::runtime::EnvValue::Unicode("/codex".to_owned())),
        conductor_root_path: Some(treeboot_core::runtime::EnvValue::Unicode("/conductor".to_owned())),
        superset_root_path: Some(treeboot_core::runtime::EnvValue::Unicode("/superset".to_owned())),
        ..treeboot_core::runtime::EnvironmentInput::empty()
    };

    let candidates = environment.root_candidates();

    assert_eq!(
        candidates,
        vec![
            ("CODEX_SOURCE_TREE_PATH", "/codex".to_owned()),
            ("CONDUCTOR_ROOT_PATH", "/conductor".to_owned()),
            ("SUPERSET_ROOT_PATH", "/superset".to_owned()),
        ]
    );
    assert_eq!(
        treeboot_core::context::root_candidate(&environment),
        Some(("CODEX_SOURCE_TREE_PATH", "/codex".to_owned()))
    );
}

#[test]
fn environment_input_conductor_default_branch_should_ignore_empty_value() {
    let environment = treeboot_core::runtime::EnvironmentInput {
        conductor_default_branch: Some(treeboot_core::runtime::EnvValue::Unicode(String::new())),
        ..treeboot_core::runtime::EnvironmentInput::empty()
    };

    assert_eq!(treeboot_core::context::conductor_default_branch(&environment), None);
}

#[test]
fn build_environment_should_set_codex_worktree_to_worktree_path() {
    let env = treeboot_core::context::build_environment("/repo", "/repo-worktree", "main");

    let value = env.iter().find(|(name, _)| name == "CODEX_WORKTREE_PATH").map(|(_, value)| value.clone());
    assert_eq!(value, Some("/repo-worktree".to_owned()));
}
