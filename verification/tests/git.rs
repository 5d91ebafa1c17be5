use treeboot_core::git::{
    command_label, default_branch_from, main_worktree_path, parse_worktrees, strip_one_trailing_lf,
    worktree_path_from, GitWorktree,
};

#[test]
fn strip_one_trailing_lf_should_preserve_boundary_whitespace() {
    assert_eq!(strip_one_trailing_lf(b" /repo \n"), b" /repo ");
}

#[test]
fn strip_one_trailing_lf_should_remove_only_one_lf() {
    assert_eq!(strip_one_trailing_lf(b"/repo\n\n"), b"/repo\n");
}

#[test]
fn parse_worktrees_should_preserve_spaces_newlines_and_unknown_fields() {
    let output = b"worktree /repo/ main\ncheckout\0HEAD abc123\0branch refs/heads/main\0\0";

    assert_eq!(
        parse_worktrees(output),
        vec![GitWorktree { path: b"/repo/ main\ncheckout".to_vec(), bare: false, main: true }]
    );
}

#[test]
fn parse_worktrees_should_parse_multiple_and_distinguish_bare_records() {
    let output = b"worktree /main\0HEAD abc123\0unknown value\0\0\
                   worktree /linked\0HEAD def456\0\0\
                   worktree /bare\0bare\0\0";

    assert_eq!(
        parse_worktrees(output),
        vec![
            GitWorktree { path: b"/main".to_vec(), bare: false, main: true },
            GitWorktree { path: b"/linked".to_vec(), bare: false, main: false },
            GitWorktree { path: b"/bare".to_vec(), bare: true, main: false },
        ]
    );
}

#[test]
fn path_from_git_bytes_should_preserve_non_utf8_bytes() {
    let worktrees = parse_worktrees(b"worktree /repo/\xff\0HEAD abc\0\0");

    assert_eq!(worktrees[0].path, b"/repo/\xff".to_vec());
}

#[test]
fn git_outcomes_should_map_to_paths_and_branches() {
    let worktrees = parse_worktrees(b"worktree /main\0\0worktree /linked\0\0");
    assert_eq!(main_worktree_path(&worktrees), Some(b"/main".to_vec()));
    assert_eq!(main_worktree_path(&Vec::new()), None);
    assert_eq!(default_branch_from(true, "origin/main"), "main");
    assert_eq!(default_branch_from(true, "trunk"), "trunk");
    assert_eq!(default_branch_from(false, "origin/main"), "");
    assert_eq!(worktree_path_from(true, b"/repo\n").expect("path"), b"/repo".to_vec());
    assert!(worktree_path_from(false, b"").is_err());
    assert_eq!(
        command_label(&vec!["worktree".to_owned(), "list".to_owned()]),
        "git worktree list"
    );
}
