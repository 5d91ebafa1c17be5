use treeboot_core::apply_guard::{
    check_ancestors, check_link_in_root, check_preserved_link_kind, check_source_file_kind,
    check_source_in_root, nearest_existing, ownership_change, path_starts_within, target_ancestor_chain,
    writable_parent_mode, Observed, Resolution, SourceLook,
};
use treeboot_core::config::FileOperationKind;
use treeboot_core::error::Error;
use treeboot_core::file_actions::MetadataPolicy;

fn chain(entries: &[(&str, Observed)]) -> Vec<(String, Observed)> {
    entries.iter().map(|(p, o)| (p.to_string(), o.clone())).collect()
}

#[test]
fn ancestor_chain_should_list_each_directory_from_the_worktree_down() {
    let listed = target_ancestor_chain(FileOperationKind::Copy, "/repo/wt", "/repo/wt/a/b").expect("inside");
    assert_eq!(listed, vec!["/repo/wt", "/repo/wt/a", "/repo/wt/a/b"]);
    let itself = target_ancestor_chain(FileOperationKind::Copy, "/repo/wt", "/repo/wt").expect("inside");
    assert_eq!(itself, vec!["/repo/wt"]);
}

#[test]
fn ancestor_chain_should_refuse_a_target_outside_the_worktree() {
    let error = target_ancestor_chain(FileOperationKind::Sync, "/repo/wt", "/repo/other/x").expect_err("outside");
    match error {
        Error::FileOperationConflict { operation, path, message } => {
            assert_eq!(operation, "sync");
            assert_eq!(path, "/repo/other/x");
            assert_eq!(message, "target resolves outside worktree during apply");
        }
        other => panic!("unexpected error: {other:?}"),
    }
}

#[test]
fn check_ancestors_should_refuse_a_symlinked_parent() {
    let observed = chain(&[
        ("/wt", Observed::Directory),
        ("/wt/link", Observed::Symlink),
        ("/wt/link/x", Observed::Missing("gone".to_owned())),
    ]);
    match check_ancestors(FileOperationKind::Copy, &observed, false).expect_err("symlink refused") {
        Error::FileOperationConflict { path, message, .. } => {
            assert_eq!(path, "/wt/link");
            assert_eq!(message, "target parent is a symlink");
        }
        other => panic!("unexpected error: {other:?}"),
    }
}

#[test]
fn check_ancestors_should_stop_at_a_missing_directory_unless_required() {
    let observed = chain(&[
        ("/wt", Observed::Directory),
        ("/wt/new", Observed::Missing("not found".to_owned())),
        ("/wt/new/file", Observed::NotDirectory),
    ]);
    assert!(check_ancestors(FileOperationKind::Copy, &observed, false).is_ok());
    match check_ancestors(FileOperationKind::Copy, &observed, true).expect_err("must exist") {
        Error::FileOperationIo { path, message, .. } => {
            assert_eq!(path, "/wt/new");
            assert_eq!(message, "not found");
        }
        other => panic!("unexpected error: {other:?}"),
    }
    let file_parent = chain(&[("/wt", Observed::Directory), ("/wt/f", Observed::NotDirectory)]);
    match check_ancestors(FileOperationKind::Sync, &file_parent, false).expect_err("not a directory") {
        Error::FileOperationConflict { message, .. } => assert_eq!(message, "target parent is not a directory"),
        other => panic!("unexpected error: {other:?}"),
    }
    let all_dirs = chain(&[("/wt", Observed::Directory), ("/wt/d", Observed::Directory)]);
    assert!(check_ancestors(FileOperationKind::Sync, &all_dirs, true).is_ok());
}

fn conflict_message(result: Result<(), Error>) -> (String, String) {
    match result {
        Err(Error::FileOperationConflict { path, message, .. }) => (path, message),
        other => panic!("expected a conflict, got {other:?}"),
    }
}

#[test]
fn source_checks_should_refuse_a_changed_source() {
    let op = FileOperationKind::Copy;
    assert!(check_source_file_kind(op, "/root/a", &SourceLook::File).is_ok());
    assert_eq!(
        conflict_message(check_source_file_kind(op, "/root/a", &SourceLook::Symlink)),
        ("/root/a".to_owned(), "source changed to a symlink before apply".to_owned())
    );
    assert_eq!(
        conflict_message(check_source_file_kind(op, "/root/a", &SourceLook::Other)).1,
        "source file type changed before apply"
    );
    assert_eq!(
        conflict_message(check_preserved_link_kind(op, "/root/l", &SourceLook::File)).1,
        "source changed from a symlink before apply"
    );
    assert!(check_preserved_link_kind(op, "/root/l", &SourceLook::Symlink).is_ok());
}

#[test]
fn source_checks_should_refuse_a_source_resolving_outside_the_root() {
    let op = FileOperationKind::Sync;
    let inside = Ok("/real/root/a".to_owned());
    let outside = Ok("/elsewhere/a".to_owned());
    let root = Ok("/real/root".to_owned());
    assert!(check_source_in_root(op, "/root/a", "/root", &inside, &root).is_ok());
    assert_eq!(
        conflict_message(check_source_in_root(op, "/root/a", "/root", &outside, &root)),
        ("/elsewhere/a".to_owned(), "source resolves outside root during apply".to_owned())
    );
    assert!(check_source_in_root(op, "/other/a", "/root", &outside, &root).is_ok());
    assert!(matches!(
        check_source_in_root(op, "/root/a", "/root", &Err("gone".to_owned()), &root),
        Err(Error::FileOperationIo { .. })
    ));
    assert_eq!(
        conflict_message(check_link_in_root(op, "/root/l", "/root", &Resolution::Missing, &root)).1,
        "source symlink changed before apply"
    );
    assert_eq!(
        conflict_message(check_link_in_root(
            op,
            "/root/l",
            "/root",
            &Resolution::Resolved("/elsewhere".to_owned()),
            &root
        ))
        .1,
        "source symlink resolves outside root during apply"
    );
    assert!(path_starts_within("/a/b/c", "/a/b"));
    assert!(!path_starts_within("/a/bc", "/a/b"));
}

#[test]
fn nearest_existing_should_walk_up_past_missing_directories() {
    let op = FileOperationKind::Copy;
    let found = chain(&[
        ("/wt", Observed::Directory),
        ("/wt/a", Observed::Directory),
        ("/wt/a/b", Observed::Missing("gone".to_owned())),
    ]);
    assert_eq!(nearest_existing(op, &found).expect("looked"), Some("/wt/a".to_owned()));
    let none = chain(&[("/wt", Observed::Missing("gone".to_owned()))]);
    assert_eq!(nearest_existing(op, &none).expect("looked"), None);
    let failed = chain(&[("/wt", Observed::Directory), ("/wt/x", Observed::Failed("denied".to_owned()))]);
    assert!(matches!(nearest_existing(op, &failed), Err(Error::FileOperationIo { .. })));
}

#[test]
fn writable_parent_mode_should_add_the_owner_write_bit_only_when_needed() {
    assert_eq!(writable_parent_mode(0o555), Some(0o755));
    assert_eq!(writable_parent_mode(0o755), None);
    assert_eq!(writable_parent_mode(0o444), Some(0o644));
}

#[test]
fn ownership_change_should_set_only_what_differs_and_is_carried() {
    let both = MetadataPolicy { permissions: true, owner: true, group: true };
    assert_eq!(ownership_change(both, 1, 2, 1, 3), (None, Some(2)));
    assert_eq!(ownership_change(both, 5, 2, 1, 2), (Some(5), None));
    let none = MetadataPolicy { permissions: true, owner: false, group: false };
    assert_eq!(ownership_change(none, 5, 6, 1, 2), (None, None));
}
