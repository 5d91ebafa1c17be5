use treeboot_core::action_plan::{PlannedFileOperation, PlannedFileStatus};
use treeboot_core::config::FileOperationKind;
use treeboot_core::context::Worktree;
use treeboot_core::error::Error;
use treeboot_core::file_actions::FileAction;
use treeboot_core::file_planning::plan_file_operation_group;
use treeboot_core::file_system::{EntryKind, EntryMetadata, ModifiedTime, Timestamp};
use treeboot_core::fs_snapshot::{
    Canonical, CanonicalRecord, EntryRecord, FsSnapshot, Listing, ListingRecord, Lookup,
};

fn metadata(kind: EntryKind) -> EntryMetadata {
    EntryMetadata {
        kind,
        len: 8,
        modified: ModifiedTime::Known(Timestamp { secs: 100, nanos: 0 }),
        mode: 0o644,
        uid: 1000,
        gid: 1000,
    }
}

/// A captured root checkout (`/r`) and worktree (`/w`).
struct Disk {
    snapshot: FsSnapshot,
}

impl Disk {
    fn new() -> Self {
        let mut disk = Disk {
            snapshot: FsSnapshot {
                entries: Vec::new(),
                listings: Vec::new(),
                links: Vec::new(),
                followed_dirs: Vec::new(),
                contents: Vec::new(),
                canonical: Vec::new(),
            },
        };
        disk.dir("/r");
        disk.dir("/w");
        disk
    }

    fn add(&mut self, path: &str, lookup: Lookup) {
        self.snapshot.entries.push(EntryRecord { path: path.to_owned(), lookup });
        if let Some((parent, name)) = path.rsplit_once('/') {
            for record in &mut self.snapshot.listings {
                if record.path == parent {
                    if let Listing::Names(names) = &mut record.listing {
                        names.push(name.to_owned());
                    }
                }
            }
        }
        self.snapshot.canonical.push(CanonicalRecord {
            path: path.to_owned(),
            canonical: Canonical::Resolved(path.to_owned()),
        });
    }

    fn file(&mut self, path: &str) {
        self.add(path, Lookup::Found(metadata(EntryKind::File)));
    }

    fn dir(&mut self, path: &str) {
        self.add(path, Lookup::Found(metadata(EntryKind::Directory)));
        self.snapshot.listings.push(ListingRecord {
            path: path.to_owned(),
            listing: Listing::Names(Vec::new()),
        });
        self.snapshot.followed_dirs.push(path.to_owned());
    }

    fn missing(&mut self, path: &str) {
        self.snapshot.entries.push(EntryRecord {
            path: path.to_owned(),
            lookup: Lookup::Missing("No such file or directory (os error 2)".to_owned()),
        });
    }
}

fn context() -> Worktree {
    Worktree::from_parts("/r".to_owned(), "/w".to_owned(), "main".to_owned(), vec![])
}

fn copy(source: &str, target: &str) -> PlannedFileOperation {
    PlannedFileOperation {
        operation: FileOperationKind::Copy,
        source: source.to_owned(),
        target: target.to_owned(),
        source_path: format!("/r/{source}"),
        target_path: format!("/w/{target}"),
        status: PlannedFileStatus::Ready,
        compare: None,
        delete: None,
        symlinks: None,
        ignore: Vec::new(),
        include_patterns: Vec::new(),
        ignore_metadata: Vec::new(),
    }
}

fn plan(disk: &Disk, op: &PlannedFileOperation, force: bool) -> Result<Vec<FileAction>, Error> {
    plan_file_operation_group(&disk.snapshot, &context(), op, false, force).map(|group| group.actions)
}

fn display_target(action: &FileAction) -> String {
    match action {
        FileAction::CopyFile { target, .. } => format!("copy {target}"),
        FileAction::CreateDirectory { target, .. } => format!("mkdir {target}"),
        FileAction::CreateSymlink { target, .. } => format!("symlink {target}"),
        FileAction::RepairMetadata { target, .. } => format!("metadata {target}"),
        FileAction::Delete { target, .. } => format!("delete {target}"),
        FileAction::Skip { target, .. } => format!("skip {target}"),
        FileAction::Warning { path, .. } => format!("warning {path}"),
    }
}

fn action_targets(actions: &[FileAction]) -> Vec<String> {
    actions.iter().map(display_target).collect()
}

fn existing_env() -> Disk {
    let mut disk = Disk::new();
    disk.file("/r/.env");
    disk.file("/w/.env");
    disk
}

#[test]
fn plan_file_operation_group_should_plan_copy_skip_for_existing_target() {
    let disk = existing_env();

    let actions = plan(&disk, &copy(".env", ".env"), false).expect("copy should plan");

    assert_eq!(actions.len(), 1);
    assert!(matches!(
        &actions[0],
        FileAction::Skip { target, reason, .. } if target == ".env" && reason == "target exists"
    ));
}

#[test]
fn plan_file_operation_group_should_plan_forced_copy_replacement() {
    let disk = existing_env();

    let actions = plan(&disk, &copy(".env", ".env"), true).expect("forced copy should plan");

    assert!(matches!(
        &actions[..],
        [FileAction::CopyFile { target, replace: true, .. }] if target == ".env"
    ));
}

#[test]
fn plan_file_operation_group_should_reject_invalid_ignore_pattern() {
    let mut disk = Disk::new();
    disk.dir("/r/shared");
    disk.missing("/w/shared");
    let mut op = copy("shared", "shared");
    op.ignore = vec!["{a,b".to_owned()];

    let error = plan(&disk, &op, false).expect_err("invalid ignore pattern should fail planning");

    assert!(matches!(error, Error::FileOperationInvalid { ref operation, .. } if operation == "copy"));
}

fn docs_and_src() -> Disk {
    let mut disk = Disk::new();
    disk.dir("/r/shared");
    disk.dir("/r/shared/docs");
    disk.dir("/r/shared/src");
    disk.file("/r/shared/docs/guide.md");
    disk.file("/r/shared/src/main.rs");
    disk.file("/r/shared/README");
    disk.missing("/w/shared");
    disk.missing("/w/shared/docs");
    disk.missing("/w/shared/docs/guide.md");
    disk
}

#[test]
fn include_should_narrow_directory_copy_to_matching_paths() {
    let disk = docs_and_src();
    let mut op = copy("shared", "shared");
    op.include_patterns = vec!["docs/**".to_owned()];

    let targets = action_targets(&plan(&disk, &op, false).expect("include copy should plan"));

    assert!(targets.contains(&"copy shared/docs/guide.md".to_owned()));
    assert!(targets.contains(&"mkdir shared/docs".to_owned()));
    assert!(targets.contains(&"mkdir shared".to_owned()));
    assert!(
        !targets.iter().any(|t| t.contains("src") || t.contains("README")),
        "non-included paths should get no actions: {targets:?}"
    );
}

#[test]
fn include_directory_match_should_include_whole_subtree() {
    let mut disk = Disk::new();
    disk.dir("/r/shared");
    disk.dir("/r/shared/docs");
    disk.dir("/r/shared/docs/nested");
    disk.file("/r/shared/docs/nested/deep.md");
    disk.missing("/w/shared");
    disk.missing("/w/shared/docs");
    disk.missing("/w/shared/docs/nested");
    disk.missing("/w/shared/docs/nested/deep.md");
    let mut op = copy("shared", "shared");
    op.include_patterns = vec!["docs".to_owned()];

    let targets = action_targets(&plan(&disk, &op, false).expect("include copy should plan"));

    assert!(targets.contains(&"copy shared/docs/nested/deep.md".to_owned()));
}

#[test]
fn include_should_create_included_empty_directory() {
    let mut disk = Disk::new();
    disk.dir("/r/shared");
    disk.dir("/r/shared/empty");
    disk.file("/r/shared/other.txt");
    disk.missing("/w/shared");
    disk.missing("/w/shared/empty");
    let mut op = copy("shared", "shared");
    op.include_patterns = vec!["empty/".to_owned()];

    let targets = action_targets(&plan(&disk, &op, false).expect("include copy should plan"));

    assert!(targets.contains(&"mkdir shared/empty".to_owned()));
    assert!(!targets.iter().any(|t| t.contains("other.txt")));
}

#[test]
fn include_should_not_filter_top_level_file_source() {
    let mut disk = Disk::new();
    disk.file("/r/.env");
    disk.missing("/w/.env");
    let mut op = copy(".env", ".env");
    op.include_patterns = vec!["docs/**".to_owned()];

    let actions = plan(&disk, &op, false).expect("file source copy should plan");

    assert!(matches!(&actions[..], [FileAction::CopyFile { target, .. }] if target == ".env"));
}

#[test]
fn include_and_ignore_should_gate_independently() {
    let mut disk = Disk::new();
    disk.dir("/r/shared");
    disk.dir("/r/shared/docs");
    disk.dir("/r/shared/src");
    disk.file("/r/shared/docs/keep.md");
    disk.file("/r/shared/docs/drop.log");
    disk.file("/r/shared/src/rescued.md");
    disk.missing("/w/shared");
    disk.missing("/w/shared/docs");
    disk.missing("/w/shared/docs/keep.md");
    let mut op = copy("shared", "shared");
    op.include_patterns = vec!["docs/**".to_owned()];
    op.ignore = vec!["**/*.log".to_owned(), "!src/rescued.md".to_owned()];

    let targets = action_targets(&plan(&disk, &op, false).expect("include copy should plan"));

    assert!(targets.contains(&"copy shared/docs/keep.md".to_owned()));
    assert!(!targets.iter().any(|t| t.contains("drop.log")));
    assert!(!targets.iter().any(|t| t.contains("rescued.md")));
}

#[test]
fn include_should_reject_invalid_glob_patterns() {
    let mut disk = Disk::new();
    disk.dir("/r/shared");
    disk.missing("/w/shared");
    let mut op = copy("shared", "shared");
    op.include_patterns = vec!["{a,b".to_owned()];

    let error = plan(&disk, &op, false).expect_err("invalid include pattern should fail planning");

    assert!(error.message().contains("invalid include pattern"));
}

#[test]
fn include_should_reject_inert_patterns_during_planning() {
    let mut disk = Disk::new();
    disk.dir("/r/shared");
    disk.missing("/w/shared");

    for (pattern, message) in [("!docs", "negation"), ("", "blank"), ("# comment", "comment")] {
        let mut op = copy("shared", "shared");
        op.include_patterns = vec![pattern.to_owned()];

        let error = plan(&disk, &op, false).expect_err("inert include pattern should fail planning");

        assert!(error.message().contains(message), "pattern {pattern:?} should mention {message}");
    }
}

#[test]
fn include_matched_but_ignored_files_should_not_materialize_parents() {
    let mut disk = Disk::new();
    disk.dir("/r/shared");
    disk.dir("/r/shared/data");
    disk.dir("/r/shared/docs");
    disk.file("/r/shared/data/cache.log");
    disk.file("/r/shared/docs/guide.md");
    disk.missing("/w/shared");
    disk.missing("/w/shared/docs");
    disk.missing("/w/shared/docs/guide.md");
    let mut op = copy("shared", "shared");
    op.include_patterns = vec!["**/*.log".to_owned(), "docs/**".to_owned()];
    op.ignore = vec!["**/*.log".to_owned()];

    let targets = action_targets(&plan(&disk, &op, false).expect("include copy should plan"));

    assert!(targets.contains(&"copy shared/docs/guide.md".to_owned()));
    assert!(
        !targets.iter().any(|t| t.contains("shared/data")),
        "parent of an include-matched but ignored file should not be created: {targets:?}"
    );
}

#[test]
fn include_should_not_read_pruned_directories() {
    let mut disk = Disk::new();
    disk.dir("/r/shared");
    disk.dir("/r/shared/docs");
    disk.file("/r/shared/docs/guide.md");
    disk.add("/r/shared/secret", Lookup::Found(metadata(EntryKind::Directory)));
    disk.snapshot.listings.push(ListingRecord {
        path: "/r/shared/secret".to_owned(),
        listing: Listing::Failed("Permission denied (os error 13)".to_owned()),
    });
    disk.missing("/w/shared");
    disk.missing("/w/shared/docs");
    disk.missing("/w/shared/docs/guide.md");
    disk.missing("/w/shared/secret");
    let mut filtered = copy("shared", "shared");
    filtered.include_patterns = vec!["docs/**".to_owned()];

    let targets = action_targets(&plan(&disk, &filtered, false).expect("plan should prune the unreadable directory"));

    assert!(targets.contains(&"copy shared/docs/guide.md".to_owned()));
    plan(&disk, &copy("shared", "shared"), false).expect_err("unfiltered plan should fail reading the directory");
}

#[test]
fn include_should_not_traverse_non_viable_ignored_directories_with_negation() {
    let mut disk = Disk::new();
    disk.dir("/r/shared");
    disk.dir("/r/shared/docs");
    disk.file("/r/shared/docs/guide.md");
    disk.add("/r/shared/blocked", Lookup::Found(metadata(EntryKind::Directory)));
    disk.snapshot.listings.push(ListingRecord {
        path: "/r/shared/blocked".to_owned(),
        listing: Listing::Failed("Permission denied (os error 13)".to_owned()),
    });
    disk.missing("/w/shared");
    disk.missing("/w/shared/docs");
    disk.missing("/w/shared/docs/guide.md");
    let mut op = copy("shared", "shared");
    op.include_patterns = vec!["docs/**".to_owned()];
    op.ignore = vec!["blocked/".to_owned(), "!blocked/keep".to_owned()];

    let actions = plan(&disk, &op, false).expect("non-viable ignored directory should not be traversed");

    assert!(action_targets(&actions).contains(&"copy shared/docs/guide.md".to_owned()));
}

#[test]
fn sync_should_repair_drifted_ancestor_metadata_for_unchanged_included_descendant() {
    let mut disk = Disk::new();
    for path in ["/r/shared", "/r/shared/a", "/r/shared/a/b", "/w/shared", "/w/shared/a", "/w/shared/a/b"] {
        disk.dir(path);
    }
    disk.file("/r/shared/a/b/file");
    disk.file("/w/shared/a/b/file");
    for record in &mut disk.snapshot.entries {
        if record.path == "/r/shared/a" {
            let mut m = metadata(EntryKind::Directory);
            m.mode = 0o755;
            record.lookup = Lookup::Found(m);
        }
        if record.path == "/w/shared/a" {
            let mut m = metadata(EntryKind::Directory);
            m.mode = 0o777;
            record.lookup = Lookup::Found(m);
        }
    }
    disk.snapshot.contents.push(treeboot_core::fs_snapshot::ContentRecord {
        source_path: "/r/shared/a/b/file".to_owned(),
        target_path: "/w/shared/a/b/file".to_owned(),
        check: treeboot_core::fs_snapshot::ContentCheck::Compared(false),
    });
    let mut op = copy("shared", "shared");
    op.operation = FileOperationKind::Sync;
    op.compare = Some(treeboot_core::config::SyncCompare::Checksum);
    op.include_patterns = vec!["a/b/file".to_owned()];

    let targets = action_targets(&plan(&disk, &op, false).expect("include sync should plan"));

    assert!(targets.contains(&"metadata shared/a".to_owned()), "drifted ancestor should be repaired: {targets:?}");
    assert!(!targets.iter().any(|t| t.starts_with("copy")));
}
