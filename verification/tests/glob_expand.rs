use treeboot_core::config::{FileOperation, FileOperationKind};
use treeboot_core::context::Worktree;
use treeboot_core::file_system::{EntryKind, EntryMetadata, ModifiedTime, Timestamp};
use treeboot_core::fs_snapshot::{
    normalize_maybe_existing, Canonical, CanonicalRecord, EntryRecord, FsSnapshot, Listing,
    ListingRecord, Lookup,
};
use treeboot_core::glob::split_glob_source;
use treeboot_core::glob_expand::{build_segment, escape_braces_exec, expand_glob_source};
use treeboot_core::manual::ManualFileOperationOptions;

fn meta(kind: EntryKind) -> EntryMetadata {
    EntryMetadata {
        kind,
        len: 1,
        modified: ModifiedTime::Known(Timestamp { secs: 1, nanos: 0 }),
        mode: 0o644,
        uid: 0,
        gid: 0,
    }
}

/// A captured tree: every entry with its kind, and every directory listed.
struct Tree {
    snapshot: FsSnapshot,
}

impl Tree {
    fn new() -> Self {
        Tree {
            snapshot: FsSnapshot {
                entries: Vec::new(),
                listings: Vec::new(),
                links: Vec::new(),
                followed_dirs: Vec::new(),
                contents: Vec::new(),
                canonical: Vec::new(),
            },
        }
    }

    fn add(&mut self, path: &str, kind: EntryKind) {
        self.snapshot.entries.push(EntryRecord {
            path: path.to_owned(),
            lookup: Lookup::Found(meta(kind)),
        });
        if kind == EntryKind::Directory {
            self.snapshot.listings.push(ListingRecord {
                path: path.to_owned(),
                listing: Listing::Names(Vec::new()),
            });
        }
        self.snapshot.canonical.push(CanonicalRecord {
            path: path.to_owned(),
            canonical: Canonical::Resolved(path.to_owned()),
        });
        if let Some((parent, name)) = path.rsplit_once('/') {
            let parent = if parent.is_empty() { "/" } else { parent };
            for record in &mut self.snapshot.listings {
                if record.path == parent {
                    if let Listing::Names(names) = &mut record.listing {
                        names.push(name.to_owned());
                    }
                }
            }
        }
    }

    fn dir(mut self, path: &str) -> Self {
        self.add(path, EntryKind::Directory);
        self
    }

    fn file(mut self, path: &str) -> Self {
        self.add(path, EntryKind::File);
        self
    }

    fn symlink(mut self, path: &str) -> Self {
        self.add(path, EntryKind::Symlink);
        self
    }

    fn missing(mut self, path: &str) -> Self {
        self.snapshot.entries.push(EntryRecord {
            path: path.to_owned(),
            lookup: Lookup::Missing("No such file or directory".to_owned()),
        });
        self.snapshot.canonical.push(CanonicalRecord {
            path: path.to_owned(),
            canonical: Canonical::Missing,
        });
        self
    }
}

fn expand(tree: &Tree, base: &str, source: &str) -> Vec<String> {
    let split = split_glob_source(source).expect("source should split");
    expand_glob_source(&tree.snapshot, base, &split)
        .expect("expansion should succeed")
        .into_iter()
        .map(|entry| entry.relative)
        .collect()
}

#[test]
fn expand_glob_source_should_match_hidden_files() {
    let tree = Tree::new().dir("/b").file("/b/.env");

    assert_eq!(expand(&tree, "/b", "*"), vec![".env"]);
}

#[test]
fn expand_glob_source_should_match_direct_children_only() {
    let tree = Tree::new()
        .dir("/b")
        .file("/b/b.pem")
        .file("/b/a.pem")
        .file("/b/c.txt")
        .dir("/b/sub")
        .file("/b/sub/d.pem");

    assert_eq!(expand(&tree, "/b", "*.pem"), vec!["a.pem", "b.pem"]);
}

#[test]
fn expand_glob_source_should_match_recursively_with_globstar() {
    let tree = Tree::new()
        .dir("/b")
        .dir("/b/a")
        .dir("/b/a/b")
        .file("/b/top.pem")
        .file("/b/a/mid.pem")
        .file("/b/a/b/deep.pem");

    assert_eq!(
        expand(&tree, "/b", "**/*.pem"),
        vec!["a/b/deep.pem", "a/mid.pem", "top.pem"]
    );
}

#[test]
fn expand_glob_source_should_prune_matches_inside_matched_directories() {
    let tree = Tree::new()
        .dir("/b")
        .dir("/b/dir")
        .dir("/b/dir/nested")
        .file("/b/dir/nested/file")
        .file("/b/file");

    assert_eq!(expand(&tree, "/b", "**"), vec!["dir", "file"]);
}

#[test]
fn expand_glob_source_should_not_follow_directory_symlinks() {
    let tree = Tree::new()
        .dir("/b")
        .dir("/b/real")
        .file("/b/real/inner.pem")
        .symlink("/b/linked");

    assert_eq!(expand(&tree, "/b", "**/*.pem"), vec!["real/inner.pem"]);
    assert_eq!(expand(&tree, "/b", "link*"), vec!["linked"]);
}

#[test]
fn expand_glob_source_should_treat_braces_as_literals() {
    let tree = Tree::new().dir("/b").file("/b/{a}.pem").file("/b/b.pem");

    assert_eq!(expand(&tree, "/b", "{a}*"), vec!["{a}.pem"]);
}

#[test]
fn expand_glob_source_should_match_literal_components_between_patterns() {
    let tree = Tree::new()
        .dir("/b")
        .dir("/b/a")
        .dir("/b/a/keep")
        .dir("/b/b")
        .dir("/b/b/skip")
        .file("/b/a/keep/x.pem")
        .file("/b/b/skip/y.pem")
        .dir("/b/a/keep/deeper")
        .file("/b/a/keep/deeper/z.pem");

    assert_eq!(expand(&tree, "/b", "*/keep/*.pem"), vec!["a/keep/x.pem"]);
}

#[test]
fn expand_glob_source_should_match_single_character_wildcards() {
    let tree = Tree::new().dir("/b").file("/b/a1.pem").file("/b/a12.pem");

    assert_eq!(expand(&tree, "/b", "a?.pem"), vec!["a1.pem"]);
}

#[test]
fn expand_glob_source_should_match_escaped_metacharacters_after_patterns() {
    let tree = Tree::new()
        .dir("/b")
        .dir("/b/a")
        .file("/b/a/literal*.pem")
        .file("/b/a/literal1.pem");

    assert_eq!(expand(&tree, "/b", r"*/literal\*.pem"), vec!["a/literal*.pem"]);
}

#[test]
fn expand_glob_source_should_match_case_sensitively() {
    let tree = Tree::new().dir("/b").file("/b/Upper.pem");

    assert!(expand(&tree, "/b", "upper*").is_empty());
    assert_eq!(expand(&tree, "/b", "Upper*"), vec!["Upper.pem"]);
}

#[test]
fn expand_glob_source_should_sort_by_components_and_report_each_path_once() {
    // `a/b` sorts before `a-c` by components even though `/` follows `-`.
    let tree = Tree::new()
        .dir("/b")
        .file("/b/a-c")
        .dir("/b/a")
        .file("/b/a/b");

    assert_eq!(expand(&tree, "/b", "**"), vec!["a", "a-c"]);
    assert_eq!(expand(&tree, "/b", "**/**"), vec!["a", "a/b", "a-c"]);
}

#[test]
fn expand_glob_source_should_find_nothing_under_a_missing_base() {
    let tree = Tree::new().missing("/b");

    assert!(expand(&tree, "/b", "*.pem").is_empty());
}

#[test]
fn expand_glob_source_should_report_unreadable_directories() {
    let mut tree = Tree::new();
    tree.snapshot.listings.push(ListingRecord {
        path: "/b".to_owned(),
        listing: Listing::Failed("permission denied".to_owned()),
    });
    let split = split_glob_source("*.pem").expect("source should split");
    let error = expand_glob_source(&tree.snapshot, "/b", &split).expect_err("listing fails");

    assert_eq!(
        error.message(),
        "failed to inspect glob source directory /b: permission denied"
    );
}

#[test]
fn build_segment_should_reject_invalid_patterns() {
    let error = build_segment("[ab").expect_err("unclosed class should fail");

    assert!(error.message().starts_with("invalid glob pattern: "));
}

#[test]
fn escape_braces_should_wrap_each_brace_in_a_class() {
    assert_eq!(escape_braces_exec("{a,b}*"), "[{]a,b[}]*");
}

#[test]
fn normalize_maybe_existing_should_append_missing_parts_to_the_existing_ancestor() {
    let mut tree = Tree::new().missing("/r/x/y").missing("/r/x");
    tree.snapshot.canonical.push(CanonicalRecord {
        path: "/r".to_owned(),
        canonical: Canonical::Resolved("/real/r".to_owned()),
    });

    assert_eq!(normalize_maybe_existing(&tree.snapshot, "/r/x/y").unwrap(), "/real/r/x/y");
    assert_eq!(normalize_maybe_existing(&tree.snapshot, "/r").unwrap(), "/real/r");
}

fn workspace() -> (Tree, Worktree) {
    let mut tree = Tree::new()
        .dir("/w/root")
        .dir("/w/root/certs")
        .file("/w/root/certs/b.pem")
        .file("/w/root/certs/a.pem")
        .missing("/w/root/missing")
        .dir("/w/outside")
        .file("/w/outside/a.pem");
    tree.snapshot.canonical.push(CanonicalRecord {
        path: "/w/root/../outside".to_owned(),
        canonical: Canonical::Resolved("/w/outside".to_owned()),
    });
    let context = Worktree::from_parts(
        "/w/root".to_owned(),
        "/w/worktree".to_owned(),
        "main".to_owned(),
        vec![],
    );
    (tree, context)
}

fn manual(sources: &[&str]) -> ManualFileOperationOptions {
    ManualFileOperationOptions::copy(sources.iter().map(|s| (*s).to_owned()).collect())
}

fn operations(tree: &Tree, context: &Worktree, options: ManualFileOperationOptions) -> Vec<FileOperation> {
    FileOperation::from_manual_options(&tree.snapshot, context, options).expect("should normalize")
}

#[test]
fn manual_operations_should_expand_glob_sources_like_shell_expansion() {
    let (tree, context) = workspace();
    let mut options = manual(&["certs/*.pem"]);
    options.target = Some("local".to_owned());

    let ops = operations(&tree, &context, options);

    let targets: Vec<String> = ops.iter().map(|op| op.target.clone()).collect();
    assert_eq!(targets, vec!["local/certs/a.pem", "local/certs/b.pem"]);
    assert_eq!(ops[0].ignore_prefix, "a.pem");
    assert_eq!(ops[0].source_path, "/w/root/certs/a.pem");
    assert_eq!(ops[0].target_path, "/w/worktree/local/certs/a.pem");
    assert_eq!(ops[0].operation, FileOperationKind::Copy);
    assert!(!ops[0].glob);
}

#[test]
fn manual_operations_should_use_exact_target_for_single_glob_match() {
    let (tree, context) = workspace();
    let mut options = manual(&["certs/a*.pem"]);
    options.target = Some("local/cert.pem".to_owned());

    let ops = operations(&tree, &context, options);

    assert_eq!(ops.len(), 1);
    assert_eq!(ops[0].source, "certs/a.pem");
    assert_eq!(ops[0].target, "local/cert.pem");
}

#[test]
fn manual_operations_should_keep_optional_zero_match_patterns_literal() {
    let (tree, context) = workspace();

    let ops = operations(&tree, &context, manual(&["missing/*.pem"]));

    assert_eq!(ops.len(), 1);
    assert_eq!(ops[0].source, "missing/*.pem");
    assert_eq!(ops[0].ignore_prefix, "");
}

#[test]
fn manual_operations_should_fail_required_zero_match_patterns() {
    let (tree, context) = workspace();
    let mut options = manual(&["missing/*.pem"]);
    options.required = true;

    let error = FileOperation::from_manual_options(&tree.snapshot, &context, options)
        .expect_err("required zero matches should fail");

    assert!(error
        .message()
        .contains("no sources match required glob source pattern `missing/*.pem`"));
}

#[test]
fn manual_operations_should_treat_sources_literally_without_glob() {
    let (tree, context) = workspace();
    let mut options = manual(&["certs/*.pem"]);
    options.glob = false;

    let ops = operations(&tree, &context, options);

    assert_eq!(ops.len(), 1);
    assert_eq!(ops[0].source, "certs/*.pem");
}

#[test]
fn manual_operations_should_reject_glob_bases_outside_root_before_expansion() {
    let (tree, context) = workspace();

    let error = FileOperation::from_manual_options(&tree.snapshot, &context, manual(&["../outside/*.pem"]))
        .expect_err("outside glob base should fail");

    assert!(error
        .message()
        .contains("source resolves outside root for glob source pattern"));
}

#[test]
fn manual_operations_should_expand_outside_glob_bases_with_dangerous_override() {
    let (tree, context) = workspace();
    let mut options = manual(&["../outside/*.pem"]);
    options.dangerously_allow_sources_outside_root = true;
    options.target = Some("out.pem".to_owned());

    let ops = operations(&tree, &context, options);

    assert_eq!(ops.len(), 1);
    assert_eq!(ops[0].source, "../outside/a.pem");
}

#[test]
fn manual_operations_should_reject_invalid_glob_patterns() {
    let (tree, context) = workspace();

    let error = FileOperation::from_manual_options(&tree.snapshot, &context, manual(&["certs/[ab"]))
        .expect_err("invalid pattern should fail");

    assert!(error.message().contains("invalid glob pattern"));
}

#[test]
fn manual_operations_should_reject_parent_components_after_glob_patterns() {
    let (tree, context) = workspace();

    let error = FileOperation::from_manual_options(&tree.snapshot, &context, manual(&["certs/*/../other"]))
        .expect_err("parent component should fail");

    assert!(error.message().contains("invalid glob source pattern"));
}

#[test]
fn manual_operations_should_drop_matches_the_ignore_rules_exclude() {
    let (tree, context) = workspace();
    let mut options = manual(&["certs/*.pem"]);
    options.ignore = vec!["b.pem".to_owned()];

    let ops = operations(&tree, &context, options);

    assert_eq!(ops.len(), 1);
    assert_eq!(ops[0].source, "certs/a.pem");
    assert_eq!(ops[0].ignore, vec!["b.pem".to_owned()]);
}

#[test]
fn manual_operations_should_map_single_source_to_same_target() {
    let (tree, context) = workspace();

    let ops = operations(&tree, &context, manual(&[".env"]));

    assert_eq!(ops[0].source, ".env");
    assert_eq!(ops[0].target, ".env");
    assert_eq!(ops[0].source_path, "/w/root/.env");
    assert_eq!(ops[0].target_path, "/w/worktree/.env");
}

#[test]
fn manual_operations_should_map_single_source_to_exact_target() {
    let (tree, context) = workspace();
    let mut options = manual(&[".env"]);
    options.target = Some("local/.env".to_owned());

    let ops = operations(&tree, &context, options);

    assert_eq!(ops[0].target, "local/.env");
    assert_eq!(ops[0].target_path, "/w/worktree/local/.env");
}

#[test]
fn manual_operations_should_map_multiple_sources_to_default_targets() {
    let (tree, context) = workspace();

    let ops = operations(&tree, &context, manual(&[".env", ".npmrc"]));

    assert_eq!(ops[0].target_path, "/w/worktree/.env");
    assert_eq!(ops[1].target_path, "/w/worktree/.npmrc");
}

#[test]
fn manual_operations_should_map_multiple_sources_under_target_prefix() {
    let (tree, context) = workspace();
    let mut options = manual(&["a", "nested/c"]);
    options.target = Some("local".to_owned());

    let ops = operations(&tree, &context, options);

    assert_eq!(ops[0].source_path, "/w/root/a");
    assert_eq!(ops[0].target_path, "/w/worktree/local/a");
    assert_eq!(ops[1].source_path, "/w/root/nested/c");
    assert_eq!(ops[1].target_path, "/w/worktree/local/nested/c");
}

#[test]
fn manual_operations_should_map_multiple_absolute_sources_by_name() {
    let (tree, context) = workspace();
    let mut options = manual(&["/w/root/a", "/w/root/b"]);
    options.target = Some("local".to_owned());

    let ops = operations(&tree, &context, options);

    assert_eq!(ops[0].source_path, "/w/root/a");
    assert_eq!(ops[0].target_path, "/w/worktree/local/a");
    assert_eq!(ops[1].target_path, "/w/worktree/local/b");
}

#[test]
fn manual_operations_should_preserve_explicit_sync_options() {
    let (tree, context) = workspace();
    let mut options = ManualFileOperationOptions::sync(vec!["shared".to_owned()]);
    options.compare = Some(treeboot_core::config::SyncCompare::Checksum);
    options.delete = Some(true);
    options.symlinks = Some(treeboot_core::config::SymlinkMode::Preserve);
    options.ignore = vec!["**/vendor/**".to_owned(), "!**/vendor/keep/**".to_owned()];
    options.ignore_metadata =
        vec![treeboot_core::config::MetadataField::Owner, treeboot_core::config::MetadataField::Group];

    let ops = operations(&tree, &context, options);

    assert_eq!(ops[0].compare, Some(treeboot_core::config::SyncCompare::Checksum));
    assert_eq!(ops[0].delete, Some(true));
    assert_eq!(ops[0].symlinks, Some(treeboot_core::config::SymlinkMode::Preserve));
    assert_eq!(ops[0].ignore, vec!["**/vendor/**", "!**/vendor/keep/**"]);
    assert_eq!(
        ops[0].ignore_metadata,
        vec![treeboot_core::config::MetadataField::Owner, treeboot_core::config::MetadataField::Group]
    );
}

#[test]
fn normalize_maybe_existing_should_preserve_missing_parent_components() {
    let tree = Tree::new()
        .dir("/t/existing")
        .missing("/t/existing/missing/../target")
        .missing("/t/existing/missing/..")
        .missing("/t/existing/missing");

    let normalized = normalize_maybe_existing(&tree.snapshot, "/t/existing/missing/../target")
        .expect("path should normalize through ancestor");

    assert_eq!(normalized, "/t/existing/target");
}
