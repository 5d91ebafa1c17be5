use treeboot_core::completion::source_candidates;
use treeboot_core::discovery::{config_candidates, select_config};
use treeboot_core::error::Error;
use treeboot_core::file_system::{EntryKind, EntryMetadata, ModifiedTime, Timestamp};
use treeboot_core::fs_snapshot::{EntryRecord, FsSnapshot, Listing, ListingRecord, Lookup};

#[test]
fn config_candidates_should_list_default_locations_in_order() {
    assert_eq!(
        config_candidates("/w", &None),
        vec!["/w/.treeboot.toml", "/w/treeboot.toml", "/w/.config/treeboot/config.toml"]
    );
    assert_eq!(config_candidates("/w", &Some("custom.toml".to_owned())), vec!["/w/custom.toml"]);
    assert_eq!(config_candidates("/w", &Some("/etc/t.toml".to_owned())), vec!["/etc/t.toml"]);
}

#[test]
fn select_config_should_pick_the_first_existing_default() {
    let candidates = config_candidates("/w", &None);

    assert_eq!(
        select_config(&candidates, &vec![false, true, true], false).unwrap(),
        Some("/w/treeboot.toml".to_owned())
    );
    assert_eq!(select_config(&candidates, &vec![false, false, false], false).unwrap(), None);
}

#[test]
fn select_config_should_reject_a_missing_requested_config() {
    let candidates = config_candidates("/w", &Some("custom.toml".to_owned()));

    let error = select_config(&candidates, &vec![false], true).expect_err("missing config");
    assert!(matches!(error, Error::ConfigNotFound(ref p) if p == "/w/custom.toml"));
    assert_eq!(
        select_config(&candidates, &vec![true], true).unwrap(),
        Some("/w/custom.toml".to_owned())
    );
}

fn found(kind: EntryKind) -> Lookup {
    Lookup::Found(EntryMetadata {
        kind,
        len: 0,
        modified: ModifiedTime::Known(Timestamp { secs: 0, nanos: 0 }),
        mode: 0o755,
        uid: 0,
        gid: 0,
    })
}

fn root_tree() -> FsSnapshot {
    FsSnapshot {
        entries: vec![
            EntryRecord { path: "/r/shared".to_owned(), lookup: found(EntryKind::Directory) },
            EntryRecord { path: "/r/.env".to_owned(), lookup: found(EntryKind::File) },
            EntryRecord { path: "/r/shared/nested".to_owned(), lookup: found(EntryKind::Directory) },
        ],
        listings: vec![
            ListingRecord {
                path: "/r/".to_owned(),
                listing: Listing::Names(vec!["shared".to_owned(), ".env".to_owned()]),
            },
            ListingRecord {
                path: "/r/shared/".to_owned(),
                listing: Listing::Names(vec!["nested".to_owned()]),
            },
        ],
        links: Vec::new(),
        followed_dirs: Vec::new(),
        contents: Vec::new(),
        canonical: Vec::new(),
    }
}

#[test]
fn source_candidates_should_list_root_relative_files_and_dirs() {
    let snapshot = root_tree();

    assert_eq!(source_candidates(&snapshot, "/r", ""), vec![".env".to_owned(), "shared/".to_owned()]);
    assert_eq!(source_candidates(&snapshot, "/r", "shared/"), vec!["shared/nested/".to_owned()]);
}

#[test]
fn source_candidates_should_fail_quietly_for_missing_prefix() {
    assert!(source_candidates(&root_tree(), "/r", "missing/").is_empty());
}

#[test]
fn source_candidates_should_fail_quietly_for_absolute_current_value() {
    assert!(source_candidates(&root_tree(), "/r", "/tmp").is_empty());
}

#[test]
fn source_candidates_should_not_escape_root_with_parent_segments() {
    assert!(source_candidates(&root_tree(), "/r", "../").is_empty());
    assert!(source_candidates(&root_tree(), "/r", "nested/../../").is_empty());
}

#[test]
fn source_candidates_should_filter_by_the_typed_name() {
    assert_eq!(source_candidates(&root_tree(), "/r", "sh"), vec!["shared/".to_owned()]);
    assert_eq!(source_candidates(&root_tree(), "/r", ".e"), vec![".env".to_owned()]);
}
