use treeboot_core::config::{
    parse_config, CommandKind, Config, FileOperationKind, MetadataField, SymlinkMode, SyncCompare,
};
use treeboot_core::config::config_declared_paths;
use treeboot_core::context::Worktree;
use treeboot_core::fs_snapshot::{Canonical, CanonicalRecord, FsSnapshot};

fn context() -> Worktree {
    Worktree::from_parts(
        "/repo".to_owned(),
        "/repo-worktree".to_owned(),
        "main".to_owned(),
        vec![("TREEBOOT_ROOT_PATH".to_owned(), "/repo".to_owned())],
    )
}

fn empty_snapshot() -> FsSnapshot {
    FsSnapshot {
        entries: Vec::new(),
        listings: Vec::new(),
        links: Vec::new(),
        followed_dirs: Vec::new(),
        contents: Vec::new(),
        canonical: Vec::new(),
    }
}

/// A filesystem holding only `/`: every declared path and its ancestors
/// below the root are missing.
fn bare_disk(content: &str, context: &Worktree) -> FsSnapshot {
    let mut snapshot = empty_snapshot();
    for path in config_declared_paths(content, context).unwrap_or_default() {
        let mut current = Some(std::path::PathBuf::from(path));
        while let Some(p) = current {
            let text = p.to_string_lossy().into_owned();
            let canonical = if text == "/" { Canonical::Resolved("/".to_owned()) } else { Canonical::Missing };
            snapshot.canonical.push(CanonicalRecord { path: text, canonical });
            current = p.parent().map(std::path::Path::to_path_buf);
        }
    }
    snapshot
}

fn parse(content: &str) -> Config {
    let context = context();
    parse_config(&bare_disk(content, &context), ".treeboot.toml", content, &context).expect("config should parse")
}

fn parse_error(content: &str) -> String {
    let context = context();
    parse_config(&bare_disk(content, &context), ".treeboot.toml", content, &context)
        .expect_err("config should fail")
        .message()
}

fn assert_parse_error_contains(content: &str, expected: &str) {
    let error = parse_error(content);
    assert!(error.contains(expected), "expected error to contain {expected:?}, got {error:?}");
}

#[test]
fn parse_config_should_normalize_file_operations_in_spec_order() {
    let config = parse(
        r#"
sync = ["sync-dir"]
copy = [".env"]
symlink = [{ source = "shared/bin", target = "bin" }]
files = [{ operation = "copy", source = ".npmrc" }]

[[file]]
operation = "sync"
source = "editor"
target = ".editor"
"#,
    );

    let operations = config
        .files
        .iter()
        .map(|operation| (operation.operation, operation.source.as_str()))
        .collect::<Vec<_>>();

    assert_eq!(
        operations,
        vec![
            (FileOperationKind::Copy, ".env"),
            (FileOperationKind::Symlink, "shared/bin"),
            (FileOperationKind::Sync, "sync-dir"),
            (FileOperationKind::Copy, ".npmrc"),
            (FileOperationKind::Sync, "editor"),
        ]
    );
}

#[test]
fn parse_config_should_apply_file_defaults() {
    let config = parse(
        r#"
copy = [{ source = ".env.local" }]
sync = ["shared/config"]
"#,
    );

    let copy = &config.files[0];
    let sync = &config.files[1];

    assert_eq!(copy.target, ".env.local");
    assert!(!copy.required);
    assert_eq!(copy.symlinks, Some(SymlinkMode::Preserve));
    assert!(copy.ignore.is_empty());
    assert!(copy.ignore_metadata.is_empty());
    assert_eq!(sync.compare, Some(SyncCompare::Metadata));
    assert_eq!(sync.delete, Some(false));
    assert!(sync.ignore.is_empty());
    assert!(sync.ignore_metadata.is_empty());
}

#[test]
fn parse_config_should_preserve_explicit_sync_options() {
    let config = parse(
        r#"
sync = [{
  source = "shared/config",
  compare = "checksum",
  delete = true,
  symlinks = "preserve",
}]
"#,
    );

    let sync = &config.files[0];

    assert_eq!(sync.compare, Some(SyncCompare::Checksum));
    assert_eq!(sync.delete, Some(true));
    assert_eq!(sync.symlinks, Some(SymlinkMode::Preserve));
}

#[test]
fn parse_config_should_normalize_ignored_metadata() {
    let config = parse(
        r#"
copy = [{ source = ".env", ignore_metadata = ["ownership", "permissions", "owner"] }]
sync = [{ source = "shared", ignore_metadata = ["group"] }]
"#,
    );

    assert_eq!(
        config.files[0].ignore_metadata,
        vec![MetadataField::Owner, MetadataField::Group, MetadataField::Permissions]
    );
    assert_eq!(config.files[1].ignore_metadata, vec![MetadataField::Group]);
}

#[test]
fn parse_config_should_preserve_explicit_ignore_patterns() {
    let config = parse(
        r#"
copy = [{ source = ".env", ignore = ["**/vendor/**", "!**/vendor/keep/**"] }]
sync = [{ source = "shared", ignore = ["cache/", "!cache/keep"] }]
"#,
    );

    assert_eq!(config.files[0].ignore, vec!["**/vendor/**", "!**/vendor/keep/**"]);
    assert_eq!(config.files[1].ignore, vec!["cache/", "!cache/keep"]);
}

#[test]
fn parse_config_should_prepend_default_ignore_to_copy_and_sync() {
    let config = parse(
        r#"
default_ignore = [".DS_Store", "Thumbs.db"]
copy = [{ source = ".env", ignore = ["!.DS_Store"] }]
sync = [{ source = "shared", ignore = ["cache/"] }]
"#,
    );

    assert_eq!(config.options.default_ignore, vec![".DS_Store", "Thumbs.db"]);
    assert_eq!(config.files[0].ignore, vec![".DS_Store", "Thumbs.db", "!.DS_Store"]);
    assert_eq!(config.files[1].ignore, vec![".DS_Store", "Thumbs.db", "cache/"]);
}

#[test]
fn parse_config_should_prepend_default_ignore_to_mixed_file_entries() {
    let config = parse(
        r#"
default_ignore = [".DS_Store"]
files = [
  { operation = "copy", source = ".env", ignore = ["!.DS_Store"] },
  { operation = "symlink", source = "bin" },
]

[[file]]
operation = "sync"
source = "shared"
ignore = ["cache/"]
"#,
    );

    assert_eq!(config.files[0].ignore, vec![".DS_Store", "!.DS_Store"]);
    assert!(config.files[1].ignore.is_empty());
    assert_eq!(config.files[2].ignore, vec![".DS_Store", "cache/"]);
}

#[test]
fn parse_config_should_not_apply_default_ignore_to_symlink() {
    let config = parse(
        r#"
default_ignore = [".DS_Store"]
symlink = ["shared/bin"]
"#,
    );

    assert!(config.files[0].ignore.is_empty());
}

#[test]
fn parse_config_should_reject_ignore_on_symlink_file_operations() {
    assert_parse_error_contains(
        r#"
symlink = [{ source = "link", ignore = ["**/tmp/**"] }]
"#,
        "`ignore` is only valid for copy and sync",
    );
}

#[test]
fn parse_config_should_reject_ignored_metadata_on_symlink_file_operations() {
    assert_parse_error_contains(
        r#"
symlink = [{ source = "link", ignore_metadata = ["ownership"] }]
"#,
        "`ignore_metadata` is only valid for copy and sync",
    );
}

#[test]
fn parse_config_should_apply_runtime_options() {
    let config = parse(
        r#"
strict = true
default_ignore = [".DS_Store"]
dangerously_allow_sources_outside_root = true
dangerously_allow_targets_outside_worktree = true
"#,
    );

    assert!(config.options.strict);
    assert_eq!(config.options.default_ignore, vec![".DS_Store"]);
    assert!(config.options.dangerously_allow_sources_outside_root);
    assert!(config.options.dangerously_allow_targets_outside_worktree);
}

#[test]
fn parse_config_should_reject_nested_validation_options() {
    assert_parse_error_contains(
        r#"
[validation]
dangerously_allow_sources_outside_root = true
"#,
        "unknown field",
    );
}

#[test]
fn parse_config_should_resolve_absolute_paths_without_rebasing() {
    let config = parse(
        r#"
copy = [{ source = "/tmp/cfg/shared/../.env", target = "/tmp/cfg/worktree/../worktree/.env" }]
commands = [{ program = "make", cwd = "/tmp/cfg/worktree/../worktree/app" }]
"#,
    );

    assert_eq!(config.files[0].source_path, "/tmp/cfg/.env");
    assert_eq!(config.files[0].target_path, "/tmp/cfg/worktree/.env");
    assert_eq!(config.commands[0].cwd_path, Some("/tmp/cfg/worktree/app".to_owned()));
}

#[test]
fn parse_config_should_normalize_command_forms() {
    let config = parse(
        r#"
commands = [
  "mise install",
  { run = "bundle install" },
]

[[command]]
program = "npm"
args = ["install"]
cwd = "web"
allow_failure = true
"#,
    );

    assert_eq!(config.commands.len(), 3);
    assert_eq!(config.commands[0].command, CommandKind::Shell { run: "mise install".to_owned() });
    assert_eq!(
        config.commands[2].command,
        CommandKind::Direct { program: "npm".to_owned(), args: vec!["install".to_owned()] }
    );
    assert_eq!(config.commands[2].cwd_path, Some("/repo-worktree/web".to_owned()));
    assert!(config.commands[2].allow_failure);
}

#[test]
fn parse_config_should_normalize_command_metadata_and_defaults() {
    let config = parse(
        r#"
commands = [{
  name = "Install",
  program = "npm",
  env = { NODE_ENV = "development" },
}]
"#,
    );

    let command = &config.commands[0];

    assert_eq!(command.name.as_deref(), Some("Install"));
    assert_eq!(command.env, vec![("NODE_ENV".to_owned(), "development".to_owned())]);
    assert!(!command.allow_failure);
}

#[test]
fn parse_config_should_reject_async_command_field() {
    assert_parse_error_contains(r#"commands = [{ run = "npm install", async = true }]"#, "unknown field");
    assert_parse_error_contains(r#"commands = [{ run = "npm install", async = false }]"#, "unknown field");
}

#[test]
fn parse_config_should_allow_program_without_args() {
    let config = parse(r#"commands = [{ program = "mise" }]"#);

    assert_eq!(
        config.commands[0].command,
        CommandKind::Direct { program: "mise".to_owned(), args: Vec::new() }
    );
}

#[test]
fn parse_config_should_reject_mutually_exclusive_command_fields() {
    assert_parse_error_contains(
        r#"commands = [{ run = "npm install", program = "npm" }]"#,
        "mutually exclusive",
    );
}

#[test]
fn parse_config_should_reject_args_without_program() {
    assert_parse_error_contains(
        r#"commands = [{ run = "npm install", args = [] }]"#,
        "`args` requires `program`",
    );
}

#[test]
fn parse_config_should_reject_missing_command_invocation() {
    assert_parse_error_contains(
        r#"commands = [{ name = "Install" }]"#,
        "missing required `run` or `program`",
    );
}

#[test]
fn parse_config_should_reject_unknown_fields() {
    assert_parse_error_contains(r#"copy = [{ source = ".env", unknown = true }]"#, "unknown field");
}

#[test]
fn parse_config_should_reject_missing_file_operation() {
    assert_parse_error_contains(r#"files = [{ source = ".env" }]"#, "missing required `operation`");
}

#[test]
fn parse_config_should_reject_missing_file_source() {
    assert_parse_error_contains(r#"copy = [{ target = ".env" }]"#, "missing required `source`");
}

#[test]
fn parse_config_should_reject_operation_in_specific_file_groups() {
    assert_parse_error_contains(
        r#"copy = [{ operation = "copy", source = ".env" }]"#,
        "`operation` is only valid in `files` and `[[file]]` entries",
    );
}

#[test]
fn parse_config_should_reject_compare_on_copy_file_operations() {
    assert_parse_error_contains(
        r#"copy = [{ source = ".env", compare = "checksum" }]"#,
        "`compare` is only valid for sync file operations",
    );
}

#[test]
fn parse_config_should_reject_delete_on_symlink_file_operations() {
    assert_parse_error_contains(
        r#"symlink = [{ source = ".env", delete = true }]"#,
        "`delete` is only valid for sync file operations",
    );
}

#[test]
fn parse_config_should_reject_legacy_delete_extra_field() {
    assert_parse_error_contains(
        r#"sync = [{ source = "shared", delete_extra = true }]"#,
        "unknown field `delete_extra`",
    );
}

#[test]
fn parse_config_should_reject_symlinks_on_symlink_file_operations() {
    assert_parse_error_contains(
        r#"symlink = [{ source = ".env", symlinks = "preserve" }]"#,
        "`symlinks` is only valid for copy and sync file operations",
    );
}

#[test]
fn parse_config_should_report_invalid_toml_location() {
    assert_parse_error_contains("commands = [\n", "line 1, column");
}

#[test]
fn parse_config_should_detect_glob_sources() {
    let config = parse(
        r#"
copy = [
  "certs/*.pem",
  { source = "config/?" },
  { source = "config/[ab]", glob = false },
  ".env",
]
"#,
    );

    let globs = config.files.iter().map(|operation| operation.glob).collect::<Vec<_>>();

    assert_eq!(globs, vec![true, true, false, false]);
}

#[test]
fn parse_config_should_resolve_relative_sources_against_root() {
    let config = parse(r#"copy = [{ source = "shared/./.env", target = "app/../.env" }]"#);

    assert_eq!(config.files[0].source_path, "/repo/shared/.env");
    assert_eq!(config.files[0].target_path, "/repo-worktree/.env");
}

#[test]
fn parse_config_should_report_error_location_and_path() {
    let error = parse_error("copy = [\n  { source = \".env\", compare = \"checksum\" },\n]\n");
    assert!(error.starts_with("invalid config \".treeboot.toml\": "), "{error}");
    assert!(error.contains("line 2, column"), "{error}");
}

fn resolved(path: &str, to: &str) -> CanonicalRecord {
    CanonicalRecord { path: path.to_owned(), canonical: Canonical::Resolved(to.to_owned()) }
}

fn missing(path: &str) -> CanonicalRecord {
    CanonicalRecord { path: path.to_owned(), canonical: Canonical::Missing }
}

const ALIASED: &str = r#"
copy = [{ source = "shared/.env", target = ".env" }]
commands = [{ program = "make", cwd = "app" }]
"#;

fn aliased_context() -> Worktree {
    Worktree::from_parts("/alias/root".to_owned(), "/alias/worktree".to_owned(), "main".to_owned(), vec![])
}

#[test]
fn parse_config_should_normalize_relative_paths_through_existing_aliases() {
    let mut snapshot = empty_snapshot();
    snapshot.canonical = vec![
        missing("/alias/root/shared/.env"),
        resolved("/alias/root/shared", "/actual/root/shared"),
        missing("/alias/worktree/.env"),
        resolved("/alias/worktree", "/actual/worktree"),
        resolved("/alias/worktree/app", "/actual/worktree/app"),
    ];

    let config = parse_config(&snapshot, ".treeboot.toml", ALIASED, &aliased_context()).expect("config should parse");

    assert_eq!(config.files[0].source_path, "/actual/root/shared/.env");
    assert_eq!(config.files[0].target_path, "/actual/worktree/.env");
    assert_eq!(config.commands[0].cwd_path, Some("/actual/worktree/app".to_owned()));
}

#[test]
fn parse_config_should_keep_a_target_symlink_unresolved() {
    let mut snapshot = empty_snapshot();
    snapshot.canonical = vec![
        resolved("/alias/root/shared/.env", "/actual/root/shared/.env"),
        resolved("/alias/worktree", "/actual/worktree"),
        resolved("/alias/worktree/.env", "/elsewhere/.env"),
        resolved("/alias/worktree/app", "/actual/worktree/app"),
    ];

    let config = parse_config(&snapshot, ".treeboot.toml", ALIASED, &aliased_context()).expect("config should parse");

    assert_eq!(config.files[0].source_path, "/actual/root/shared/.env");
    assert_eq!(config.files[0].target_path, "/actual/worktree/.env");
}

#[test]
fn parse_config_should_report_paths_that_cannot_be_normalized() {
    let mut snapshot = empty_snapshot();
    snapshot.canonical = vec![CanonicalRecord {
        path: "/alias/root/shared/.env".to_owned(),
        canonical: Canonical::Failed("Permission denied (os error 13)".to_owned()),
    }];

    let error = parse_config(&snapshot, ".treeboot.toml", ALIASED, &aliased_context())
        .expect_err("an unreadable path should fail")
        .message();

    assert!(error.contains("failed to normalize path `shared/.env`: Permission denied (os error 13)"), "{error}");
    assert!(error.contains("at line 2"), "{error}");
}

#[test]
fn config_declared_paths_should_list_sources_targets_and_working_directories() {
    let paths = config_declared_paths(ALIASED, &aliased_context()).expect("config should decode");

    assert_eq!(
        paths,
        vec![
            "/alias/root/shared/.env".to_owned(),
            "/alias/worktree/.env".to_owned(),
            "/alias/worktree".to_owned(),
            "/alias/worktree/app".to_owned(),
        ]
    );
    assert_eq!(config_declared_paths("copy = [", &aliased_context()), None);
}
