use treeboot_core::config::{FileOperationKind, MetadataField, SymlinkMode, SyncCompare};
use treeboot_core::error::Error;
use treeboot_core::manual::{manual_target, validate_manual_options, ManualFileOperationOptions};

fn options(operation: FileOperationKind, sources: &[&str]) -> ManualFileOperationOptions {
    ManualFileOperationOptions {
        operation,
        sources: sources.iter().map(|s| (*s).to_owned()).collect(),
        ..ManualFileOperationOptions::default()
    }
}

fn validate_error(options: &ManualFileOperationOptions) -> String {
    validate_manual_options(
        options.operation,
        &options.sources,
        options.symlinks,
        options.compare,
        options.delete,
        &options.ignore,
        &options.ignore_metadata,
    )
    .expect_err("validation should fail")
    .message()
}

#[test]
fn validate_manual_options_should_reject_symlink_mode_for_symlink() {
    let mut options = options(FileOperationKind::Symlink, &["link"]);
    options.symlinks = Some(SymlinkMode::Preserve);

    let error = validate_error(&options);

    assert!(error.contains("invalid symlink file operation"));
    assert!(error.contains("only valid for copy and sync"));
}

#[test]
fn validate_manual_options_should_reject_compare_for_copy() {
    let mut options = options(FileOperationKind::Copy, &["file"]);
    options.compare = Some(SyncCompare::Checksum);

    assert!(validate_error(&options).contains("`compare` is only valid for sync"));
}

#[test]
fn validate_manual_options_should_reject_delete_for_copy() {
    let mut options = options(FileOperationKind::Copy, &["file"]);
    options.delete = Some(true);

    assert!(validate_error(&options).contains("`delete` is only valid for sync"));
}

#[test]
fn validate_manual_options_should_reject_compare_for_symlink() {
    let mut options = options(FileOperationKind::Symlink, &["file"]);
    options.compare = Some(SyncCompare::Metadata);

    assert!(validate_error(&options).contains("`compare` is only valid for sync"));
}

#[test]
fn validate_manual_options_should_reject_delete_for_symlink() {
    let mut options = options(FileOperationKind::Symlink, &["file"]);
    options.delete = Some(false);

    assert!(validate_error(&options).contains("`delete` is only valid for sync"));
}

#[test]
fn validate_manual_options_should_reject_empty_sources() {
    let options = options(FileOperationKind::Copy, &[]);

    assert!(validate_error(&options).contains("at least one source is required"));
}

#[test]
fn validate_manual_options_should_reject_ignore_for_symlink() {
    let mut options = options(FileOperationKind::Symlink, &["file"]);
    options.ignore = vec!["**/tmp/**".to_owned()];

    assert!(validate_error(&options).contains("`ignore` is only valid for copy and sync"));
}

#[test]
fn validate_manual_options_should_reject_ignored_metadata_for_symlink() {
    let mut options = options(FileOperationKind::Symlink, &["file"]);
    options.ignore_metadata = vec![MetadataField::Permissions];

    assert!(validate_error(&options).contains("`ignore_metadata` is only valid for copy and sync"));
}

#[test]
fn validate_manual_options_should_normalize_sync_settings() {
    let mut options = options(FileOperationKind::Sync, &["shared"]);
    options.compare = Some(SyncCompare::Checksum);
    options.delete = Some(true);
    options.ignore_metadata = vec![MetadataField::Owner, MetadataField::Group];
    let settings = validate_manual_options(
        options.operation,
        &options.sources,
        options.symlinks,
        options.compare,
        options.delete,
        &options.ignore,
        &options.ignore_metadata,
    )
    .expect("sync settings are valid");
    assert_eq!(settings.compare, Some(SyncCompare::Checksum));
    assert_eq!(settings.delete, Some(true));
    assert_eq!(settings.ignore_metadata, vec![MetadataField::Owner, MetadataField::Group]);
}

#[test]
fn manual_target_should_derive_targets() {
    let local = Some("local".to_owned());
    assert_eq!(manual_target(FileOperationKind::Copy, ".env", &None, false).unwrap(), ".env");
    assert_eq!(
        manual_target(FileOperationKind::Copy, ".env", &Some("local/.env".to_owned()), false).unwrap(),
        "local/.env"
    );
    assert_eq!(manual_target(FileOperationKind::Copy, "nested/c", &local, true).unwrap(), "local/nested/c");
    assert_eq!(manual_target(FileOperationKind::Copy, "/root/a", &local, true).unwrap(), "local/a");
}

#[test]
fn manual_target_should_reject_absolute_source_without_file_name() {
    let error = manual_target(FileOperationKind::Copy, "/", &Some("local".to_owned()), true)
        .expect_err("root path should not have a file name");

    assert!(matches!(error, Error::FileOperationInvalid { .. }));
    assert!(error.message().contains("cannot derive target"));
}

#[test]
fn manual_options_constructors_should_use_defaults() {
    let copy = ManualFileOperationOptions::copy(vec!["a".to_owned()]);
    assert_eq!(copy.operation, FileOperationKind::Copy);
    assert!(copy.glob);
    assert!(!copy.required);
    assert_eq!(ManualFileOperationOptions::symlink(vec![]).operation, FileOperationKind::Symlink);
    assert_eq!(ManualFileOperationOptions::sync(vec![]).operation, FileOperationKind::Sync);
}

struct EventLog {
    events: Vec<treeboot_core::output::OutputEvent>,
}

impl treeboot_core::output::Reporter for EventLog {
    fn report(&mut self, event: treeboot_core::output::OutputEvent) -> Result<(), String> {
        self.events.push(event);
        Ok(())
    }
}

fn worktree(root: &str, worktree: &str) -> treeboot_core::context::Worktree {
    treeboot_core::context::Worktree {
        root_path: root.to_owned(),
        worktree_path: worktree.to_owned(),
        default_branch: "main".to_owned(),
        environment: Vec::new(),
    }
}

#[test]
fn start_file_operation_should_skip_the_root_checkout() {
    let mut log = EventLog { events: Vec::new() };
    let context = worktree("/repo", "/repo");

    let report = treeboot_core::manual::start_file_operation(&context, FileOperationKind::Sync, false, &mut treeboot_core::output::ReportLog::new(&mut log))
        .expect("start")
        .expect("root checkout stops");

    assert_eq!(report.action, treeboot_core::manual::FileOperationAction::RootWorktreeSkipped);
    assert_eq!(report.action_count, 0);
    assert_eq!(report.operation, FileOperationKind::Sync);
    assert_eq!(report.context, context);
    assert_eq!(log.events, vec![treeboot_core::output::OutputEvent::RootWorktreeDetected]);
}

#[test]
fn start_file_operation_should_refuse_the_root_checkout_in_strict_mode() {
    let mut log = EventLog { events: Vec::new() };
    let context = worktree("/repo", "/repo");

    let result = treeboot_core::manual::start_file_operation(&context, FileOperationKind::Copy, true, &mut treeboot_core::output::ReportLog::new(&mut log));

    assert!(matches!(result, Err(Error::RootWorktreeStrict)));
    assert_eq!(log.events, vec![treeboot_core::output::OutputEvent::RootWorktreeDetected]);
}

#[test]
fn start_file_operation_should_go_on_in_a_linked_worktree() {
    let mut log = EventLog { events: Vec::new() };
    let context = worktree("/repo", "/repo-feature");

    let result = treeboot_core::manual::start_file_operation(&context, FileOperationKind::Copy, true, &mut treeboot_core::output::ReportLog::new(&mut log));

    assert!(matches!(result, Ok(None)));
    assert!(log.events.is_empty());
}

fn resolved_policy(default_ignore: &[&str], allow_outside: bool) -> treeboot_core::runtime::ResolvedRuntimePolicy {
    let policy = treeboot_core::runtime::RuntimePolicy::from_overrides(
        treeboot_core::runtime::RuntimeOptionOverrides::default(),
        false,
    );
    policy.resolve(&treeboot_core::config::ConfigRuntimeOptions {
        strict: false,
        default_ignore: default_ignore.iter().map(|s| (*s).to_owned()).collect(),
        dangerously_allow_sources_outside_root: allow_outside,
        dangerously_allow_targets_outside_worktree: false,
    })
}

#[test]
fn with_policy_should_put_default_ignores_first_for_copy_and_sync() {
    let policy = resolved_policy(&[".DS_Store"], true);
    let mut manual = options(FileOperationKind::Sync, &["assets"]);
    manual.ignore = vec!["*.tmp".to_owned()];

    let applied = manual.with_policy(&policy);

    assert_eq!(applied.ignore, vec![".DS_Store".to_owned(), "*.tmp".to_owned()]);
    assert!(applied.dangerously_allow_sources_outside_root);
    assert_eq!(applied.sources, vec!["assets".to_owned()]);
}

#[test]
fn with_policy_should_keep_only_own_ignores_for_symlink() {
    let policy = resolved_policy(&[".DS_Store"], false);
    let mut manual = options(FileOperationKind::Symlink, &["link"]);
    manual.ignore = vec!["*.tmp".to_owned()];
    manual.dangerously_allow_sources_outside_root = true;

    let applied = manual.with_policy(&policy);

    assert_eq!(applied.ignore, vec!["*.tmp".to_owned()]);
    assert!(!applied.dangerously_allow_sources_outside_root);
}

#[test]
fn applied_file_operation_should_record_the_action_count() {
    let report =
        treeboot_core::manual::applied_file_operation(worktree("/repo", "/wt"), FileOperationKind::Copy, 3);

    assert_eq!(report.action, treeboot_core::manual::FileOperationAction::Applied);
    assert_eq!(report.action_count, 3);
}

impl treeboot_core::output::Reporter for &mut EventLog {
    fn report(&mut self, event: treeboot_core::output::OutputEvent) -> Result<(), String> {
        (**self).report(event)
    }
}
