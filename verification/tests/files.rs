use treeboot_core::action_plan::{ActionPlan, PlanOrigin, PlannedFileOperation, PlannedFileStatus};
use treeboot_core::config::{FileOperationKind, SyncCompare};
use treeboot_core::context::Worktree;
use treeboot_core::error::Error;
use treeboot_core::executor::FileApplyOptions;
use treeboot_core::file_execution::{ActionSteps, FsStep, StepRunner};
use treeboot_core::file_operations::apply_file_operations;
use treeboot_core::file_system::{EntryKind, EntryMetadata, ModifiedTime, Timestamp};
use treeboot_core::fs_snapshot::{
    Canonical, CanonicalRecord, ContentCheck, ContentRecord, EntryRecord, FsSnapshot, LinkRead,
    LinkRecord, Listing, ListingRecord, Lookup,
};
use treeboot_core::output::{OutputEvent, Reporter};

#[derive(Default)]
struct VecReporter {
    events: Vec<OutputEvent>,
    messages: Vec<String>,
}

impl VecReporter {
    fn messages(&self) -> Vec<String> {
        self.messages.clone()
    }
}

impl Reporter for VecReporter {
    fn report(&mut self, event: OutputEvent) -> Result<(), String> {
        let message = event.message();
        if !message.is_empty() {
            self.messages.push(message);
        }
        self.events.push(event);
        Ok(())
    }
}

#[derive(Debug, Clone, Copy)]
enum FailingCallback {
    PlanningStarted,
    PlanningFinished,
    ExecutionStarted,
    ActionAdvanced,
    Finished,
}

struct FailingCallbackReporter {
    fail_on: FailingCallback,
}

impl Reporter for FailingCallbackReporter {
    fn report(&mut self, event: OutputEvent) -> Result<(), String> {
        let fails = matches!(
            (self.fail_on, &event),
            (FailingCallback::PlanningStarted, OutputEvent::FileOperationPlanningStarted { .. })
                | (FailingCallback::PlanningFinished, OutputEvent::FileOperationPlanningFinished { .. })
                | (FailingCallback::ExecutionStarted, OutputEvent::FileOperationExecutionStarted { .. })
                | (FailingCallback::ActionAdvanced, OutputEvent::FileOperationActionAdvanced { .. })
                | (FailingCallback::Finished, OutputEvent::FileOperationFinished { .. })
        );
        if fails {
            Err("reporter callback failed".to_owned())
        } else {
            Ok(())
        }
    }
}

/// Counts the non-empty steps it is asked to run and keeps them; nothing on
/// disk changes.
#[derive(Default)]
struct CountingRunner {
    runs: usize,
    steps: Vec<FsStep>,
}

impl StepRunner for CountingRunner {
    fn run_steps<R: Reporter>(&mut self, steps: &ActionSteps, _reporter: &mut R) -> Result<(), Error> {
        if !steps.checks.is_empty() || !steps.main.is_empty() {
            self.runs += 1;
        }
        self.steps.extend(steps.checks.iter().cloned());
        self.steps.extend(steps.main.iter().cloned());
        Ok(())
    }
}

fn metadata(kind: EntryKind) -> EntryMetadata {
    EntryMetadata {
        kind,
        len: 8,
        modified: ModifiedTime::Known(Timestamp { secs: 100, nanos: 0 }),
        mode: 0o644,
        uid: 1000,
        gid: 1000,
    }
}

/// The captured root (`/r`) and worktree (`/w`).
struct Disk {
    snapshot: FsSnapshot,
}

impl Disk {
    fn new() -> Self {
        let mut disk = Disk {
            snapshot: FsSnapshot {
                entries: Vec::new(),
                listings: Vec::new(),
                links: Vec::new(),
                followed_dirs: Vec::new(),
                contents: Vec::new(),
                canonical: Vec::new(),
            },
        };
        disk.dir("/r");
        disk.dir("/w");
        disk
    }

    fn add(&mut self, path: &str, lookup: Lookup) {
        self.snapshot.entries.push(EntryRecord { path: path.to_owned(), lookup });
        if let Some((parent, name)) = path.rsplit_once('/') {
            for record in &mut self.snapshot.listings {
                if record.path == parent {
                    if let Listing::Names(names) = &mut record.listing {
                        names.push(name.to_owned());
                    }
                }
            }
        }
    }

    fn file(&mut self, path: &str) {
        self.add(path, Lookup::Found(metadata(EntryKind::File)));
        self.snapshot.canonical.push(CanonicalRecord {
            path: path.to_owned(),
            canonical: Canonical::Resolved(path.to_owned()),
        });
    }

    fn dir(&mut self, path: &str) {
        self.add(path, Lookup::Found(metadata(EntryKind::Directory)));
        self.snapshot.listings.push(ListingRecord {
            path: path.to_owned(),
            listing: Listing::Names(Vec::new()),
        });
        self.snapshot.followed_dirs.push(path.to_owned());
    }

    fn file_with(&mut self, path: &str, len: u64, secs: i64) {
        let mut m = metadata(EntryKind::File);
        m.len = len;
        m.modified = ModifiedTime::Known(Timestamp { secs, nanos: 0 });
        self.add(path, Lookup::Found(m));
    }

    fn missing(&mut self, path: &str) {
        self.snapshot.entries.push(EntryRecord {
            path: path.to_owned(),
            lookup: Lookup::Missing("No such file or directory (os error 2)".to_owned()),
        });
    }
}

fn operation(kind: FileOperationKind, source: &str, target: &str) -> PlannedFileOperation {
    PlannedFileOperation {
        operation: kind,
        source: source.to_owned(),
        target: target.to_owned(),
        source_path: format!("/r/{source}"),
        target_path: format!("/w/{target}"),
        status: PlannedFileStatus::Ready,
        compare: None,
        delete: None,
        symlinks: None,
        ignore: Vec::new(),
        include_patterns: Vec::new(),
        ignore_metadata: Vec::new(),
    }
}

fn run_plan(files: Vec<PlannedFileOperation>) -> ActionPlan {
    let context = Worktree::from_parts("/r".to_owned(), "/w".to_owned(), "main".to_owned(), vec![]);
    ActionPlan::from_parts(
        context,
        PlanOrigin::Manifest { path: "/w/.treeboot.toml".to_owned() },
        files,
        Vec::new(),
        Vec::new(),
    )
}

fn defaults() -> FileApplyOptions {
    FileApplyOptions { strict: false, force: false, dry_run: false, verbose: false }
}

fn env_copy() -> (Disk, ActionPlan) {
    let mut disk = Disk::new();
    disk.file("/r/.env");
    disk.missing("/w/.env");
    (disk, run_plan(vec![operation(FileOperationKind::Copy, ".env", ".env")]))
}

#[test]
fn apply_file_operations_should_leave_dry_run_unmutated() {
    let (disk, plan) = env_copy();
    let mut reporter = VecReporter::default();
    let mut runner = CountingRunner::default();

    apply_file_operations(
        &disk.snapshot,
        &plan,
        FileApplyOptions { dry_run: true, ..defaults() },
        &mut treeboot_core::file_execution::StepLog::new(&mut runner),
        &mut treeboot_core::output::ReportLog::new(&mut reporter),
    )
    .expect("dry-run should plan");

    assert_eq!(runner.runs, 0);
    assert_eq!(reporter.messages(), ["treeboot: would copy .env -> .env"]);
}

#[test]
fn apply_file_operations_should_map_callback_failures_to_output_errors() {
    for fail_on in [
        FailingCallback::PlanningStarted,
        FailingCallback::PlanningFinished,
        FailingCallback::ExecutionStarted,
        FailingCallback::ActionAdvanced,
        FailingCallback::Finished,
    ] {
        let (disk, plan) = env_copy();
        let mut reporter = FailingCallbackReporter { fail_on };
        let mut runner = CountingRunner::default();

        let error = apply_file_operations(
            &disk.snapshot,
            &plan,
            FileApplyOptions { dry_run: true, ..defaults() },
            &mut treeboot_core::file_execution::StepLog::new(&mut runner),
            &mut treeboot_core::output::ReportLog::new(&mut reporter),
        )
        .expect_err("callback failure should fail apply");

        assert!(matches!(error, Error::Output { .. }), "{fail_on:?} should map to Error::Output");
        assert_eq!(runner.runs, 0, "{fail_on:?} should not mutate during dry-run");
    }
}

fn missing_source_plan() -> ActionPlan {
    let mut missing = operation(FileOperationKind::Copy, ".env", ".env");
    missing.status = PlannedFileStatus::SkippedMissingSource;
    run_plan(vec![missing])
}

#[test]
fn apply_file_operations_should_skip_optional_missing_sources() {
    let disk = Disk::new();
    let mut reporter = VecReporter::default();
    let mut runner = CountingRunner::default();

    apply_file_operations(&disk.snapshot, &missing_source_plan(), defaults(), &mut treeboot_core::file_execution::StepLog::new(&mut runner), &mut treeboot_core::output::ReportLog::new(&mut reporter))
        .expect("missing optional source should skip");

    assert_eq!(reporter.messages(), ["treeboot: skip copy .env; missing source"]);
}

#[test]
fn apply_file_operations_should_skip_optional_missing_sources_with_strict_or_force() {
    for options in [
        FileApplyOptions { strict: true, ..defaults() },
        FileApplyOptions { force: true, ..defaults() },
    ] {
        let disk = Disk::new();
        let mut reporter = VecReporter::default();
        let mut runner = CountingRunner::default();

        apply_file_operations(&disk.snapshot, &missing_source_plan(), options, &mut treeboot_core::file_execution::StepLog::new(&mut runner), &mut treeboot_core::output::ReportLog::new(&mut reporter))
            .expect("missing optional source should skip");

        assert_eq!(reporter.messages(), ["treeboot: skip copy .env; missing source"]);
    }
}

#[test]
fn apply_file_operations_should_report_optional_missing_source_in_dry_run() {
    let disk = Disk::new();
    let mut reporter = VecReporter::default();
    let mut runner = CountingRunner::default();

    apply_file_operations(
        &disk.snapshot,
        &missing_source_plan(),
        FileApplyOptions { dry_run: true, ..defaults() },
        &mut treeboot_core::file_execution::StepLog::new(&mut runner),
        &mut treeboot_core::output::ReportLog::new(&mut reporter),
    )
    .expect("dry-run missing optional source should skip");

    assert_eq!(reporter.messages(), ["treeboot: would skip copy .env; missing source"]);
}

fn file_to_directory() -> (Disk, ActionPlan) {
    let mut disk = Disk::new();
    disk.file("/r/.env");
    disk.dir("/w/.env");
    (disk, run_plan(vec![operation(FileOperationKind::Copy, ".env", ".env")]))
}

#[test]
fn apply_file_operations_should_reject_file_to_directory_target() {
    let (disk, plan) = file_to_directory();
    let mut reporter = VecReporter::default();
    let mut runner = CountingRunner::default();

    let error = apply_file_operations(&disk.snapshot, &plan, defaults(), &mut treeboot_core::file_execution::StepLog::new(&mut runner), &mut treeboot_core::output::ReportLog::new(&mut reporter))
        .expect_err("file to directory should fail");

    assert!(error.message().contains("target is a directory"));
}

#[test]
fn apply_file_operations_should_reject_file_to_directory_target_even_with_force() {
    let (disk, plan) = file_to_directory();
    let mut reporter = VecReporter::default();
    let mut runner = CountingRunner::default();

    let error = apply_file_operations(
        &disk.snapshot,
        &plan,
        FileApplyOptions { force: true, ..defaults() },
        &mut treeboot_core::file_execution::StepLog::new(&mut runner),
        &mut treeboot_core::output::ReportLog::new(&mut reporter),
    )
    .expect_err("force should not replace directory with file");

    assert!(error.message().contains("target is a directory"));
    assert_eq!(runner.runs, 0);
}

#[test]
fn apply_file_operations_should_reject_file_to_directory_target_in_dry_run() {
    let (disk, plan) = file_to_directory();
    let mut reporter = VecReporter::default();
    let mut runner = CountingRunner::default();

    let error = apply_file_operations(
        &disk.snapshot,
        &plan,
        FileApplyOptions { dry_run: true, ..defaults() },
        &mut treeboot_core::file_execution::StepLog::new(&mut runner),
        &mut treeboot_core::output::ReportLog::new(&mut reporter),
    )
    .expect_err("dry-run should report file-to-directory conflict");

    assert!(error.message().contains("target is a directory"));
    assert!(reporter.messages().is_empty());
}

#[test]
fn apply_file_operations_should_reject_directory_to_file_target() {
    let mut disk = Disk::new();
    disk.dir("/r/shared");
    disk.file("/w/shared");
    let plan = run_plan(vec![operation(FileOperationKind::Copy, "shared", "shared")]);
    let mut reporter = VecReporter::default();
    let mut runner = CountingRunner::default();

    let error = apply_file_operations(&disk.snapshot, &plan, defaults(), &mut treeboot_core::file_execution::StepLog::new(&mut runner), &mut treeboot_core::output::ReportLog::new(&mut reporter))
        .expect_err("directory to file should fail");

    assert!(error.message().contains("target is a file or symlink"));
}

#[test]
fn apply_file_operations_should_report_copy_skip_in_dry_run_without_mutation() {
    let mut disk = Disk::new();
    disk.file("/r/.env");
    disk.file("/w/.env");
    let plan = run_plan(vec![operation(FileOperationKind::Copy, ".env", ".env")]);
    let mut reporter = VecReporter::default();
    let mut runner = CountingRunner::default();

    apply_file_operations(
        &disk.snapshot,
        &plan,
        FileApplyOptions { dry_run: true, ..defaults() },
        &mut treeboot_core::file_execution::StepLog::new(&mut runner),
        &mut treeboot_core::output::ReportLog::new(&mut reporter),
    )
    .expect("dry-run copy skip should plan");

    assert_eq!(runner.runs, 0);
    assert_eq!(reporter.messages(), ["treeboot: would skip copy .env; target exists"]);
}

fn tool_symlink(existing: Option<EntryKind>) -> (Disk, ActionPlan) {
    let mut disk = Disk::new();
    disk.file("/r/tool");
    match existing {
        Some(EntryKind::Directory) => disk.dir("/w/.tool"),
        Some(_) => disk.file("/w/.tool"),
        None => disk.missing("/w/.tool"),
    }
    (disk, run_plan(vec![operation(FileOperationKind::Symlink, "tool", ".tool")]))
}

#[test]
fn apply_file_operations_should_force_symlink_over_existing_file() {
    let (disk, plan) = tool_symlink(Some(EntryKind::File));
    let mut reporter = VecReporter::default();
    let mut runner = CountingRunner::default();

    apply_file_operations(
        &disk.snapshot,
        &plan,
        FileApplyOptions { force: true, ..defaults() },
        &mut treeboot_core::file_execution::StepLog::new(&mut runner),
        &mut treeboot_core::output::ReportLog::new(&mut reporter),
    )
    .expect("forced symlink should apply");

    let link = runner
        .steps
        .iter()
        .find_map(|step| match step {
            FsStep::CreateSymlink { link_target, .. } => Some(link_target.clone()),
            _ => None,
        })
        .expect("target should be symlink");
    assert!(!link.starts_with('/'));
}

#[test]
fn apply_file_operations_should_report_symlink_create_in_dry_run() {
    let (disk, plan) = tool_symlink(None);
    let mut reporter = VecReporter::default();
    let mut runner = CountingRunner::default();

    apply_file_operations(
        &disk.snapshot,
        &plan,
        FileApplyOptions { dry_run: true, ..defaults() },
        &mut treeboot_core::file_execution::StepLog::new(&mut runner),
        &mut treeboot_core::output::ReportLog::new(&mut reporter),
    )
    .expect("dry-run symlink should plan");

    assert_eq!(runner.runs, 0);
    assert_eq!(reporter.messages(), ["treeboot: would symlink tool -> .tool"]);
}

#[test]
fn apply_file_operations_should_skip_existing_symlink_target_by_default() {
    let (disk, plan) = tool_symlink(Some(EntryKind::File));
    let mut reporter = VecReporter::default();
    let mut runner = CountingRunner::default();

    apply_file_operations(&disk.snapshot, &plan, defaults(), &mut treeboot_core::file_execution::StepLog::new(&mut runner), &mut treeboot_core::output::ReportLog::new(&mut reporter))
        .expect("existing target should skip");

    assert_eq!(reporter.messages(), ["treeboot: skip symlink .tool; target exists"]);
}

#[test]
fn apply_file_operations_should_reject_existing_symlink_target_in_strict() {
    let (disk, plan) = tool_symlink(Some(EntryKind::File));
    let mut reporter = VecReporter::default();
    let mut runner = CountingRunner::default();

    let error = apply_file_operations(
        &disk.snapshot,
        &plan,
        FileApplyOptions { strict: true, ..defaults() },
        &mut treeboot_core::file_execution::StepLog::new(&mut runner),
        &mut treeboot_core::output::ReportLog::new(&mut reporter),
    )
    .expect_err("strict symlink target should fail");

    assert!(error.message().contains("target exists"));
}

#[test]
fn apply_file_operations_should_reject_symlink_to_existing_directory_even_with_force() {
    let (disk, plan) = tool_symlink(Some(EntryKind::Directory));
    let mut reporter = VecReporter::default();
    let mut runner = CountingRunner::default();

    let error = apply_file_operations(
        &disk.snapshot,
        &plan,
        FileApplyOptions { force: true, ..defaults() },
        &mut treeboot_core::file_execution::StepLog::new(&mut runner),
        &mut treeboot_core::output::ReportLog::new(&mut reporter),
    )
    .expect_err("symlink over directory should fail");

    assert!(error.message().contains("target is a directory"));
}

#[test]
fn apply_file_operations_should_warn_about_symlinks_whose_target_is_missing() {
    let mut disk = Disk::new();
    disk.missing("/w/.tool");
    let plan = run_plan(vec![operation(FileOperationKind::Symlink, "tool", ".tool")]);
    let mut reporter = VecReporter::default();
    let mut runner = CountingRunner::default();

    apply_file_operations(
        &disk.snapshot,
        &plan,
        FileApplyOptions { dry_run: true, verbose: true, ..defaults() },
        &mut treeboot_core::file_execution::StepLog::new(&mut runner),
        &mut treeboot_core::output::ReportLog::new(&mut reporter),
    )
    .expect("dangling symlink should plan");

    assert!(matches!(reporter.events.last(), Some(OutputEvent::FileWarning { .. })));
}

fn sync_operation(source: &str, target: &str) -> PlannedFileOperation {
    operation(FileOperationKind::Sync, source, target)
}

fn dry_run() -> FileApplyOptions {
    FileApplyOptions { dry_run: true, ..defaults() }
}

fn run(disk: &Disk, plan: &ActionPlan, options: FileApplyOptions) -> (Result<usize, Error>, VecReporter, CountingRunner) {
    let mut reporter = VecReporter::default();
    let mut runner = CountingRunner::default();
    let result = apply_file_operations(&disk.snapshot, plan, options, &mut treeboot_core::file_execution::StepLog::new(&mut runner), &mut treeboot_core::output::ReportLog::new(&mut reporter));
    (result, reporter, runner)
}

fn unchanged_env_sync() -> (Disk, ActionPlan) {
    let mut disk = Disk::new();
    disk.file_with("/r/.env", 8, 100);
    disk.file_with("/w/.env", 8, 100);
    (disk, run_plan(vec![sync_operation(".env", ".env")]))
}

#[test]
fn apply_file_operations_should_leave_unchanged_metadata_sync_silent() {
    let (disk, plan) = unchanged_env_sync();

    let (result, reporter, _) = run(&disk, &plan, defaults());

    result.expect("unchanged sync should succeed");
    assert!(reporter.messages().is_empty());
}

#[test]
fn apply_file_operations_should_leave_unchanged_sync_silent_in_dry_run() {
    let (disk, plan) = unchanged_env_sync();

    let (result, reporter, _) = run(&disk, &plan, dry_run());

    result.expect("unchanged dry-run sync should succeed");
    assert!(reporter.messages().is_empty());
}

#[test]
fn apply_file_operations_should_report_metadata_repair_in_dry_run_without_mutation() {
    let mut disk = Disk::new();
    disk.file_with("/r/.env", 8, 200);
    disk.file_with("/w/.env", 8, 100);
    disk.snapshot.contents.push(ContentRecord {
        source_path: "/r/.env".to_owned(),
        target_path: "/w/.env".to_owned(),
        check: ContentCheck::Compared(false),
    });
    let mut sync = sync_operation(".env", ".env");
    sync.compare = Some(SyncCompare::Checksum);
    let plan = run_plan(vec![sync]);

    let (result, reporter, runner) = run(&disk, &plan, dry_run());

    let action_count = result.expect("dry-run sync should report metadata repair");
    assert_eq!(runner.runs, 0);
    assert_eq!(action_count, 1);
    assert_eq!(reporter.messages(), ["treeboot: would sync metadata .env -> .env"]);
}

#[test]
fn apply_file_operations_should_reject_sync_file_to_directory_target() {
    let mut disk = Disk::new();
    disk.file("/r/.env");
    disk.dir("/w/.env");
    let plan = run_plan(vec![sync_operation(".env", ".env")]);

    let (result, _, _) = run(&disk, &plan, defaults());

    let error = result.expect_err("sync file to directory should fail");
    assert!(error.message().contains("target is a directory"));
}

#[test]
fn apply_file_operations_should_reject_sync_directory_to_file_target() {
    let mut disk = Disk::new();
    disk.dir("/r/shared");
    disk.file("/w/shared");
    let plan = run_plan(vec![sync_operation("shared", "shared")]);

    let (result, _, _) = run(&disk, &plan, defaults());

    let error = result.expect_err("sync directory to file should fail");
    assert!(error.message().contains("target is a file or symlink"));
}

#[test]
fn apply_file_operations_should_report_sync_delete_in_dry_run_without_mutation() {
    let mut disk = Disk::new();
    disk.dir("/r/shared");
    disk.dir("/w/shared");
    disk.file("/w/shared/extra");
    disk.missing("/r/shared/extra");
    let mut sync = sync_operation("shared", "shared");
    sync.delete = Some(true);
    let plan = run_plan(vec![sync]);

    let (result, reporter, runner) = run(&disk, &plan, dry_run());

    result.expect("dry-run sync delete should plan");
    assert_eq!(runner.runs, 0);
    assert_eq!(reporter.messages(), ["treeboot: would sync shared -> shared (1 delete)"]);
}

#[test]
fn apply_file_operations_should_report_sync_create_in_dry_run_without_mutation() {
    let mut disk = Disk::new();
    disk.file("/r/.env");
    disk.missing("/w/.env");
    let plan = run_plan(vec![sync_operation(".env", ".env")]);

    let (result, reporter, runner) = run(&disk, &plan, dry_run());

    result.expect("dry-run sync create should plan");
    assert_eq!(runner.runs, 0);
    assert_eq!(reporter.messages(), ["treeboot: would sync .env -> .env"]);
}

#[test]
fn apply_file_operations_should_report_sync_directory_create_in_dry_run() {
    let mut disk = Disk::new();
    disk.dir("/r/shared");
    disk.dir("/r/shared/nested");
    disk.file("/r/shared/nested/config");
    disk.missing("/w/shared");
    disk.missing("/w/shared/nested");
    disk.missing("/w/shared/nested/config");
    let plan = run_plan(vec![sync_operation("shared", "shared")]);

    let (result, reporter, runner) = run(&disk, &plan, dry_run());

    let action_count = result.expect("dry-run sync directory create should plan");
    assert_eq!(runner.runs, 0);
    assert_eq!(action_count, 3);
    assert_eq!(reporter.messages(), ["treeboot: would sync shared -> shared (3 changes)"]);
}

#[test]
fn apply_file_operations_should_report_sync_update_in_dry_run_without_mutation() {
    let mut disk = Disk::new();
    disk.file_with("/r/.env", 10, 100);
    disk.file_with("/w/.env", 4, 100);
    let plan = run_plan(vec![sync_operation(".env", ".env")]);

    let (result, reporter, runner) = run(&disk, &plan, dry_run());

    result.expect("dry-run sync update should plan");
    assert_eq!(runner.runs, 0);
    assert_eq!(reporter.messages(), ["treeboot: would sync .env -> .env"]);
}

#[test]
fn apply_file_operations_should_report_directory_create_in_dry_run_without_mutation() {
    let mut disk = Disk::new();
    disk.dir("/r/shared");
    disk.missing("/w/shared");
    let plan = run_plan(vec![operation(FileOperationKind::Copy, "shared", "shared")]);

    let (result, reporter, runner) = run(&disk, &plan, dry_run());

    result.expect("dry-run directory copy should plan");
    assert_eq!(runner.runs, 0);
    assert_eq!(reporter.messages(), ["treeboot: would copy shared -> shared (1 change)"]);
}

#[test]
fn executor_execute_files_should_count_compact_actions_without_running_steps_in_dry_run() {
    let (disk, plan) = env_copy();
    let mut reporter = VecReporter::default();
    let mut files = treeboot_core::file_operations::SnapshotFileApplier {
        snapshot: disk.snapshot,
        runner: treeboot_core::file_execution::StepLog::new(CountingRunner::default()),
    };
    let executor = treeboot_core::executor::Executor::new(treeboot_core::executor::ExecuteOptions {
        dry_run: true,
        ..treeboot_core::executor::ExecuteOptions::default()
    });

    let report = executor.execute_files(&plan, &mut treeboot_core::output::ReportLog::new(&mut reporter), &mut files).expect("dry run should plan");

    assert_eq!(report.file_action_count, 1);
    assert_eq!(files.runner.inner.runs, 0);
}

#[test]
fn executor_execute_files_should_run_the_steps_of_a_copy() {
    let (disk, plan) = env_copy();
    let mut reporter = VecReporter::default();
    let mut files = treeboot_core::file_operations::SnapshotFileApplier {
        snapshot: disk.snapshot,
        runner: treeboot_core::file_execution::StepLog::new(CountingRunner::default()),
    };
    let executor = treeboot_core::executor::Executor::new(treeboot_core::executor::ExecuteOptions::default());

    let report = executor.execute_files(&plan, &mut treeboot_core::output::ReportLog::new(&mut reporter), &mut files).expect("copy should apply");

    assert_eq!(report.file_action_count, 1);
    assert_eq!(files.runner.inner.runs, 1);
}

fn copied_to(runner: &CountingRunner, target: &str) -> bool {
    runner.steps.iter().any(|step| matches!(step, FsStep::CopyFile { target_path, .. } if target_path == target))
}

fn removed(runner: &CountingRunner, path: &str) -> bool {
    runner.steps.iter().any(|step| matches!(step, FsStep::RemoveAny { path: p } if p == path))
}

fn shared_tree_copy() -> (Disk, ActionPlan) {
    let mut disk = Disk::new();
    disk.dir("/r/shared");
    disk.dir("/r/shared/nested");
    disk.file("/r/shared/nested/config");
    disk.missing("/w/shared");
    disk.missing("/w/shared/nested");
    disk.missing("/w/shared/nested/config");
    (disk, run_plan(vec![operation(FileOperationKind::Copy, "shared", "shared")]))
}

#[test]
fn apply_file_operations_should_copy_missing_directory_tree() {
    let (disk, plan) = shared_tree_copy();

    let (result, reporter, runner) = run(&disk, &plan, defaults());

    let action_count = result.expect("directory tree should copy");
    assert!(copied_to(&runner, "/w/shared/nested/config"));
    assert_eq!(action_count, 3);
    assert_eq!(reporter.messages(), ["treeboot: copy shared -> shared (3 changed)"]);
}

#[test]
fn apply_file_operations_verbose_should_report_concrete_directory_actions() {
    let (disk, plan) = shared_tree_copy();

    let (result, reporter, _) = run(&disk, &plan, FileApplyOptions { verbose: true, ..defaults() });

    result.expect("directory tree should copy");
    assert!(reporter.events.iter().any(|event| matches!(
        event,
        OutputEvent::FileApplied { operation: FileOperationKind::Copy, target, .. }
            if target == "shared/nested/config"
    )));
    assert!(!reporter.events.iter().any(|event| matches!(event, OutputEvent::FileOperationFinished { .. })));
}

#[test]
fn apply_file_operations_should_copy_missing_directory_files_only() {
    let mut disk = Disk::new();
    disk.dir("/r/shared");
    disk.dir("/w/shared");
    disk.file("/r/shared/existing");
    disk.file("/r/shared/missing");
    disk.file("/w/shared/existing");
    disk.missing("/w/shared/missing");
    let plan = run_plan(vec![operation(FileOperationKind::Copy, "shared", "shared")]);

    let (result, _, runner) = run(&disk, &plan, defaults());

    result.expect("directory copy should apply");
    assert!(!copied_to(&runner, "/w/shared/existing"));
    assert!(copied_to(&runner, "/w/shared/missing"));
}

#[test]
fn apply_file_operations_should_force_copy_directory_files_without_deleting_extras() {
    let mut disk = Disk::new();
    disk.dir("/r/shared");
    disk.dir("/w/shared");
    disk.file("/r/shared/existing");
    disk.file("/w/shared/existing");
    disk.file("/w/shared/extra");
    let plan = run_plan(vec![operation(FileOperationKind::Copy, "shared", "shared")]);

    let (result, _, runner) = run(&disk, &plan, FileApplyOptions { force: true, ..defaults() });

    result.expect("forced directory copy should apply");
    assert!(copied_to(&runner, "/w/shared/existing"));
    assert!(!removed(&runner, "/w/shared/extra"));
}

#[test]
fn apply_file_operations_should_reject_existing_directory_in_strict_before_children() {
    let mut disk = Disk::new();
    disk.dir("/r/shared");
    disk.dir("/w/shared");
    disk.file("/r/shared/missing");
    disk.missing("/w/shared/missing");
    let plan = run_plan(vec![operation(FileOperationKind::Copy, "shared", "shared")]);

    let (result, _, runner) = run(&disk, &plan, FileApplyOptions { strict: true, ..defaults() });

    let error = result.expect_err("strict directory conflict should fail");
    assert!(error.message().contains("target directory exists"));
    assert_eq!(runner.runs, 0);
}

#[test]
fn apply_file_operations_should_sync_missing_file() {
    let mut disk = Disk::new();
    disk.file("/r/.env");
    disk.missing("/w/.env");
    let plan = run_plan(vec![sync_operation(".env", ".env")]);

    let (result, reporter, runner) = run(&disk, &plan, defaults());

    result.expect("sync should create missing file");
    assert!(copied_to(&runner, "/w/.env"));
    assert_eq!(reporter.messages(), ["treeboot: sync .env -> .env"]);
}

fn shared_sync_with_extras() -> Disk {
    let mut disk = Disk::new();
    disk.dir("/r/shared");
    disk.dir("/w/shared");
    disk.file("/r/shared/config");
    disk.missing("/w/shared/config");
    disk.file("/w/shared/extra");
    disk.missing("/r/shared/extra");
    disk
}

#[test]
fn apply_file_operations_should_preserve_sync_directory_extras_by_default() {
    let disk = shared_sync_with_extras();
    let plan = run_plan(vec![sync_operation("shared", "shared")]);

    let (result, _, runner) = run(&disk, &plan, defaults());

    result.expect("sync should preserve extras by default");
    assert!(!removed(&runner, "/w/shared/extra"));
}

#[test]
fn apply_file_operations_should_delete_target_only_entries_when_sync_delete_is_true() {
    let mut disk = shared_sync_with_extras();
    disk.dir("/w/shared/extra-dir");
    disk.file("/w/shared/extra-dir/file");
    disk.missing("/r/shared/extra-dir");
    let mut sync = sync_operation("shared", "shared");
    sync.delete = Some(true);
    let plan = run_plan(vec![sync]);

    let (result, reporter, runner) = run(&disk, &plan, defaults());

    result.expect("sync delete should remove target-only entries");
    assert!(removed(&runner, "/w/shared/extra"));
    assert!(removed(&runner, "/w/shared/extra-dir"));
    assert_eq!(reporter.messages(), ["treeboot: sync shared -> shared (1 changed, 2 deleted)"]);
}

#[test]
fn apply_file_operations_should_delete_nested_target_only_entries() {
    let mut disk = Disk::new();
    disk.dir("/r/shared");
    disk.dir("/r/shared/nested");
    disk.dir("/w/shared");
    disk.dir("/w/shared/nested");
    disk.file_with("/r/shared/nested/config", 8, 100);
    disk.file_with("/w/shared/nested/config", 8, 100);
    disk.file("/w/shared/nested/old");
    disk.missing("/r/shared/nested/old");
    let mut sync = sync_operation("shared", "shared");
    sync.delete = Some(true);
    let plan = run_plan(vec![sync]);

    let (result, _, runner) = run(&disk, &plan, defaults());

    result.expect("sync delete should remove nested target-only entries");
    assert!(removed(&runner, "/w/shared/nested/old"));
    assert!(!removed(&runner, "/w/shared/nested/config"));
}

fn env_sync(source: (u64, i64), target: (u64, i64), compare: Option<SyncCompare>) -> (Disk, ActionPlan) {
    let mut disk = Disk::new();
    disk.file_with("/r/.env", source.0, source.1);
    disk.file_with("/w/.env", target.0, target.1);
    let mut sync = sync_operation(".env", ".env");
    sync.compare = compare;
    (disk, run_plan(vec![sync]))
}

fn with_content(mut disk: Disk, differ: bool) -> Disk {
    disk.snapshot.contents.push(ContentRecord {
        source_path: "/r/.env".to_owned(),
        target_path: "/w/.env".to_owned(),
        check: ContentCheck::Compared(differ),
    });
    disk
}

#[test]
fn apply_file_operations_should_update_changed_metadata_sync_file() {
    let (disk, plan) = env_sync((4, 100), (4, 0), None);

    let (result, _, runner) = run(&disk, &plan, defaults());

    result.expect("changed sync should update target");
    assert!(copied_to(&runner, "/w/.env"));
}

#[test]
fn apply_file_operations_should_update_checksum_sync_when_metadata_matches() {
    let (disk, plan) = env_sync((4, 100), (4, 100), Some(SyncCompare::Checksum));
    let disk = with_content(disk, true);

    let (result, _, runner) = run(&disk, &plan, defaults());

    result.expect("checksum sync should update changed content");
    assert!(copied_to(&runner, "/w/.env"));
}

#[test]
fn apply_file_operations_should_leave_unchanged_checksum_sync_silent() {
    let (disk, plan) = env_sync((4, 100), (4, 100), Some(SyncCompare::Checksum));
    let disk = with_content(disk, false);

    let (result, reporter, runner) = run(&disk, &plan, defaults());

    result.expect("unchanged checksum sync should succeed");
    assert!(reporter.messages().is_empty());
    assert!(!copied_to(&runner, "/w/.env"));
}

#[test]
fn apply_file_operations_should_update_checksum_sync_when_size_differs() {
    let (disk, plan) = env_sync((7, 100), (4, 100), Some(SyncCompare::Checksum));

    let (result, _, runner) = run(&disk, &plan, defaults());

    result.expect("checksum sync should update size change");
    assert!(copied_to(&runner, "/w/.env"));
}

#[test]
fn apply_file_operations_should_force_sync_file_like_default() {
    let (disk, plan) = env_sync((4, 100), (4, 0), None);

    let (result, _, runner) = run(&disk, &plan, FileApplyOptions { force: true, ..defaults() });

    result.expect("forced sync should update target");
    assert!(copied_to(&runner, "/w/.env"));
}

/// Records a symlink at `path` pointing to `target`, resolving to
/// `resolved` (or to nothing when `None`).
fn symlink(disk: &mut Disk, path: &str, target: &str, resolved: Option<&str>) {
    disk.add(path, Lookup::Found(metadata(EntryKind::Symlink)));
    disk.snapshot.links.push(LinkRecord { path: path.to_owned(), link: LinkRead::Target(target.to_owned()) });
    disk.snapshot.canonical.push(CanonicalRecord {
        path: path.to_owned(),
        canonical: match resolved {
            Some(r) => Canonical::Resolved(r.to_owned()),
            None => Canonical::Missing,
        },
    });
}

fn symlink_created(runner: &CountingRunner, target: &str) -> Option<String> {
    runner.steps.iter().find_map(|step| match step {
        FsStep::CreateSymlink { target_path, link_target, .. } if target_path == target => Some(link_target.clone()),
        _ => None,
    })
}

#[test]
fn apply_file_operations_should_reject_directory_to_symlink_target() {
    let mut disk = Disk::new();
    disk.dir("/r/shared");
    disk.file("/w/real-target");
    symlink(&mut disk, "/w/shared", "real-target", Some("/w/real-target"));
    let plan = run_plan(vec![operation(FileOperationKind::Copy, "shared", "shared")]);

    let (result, _, runner) = run(&disk, &plan, defaults());

    let error = result.expect_err("directory to symlink should fail");
    assert!(error.message().contains("target is a file or symlink"));
    assert_eq!(runner.runs, 0);
}

#[test]
fn apply_file_operations_should_preserve_copied_source_symlinks() {
    let mut disk = Disk::new();
    disk.dir("/r/shared");
    disk.file("/r/shared/config");
    symlink(&mut disk, "/r/shared/link", "config", Some("/r/shared/config"));
    disk.missing("/w/shared");
    disk.missing("/w/shared/config");
    disk.missing("/w/shared/link");
    let plan = run_plan(vec![operation(FileOperationKind::Copy, "shared", "shared")]);

    let (result, _, runner) = run(&disk, &plan, defaults());

    result.expect("directory copy should apply");
    assert_eq!(symlink_created(&runner, "/w/shared/link"), Some("config".to_owned()));
}

#[test]
fn apply_file_operations_should_warn_for_preserved_symlink_to_uncopied_target() {
    let mut disk = Disk::new();
    disk.dir("/r/shared");
    disk.file("/r/shared/config");
    symlink(&mut disk, "/r/shared/link", "config", Some("/r/shared/config"));
    disk.missing("/w/shared");
    disk.missing("/w/shared/link");
    disk.snapshot.canonical.push(CanonicalRecord {
        path: "/w/shared/config".to_owned(),
        canonical: Canonical::Missing,
    });
    let plan = run_plan(vec![operation(FileOperationKind::Copy, "shared/link", "shared/link")]);

    let (result, reporter, _) = run(&disk, &plan, defaults());

    result.expect("copied symlink should apply");
    assert!(reporter.events.iter().any(|event| matches!(
        event,
        OutputEvent::FileWarning { reason, .. } if reason == "symlink target does not exist"
    )));
}

#[test]
fn apply_file_operations_should_sync_top_level_source_symlink() {
    let mut disk = Disk::new();
    disk.file("/r/config");
    symlink(&mut disk, "/r/link", "config", Some("/r/config"));
    disk.missing("/w/link");
    let plan = run_plan(vec![sync_operation("link", "link")]);

    let (result, _, runner) = run(&disk, &plan, defaults());

    result.expect("sync should create top-level symlink");
    assert_eq!(symlink_created(&runner, "/w/link"), Some("config".to_owned()));
}

#[test]
fn apply_file_operations_should_update_changed_sync_symlink_target() {
    let mut disk = Disk::new();
    disk.file("/r/config");
    disk.file("/r/other");
    symlink(&mut disk, "/r/link", "config", Some("/r/config"));
    symlink(&mut disk, "/w/link", "../r/other", Some("/r/other"));
    let plan = run_plan(vec![sync_operation("link", "link")]);

    let (result, _, runner) = run(&disk, &plan, defaults());

    result.expect("sync should update changed symlink");
    assert_eq!(symlink_created(&runner, "/w/link"), Some("config".to_owned()));
}

#[test]
fn apply_file_operations_should_reject_sync_symlink_to_existing_directory() {
    let mut disk = Disk::new();
    disk.file("/r/tool");
    symlink(&mut disk, "/r/link", "tool", Some("/r/tool"));
    disk.dir("/w/link");
    let plan = run_plan(vec![sync_operation("link", "link")]);

    let (result, _, _) = run(&disk, &plan, defaults());

    let error = result.expect_err("sync symlink over directory should fail");
    assert!(error.message().contains("target is a directory"));
}

#[test]
fn apply_file_operations_should_force_symlink_over_existing_symlink() {
    let mut disk = Disk::new();
    disk.file("/r/tool");
    disk.file("/w/old");
    symlink(&mut disk, "/w/.tool", "old", Some("/w/old"));
    let plan = run_plan(vec![operation(FileOperationKind::Symlink, "tool", ".tool")]);

    let (result, _, runner) = run(&disk, &plan, FileApplyOptions { force: true, ..defaults() });

    result.expect("forced symlink should replace existing symlink");
    let link = symlink_created(&runner, "/w/.tool").expect("target should be symlink");
    assert_ne!(link, "old");
}

#[test]
fn apply_file_operations_should_force_copy_file_over_existing_symlink() {
    let mut disk = Disk::new();
    disk.file("/r/.env");
    disk.file("/w/old");
    symlink(&mut disk, "/w/.env", "old", Some("/w/old"));
    let plan = run_plan(vec![operation(FileOperationKind::Copy, ".env", ".env")]);

    let (result, _, runner) = run(&disk, &plan, FileApplyOptions { force: true, ..defaults() });

    result.expect("force copy should replace target symlink");
    assert!(copied_to(&runner, "/w/.env"));
    assert!(runner
        .steps
        .iter()
        .any(|step| matches!(step, FsStep::RemoveFileChecked { path, .. } if path == "/w/.env")));
}

#[test]
fn apply_file_operations_should_replace_target_symlink_with_sync_file() {
    let mut disk = Disk::new();
    disk.file("/r/.env");
    disk.file("/w/old");
    symlink(&mut disk, "/w/.env", "old", Some("/w/old"));
    let plan = run_plan(vec![sync_operation(".env", ".env")]);

    let (result, _, runner) = run(&disk, &plan, defaults());

    result.expect("sync file should replace target symlink");
    assert!(copied_to(&runner, "/w/.env"));
}

fn with_mode(disk: &mut Disk, path: &str, mode: u32) {
    for record in &mut disk.snapshot.entries {
        if record.path == path {
            if let Lookup::Found(m) = &mut record.lookup {
                m.mode = mode;
            }
        }
    }
}

fn other(disk: &mut Disk, path: &str) {
    disk.add(path, Lookup::Found(metadata(EntryKind::Other)));
}

#[test]
fn apply_file_operations_should_reject_unsupported_source_file_type() {
    let mut disk = Disk::new();
    other(&mut disk, "/r/socket");
    disk.missing("/w/socket");
    let plan = run_plan(vec![operation(FileOperationKind::Copy, "socket", "socket")]);

    let (result, _, _) = run(&disk, &plan, defaults());

    let error = result.expect_err("unsupported source should fail");
    assert!(error.message().contains("source file type is unsupported"));
}

#[test]
fn apply_file_operations_should_reject_unsupported_directory_target_file_type() {
    let mut disk = Disk::new();
    disk.dir("/r/shared");
    other(&mut disk, "/w/shared");
    let plan = run_plan(vec![operation(FileOperationKind::Copy, "shared", "shared")]);

    let (result, _, _) = run(&disk, &plan, defaults());

    let error = result.expect_err("unsupported target should fail");
    assert!(error.message().contains("target file type is unsupported"));
}

#[test]
fn apply_file_operations_should_reject_unsupported_sync_file_target_type() {
    let mut disk = Disk::new();
    disk.file("/r/.env");
    other(&mut disk, "/w/.env");
    let plan = run_plan(vec![sync_operation(".env", ".env")]);

    let (result, _, _) = run(&disk, &plan, defaults());

    let error = result.expect_err("unsupported sync target should fail");
    assert!(error.message().contains("target file type is unsupported"));
}

fn repaired(runner: &CountingRunner, target: &str) -> bool {
    runner.steps.iter().any(|step| matches!(step, FsStep::ApplyMetadata { target_path, .. } if target_path == target))
}

fn shared_dirs(source_mode: u32, target_mode: u32) -> Disk {
    let mut disk = Disk::new();
    disk.dir("/r/shared");
    disk.dir("/w/shared");
    with_mode(&mut disk, "/r/shared", source_mode);
    with_mode(&mut disk, "/w/shared", target_mode);
    disk
}

#[test]
fn apply_file_operations_should_repair_sync_directory_permissions() {
    let disk = shared_dirs(0o700, 0o755);
    let plan = run_plan(vec![sync_operation("shared", "shared")]);

    let (result, reporter, runner) = run(&disk, &plan, defaults());

    result.expect("sync should repair directory permissions");
    assert!(repaired(&runner, "/w/shared"));
    assert_eq!(reporter.messages(), ["treeboot: sync metadata shared -> shared"]);
}

#[test]
fn apply_file_operations_should_repair_directory_metadata_after_child_updates() {
    let mut disk = shared_dirs(0o555, 0o755);
    disk.file_with("/r/shared/config", 4, 100);
    disk.file_with("/w/shared/config", 4, 100);
    disk.snapshot.contents.push(ContentRecord {
        source_path: "/r/shared/config".to_owned(),
        target_path: "/w/shared/config".to_owned(),
        check: ContentCheck::Compared(true),
    });
    let mut sync = sync_operation("shared", "shared");
    sync.compare = Some(SyncCompare::Checksum);
    let plan = run_plan(vec![sync]);

    let (result, reporter, runner) = run(&disk, &plan, defaults());

    result.expect("sync should update children before directory metadata");
    let copy_at = runner
        .steps
        .iter()
        .position(|step| matches!(step, FsStep::CopyFile { target_path, .. } if target_path == "/w/shared/config"))
        .expect("child should be copied");
    let repair_at = runner
        .steps
        .iter()
        .position(|step| matches!(step, FsStep::ApplyMetadata { target_path, .. } if target_path == "/w/shared"))
        .expect("directory metadata should be repaired");
    assert!(copy_at < repair_at);
    assert_eq!(reporter.messages(), ["treeboot: sync shared -> shared (2 changed)"]);
}

#[test]
fn apply_file_operations_should_ignore_sync_directory_permissions_when_configured() {
    let disk = shared_dirs(0o700, 0o755);
    let mut sync = sync_operation("shared", "shared");
    sync.ignore_metadata = vec![treeboot_core::config::MetadataField::Permissions];
    let plan = run_plan(vec![sync]);

    let (result, reporter, runner) = run(&disk, &plan, defaults());

    result.expect("ignored directory metadata drift should not repair");
    assert!(!repaired(&runner, "/w/shared"));
    assert!(reporter.messages().is_empty());
}

#[test]
fn apply_file_operations_should_repair_sync_file_permissions() {
    let (mut disk, plan) = unchanged_env_sync();
    with_mode(&mut disk, "/r/.env", 0o600);
    with_mode(&mut disk, "/w/.env", 0o644);

    let (result, reporter, runner) = run(&disk, &plan, defaults());

    result.expect("metadata drift should repair");
    assert!(repaired(&runner, "/w/.env"));
    assert_eq!(reporter.messages(), ["treeboot: sync metadata .env -> .env"]);
}

#[test]
fn apply_file_operations_should_ignore_sync_file_permissions_when_configured() {
    let (mut disk, _) = unchanged_env_sync();
    with_mode(&mut disk, "/r/.env", 0o600);
    with_mode(&mut disk, "/w/.env", 0o644);
    let mut sync = sync_operation(".env", ".env");
    sync.ignore_metadata = vec![treeboot_core::config::MetadataField::Permissions];
    let plan = run_plan(vec![sync]);

    let (result, reporter, runner) = run(&disk, &plan, defaults());

    result.expect("ignored metadata drift should not repair");
    assert!(!repaired(&runner, "/w/.env"));
    assert!(reporter.messages().is_empty());
}

#[test]
fn executor_execute_should_do_nothing_for_an_empty_plan() {
    let mut files = treeboot_core::file_operations::SnapshotFileApplier {
        snapshot: Disk::new().snapshot,
        runner: treeboot_core::file_execution::StepLog::new(CountingRunner::default()),
    };
    let executor = treeboot_core::executor::Executor::new(treeboot_core::executor::ExecuteOptions::default());
    let mut reporter = FailingCallbackReporter { fail_on: FailingCallback::PlanningStarted };
    let mut commands = NoCommands;

    let report = executor
        .execute(&run_plan(Vec::new()), &mut treeboot_core::output::ReportLog::new(&mut reporter), &mut files, &mut treeboot_core::commands::CommandLog::new(&mut commands))
        .expect("an empty plan should succeed");

    assert_eq!(report.file_action_count, 0);
    assert_eq!(files.runner.inner.runs, 0);
}

struct NoCommands;

impl treeboot_core::commands::CommandRunner for NoCommands {
    fn run_command(
        &mut self,
        _command: &treeboot_core::action_plan::PlannedCommand,
        _context: &Worktree,
    ) -> treeboot_core::commands::CommandOutcome {
        panic!("no command should run")
    }
}

impl treeboot_core::output::Reporter for &mut VecReporter {
    fn report(&mut self, event: treeboot_core::output::OutputEvent) -> Result<(), String> {
        (**self).report(event)
    }
}

impl treeboot_core::output::Reporter for &mut FailingCallbackReporter {
    fn report(&mut self, event: treeboot_core::output::OutputEvent) -> Result<(), String> {
        (**self).report(event)
    }
}

impl treeboot_core::file_execution::StepRunner for &mut CountingRunner {
    fn run_steps<R: treeboot_core::output::Reporter>(
        &mut self,
        steps: &treeboot_core::file_execution::ActionSteps,
        reporter: &mut R,
    ) -> Result<(), treeboot_core::error::Error> {
        (**self).run_steps(steps, reporter)
    }
}

impl treeboot_core::commands::CommandRunner for &mut NoCommands {
    fn run_command(
        &mut self,
        command: &treeboot_core::action_plan::PlannedCommand,
        context: &treeboot_core::context::Worktree,
    ) -> treeboot_core::commands::CommandOutcome {
        (**self).run_command(command, context)
    }
}
