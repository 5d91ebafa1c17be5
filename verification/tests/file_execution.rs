use treeboot_core::action_plan::{ActionPlan, PlanOrigin, PlannedFileOperation, PlannedFileStatus};
use treeboot_core::config::FileOperationKind;
use treeboot_core::context::Worktree;
use treeboot_core::error::Error;
use treeboot_core::executor::FileApplyOptions;
use treeboot_core::file_actions::{FileAction, MetadataPolicy, MetadataTarget, PlannedFileOperationActions};
use treeboot_core::file_execution::{
    action_steps, execute_file_operation_group, ActionSteps, FileExecutionOptions, FsStep, StepRunner,
};
use treeboot_core::file_operations::{apply_file_operations, prepare_file_operations};
use treeboot_core::file_system::{EntryKind, EntryMetadata, ModifiedTime, Timestamp};
use treeboot_core::fs_snapshot::{EntryRecord, FsSnapshot, Listing, ListingRecord, Lookup};
use treeboot_core::output::{OutputEvent, Reporter};

#[derive(Default)]
struct VecReporter {
    events: Vec<OutputEvent>,
}

impl Reporter for VecReporter {
    fn report(&mut self, event: OutputEvent) -> Result<(), String> {
        self.events.push(event);
        Ok(())
    }
}

struct FailingReporter;

impl Reporter for FailingReporter {
    fn report(&mut self, _event: OutputEvent) -> Result<(), String> {
        Err("broken pipe".to_owned())
    }
}

/// Records the steps it is asked to run instead of touching files.
#[derive(Default, PartialEq, Debug)]
struct RecordingRunner {
    runs: Vec<ActionSteps>,
}

impl StepRunner for RecordingRunner {
    fn run_steps<R: Reporter>(&mut self, steps: &ActionSteps, _reporter: &mut R) -> Result<(), Error> {
        self.runs.push(steps.clone());
        Ok(())
    }
}

fn group(actions: Vec<FileAction>) -> PlannedFileOperationActions {
    PlannedFileOperationActions {
        operation: FileOperationKind::Copy,
        source: "source".to_owned(),
        target: "target".to_owned(),
        expanded: true,
        actions,
    }
}

fn all_actions() -> Vec<FileAction> {
    vec![
        FileAction::CreateDirectory {
            operation: FileOperationKind::Copy,
            source: "shared".to_owned(),
            target: "shared".to_owned(),
            target_path: "/w/shared".to_owned(),
        },
        FileAction::CopyFile {
            operation: FileOperationKind::Copy,
            source: ".env".to_owned(),
            target: ".env".to_owned(),
            source_path: "/r/.env".to_owned(),
            target_path: "/w/.env".to_owned(),
            metadata_policy: MetadataPolicy::default(),
            replace: false,
        },
        FileAction::CreateSymlink {
            operation: FileOperationKind::Symlink,
            source: "tool".to_owned(),
            target: ".tool".to_owned(),
            target_path: "/w/.tool".to_owned(),
            preserved_source_path: None,
            link_target: "tool".to_owned(),
            final_target: "/r/tool".to_owned(),
            target_is_dir: false,
            replace: false,
        },
        FileAction::RepairMetadata {
            operation: FileOperationKind::Sync,
            source: "source".to_owned(),
            target: "target".to_owned(),
            source_path: "/r/source".to_owned(),
            target_path: "/w/target".to_owned(),
            metadata_policy: MetadataPolicy::default(),
            target_kind: MetadataTarget::File,
            report: true,
        },
        FileAction::RepairMetadata {
            operation: FileOperationKind::Sync,
            source: "quiet-source".to_owned(),
            target: "quiet-target".to_owned(),
            source_path: "/r/quiet-source".to_owned(),
            target_path: "/w/quiet-target".to_owned(),
            metadata_policy: MetadataPolicy::default(),
            target_kind: MetadataTarget::File,
            report: false,
        },
        FileAction::Delete { target: "old".to_owned(), target_path: "/w/old".to_owned() },
        FileAction::Skip {
            operation: FileOperationKind::Copy,
            target: "existing".to_owned(),
            reason: "target exists".to_owned(),
        },
        FileAction::Warning {
            path: "link".to_owned(),
            reason: "symlink target does not exist".to_owned(),
        },
    ]
}

#[test]
fn execute_file_operation_group_should_report_verbose_dry_run_actions() {
    let actions = group(all_actions());
    let mut reporter = VecReporter::default();
    let mut runner = RecordingRunner::default();

    let action_count = execute_file_operation_group(
        &actions,
        FileExecutionOptions { dry_run: true, verbose: true },
        &mut treeboot_core::file_execution::StepLog::new(&mut runner),
        &mut treeboot_core::output::ReportLog::new(&mut reporter),
    )
    .expect("dry-run execution should report");

    assert_eq!(action_count, 6);
    assert!(runner.runs.is_empty());
    assert_eq!(reporter.events.len(), 7);
    assert!(matches!(reporter.events[0], OutputEvent::FileWouldApply { .. }));
    assert!(matches!(reporter.events[1], OutputEvent::FileWouldApply { .. }));
    assert!(matches!(reporter.events[2], OutputEvent::FileWouldApply { .. }));
    assert!(matches!(reporter.events[3], OutputEvent::FileMetadataWouldApply { .. }));
    assert!(matches!(reporter.events[4], OutputEvent::FileWouldDelete { .. }));
    assert!(matches!(reporter.events[5], OutputEvent::FileWouldSkip { .. }));
    assert!(matches!(reporter.events[6], OutputEvent::FileWarning { .. }));
}

#[test]
fn execute_file_operation_group_should_apply_verbose_actions_and_report_each() {
    let actions = group(all_actions());
    let mut reporter = VecReporter::default();
    let mut runner = RecordingRunner::default();

    let action_count = execute_file_operation_group(
        &actions,
        FileExecutionOptions { dry_run: false, verbose: true },
        &mut treeboot_core::file_execution::StepLog::new(&mut runner),
        &mut treeboot_core::output::ReportLog::new(&mut reporter),
    )
    .expect("execution should apply");

    assert_eq!(action_count, 6);
    assert_eq!(runner.runs.len(), 8);
    assert_eq!(reporter.events.len(), 7);
    assert!(matches!(reporter.events[0], OutputEvent::FileApplied { .. }));
    assert!(matches!(reporter.events[3], OutputEvent::FileMetadataApplied { .. }));
    assert!(matches!(reporter.events[4], OutputEvent::FileDeleted { .. }));
    assert!(matches!(reporter.events[5], OutputEvent::FileSkipped { .. }));
    assert!(matches!(reporter.events[6], OutputEvent::FileWarning { .. }));
}

#[test]
fn execute_file_operation_group_should_bracket_compact_progress() {
    let actions = group(all_actions());
    let mut reporter = VecReporter::default();
    let mut runner = RecordingRunner::default();

    let action_count = execute_file_operation_group(
        &actions,
        FileExecutionOptions { dry_run: false, verbose: false },
        &mut treeboot_core::file_execution::StepLog::new(&mut runner),
        &mut treeboot_core::output::ReportLog::new(&mut reporter),
    )
    .expect("execution should apply");

    assert_eq!(action_count, 6);
    // Start, one advance per counted action, the warning, then the summary.
    assert_eq!(reporter.events.len(), 9);
    assert!(matches!(
        reporter.events[0],
        OutputEvent::FileOperationExecutionStarted { action_count: 6, .. }
    ));
    let advanced = reporter
        .events
        .iter()
        .filter(|event| matches!(event, OutputEvent::FileOperationActionAdvanced { .. }))
        .count();
    assert_eq!(advanced, 6);
    assert!(matches!(reporter.events[7], OutputEvent::FileWarning { .. }));
    match &reporter.events[8] {
        OutputEvent::FileOperationFinished { summary, dry_run, .. } => {
            assert!(!dry_run);
            assert_eq!(summary.changed, 4);
            assert_eq!(summary.deleted, 1);
            assert_eq!(summary.skipped, 1);
            assert_eq!(summary.warnings, 1);
        }
        other => panic!("unexpected event {other:?}"),
    }
}

#[test]
fn execute_file_operation_group_should_do_nothing_for_empty_groups() {
    let mut reporter = VecReporter::default();
    let mut runner = RecordingRunner::default();

    let count = execute_file_operation_group(
        &group(Vec::new()),
        FileExecutionOptions::default(),
        &mut treeboot_core::file_execution::StepLog::new(&mut runner),
        &mut treeboot_core::output::ReportLog::new(&mut reporter),
    )
    .expect("empty group should succeed");

    assert_eq!(count, 0);
    assert!(reporter.events.is_empty());
}

#[test]
fn execute_file_operation_group_should_map_reporting_failures_to_output_errors() {
    let mut runner = RecordingRunner::default();

    let error = execute_file_operation_group(
        &group(all_actions()),
        FileExecutionOptions { dry_run: true, verbose: false },
        &mut treeboot_core::file_execution::StepLog::new(&mut runner),
        &mut treeboot_core::output::ReportLog::new(FailingReporter),
    )
    .expect_err("reporting should fail");

    assert!(matches!(error, Error::Output { .. }));
}

#[test]
fn action_steps_should_replace_before_copying_when_forced() {
    let action = FileAction::CopyFile {
        operation: FileOperationKind::Copy,
        source: ".env".to_owned(),
        target: ".env".to_owned(),
        source_path: "/r/.env".to_owned(),
        target_path: "/w/.env".to_owned(),
        metadata_policy: MetadataPolicy::default(),
        replace: true,
    };

    let steps = action_steps(&action, false);

    assert!(steps.checks.is_empty());
    assert_eq!(steps.writable_parent, Some((FileOperationKind::Copy, "/w/.env".to_owned())));
    assert_eq!(steps.main.len(), 3);
    assert!(matches!(steps.main[0], FsStep::CreateParentDir { .. }));
    assert!(matches!(steps.main[1], FsStep::RemoveFileChecked { .. }));
    assert!(matches!(steps.main[2], FsStep::CopyFile { .. }));
    assert_eq!(steps.event, None);
}

#[test]
fn action_steps_should_check_preserved_symlinks_first() {
    let action = FileAction::CreateSymlink {
        operation: FileOperationKind::Copy,
        source: "link".to_owned(),
        target: "link".to_owned(),
        target_path: "/w/link".to_owned(),
        preserved_source_path: Some("/r/link".to_owned()),
        link_target: "file".to_owned(),
        final_target: "/w/file".to_owned(),
        target_is_dir: false,
        replace: false,
    };

    let steps = action_steps(&action, true);

    assert_eq!(steps.checks.len(), 1);
    assert!(matches!(steps.checks[0], FsStep::EnsurePreservedSymlinkSafe { .. }));
    assert_eq!(steps.main.len(), 2);
    assert!(matches!(steps.event, Some(OutputEvent::FileApplied { .. })));
}

fn found(kind: EntryKind) -> Lookup {
    Lookup::Found(EntryMetadata {
        kind,
        len: 3,
        modified: ModifiedTime::Known(Timestamp { secs: 10, nanos: 0 }),
        mode: 0o644,
        uid: 1,
        gid: 1,
    })
}

fn symlink_plan() -> (FsSnapshot, ActionPlan) {
    let snapshot = FsSnapshot {
        entries: vec![
            EntryRecord { path: "/r/tool".to_owned(), lookup: found(EntryKind::File) },
            EntryRecord {
                path: "/w/.tool".to_owned(),
                lookup: Lookup::Missing("No such file or directory".to_owned()),
            },
        ],
        listings: vec![ListingRecord { path: "/r".to_owned(), listing: Listing::Names(vec!["tool".to_owned()]) }],
        links: Vec::new(),
        followed_dirs: Vec::new(),
        contents: Vec::new(),
        canonical: Vec::new(),
    };
    let context = Worktree::from_parts("/r".to_owned(), "/w".to_owned(), "main".to_owned(), vec![]);
    let operation = PlannedFileOperation {
        operation: FileOperationKind::Symlink,
        source: "tool".to_owned(),
        target: ".tool".to_owned(),
        source_path: "/r/tool".to_owned(),
        target_path: "/w/.tool".to_owned(),
        status: PlannedFileStatus::Ready,
        compare: None,
        delete: None,
        symlinks: None,
        ignore: Vec::new(),
        include_patterns: Vec::new(),
        ignore_metadata: Vec::new(),
    };
    let plan = ActionPlan::from_parts(context, PlanOrigin::Manual, vec![operation], Vec::new(), Vec::new());
    (snapshot, plan)
}

#[test]
fn prepare_file_operations_should_report_planning_progress() {
    let (snapshot, plan) = symlink_plan();
    let mut reporter = VecReporter::default();

    let prepared = prepare_file_operations(
        &snapshot,
        &plan,
        FileApplyOptions { strict: false, force: false, dry_run: true, verbose: false },
        &mut treeboot_core::output::ReportLog::new(&mut reporter),
    )
    .expect("planning should succeed");

    assert_eq!(prepared.groups.len(), 1);
    assert!(matches!(prepared.groups[0].actions[0], FileAction::CreateSymlink { .. }));
    assert_eq!(reporter.events.len(), 2);
    assert!(matches!(reporter.events[0], OutputEvent::FileOperationPlanningStarted { .. }));
    assert!(matches!(
        reporter.events[1],
        OutputEvent::FileOperationPlanningFinished { action_count: 1, .. }
    ));
}

#[test]
fn apply_file_operations_should_report_symlink_dry_run_without_running_steps() {
    let (snapshot, plan) = symlink_plan();
    let mut reporter = VecReporter::default();
    let mut runner = RecordingRunner::default();

    let count = apply_file_operations(
        &snapshot,
        &plan,
        FileApplyOptions { strict: false, force: false, dry_run: true, verbose: true },
        &mut treeboot_core::file_execution::StepLog::new(&mut runner),
        &mut treeboot_core::output::ReportLog::new(&mut reporter),
    )
    .expect("dry run should succeed");

    assert_eq!(count, 1);
    assert!(runner.runs.is_empty());
    assert!(matches!(reporter.events[0], OutputEvent::FileWouldApply { .. }));
}

#[test]
fn apply_file_operations_should_run_planned_steps() {
    let (snapshot, plan) = symlink_plan();
    let mut reporter = VecReporter::default();
    let mut runner = RecordingRunner::default();

    let count = apply_file_operations(
        &snapshot,
        &plan,
        FileApplyOptions { strict: false, force: false, dry_run: false, verbose: true },
        &mut treeboot_core::file_execution::StepLog::new(&mut runner),
        &mut treeboot_core::output::ReportLog::new(&mut reporter),
    )
    .expect("apply should succeed");

    assert_eq!(count, 1);
    assert!(matches!(runner.runs[0].main.last(), Some(FsStep::CreateSymlink { .. })));
}


#[test]
fn execute_file_operation_group_should_apply_verbose_file_actions() {
    let actions = group(all_actions().into_iter().take(3).collect());
    let mut reporter = VecReporter::default();
    let mut runner = RecordingRunner::default();

    let action_count = execute_file_operation_group(
        &actions,
        FileExecutionOptions { dry_run: false, verbose: true },
        &mut treeboot_core::file_execution::StepLog::new(&mut runner),
        &mut treeboot_core::output::ReportLog::new(&mut reporter),
    )
    .expect("verbose execution should apply actions");

    assert_eq!(action_count, 3);
    assert!(runner.runs.iter().any(|steps| steps
        .main
        .iter()
        .any(|step| matches!(step, FsStep::CopyFile { target_path, .. } if target_path == "/w/.env"))));
    assert_eq!(reporter.events.len(), 3);
    assert!(reporter.events.iter().all(|event| matches!(event, OutputEvent::FileApplied { .. })));
}

#[test]
fn execute_file_operation_group_should_report_verbose_metadata_delete_skip_and_warning() {
    let actions = group(all_actions().into_iter().skip(3).collect());
    let mut reporter = VecReporter::default();
    let mut runner = RecordingRunner::default();

    let action_count = execute_file_operation_group(
        &actions,
        FileExecutionOptions { dry_run: false, verbose: true },
        &mut treeboot_core::file_execution::StepLog::new(&mut runner),
        &mut treeboot_core::output::ReportLog::new(&mut reporter),
    )
    .expect("verbose execution should report non-apply actions");

    assert_eq!(action_count, 3);
    assert!(runner.runs.iter().any(|steps| steps
        .main
        .iter()
        .any(|step| matches!(step, FsStep::RemoveAny { path } if path == "/w/old"))));
    assert_eq!(reporter.events.len(), 4);
    assert!(matches!(reporter.events[0], OutputEvent::FileMetadataApplied { .. }));
    assert!(matches!(reporter.events[1], OutputEvent::FileDeleted { .. }));
    assert!(matches!(reporter.events[2], OutputEvent::FileSkipped { .. }));
    assert!(matches!(reporter.events[3], OutputEvent::FileWarning { .. }));
}

impl treeboot_core::output::Reporter for &mut VecReporter {
    fn report(&mut self, event: treeboot_core::output::OutputEvent) -> Result<(), String> {
        (**self).report(event)
    }
}

impl treeboot_core::file_execution::StepRunner for &mut RecordingRunner {
    fn run_steps<R: treeboot_core::output::Reporter>(
        &mut self,
        steps: &treeboot_core::file_execution::ActionSteps,
        reporter: &mut R,
    ) -> Result<(), treeboot_core::error::Error> {
        (**self).run_steps(steps, reporter)
    }
}

#[test]
fn action_steps_should_check_the_parent_before_repairing_metadata() {
    let action = FileAction::RepairMetadata {
        operation: FileOperationKind::Sync,
        source: "source".to_owned(),
        target: "linked/target".to_owned(),
        source_path: "/r/source".to_owned(),
        target_path: "/w/linked/target".to_owned(),
        metadata_policy: MetadataPolicy::default(),
        target_kind: MetadataTarget::File,
        report: true,
    };

    let steps = action_steps(&action, true);

    assert_eq!(
        steps.checks,
        vec![FsStep::CheckTargetParent { operation: FileOperationKind::Sync, target_path: "/w/linked/target".to_owned() }]
    );
    assert_eq!(steps.writable_parent, None);
    assert!(matches!(steps.main[..], [FsStep::ApplyMetadata { .. }]));
}
