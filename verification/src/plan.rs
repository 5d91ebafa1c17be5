//! Bootstrap reports: what planning decided for each file operation and
//! command.

use vstd::prelude::*;
use crate::action_plan::ActionPlan;
use crate::check::WorktreeSnapshot;
use crate::commands::{CommandLog, CommandRunner, command_label, execute_commands, label_text, report};
use crate::config::FileOperationKind;
use crate::context::Worktree;
use crate::file_actions::{
    FileAction, PlannedFileOperationActions, count_where, first_skip_reason, is_change,
    is_metadata_change, summarizes, lemma_count_bounded,
};
use crate::error::Error;
use crate::executor::FileApplyOptions;
use crate::file_execution::{StepLog, StepRunner};
use crate::file_operations::{
    PreparedFileOperations, capped, execute_prepared_file_operations, groups_failed, groups_run, no_actions,
    total_progress,
};
use crate::executor::commands_stage;
use crate::fs_snapshot::FsSnapshot;
use crate::file_operations::{
    planning_announced, planning_error, prepare_file_operations, prepares, refused_last,
};
use crate::runtime::{RuntimePolicy, resolved_options};
use crate::file_execution::HandedEvents;
use crate::config::ConfigRuntimeOptions;
use crate::output::{FileOperationSummary, OutputEvent, ReportLog, Reporter};
use crate::text::{copy_string, copy_strings, string_views, owned};

verus! {

/// Action represented by a bootstrap report.
#[derive(Debug, Clone, PartialEq, Eq)]
#[non_exhaustive]
pub enum BootstrapAction {
    /// No config was detected.
    MissingConfig,
    /// Planning started from the root checkout and had no work to do.
    RootWorktreeSkipped,
    /// A declarative config was planned.
    Config { path: String },
}

/// Aggregate file decisions in a bootstrap report.
#[derive(Debug, Clone, Copy, PartialEq, Eq, Structural)]
pub struct BootstrapFileSummary {
    pub changed: usize,
    pub skipped: usize,
    pub deleted: usize,
    pub metadata_changed: usize,
    pub file_warnings: usize,
}

/// File decisions for one top-level operation.
#[derive(Debug, Clone, PartialEq, Eq)]
pub struct BootstrapFileOperationSummary {
    pub changed: usize,
    pub skipped: usize,
    pub deleted: usize,
    pub metadata_changed: usize,
    pub file_warnings: usize,
    pub expanded: bool,
    /// Reason for a single unexpanded skip.
    pub skip_reason: Option<String>,
}

/// File decisions for one declared operation.
#[derive(Debug, Clone, PartialEq, Eq)]
pub struct BootstrapFileOperation {
    pub operation: FileOperationKind,
    pub source: String,
    pub target: String,
    pub summary: BootstrapFileOperationSummary,
}

/// Configured command represented by a bootstrap report.
#[derive(Debug, Clone, PartialEq, Eq)]
pub struct BootstrapCommand {
    pub label: String,
    pub allow_failure: bool,
}

/// Non-fatal file warning represented by a bootstrap report.
#[derive(Debug, Clone, PartialEq, Eq)]
pub struct BootstrapWarning {
    pub path: String,
    pub reason: String,
}

/// Complete bootstrap planning and execution report.
#[derive(Debug, Clone, PartialEq, Eq)]
pub struct BootstrapReport {
    pub context: WorktreeSnapshot,
    pub action: BootstrapAction,
    /// Whether the planned files include a change or deletion.
    pub has_file_changes: bool,
    pub file_summary: BootstrapFileSummary,
    /// File decisions in declaration order.
    pub files: Vec<BootstrapFileOperation>,
    /// Whether configured commands were omitted.
    pub commands_skipped: bool,
    /// Configured commands in declaration order.
    pub commands: Vec<BootstrapCommand>,
    pub validation_warnings: Vec<String>,
    /// Concrete file-planning warnings, in plan order.
    pub file_warnings: Vec<BootstrapWarning>,
    /// Warnings produced while applying files.
    pub execution_warnings: Vec<BootstrapWarning>,
}

/// Whether `r` reports the decisions of `group`: its counts, and the skip
/// reason only when the operation was not expanded.
pub open spec fn reports_operation(r: BootstrapFileOperation, group: PlannedFileOperationActions) -> bool {
    let a = group.actions@;
    &&& r.operation == group.operation
    &&& r.source == group.source
    &&& r.target == group.target
    &&& r.summary.changed == count_where(a, |x: FileAction| is_change(x))
    &&& r.summary.skipped == count_where(a, |x: FileAction| x is Skip)
    &&& r.summary.deleted == count_where(a, |x: FileAction| x is Delete)
    &&& r.summary.metadata_changed == count_where(a, |x: FileAction| is_metadata_change(x))
    &&& r.summary.file_warnings == count_where(a, |x: FileAction| x is Warning)
    &&& r.summary.expanded == group.expanded
    &&& match r.summary.skip_reason {
        Some(s) => !group.expanded && first_skip_reason(a) == Some(s@),
        None => group.expanded || first_skip_reason(a).is_none(),
    }
}

/// The report of one planned operation.
pub fn operation_report(group: &PlannedFileOperationActions) -> (res: BootstrapFileOperation)
    ensures
        reports_operation(res, *group),
{
    let summary: FileOperationSummary = group.summary();
    BootstrapFileOperation {
        operation: group.operation,
        source: copy_string(&group.source),
        target: copy_string(&group.target),
        summary: BootstrapFileOperationSummary {
            changed: summary.changed,
            skipped: summary.skipped,
            deleted: summary.deleted,
            metadata_changed: summary.metadata_changed,
            file_warnings: summary.warnings,
            expanded: summary.expanded,
            skip_reason: if summary.expanded {
                None
            } else {
                summary.skip_reason
            },
        },
    }
}

/// Total of one count over several operation reports.
pub open spec fn total(files: Seq<BootstrapFileOperation>, f: spec_fn(BootstrapFileOperationSummary) -> nat) -> nat
    decreases files.len(),
{
    if files.len() == 0 {
        0
    } else {
        total(files.drop_last(), f) + f(files.last().summary)
    }
}

/// Number of actions over all groups.
pub open spec fn action_total(groups: Seq<PlannedFileOperationActions>) -> nat
    decreases groups.len(),
{
    if groups.len() == 0 {
        0
    } else {
        action_total(groups.drop_last()) + groups.last().actions@.len()
    }
}

/// The warnings of the planned actions, in plan order.
pub open spec fn warnings_of(actions: Seq<FileAction>) -> Seq<(Seq<char>, Seq<char>)>
    decreases actions.len(),
{
    if actions.len() == 0 {
        Seq::empty()
    } else {
        warnings_of(actions.drop_last()) + match actions.last() {
            FileAction::Warning { path, reason } => seq![(path@, reason@)],
            _ => Seq::empty(),
        }
    }
}

/// The warnings of all groups, in plan order.
pub open spec fn group_warnings(groups: Seq<PlannedFileOperationActions>) -> Seq<(Seq<char>, Seq<char>)>
    decreases groups.len(),
{
    if groups.len() == 0 {
        Seq::empty()
    } else {
        group_warnings(groups.drop_last()) + warnings_of(groups.last().actions@)
    }
}

/// The views of report warnings.
pub open spec fn warning_views(w: Seq<BootstrapWarning>) -> Seq<(Seq<char>, Seq<char>)> {
    w.map_values(|x: BootstrapWarning| (x.path@, x.reason@))
}

proof fn lemma_action_total_prefix(groups: Seq<PlannedFileOperationActions>, i: int)
    requires
        0 <= i < groups.len(),
    ensures
        action_total(groups.take(i + 1)) == action_total(groups.take(i)) + groups[i].actions@.len(),
        action_total(groups.take(i + 1)) <= action_total(groups),
    decreases groups.len() - i,
{
    assert(groups.take(i + 1).drop_last() =~= groups.take(i));
    if i + 1 < groups.len() {
        lemma_action_total_prefix(groups, i + 1);
    } else {
        assert(groups.take(i + 1) =~= groups);
    }
}

fn collect_warnings(actions: &Vec<FileAction>, out: &mut Vec<BootstrapWarning>)
    ensures
        warning_views(final(out)@) == warning_views(old(out)@) + warnings_of(actions@),
{
    let ghost start = old(out)@;
    let mut i: usize = 0;
    while i < actions.len()
        invariant
            i <= actions.len(),
            warning_views(out@) == warning_views(start) + warnings_of(actions@.take(i as int)),
        decreases actions.len() - i,
    {
        proof {
            assert(actions@.take(i + 1).drop_last() =~= actions@.take(i as int));
        }
        let ghost before = out@;
        match &actions[i] {
            FileAction::Warning { path, reason } => {
                out.push(BootstrapWarning { path: copy_string(path), reason: copy_string(reason) });
                proof {
                    assert(warning_views(out@) =~= warning_views(before) + seq![(path@, reason@)]);
                }
            },
            _ => {},
        }
        proof {
            assert(warning_views(start) + warnings_of(actions@.take(i + 1)) =~= warning_views(start)
                + warnings_of(actions@.take(i as int)) + match actions@[i as int] {
                FileAction::Warning { path, reason } => seq![(path@, reason@)],
                _ => Seq::<(Seq<char>, Seq<char>)>::empty(),
            });
        }
        i = i + 1;
    }
    assert(actions@.take(actions.len() as int) =~= actions@);
}

/// Builds the bootstrap report of a planned config: one report per planned
/// operation, their totals, the file warnings in plan order and, unless
/// skipped, the labels of the plan's commands.
pub fn build_report(
    plan: &ActionPlan,
    action: BootstrapAction,
    groups: &Vec<PlannedFileOperationActions>,
    commands_skipped: bool,
    validation_warnings: Vec<String>,
) -> (res: BootstrapReport)
    requires
        action_total(groups@) <= usize::MAX,
    ensures
        res.action == action,
        res.context.root_path == plan.context.root_path,
        res.context.worktree_path == plan.context.worktree_path,
        res.context.default_branch == plan.context.default_branch,
        res.files.len() == groups.len(),
        forall|i: int| 0 <= i < groups.len() ==> reports_operation(#[trigger] res.files[i], groups[i]),
        res.file_summary.changed == total(res.files@, |s: BootstrapFileOperationSummary| s.changed as nat),
        res.file_summary.skipped == total(res.files@, |s: BootstrapFileOperationSummary| s.skipped as nat),
        res.file_summary.deleted == total(res.files@, |s: BootstrapFileOperationSummary| s.deleted as nat),
        res.file_summary.metadata_changed == total(
            res.files@,
            |s: BootstrapFileOperationSummary| s.metadata_changed as nat,
        ),
        res.file_summary.file_warnings == total(
            res.files@,
            |s: BootstrapFileOperationSummary| s.file_warnings as nat,
        ),
        res.has_file_changes == (res.file_summary.changed > 0 || res.file_summary.deleted > 0),
        warning_views(res.file_warnings@) == group_warnings(groups@),
        res.commands_skipped == commands_skipped,
        commands_skipped ==> res.commands.len() == 0,
        !commands_skipped ==> res.commands.len() == plan.commands.len() && forall|i: int|
            0 <= i < plan.commands.len() ==> #[trigger] res.commands[i].label@ == label_text(
                plan.commands[i],
            ) && res.commands[i].allow_failure == plan.commands[i].allow_failure,
        res.validation_warnings == validation_warnings,
        res.execution_warnings.len() == 0,
{
    let mut files: Vec<BootstrapFileOperation> = Vec::new();
    let mut summary = BootstrapFileSummary {
        changed: 0,
        skipped: 0,
        deleted: 0,
        metadata_changed: 0,
        file_warnings: 0,
    };
    let mut file_warnings: Vec<BootstrapWarning> = Vec::new();
    let mut g: usize = 0;
    while g < groups.len()
        invariant
            g <= groups.len(),
            action_total(groups@) <= usize::MAX,
            files.len() == g,
            forall|i: int| 0 <= i < g ==> reports_operation(#[trigger] files[i], groups[i]),
            summary.changed == total(files@, |s: BootstrapFileOperationSummary| s.changed as nat),
            summary.skipped == total(files@, |s: BootstrapFileOperationSummary| s.skipped as nat),
            summary.deleted == total(files@, |s: BootstrapFileOperationSummary| s.deleted as nat),
            summary.metadata_changed == total(
                files@,
                |s: BootstrapFileOperationSummary| s.metadata_changed as nat,
            ),
            summary.file_warnings == total(
                files@,
                |s: BootstrapFileOperationSummary| s.file_warnings as nat,
            ),
            summary.changed <= action_total(groups@.take(g as int)),
            summary.skipped <= action_total(groups@.take(g as int)),
            summary.deleted <= action_total(groups@.take(g as int)),
            summary.metadata_changed <= action_total(groups@.take(g as int)),
            summary.file_warnings <= action_total(groups@.take(g as int)),
            warning_views(file_warnings@) == group_warnings(groups@.take(g as int)),
        decreases groups.len() - g,
    {
        let report = operation_report(&groups[g]);
        proof {
            lemma_action_total_prefix(groups@, g as int);
            let a = groups@[g as int].actions@;
            lemma_count_bounded(a, |x: FileAction| is_change(x));
            lemma_count_bounded(a, |x: FileAction| x is Skip);
            lemma_count_bounded(a, |x: FileAction| x is Delete);
            lemma_count_bounded(a, |x: FileAction| is_metadata_change(x));
            lemma_count_bounded(a, |x: FileAction| x is Warning);
            assert(groups@.take(g + 1).drop_last() =~= groups@.take(g as int));
        }
        summary.changed = summary.changed + report.summary.changed;
        summary.skipped = summary.skipped + report.summary.skipped;
        summary.deleted = summary.deleted + report.summary.deleted;
        summary.metadata_changed = summary.metadata_changed + report.summary.metadata_changed;
        summary.file_warnings = summary.file_warnings + report.summary.file_warnings;
        let ghost before = files@;
        files.push(report);
        proof {
            assert(files@.drop_last() =~= before);
        }
        collect_warnings(&groups[g].actions, &mut file_warnings);
        g = g + 1;
    }
    proof {
        assert(groups@.take(groups.len() as int) =~= groups@);
    }
    let mut commands: Vec<BootstrapCommand> = Vec::new();
    if !commands_skipped {
        let mut i: usize = 0;
        while i < plan.commands.len()
            invariant
                i <= plan.commands.len(),
                commands.len() == i,
                forall|j: int|
                    0 <= j < i ==> #[trigger] commands[j].label@ == label_text(plan.commands[j])
                        && commands[j].allow_failure == plan.commands[j].allow_failure,
            decreases plan.commands.len() - i,
        {
            let ghost before = commands@;
            commands.push(
                BootstrapCommand {
                    label: command_label(&plan.commands[i]),
                    allow_failure: plan.commands[i].allow_failure,
                },
            );
            proof {
                assert forall|j: int| 0 <= j < i + 1 implies #[trigger] commands[j].label@ == label_text(
                    plan.commands[j],
                ) && commands[j].allow_failure == plan.commands[j].allow_failure by {
                    if j < i {
                        assert(commands@[j] == before[j]);
                    }
                }
            }
            i = i + 1;
        }
    }
    BootstrapReport {
        context: WorktreeSnapshot::from_worktree(&plan.context),
        action,
        has_file_changes: summary.changed > 0 || summary.deleted > 0,
        file_summary: summary,
        files,
        commands_skipped,
        commands,
        validation_warnings,
        file_warnings,
        execution_warnings: Vec::new(),
    }
}

/// The report of a bootstrap that ended before any config was planned.
pub fn empty_report(context: &Worktree, action: BootstrapAction, commands_skipped: bool) -> (res:
    BootstrapReport)
    ensures
        res.action == action,
        res.context.root_path == context.root_path,
        res.context.worktree_path == context.worktree_path,
        res.context.default_branch == context.default_branch,
        !res.has_file_changes,
        res.file_summary == (BootstrapFileSummary {
            changed: 0,
            skipped: 0,
            deleted: 0,
            metadata_changed: 0,
            file_warnings: 0,
        }),
        res.files.len() == 0,
        res.commands_skipped == commands_skipped,
        res.commands.len() == 0,
        res.validation_warnings.len() == 0,
        res.file_warnings.len() == 0,
        res.execution_warnings.len() == 0,
{
    BootstrapReport {
        context: WorktreeSnapshot::from_worktree(context),
        action,
        has_file_changes: false,
        file_summary: BootstrapFileSummary {
            changed: 0,
            skipped: 0,
            deleted: 0,
            metadata_changed: 0,
            file_warnings: 0,
        },
        files: Vec::new(),
        commands_skipped,
        commands: Vec::new(),
        validation_warnings: Vec::new(),
        file_warnings: Vec::new(),
        execution_warnings: Vec::new(),
    }
}

/// Completed action for a `treeboot run` invocation.
#[derive(Debug, Clone, PartialEq, Eq)]
#[non_exhaustive]
pub enum RunAction {
    /// No config was detected.
    MissingConfig,
    /// The run started from the root checkout and had no work to do.
    RootWorktreeSkipped,
    /// A declarative config was detected.
    ConfigDetected { path: String },
    /// Declarative config file operations were applied.
    ConfigApplied { path: String },
}

/// The run action for a bootstrap action: a planned config was applied.
pub fn run_action(action: &BootstrapAction) -> (res: RunAction)
    ensures
        match *action {
            BootstrapAction::MissingConfig => res == RunAction::MissingConfig,
            BootstrapAction::RootWorktreeSkipped => res == RunAction::RootWorktreeSkipped,
            BootstrapAction::Config { path } => res == (RunAction::ConfigApplied { path }),
        },
{
    match action {
        BootstrapAction::MissingConfig => RunAction::MissingConfig,
        BootstrapAction::RootWorktreeSkipped => RunAction::RootWorktreeSkipped,
        BootstrapAction::Config { path } => RunAction::ConfigApplied { path: copy_string(path) },
    }
}

/// A bootstrap ready to preview or execute: its report and, when a config
/// was planned, the plan and its planned file operations.
pub struct PreparedBootstrap {
    pub context: Worktree,
    pub report: BootstrapReport,
    pub plan: Option<ActionPlan>,
    pub files: PreparedFileOperations,
}

/// A bootstrap that ended before any config was planned.
pub fn empty_prepared(context: &Worktree, action: BootstrapAction, commands_skipped: bool) -> (res: PreparedBootstrap)
    ensures
        res.plan.is_none(),
        res.files.groups.len() == 0,
        res.report.action == action,
        res.report.commands_skipped == commands_skipped,
        res.report.files.len() == 0,
        res.report.commands.len() == 0,
        !res.report.has_file_changes,
        res.context.root_path == context.root_path,
        res.context.worktree_path == context.worktree_path,
        res.context.default_branch == context.default_branch,
        res.context.environment@ == context.environment@,
{
    PreparedBootstrap {
        context: context.duplicate(),
        report: empty_report(context, action, commands_skipped),
        plan: None,
        files: PreparedFileOperations { groups: Vec::new() },
    }
}

/// How a bootstrap starts before its config is read: from the root
/// checkout it stops (an error in strict mode), without a config it stops
/// (an error in strict mode), otherwise it goes on with the config.
pub enum BootstrapStart {
    /// Nothing more to do.
    Done(PreparedBootstrap),
    /// Plan the config at this path.
    Config(String),
}

/// Decides how a bootstrap starts and reports what was detected: the root
/// checkout, no config, or the config found.
pub fn start_bootstrap<R: Reporter>(
    context: &Worktree,
    config_path: Option<String>,
    pre_config_strict: bool,
    skip_commands: bool,
    reporter: &mut ReportLog<R>,
) -> (res: Result<BootstrapStart, Error>)
    ensures
        context.root_path@ == context.worktree_path@ ==> match res {
            Ok(BootstrapStart::Done(p)) => !pre_config_strict && p.report.action == BootstrapAction::RootWorktreeSkipped,
            Ok(BootstrapStart::Config(_)) => false,
            Err(e) => e is Output || (pre_config_strict && e is RootWorktreeStrict),
        },
        context.root_path@ != context.worktree_path@ && config_path.is_none() ==> match res {
            Ok(BootstrapStart::Done(p)) => !pre_config_strict && p.report.action == BootstrapAction::MissingConfig,
            Ok(BootstrapStart::Config(_)) => false,
            Err(e) => e is Output || (pre_config_strict && e is NoConfigDetectedStrict),
        },
        context.root_path@ != context.worktree_path@ && config_path.is_some() ==> match res {
            Ok(BootstrapStart::Config(p)) => p == config_path.unwrap(),
            Ok(BootstrapStart::Done(_)) => false,
            Err(e) => e is Output,
        },
        res matches Ok(BootstrapStart::Done(p)) ==> {
            &&& p.plan.is_none()
            &&& p.report.commands_skipped == skip_commands
            &&& p.files.groups.len() == 0
            &&& p.report.files.len() == 0
            &&& p.report.commands.len() == 0
            &&& !p.report.has_file_changes
            &&& p.context.root_path == context.root_path
            &&& p.context.worktree_path == context.worktree_path
            &&& p.context.default_branch == context.default_branch
            &&& p.context.environment@ == context.environment@
        },
        final(reporter).handed@.len() == old(reporter).handed@.len() + 1,
        final(reporter).handed@.drop_last() == old(reporter).handed@,
        final(reporter).handed@.last().0 == (if context.root_path@ == context.worktree_path@ {
            OutputEvent::RootWorktreeDetected
        } else if config_path.is_none() {
            OutputEvent::NoConfigDetected
        } else {
            OutputEvent::ConfigDetected { path: config_path.unwrap() }
        }),
        final(reporter).handed@.last().1 is Err <==> (res matches Err(e) && e is Output),
{
    if context.is_root() {
        let reported = report(reporter, OutputEvent::RootWorktreeDetected);
        proof {
            assert(reporter.handed@.drop_last() =~= old(reporter).handed@);
        }
        match reported {
            Ok(()) => {},
            Err(e) => return Err(e),
        }
        if pre_config_strict {
            return Err(Error::RootWorktreeStrict);
        }
        return Ok(BootstrapStart::Done(empty_prepared(context, BootstrapAction::RootWorktreeSkipped, skip_commands)));
    }
    match config_path {
        None => {
            let reported = report(reporter, OutputEvent::NoConfigDetected);
            proof {
                assert(reporter.handed@.drop_last() =~= old(reporter).handed@);
            }
            match reported {
                Ok(()) => {},
                Err(e) => return Err(e),
            }
            if pre_config_strict {
                return Err(Error::NoConfigDetectedStrict);
            }
            Ok(BootstrapStart::Done(empty_prepared(context, BootstrapAction::MissingConfig, skip_commands)))
        },
        Some(path) => {
            let reported = report(reporter, OutputEvent::ConfigDetected { path: copy_string(&path) });
            proof {
                assert(reporter.handed@.drop_last() =~= old(reporter).handed@);
            }
            match reported {
                Ok(()) => {},
                Err(e) => return Err(e),
            }
            Ok(BootstrapStart::Config(path))
        },
    }
}

impl PreparedBootstrap {
    /// Reports what the bootstrap would do without changing files or
    /// running commands.
    pub fn preview<R: Reporter, A: StepRunner, C: CommandRunner>(
        &self,
        verbose: bool,
        skip_commands: bool,
        steps: &mut StepLog<A>,
        commands: &mut CommandLog<C>,
        reporter: &mut ReportLog<R>,
    ) -> (res: Result<(), Error>)
        ensures
            *final(steps) == *old(steps),
            *final(commands) == *old(commands),
            res matches Err(e) ==> e is Output,
            self.plan.is_none() || (no_actions(self.files.groups@) && (skip_commands
                || self.plan.unwrap().commands@.len() == 0)) ==> res is Ok && *final(reporter) == *old(
                reporter,
            ),
            res is Ok && self.plan.is_some() ==> exists|k: int|
                old(reporter).handed@.len() <= k <= final(reporter).handed@.len() && #[trigger] groups_run(
                    self.files.groups@,
                    true,
                    verbose,
                    final(reporter).handed@.subrange(old(reporter).handed@.len() as int, k),
                    Seq::empty(),
                ) && if skip_commands {
                    k == final(reporter).handed@.len()
                } else {
                    commands_stage(self.plan.unwrap(), true, final(reporter).handed@.skip(k), Seq::empty(), Ok(()))
                },
            res matches Err(e) ==> self.plan.is_some() && ({
                ||| groups_failed(
                    self.files.groups@,
                    true,
                    verbose,
                    final(reporter).handed@.skip(old(reporter).handed@.len() as int),
                    Seq::empty(),
                    e,
                )
                ||| !skip_commands && exists|k: int|
                    old(reporter).handed@.len() <= k <= final(reporter).handed@.len() && #[trigger] groups_run(
                        self.files.groups@,
                        true,
                        verbose,
                        final(reporter).handed@.subrange(old(reporter).handed@.len() as int, k),
                        Seq::empty(),
                    ) && commands_stage(
                        self.plan.unwrap(),
                        true,
                        final(reporter).handed@.skip(k),
                        Seq::empty(),
                        Err(e),
                    )
            }),
    {
        let plan = match &self.plan {
            Some(p) => p,
            None => return Ok(()),
        };
        let ghost h0 = reporter.handed@;
        let options = FileApplyOptions { strict: false, force: false, dry_run: true, verbose };
        let files_done = execute_prepared_file_operations(&self.files, options, steps, reporter);
        proof {
            assert(steps.handed@.skip(old(steps).handed@.len() as int) =~= Seq::<(crate::file_execution::ActionSteps, Result<(), Error>)>::empty());
        }
        match files_done {
            Ok(_) => {},
            Err(e) => return Err(e),
        }
        let ghost k = reporter.handed@.len() as int;
        let ghost mid = reporter.handed@;
        if !skip_commands {
            let done = execute_commands(plan, true, reporter, commands);
            proof {
                let fin = reporter.handed@;
                assert(fin.take(k) == mid);
                assert(fin.subrange(h0.len() as int, k) =~= mid.skip(h0.len() as int));
                assert(commands.ran@.skip(old(commands).ran@.len() as int) =~= Seq::<(Worktree, crate::action_plan::PlannedCommand, crate::commands::CommandOutcome)>::empty());
            }
            match done {
                Ok(()) => {},
                Err(e) => return Err(e),
            }
            proof {
                assert(commands.ran@.skip(old(commands).ran@.len() as int) =~= Seq::<(Worktree, crate::action_plan::PlannedCommand, crate::commands::CommandOutcome)>::empty());
            }
        }
        proof {
            let fin = reporter.handed@;
            assert(fin.take(k) == mid);
            assert(fin.subrange(h0.len() as int, k) =~= mid.skip(h0.len() as int));
        }
        Ok(())
    }

    /// Executes the prepared file operations, then, unless skipped, the
    /// plan's commands; returns the number of progress-visible actions.
    pub fn execute<R: Reporter, A: StepRunner, C: CommandRunner>(
        &self,
        options: FileApplyOptions,
        skip_commands: bool,
        steps: &mut StepLog<A>,
        commands: &mut CommandLog<C>,
        reporter: &mut ReportLog<R>,
    ) -> (res: Result<usize, Error>)
        ensures
            res matches Ok(n) ==> (self.plan.is_some() ==> n == capped(total_progress(self.files.groups@))),
            self.plan.is_none() ==> res == Ok::<usize, Error>(0),
            options.dry_run ==> *final(steps) == *old(steps) && *final(commands) == *old(commands),
            skip_commands ==> *final(commands) == *old(commands),
            res is Ok && self.plan.is_some() ==> exists|k: int|
                old(reporter).handed@.len() <= k <= final(reporter).handed@.len() && #[trigger] groups_run(
                    self.files.groups@,
                    options.dry_run,
                    options.verbose,
                    final(reporter).handed@.subrange(old(reporter).handed@.len() as int, k),
                    final(steps).handed@.skip(old(steps).handed@.len() as int),
                ) && if skip_commands {
                    k == final(reporter).handed@.len()
                } else {
                    commands_stage(
                        self.plan.unwrap(),
                        options.dry_run,
                        final(reporter).handed@.skip(k),
                        final(commands).ran@.skip(old(commands).ran@.len() as int),
                        Ok(()),
                    )
                },
            self.plan.is_some() && no_actions(self.files.groups@) && (skip_commands
                || self.plan.unwrap().commands@.len() == 0) ==> res == Ok::<usize, Error>(0) && *final(steps)
                == *old(steps) && *final(commands) == *old(commands) && *final(reporter) == *old(reporter),
            res matches Err(e) ==> self.plan.is_some() && ({
                ||| groups_failed(
                    self.files.groups@,
                    options.dry_run,
                    options.verbose,
                    final(reporter).handed@.skip(old(reporter).handed@.len() as int),
                    final(steps).handed@.skip(old(steps).handed@.len() as int),
                    e,
                ) && *final(commands) == *old(commands)
                ||| !skip_commands && exists|k: int|
                    old(reporter).handed@.len() <= k <= final(reporter).handed@.len() && #[trigger] groups_run(
                        self.files.groups@,
                        options.dry_run,
                        options.verbose,
                        final(reporter).handed@.subrange(old(reporter).handed@.len() as int, k),
                        final(steps).handed@.skip(old(steps).handed@.len() as int),
                    ) && commands_stage(
                        self.plan.unwrap(),
                        options.dry_run,
                        final(reporter).handed@.skip(k),
                        final(commands).ran@.skip(old(commands).ran@.len() as int),
                        Err(e),
                    )
            }),
    {
        let plan = match &self.plan {
            Some(p) => p,
            None => return Ok(0),
        };
        let ghost h0 = reporter.handed@;
        let count = match execute_prepared_file_operations(&self.files, options, steps, reporter) {
            Ok(n) => n,
            Err(e) => return Err(e),
        };
        let ghost k = reporter.handed@.len() as int;
        let ghost mid = reporter.handed@;
        if !skip_commands {
            let done = execute_commands(plan, options.dry_run, reporter, commands);
            proof {
                let fin = reporter.handed@;
                assert(fin.take(k) == mid);
                assert(fin.subrange(h0.len() as int, k) =~= mid.skip(h0.len() as int));
                if options.dry_run {
                    assert(commands.ran@.skip(old(commands).ran@.len() as int) =~= Seq::<(Worktree, crate::action_plan::PlannedCommand, crate::commands::CommandOutcome)>::empty());
                }
                assert(groups_run(
                    self.files.groups@,
                    options.dry_run,
                    options.verbose,
                    fin.subrange(h0.len() as int, k),
                    steps.handed@.skip(old(steps).handed@.len() as int),
                ));
            }
            match done {
                Ok(()) => {},
                Err(e) => return Err(e),
            }
        }
        proof {
            let fin = reporter.handed@;
            assert(fin.take(k) == mid);
            assert(fin.subrange(h0.len() as int, k) =~= mid.skip(h0.len() as int));
            if !skip_commands && options.dry_run {
                assert(commands.ran@.skip(old(commands).ran@.len() as int) =~= Seq::<(Worktree, crate::action_plan::PlannedCommand, crate::commands::CommandOutcome)>::empty());
            }
            assert(groups_run(
                self.files.groups@,
                options.dry_run,
                options.verbose,
                fin.subrange(h0.len() as int, k),
                steps.handed@.skip(old(steps).handed@.len() as int),
            ));
        }
        Ok(count)
    }
}

/// Whether the actions of all groups can be counted in a `usize`.
fn action_total_fits(groups: &Vec<PlannedFileOperationActions>) -> (res: bool)
    ensures
        res == (action_total(groups@) <= usize::MAX),
{
    let mut total: usize = 0;
    let mut i: usize = 0;
    proof {
        assert(groups@.take(0) =~= Seq::<PlannedFileOperationActions>::empty());
    }
    while i < groups.len()
        invariant
            i <= groups.len(),
            total == action_total(groups@.take(i as int)),
        decreases groups.len() - i,
    {
        proof {
            lemma_action_total_prefix(groups@, i as int);
        }
        let n = groups[i].actions.len();
        if n > usize::MAX - total {
            return false;
        }
        total = total + n;
        i = i + 1;
    }
    assert(groups@.take(groups.len() as int) =~= groups@);
    true
}

/// Whether `h` begins with the validation warnings `ws`, each announced and
/// accepted.
pub open spec fn warnings_announced(ws: Seq<String>, h: HandedEvents) -> bool {
    &&& h.len() >= ws.len()
    &&& forall|i: int|
        0 <= i < ws.len() ==> (#[trigger] h[i]).0 == OutputEvent::ValidationWarning { message: ws[i] } && h[i].1 is Ok
}

/// Hands each validation warning to the reporter, in order, stopping at
/// the first refusal.
fn announce_warnings<R: Reporter>(warnings: &Vec<String>, reporter: &mut ReportLog<R>) -> (res: Result<(), Error>)
    ensures
        final(reporter).handed@.len() >= old(reporter).handed@.len(),
        final(reporter).handed@.take(old(reporter).handed@.len() as int) == old(reporter).handed@,
        res is Ok ==> warnings_announced(warnings@, final(reporter).handed@.skip(old(reporter).handed@.len() as int))
            && final(reporter).handed@.len() == old(reporter).handed@.len() + warnings.len(),
        res matches Err(e) ==> refused_last(final(reporter).handed@.skip(old(reporter).handed@.len() as int), e),
{
    let ghost h0 = reporter.handed@;
    let mut i: usize = 0;
    proof {
        assert(h0.take(h0.len() as int) =~= h0);
    }
    while i < warnings.len()
        invariant
            i <= warnings.len(),
            h0 == old(reporter).handed@,
            reporter.handed@.len() == h0.len() + i,
            reporter.handed@.take(h0.len() as int) == h0,
            warnings_announced(warnings@.take(i as int), reporter.handed@.skip(h0.len() as int)),
        decreases warnings.len() - i,
    {
        let ghost hb = reporter.handed@;
        let r = report(reporter, OutputEvent::ValidationWarning { message: copy_string(&warnings[i]) });
        proof {
            let ha = reporter.handed@;
            assert(ha.take(hb.len() as int) =~= hb);
            assert(ha.take(h0.len() as int) =~= hb.take(h0.len() as int));
            assert(ha.skip(h0.len() as int).last() == ha.last());
        }
        match r {
            Ok(()) => {},
            Err(e) => return Err(e),
        }
        proof {
            let ha = reporter.handed@;
            let now = ha.skip(h0.len() as int);
            let prev = hb.skip(h0.len() as int);
            assert forall|k: int| 0 <= k < i implies #[trigger] now[k] == prev[k] by {
                assert(now[k] == ha[h0.len() + k]);
                assert(ha.take(hb.len() as int)[h0.len() + k] == hb[h0.len() + k]);
            }
            assert(warnings@.take(i + 1)[i as int] == warnings@[i as int]);
            assert(now[i as int] == ha.last());
            assert(warnings_announced(warnings@.take(i + 1), now));
        }
        i = i + 1;
    }
    assert(warnings@.take(warnings.len() as int) =~= warnings@);
    Ok(())
}

/// Prepares a bootstrap from the plan of a loaded config: hands each
/// validation warning to the reporter when asked to, plans every file
/// operation in dry-run mode under the strict mode the policy resolves for
/// the config, and builds the report. Nothing on disk changes.
pub fn prepare_config_bootstrap<R: Reporter>(
    s: &FsSnapshot,
    plan: ActionPlan,
    path: String,
    policy: &RuntimePolicy,
    config_options: &ConfigRuntimeOptions,
    force: bool,
    verbose: bool,
    skip_commands: bool,
    emit_validation_warnings: bool,
    reporter: &mut ReportLog<R>,
) -> (res: Result<PreparedBootstrap, Error>)
    ensures
        ({
            let strict = resolved_options(policy.spec_overrides(), policy.spec_cli_strict(), config_options@).strict;
            let h = final(reporter).handed@.skip(old(reporter).handed@.len() as int);
            let nw = if emit_validation_warnings { plan.warnings@.len() } else { 0 };
            &&& final(reporter).handed@.len() >= old(reporter).handed@.len()
            &&& final(reporter).handed@.take(old(reporter).handed@.len() as int) == old(reporter).handed@
            &&& res matches Ok(p) ==> {
                &&& emit_validation_warnings ==> warnings_announced(plan.warnings@, h)
                &&& !verbose ==> planning_announced(plan.files@, plan.files@.len() as int, h.skip(nw as int))
                &&& verbose ==> h.len() == nw
                &&& p.plan == Some(plan)
                &&& prepares(*s, plan, strict, force, p.files.groups@)
                &&& p.context.root_path == plan.context.root_path
                &&& p.context.worktree_path == plan.context.worktree_path
                &&& p.context.default_branch == plan.context.default_branch
                &&& p.report.action == (BootstrapAction::Config { path })
                &&& p.report.files.len() == p.files.groups.len()
                &&& forall|i: int| 0 <= i < p.files.groups.len() ==> reports_operation(#[trigger] p.report.files[i], p.files.groups[i])
                &&& p.report.commands_skipped == skip_commands
                &&& string_views(p.report.validation_warnings@) == string_views(plan.warnings@)
                &&& warning_views(p.report.file_warnings@) == group_warnings(p.files.groups@)
            }
            &&& res matches Err(e) ==> {
                ||| refused_last(h, e)
                ||| planning_error(*s, plan, strict, force, e)
                ||| ((e matches Error::ConfigInvalid { path: p2, message: m } && p2 == path && m@ == "too many file actions to count"@)
                    && exists|groups: Seq<PlannedFileOperationActions>|
                    #[trigger] prepares(*s, plan, strict, force, groups) && action_total(groups) > usize::MAX)
            }
        }),
{
    let ghost h0 = reporter.handed@;
    let resolved = policy.resolve(config_options);
    let strict = resolved.strict();
    if emit_validation_warnings {
        match announce_warnings(&plan.warnings, reporter) {
            Ok(()) => {},
            Err(e) => return Err(e),
        }
    }
    let ghost hw = reporter.handed@;
    proof {
        assert(hw.take(h0.len() as int) == h0);
        if !emit_validation_warnings {
            assert(hw == h0);
        }
    }
    let options = FileApplyOptions { strict, force, dry_run: true, verbose };
    let files = match prepare_file_operations(s, &plan, options, reporter) {
        Ok(f) => f,
        Err(e) => {
            proof {
                let ha = reporter.handed@;
                assert(ha.take(hw.len() as int).take(h0.len() as int) =~= ha.take(h0.len() as int));
                assert(ha.skip(hw.len() as int) =~= ha.skip(h0.len() as int).skip(hw.len() - h0.len()));
                if refused_last(ha.skip(hw.len() as int), e) {
                    assert(ha.skip(h0.len() as int).last() == ha.skip(hw.len() as int).last());
                }
            }
            return Err(e);
        },
    };
    proof {
        let ha = reporter.handed@;
        assert(ha.take(hw.len() as int).take(h0.len() as int) =~= ha.take(h0.len() as int));
        let h = ha.skip(h0.len() as int);
        assert(h.skip(hw.len() - h0.len()) =~= ha.skip(hw.len() as int));
        if emit_validation_warnings {
            let hw_part = hw.skip(h0.len() as int);
            assert forall|i: int| 0 <= i < plan.warnings@.len() implies (#[trigger] h[i]) == hw_part[i] by {
                assert(h[i] == ha[h0.len() + i]);
                assert(ha.take(hw.len() as int)[h0.len() + i] == hw[h0.len() + i]);
            }
        }
    }
    if !action_total_fits(&files.groups) {
        return Err(Error::ConfigInvalid { path, message: owned("too many file actions to count") });
    }
    let report = build_report(&plan, BootstrapAction::Config { path: copy_string(&path) }, &files.groups, skip_commands, copy_strings(&plan.warnings));
    Ok(PreparedBootstrap { context: plan.context.duplicate(), report, plan: Some(plan), files })
}

} // verus!
