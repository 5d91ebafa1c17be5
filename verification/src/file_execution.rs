//! Applying planned file actions: the filesystem steps each action takes,
//! the events it reports, and the progress of a whole operation.

use vstd::prelude::*;
use crate::action_plan::ActionPlan;
use crate::commands::report;
use crate::config::FileOperationKind;
use crate::error::Error;
use crate::file_actions::{
    summarizes,
    ActionView, FileAction, MetadataPolicy, MetadataTarget, PlannedFileOperationActions, count_where,
    counts_spec, lemma_count_bounded, lemma_progress_is_decisions,
};
use crate::output::{FileOperationSummary, OutputEvent, ReportLog, Reporter, decisions, handed_outcome};
use crate::text::copy_string;

verus! {

/// One filesystem step of applying an action.
#[derive(Debug, Clone, PartialEq, Eq)]
pub enum FsStep {
    /// Creates a target directory and its missing ancestors.
    CreateTargetDir { operation: FileOperationKind, target_path: String },
    /// Creates the parent directories of a target.
    CreateParentDir { operation: FileOperationKind, target_path: String },
    /// Removes an existing target file or symlink.
    RemoveFileChecked { operation: FileOperationKind, path: String },
    /// Copies a source file with the metadata the policy carries.
    CopyFile { operation: FileOperationKind, source_path: String, target_path: String, policy: MetadataPolicy },
    /// Applies source metadata to an existing target.
    ApplyMetadata {
        operation: FileOperationKind,
        source_path: String,
        target_path: String,
        policy: MetadataPolicy,
        kind: MetadataTarget,
    },
    /// Checks that a preserved source symlink still resolves as planned.
    EnsurePreservedSymlinkSafe {
        operation: FileOperationKind,
        source_path: String,
        target_path: String,
        link_target: String,
        final_target: String,
        target_is_dir: bool,
    },
    /// Creates a symlink at `target_path` pointing to `link_target`.
    CreateSymlink { operation: FileOperationKind, link_target: String, target_is_dir: bool, target_path: String },
    /// Removes a target-only file or directory tree.
    RemoveAny { path: String },
    /// Checks that every directory from the worktree down to a target's
    /// parent exists and is a real directory, not a symlink.
    CheckTargetParent { operation: FileOperationKind, target_path: String },
}

/// How one action is applied: checks first, then the main steps (with the
/// target's parent made writable for their time when `writable_parent`
/// names the operation and target), then the event to report.
#[derive(Debug, Clone, PartialEq, Eq)]
pub struct ActionSteps {
    pub checks: Vec<FsStep>,
    pub writable_parent: Option<(FileOperationKind, String)>,
    pub main: Vec<FsStep>,
    pub event: Option<OutputEvent>,
}

/// Runs the filesystem steps of actions.
pub trait StepRunner {
    /// Runs the checks, then the main steps (inside a writable parent when
    /// asked), stopping at the first error.
    fn run_steps<R: Reporter>(&mut self, steps: &ActionSteps, reporter: &mut R) -> Result<(), Error>;
}

/// A step runner together with the record of every action's steps the
/// library has handed to it, in order, each with the runner's answer.
pub struct StepLog<A> {
    /// The runner the steps go to.
    pub inner: A,
    /// The steps handed over so far and what the runner answered.
    pub handed: Ghost<Seq<(ActionSteps, Result<(), Error>)>>,
}

impl<A: StepRunner> StepLog<A> {
    /// Starts a log with no steps handed over yet.
    pub fn new(inner: A) -> (res: Self)
        ensures
            res.inner == inner,
            res.handed@ == Seq::<(ActionSteps, Result<(), Error>)>::empty(),
    {
        StepLog { inner, handed: Ghost(Seq::empty()) }
    }

    /// Hands one action's steps to the runner and records them with the
    /// runner's answer.
    pub fn run<R: Reporter>(&mut self, steps: &ActionSteps, reporter: &mut R) -> (res: Result<(), Error>)
        ensures
            final(self).handed@ == old(self).handed@.push((*steps, res)),
    {
        let answer = self.inner.run_steps(steps, reporter);
        self.handed = Ghost(self.handed@.push((*steps, answer)));
        answer
    }
}

/// The event of a finished action in detailed output.
pub open spec fn applied_event(a: FileAction) -> Option<OutputEvent> {
    match a {
        FileAction::CreateDirectory { operation, source, target, .. } => Some(OutputEvent::FileApplied { operation, source, target }),
        FileAction::CopyFile { operation, source, target, .. } => Some(OutputEvent::FileApplied { operation, source, target }),
        FileAction::CreateSymlink { operation, source, target, .. } => Some(OutputEvent::FileApplied { operation, source, target }),
        FileAction::RepairMetadata { source, target, report, .. } => if report {
            Some(OutputEvent::FileMetadataApplied { source, target })
        } else {
            None
        },
        FileAction::Delete { target, .. } => Some(OutputEvent::FileDeleted { path: target }),
        FileAction::Skip { operation, target, reason } => Some(OutputEvent::FileSkipped { operation, target, reason }),
        FileAction::Warning { path, reason } => Some(OutputEvent::FileWarning { path, reason }),
    }
}

/// The event a dry run reports for an action: in detailed output every
/// action but silent repairs; otherwise only warnings.
pub open spec fn dry_run_event(a: FileAction, detailed: bool) -> Option<OutputEvent> {
    if !detailed && !(a is Warning) {
        None
    } else {
        match a {
            FileAction::CreateDirectory { operation, source, target, .. } => Some(OutputEvent::FileWouldApply { operation, source, target }),
            FileAction::CopyFile { operation, source, target, .. } => Some(OutputEvent::FileWouldApply { operation, source, target }),
            FileAction::CreateSymlink { operation, source, target, .. } => Some(OutputEvent::FileWouldApply { operation, source, target }),
            FileAction::RepairMetadata { source, target, report, .. } => if report {
                Some(OutputEvent::FileMetadataWouldApply { source, target })
            } else {
                None
            },
            FileAction::Delete { target, .. } => Some(OutputEvent::FileWouldDelete { path: target }),
            FileAction::Skip { operation, target, reason } => Some(OutputEvent::FileWouldSkip { operation, target, reason }),
            FileAction::Warning { path, reason } => Some(OutputEvent::FileWarning { path, reason }),
        }
    }
}

/// The event a dry run reports for an action.
pub fn dry_run_event_of(action: &FileAction, detailed: bool) -> (res: Option<OutputEvent>)
    ensures
        res == dry_run_event(*action, detailed),
{
    match action {
        FileAction::Warning { path, reason } => Some(OutputEvent::FileWarning { path: copy_string(path), reason: copy_string(reason) }),
        _ => {
            if !detailed {
                return None;
            }
            match action {
                FileAction::CreateDirectory { operation, source, target, .. } => Some(
                    OutputEvent::FileWouldApply { operation: *operation, source: copy_string(source), target: copy_string(target) },
                ),
                FileAction::CopyFile { operation, source, target, .. } => Some(
                    OutputEvent::FileWouldApply { operation: *operation, source: copy_string(source), target: copy_string(target) },
                ),
                FileAction::CreateSymlink { operation, source, target, .. } => Some(
                    OutputEvent::FileWouldApply { operation: *operation, source: copy_string(source), target: copy_string(target) },
                ),
                FileAction::RepairMetadata { source, target, report, .. } => {
                    if *report {
                        Some(OutputEvent::FileMetadataWouldApply { source: copy_string(source), target: copy_string(target) })
                    } else {
                        None
                    }
                },
                FileAction::Delete { target, .. } => Some(OutputEvent::FileWouldDelete { path: copy_string(target) }),
                FileAction::Skip { operation, target, reason } => Some(
                    OutputEvent::FileWouldSkip { operation: *operation, target: copy_string(target), reason: copy_string(reason) },
                ),
                FileAction::Warning { path, reason } => Some(OutputEvent::FileWarning { path: copy_string(path), reason: copy_string(reason) }),
            }
        },
    }
}

/// Reports what a dry run would do for an action.
pub fn report_dry_run<R: Reporter>(action: &FileAction, reporter: &mut ReportLog<R>, detailed: bool) -> (res: Result<(), Error>)
    ensures
        res matches Err(e) ==> e is Output,
        dry_run_event(*action, detailed) is None ==> res == Ok::<(), Error>(()) && *final(reporter) == *old(reporter),
        dry_run_event(*action, detailed) matches Some(ev) ==> final(reporter).handed@ == old(reporter).handed@.push(
            (ev, final(reporter).handed@.last().1),
        ) && res == handed_outcome(final(reporter).handed@.last().1),
{
    match dry_run_event_of(action, detailed) {
        Some(event) => report(reporter, event),
        None => Ok(()),
    }
}

/// The steps that apply an action; in detailed output its event follows,
/// and warnings are always reported.
pub open spec fn action_steps_spec(a: FileAction, detailed: bool, steps: ActionSteps) -> bool {
    &&& steps.event == (if detailed || a is Warning { applied_event(a) } else { None })
    &&& match a {
        FileAction::CreateDirectory { operation, target_path, .. } => {
            &&& steps.checks@.len() == 0
            &&& steps.writable_parent == Some((operation, target_path))
            &&& steps.main@ == seq![FsStep::CreateTargetDir { operation, target_path }]
        },
        FileAction::CopyFile { operation, source_path, target_path, metadata_policy, replace, .. } => {
            &&& steps.checks@.len() == 0
            &&& steps.writable_parent == Some((operation, target_path))
            &&& steps.main@ == seq![FsStep::CreateParentDir { operation, target_path }] + (if replace {
                seq![FsStep::RemoveFileChecked { operation, path: target_path }]
            } else {
                Seq::empty()
            }) + seq![FsStep::CopyFile { operation, source_path, target_path, policy: metadata_policy }]
        },
        FileAction::RepairMetadata { operation, source_path, target_path, metadata_policy, target_kind, .. } => {
            &&& steps.checks@ == seq![FsStep::CheckTargetParent { operation, target_path }]
            &&& steps.writable_parent.is_none()
            &&& steps.main@ == seq![
                FsStep::ApplyMetadata { operation, source_path, target_path, policy: metadata_policy, kind: target_kind },
            ]
        },
        FileAction::CreateSymlink {
            operation,
            target_path,
            preserved_source_path,
            link_target,
            final_target,
            target_is_dir,
            replace,
            ..
        } => {
            &&& steps.checks@ == match preserved_source_path {
                Some(sp) => seq![
                    FsStep::EnsurePreservedSymlinkSafe {
                        operation,
                        source_path: sp,
                        target_path,
                        link_target,
                        final_target,
                        target_is_dir,
                    },
                ],
                None => Seq::empty(),
            }
            &&& steps.writable_parent == Some((operation, target_path))
            &&& steps.main@ == seq![FsStep::CreateParentDir { operation, target_path }] + (if replace {
                seq![FsStep::RemoveFileChecked { operation, path: target_path }]
            } else {
                Seq::empty()
            }) + seq![FsStep::CreateSymlink { operation, link_target, target_is_dir, target_path }]
        },
        FileAction::Delete { target_path, .. } => {
            &&& steps.checks@.len() == 0
            &&& steps.writable_parent == Some((FileOperationKind::Sync, target_path))
            &&& steps.main@ == seq![FsStep::RemoveAny { path: target_path }]
        },
        FileAction::Skip { .. } => steps.checks@.len() == 0 && steps.writable_parent.is_none() && steps.main@.len() == 0,
        FileAction::Warning { .. } => steps.checks@.len() == 0 && steps.writable_parent.is_none() && steps.main@.len() == 0,
    }
}

fn applied_event_of(action: &FileAction) -> (res: Option<OutputEvent>)
    ensures
        res == applied_event(*action),
{
    match action {
        FileAction::CreateDirectory { operation, source, target, .. } => Some(
            OutputEvent::FileApplied { operation: *operation, source: copy_string(source), target: copy_string(target) },
        ),
        FileAction::CopyFile { operation, source, target, .. } => Some(
            OutputEvent::FileApplied { operation: *operation, source: copy_string(source), target: copy_string(target) },
        ),
        FileAction::CreateSymlink { operation, source, target, .. } => Some(
            OutputEvent::FileApplied { operation: *operation, source: copy_string(source), target: copy_string(target) },
        ),
        FileAction::RepairMetadata { source, target, report, .. } => {
            if *report {
                Some(OutputEvent::FileMetadataApplied { source: copy_string(source), target: copy_string(target) })
            } else {
                None
            }
        },
        FileAction::Delete { target, .. } => Some(OutputEvent::FileDeleted { path: copy_string(target) }),
        FileAction::Skip { operation, target, reason } => Some(
            OutputEvent::FileSkipped { operation: *operation, target: copy_string(target), reason: copy_string(reason) },
        ),
        FileAction::Warning { path, reason } => Some(OutputEvent::FileWarning { path: copy_string(path), reason: copy_string(reason) }),
    }
}

fn single_step(step: FsStep) -> (res: Vec<FsStep>)
    ensures
        res@ == seq![step],
{
    let mut steps = Vec::new();
    steps.push(step);
    assert(steps@ =~= seq![step]);
    steps
}

fn replace_then(operation: FileOperationKind, target_path: &String, replace: bool, last: FsStep) -> (res: Vec<FsStep>)
    ensures
        res@ == seq![FsStep::CreateParentDir { operation, target_path: *target_path }] + (if replace {
            seq![FsStep::RemoveFileChecked { operation, path: *target_path }]
        } else {
            Seq::empty()
        }) + seq![last],
{
    let mut steps = vec![FsStep::CreateParentDir { operation, target_path: copy_string(target_path) }];
    if replace {
        steps.push(FsStep::RemoveFileChecked { operation, path: copy_string(target_path) });
    }
    steps.push(last);
    proof {
        if replace {
            assert(steps@ =~= seq![FsStep::CreateParentDir { operation, target_path: *target_path }] + seq![
                FsStep::RemoveFileChecked { operation, path: *target_path },
            ] + seq![last]);
        } else {
            assert(steps@ =~= seq![FsStep::CreateParentDir { operation, target_path: *target_path }]
                + Seq::<FsStep>::empty() + seq![last]);
        }
    }
    steps
}

/// The steps that apply an action.
pub fn action_steps(action: &FileAction, detailed: bool) -> (res: ActionSteps)
    ensures
        action_steps_spec(*action, detailed, res),
{
    let event = if detailed || matches!(action, FileAction::Warning { .. }) {
        applied_event_of(action)
    } else {
        None
    };
    match action {
        FileAction::CreateDirectory { operation, target_path, .. } => ActionSteps {
            checks: Vec::new(),
            writable_parent: Some((*operation, copy_string(target_path))),
            main: single_step(FsStep::CreateTargetDir { operation: *operation, target_path: copy_string(target_path) }),
            event,
        },
        FileAction::CopyFile { operation, source_path, target_path, metadata_policy, replace, .. } => ActionSteps {
            checks: Vec::new(),
            writable_parent: Some((*operation, copy_string(target_path))),
            main: replace_then(
                *operation,
                target_path,
                *replace,
                FsStep::CopyFile {
                    operation: *operation,
                    source_path: copy_string(source_path),
                    target_path: copy_string(target_path),
                    policy: *metadata_policy,
                },
            ),
            event,
        },
        FileAction::RepairMetadata { operation, source_path, target_path, metadata_policy, target_kind, .. } => ActionSteps {
            checks: single_step(FsStep::CheckTargetParent { operation: *operation, target_path: copy_string(target_path) }),
            writable_parent: None,
            main: single_step(
                FsStep::ApplyMetadata {
                    operation: *operation,
                    source_path: copy_string(source_path),
                    target_path: copy_string(target_path),
                    policy: *metadata_policy,
                    kind: *target_kind,
                },
            ),
            event,
        },
        FileAction::CreateSymlink {
            operation,
            target_path,
            preserved_source_path,
            link_target,
            final_target,
            target_is_dir,
            replace,
            ..
        } => {
            let checks = match preserved_source_path {
                Some(sp) => single_step(
                    FsStep::EnsurePreservedSymlinkSafe {
                        operation: *operation,
                        source_path: copy_string(sp),
                        target_path: copy_string(target_path),
                        link_target: copy_string(link_target),
                        final_target: copy_string(final_target),
                        target_is_dir: *target_is_dir,
                    },
                ),
                None => Vec::new(),
            };
            ActionSteps {
                checks,
                writable_parent: Some((*operation, copy_string(target_path))),
                main: replace_then(
                    *operation,
                    target_path,
                    *replace,
                    FsStep::CreateSymlink {
                        operation: *operation,
                        link_target: copy_string(link_target),
                        target_is_dir: *target_is_dir,
                        target_path: copy_string(target_path),
                    },
                ),
                event,
            }
        },
        FileAction::Delete { target_path, .. } => ActionSteps {
            checks: Vec::new(),
            writable_parent: Some((FileOperationKind::Sync, copy_string(target_path))),
            main: single_step(FsStep::RemoveAny { path: copy_string(target_path) }),
            event,
        },
        FileAction::Skip { .. } => ActionSteps { checks: Vec::new(), writable_parent: None, main: Vec::new(), event },
        FileAction::Warning { .. } => ActionSteps { checks: Vec::new(), writable_parent: None, main: Vec::new(), event },
    }
}

/// Options for executing one file operation group.
#[derive(Debug, Clone, Copy, PartialEq, Eq, Structural)]
pub struct FileExecutionOptions {
    /// Reports what would happen without touching files.
    pub dry_run: bool,
    /// Reports each action instead of compact progress.
    pub verbose: bool,
}

impl Default for FileExecutionOptions {
    fn default() -> (res: Self)
        ensures
            !res.dry_run && !res.verbose,
    {
        FileExecutionOptions { dry_run: false, verbose: false }
    }
}

/// What applying one action did: the runner's answer to its steps, then,
/// when they succeeded, its event handed to the reporter (`h`) and the
/// reporter's answer.
pub open spec fn applied_outcome(
    step: (ActionSteps, Result<(), Error>),
    h: Seq<(OutputEvent, Result<(), String>)>,
    res: Result<(), Error>,
) -> bool {
    match step.1 {
        Err(e) => h.len() == 0 && res == Err::<(), Error>(e),
        Ok(()) => match step.0.event {
            None => h.len() == 0 && res == Ok::<(), Error>(()),
            Some(ev) => h.len() == 1 && h[0].0 == ev && res == handed_outcome(h[0].1),
        },
    }
}

/// Applies one action: hands its steps to the runner, then reports its
/// event.
fn apply_action<R: Reporter, A: StepRunner>(
    action: &FileAction,
    runner: &mut StepLog<A>,
    reporter: &mut ReportLog<R>,
    detailed: bool,
) -> (res: Result<(), Error>)
    ensures
        final(runner).handed@.len() == old(runner).handed@.len() + 1,
        final(runner).handed@.drop_last() == old(runner).handed@,
        action_steps_spec(*action, detailed, final(runner).handed@.last().0),
        final(reporter).handed@.len() >= old(reporter).handed@.len(),
        final(reporter).handed@.take(old(reporter).handed@.len() as int) == old(reporter).handed@,
        applied_outcome(
            final(runner).handed@.last(),
            final(reporter).handed@.skip(old(reporter).handed@.len() as int),
            res,
        ),
{
    let ghost h0 = reporter.handed@;
    let ghost r0 = runner.handed@;
    let steps = action_steps(action, detailed);
    let ran = runner.run(&steps, &mut reporter.inner);
    proof {
        assert(runner.handed@.drop_last() =~= r0);
        assert(h0.take(h0.len() as int) =~= h0);
        assert(h0.skip(h0.len() as int) =~= Seq::<(OutputEvent, Result<(), String>)>::empty());
    }
    match ran {
        Ok(()) => {},
        Err(e) => return Err(e),
    }
    match steps.event {
        Some(event) => {
            let r = report(reporter, event);
            proof {
                let h = reporter.handed@;
                assert(h.take(h0.len() as int) =~= h0);
                assert(h.skip(h0.len() as int) =~= seq![h.last()]);
            }
            r
        },
        None => Ok(()),
    }
}

/// Events handed to a reporter, each with the reporter's answer.
pub type HandedEvents = Seq<(OutputEvent, Result<(), String>)>;

/// Action steps handed to a step runner, each with the runner's answer.
pub type HandedSteps = Seq<(ActionSteps, Result<(), Error>)>;

/// The first part of one action: in a dry run its dry-run event, if any, is
/// handed to the reporter; otherwise its steps go to the runner and, when
/// they succeed, its event to the reporter.
pub open spec fn first_part(a: FileAction, dry_run: bool, verbose: bool, h: HandedEvents, st: HandedSteps, r: Result<(), Error>) -> bool {
    if dry_run {
        st.len() == 0 && match dry_run_event(a, verbose) {
            None => h.len() == 0 && r == Ok::<(), Error>(()),
            Some(ev) => h.len() == 1 && h[0].0 == ev && r == handed_outcome(h[0].1),
        }
    } else {
        st.len() == 1 && action_steps_spec(a, verbose, st[0].0) && applied_outcome(st[0], h, r)
    }
}

/// After an action, compact output announces progress for each counted
/// action.
pub open spec fn advance_part(g: PlannedFileOperationActions, a: FileAction, verbose: bool, h: HandedEvents, r: Result<(), Error>) -> bool {
    if !verbose && counts_spec(a) {
        h.len() == 1 && h[0].0 == (OutputEvent::FileOperationActionAdvanced {
            operation: g.operation,
            source: g.source,
            target: g.target,
        }) && r == handed_outcome(h[0].1)
    } else {
        h.len() == 0 && r == Ok::<(), Error>(())
    }
}

/// One action of a group: its first part, then, unless that failed, its
/// progress announcement.
pub open spec fn action_part(
    g: PlannedFileOperationActions,
    a: FileAction,
    dry_run: bool,
    verbose: bool,
    h: HandedEvents,
    st: HandedSteps,
    r: Result<(), Error>,
) -> bool {
    exists|n: int, r1: Result<(), Error>|
        0 <= n <= h.len() && #[trigger] first_part(a, dry_run, verbose, h.take(n), st, r1) && match r1 {
            Err(e) => n == h.len() && r == Err::<(), Error>(e),
            Ok(()) => advance_part(g, a, verbose, h.skip(n), r),
        }
}

/// The actions `acts` of group `g` taken in order, every one but the last
/// going on, the last ending with `r`.
pub open spec fn actions_run(
    g: PlannedFileOperationActions,
    acts: Seq<FileAction>,
    dry_run: bool,
    verbose: bool,
    h: HandedEvents,
    st: HandedSteps,
    r: Result<(), Error>,
) -> bool
    decreases acts.len(),
{
    if acts.len() == 0 {
        h.len() == 0 && st.len() == 0 && r == Ok::<(), Error>(())
    } else {
        exists|n: int, m: int|
            0 <= n <= h.len() && 0 <= m <= st.len() && actions_run(
                g,
                acts.drop_last(),
                dry_run,
                verbose,
                h.take(n),
                st.take(m),
                Ok::<(), Error>(()),
            ) && #[trigger] action_part(g, acts.last(), dry_run, verbose, h.skip(n), st.skip(m), r)
    }
}

/// The end of a group: compact output reports the finished operation with
/// its summary when it decided anything; the result is the progress count.
pub open spec fn finish_part(g: PlannedFileOperationActions, dry_run: bool, verbose: bool, h: HandedEvents, res: Result<usize, Error>) -> bool {
    let count = count_where(g.actions@, |a: FileAction| counts_spec(a));
    if !verbose && count > 0 {
        &&& h.len() == 1
        &&& h[0].0 is FileOperationFinished
        &&& h[0].0->FileOperationFinished_operation == g.operation
        &&& h[0].0->FileOperationFinished_source == g.source
        &&& h[0].0->FileOperationFinished_target == g.target
        &&& summarizes(h[0].0->FileOperationFinished_summary, g.actions@, g.expanded)
        &&& h[0].0->FileOperationFinished_dry_run == dry_run
        &&& match handed_outcome(h[0].1) {
            Ok(()) => res == Ok::<usize, Error>(count as usize),
            Err(e) => res == Err::<usize, Error>(e),
        }
    } else {
        h.len() == 0 && res == Ok::<usize, Error>(count as usize)
    }
}

/// The start of a compact group: the operation with its progress count.
pub open spec fn started_event(g: PlannedFileOperationActions) -> OutputEvent {
    OutputEvent::FileOperationExecutionStarted {
        operation: g.operation,
        source: g.source,
        target: g.target,
        action_count: count_where(g.actions@, |a: FileAction| counts_spec(a)) as usize,
    }
}

/// The body of a group after its start: the actions in order, then the end;
/// a failure stops at the first action or report that failed.
pub open spec fn body_outcome(g: PlannedFileOperationActions, dry_run: bool, verbose: bool, h: HandedEvents, st: HandedSteps, res: Result<usize, Error>) -> bool {
    ||| exists|n: int|
        0 <= n <= h.len() && #[trigger] actions_run(g, g.actions@, dry_run, verbose, h.take(n), st, Ok::<(), Error>(()))
            && finish_part(g, dry_run, verbose, h.skip(n), res)
    ||| exists|j: int, e: Error|
        1 <= j <= g.actions@.len() && res == Err::<usize, Error>(e) && #[trigger] actions_run(
            g,
            g.actions@.take(j),
            dry_run,
            verbose,
            h,
            st,
            Err::<(), Error>(e),
        )
}

/// Everything a group's execution hands over and returns: nothing for an
/// empty group; compact output first announces the start with the progress
/// count; then the body.
pub open spec fn group_outcome(g: PlannedFileOperationActions, dry_run: bool, verbose: bool, h: HandedEvents, st: HandedSteps, res: Result<usize, Error>) -> bool {
    if g.actions@.len() == 0 {
        h.len() == 0 && st.len() == 0 && res == Ok::<usize, Error>(0)
    } else if verbose {
        body_outcome(g, dry_run, verbose, h, st, res)
    } else {
        &&& h.len() >= 1
        &&& h[0].0 == started_event(g)
        &&& match handed_outcome(h[0].1) {
            Err(e) => h.len() == 1 && st.len() == 0 && res == Err::<usize, Error>(e),
            Ok(()) => body_outcome(g, dry_run, verbose, h.skip(1), st, res),
        }
    }
}

/// Takes the `i`-th action of a group: its first part, then, unless that
/// failed, its progress announcement in compact output.
fn group_action<R: Reporter, A: StepRunner>(
    group: &PlannedFileOperationActions,
    i: usize,
    options: FileExecutionOptions,
    runner: &mut StepLog<A>,
    reporter: &mut ReportLog<R>,
) -> (res: Result<(), Error>)
    requires
        i < group.actions@.len(),
    ensures
        options.dry_run ==> *final(runner) == *old(runner),
        options.dry_run ==> (res matches Err(e) ==> e is Output),
        final(reporter).handed@.len() >= old(reporter).handed@.len(),
        final(reporter).handed@.take(old(reporter).handed@.len() as int) == old(reporter).handed@,
        final(runner).handed@.len() >= old(runner).handed@.len(),
        final(runner).handed@.take(old(runner).handed@.len() as int) == old(runner).handed@,
        action_part(
            *group,
            group.actions@[i as int],
            options.dry_run,
            options.verbose,
            final(reporter).handed@.skip(old(reporter).handed@.len() as int),
            final(runner).handed@.skip(old(runner).handed@.len() as int),
            res,
        ),
{
    let ghost hi = reporter.handed@;
    let ghost si = runner.handed@;
    let action = &group.actions[i];
    let progress_action = action.counts();
    let first = if options.dry_run {
        report_dry_run(action, reporter, options.verbose)
    } else {
        apply_action(action, runner, reporter, options.verbose)
    };
    let ghost hf = reporter.handed@;
    let ghost sf = runner.handed@;
    proof {
        assert(hf.take(hi.len() as int) =~= hi);
        assert(sf.take(si.len() as int) =~= si);
        if options.dry_run {
            assert(sf.skip(si.len() as int) =~= Seq::<(ActionSteps, Result<(), Error>)>::empty());
            if dry_run_event(*action, options.verbose) is None {
                assert(hf.skip(hi.len() as int) =~= Seq::<(OutputEvent, Result<(), String>)>::empty());
            } else {
                let ev = dry_run_event(*action, options.verbose).unwrap();
                assert(hf == hi.push((ev, hf.last().1)));
                assert(hf.skip(hi.len() as int) =~= seq![hf.last()]);
                assert(hf.last().0 == ev);
                assert(first == handed_outcome(hf.last().1));
            }
        } else {
            let st = sf.skip(si.len() as int);
            assert(st =~= seq![sf.last()]);
            assert(st.len() == 1);
            assert(action_steps_spec(*action, options.verbose, st[0].0));
            assert(applied_outcome(st[0], hf.skip(hi.len() as int), first));
        }
        assert(first_part(*action, options.dry_run, options.verbose, hf.skip(hi.len() as int), sf.skip(si.len() as int), first));
    }
    let second = match first {
        Ok(()) => {
            if !options.verbose && progress_action {
                let advanced = OutputEvent::FileOperationActionAdvanced {
                    operation: group.operation,
                    source: copy_string(&group.source),
                    target: copy_string(&group.target),
                };
                report(reporter, advanced)
            } else {
                Ok(())
            }
        },
        Err(e) => Err(e),
    };
    proof {
        let h = reporter.handed@;
        let k = hf.len() - hi.len();
        let ha = h.skip(hi.len() as int);
        assert(h.take(hf.len() as int).take(hi.len() as int) =~= h.take(hi.len() as int));
        assert(h.take(hi.len() as int) =~= hi);
        assert(ha.take(k) =~= hf.skip(hi.len() as int));
        assert(ha.skip(k) =~= h.skip(hf.len() as int));
        if first is Ok {
            if !options.verbose && progress_action {
                assert(h.skip(hf.len() as int) =~= seq![h.last()]);
            } else {
                assert(h.skip(hf.len() as int) =~= Seq::<(OutputEvent, Result<(), String>)>::empty());
            }
            assert(advance_part(*group, *action, options.verbose, ha.skip(k), second));
        } else {
            assert(ha.skip(k) =~= Seq::<(OutputEvent, Result<(), String>)>::empty());
        }
        assert(first_part(*action, options.dry_run, options.verbose, ha.take(k), runner.handed@.skip(si.len() as int), first));
        assert(action_part(*group, *action, options.dry_run, options.verbose, ha, runner.handed@.skip(si.len() as int), second));
    }
    second
}

/// Executes the actions of one operation in order, or only reports them in
/// a dry run, and returns the number of progress-visible actions. Compact
/// output brackets the actions with start and finish events and reports
/// each counted action's progress. The first error stops execution.
pub fn execute_file_operation_group<R: Reporter, A: StepRunner>(
    group: &PlannedFileOperationActions,
    options: FileExecutionOptions,
    runner: &mut StepLog<A>,
    reporter: &mut ReportLog<R>,
) -> (res: Result<usize, Error>)
    ensures
        res matches Ok(n) ==> n == count_where(group.actions@, |a: FileAction| counts_spec(a)),
        group.actions@.len() == 0 ==> res == Ok::<usize, Error>(0) && *final(runner) == *old(runner)
            && *final(reporter) == *old(reporter),
        options.dry_run ==> *final(runner) == *old(runner),
        options.dry_run ==> (res matches Err(e) ==> e is Output),
        final(reporter).handed@.len() >= old(reporter).handed@.len(),
        final(reporter).handed@.take(old(reporter).handed@.len() as int) == old(reporter).handed@,
        final(runner).handed@.len() >= old(runner).handed@.len(),
        final(runner).handed@.take(old(runner).handed@.len() as int) == old(runner).handed@,
        group_outcome(
            *group,
            options.dry_run,
            options.verbose,
            final(reporter).handed@.skip(old(reporter).handed@.len() as int),
            final(runner).handed@.skip(old(runner).handed@.len() as int),
            res,
        ),
{
    let ghost h0 = reporter.handed@;
    let ghost s0 = runner.handed@;
    if group.actions.len() == 0 {
        proof {
            assert(h0.skip(h0.len() as int) =~= Seq::<(OutputEvent, Result<(), String>)>::empty());
            assert(s0.skip(s0.len() as int) =~= Seq::<(ActionSteps, Result<(), Error>)>::empty());
            assert(h0.take(h0.len() as int) =~= h0);
            assert(s0.take(s0.len() as int) =~= s0);
        }
        return Ok(0);
    }
    let progress_action_count = group.progress_action_count();
    if !options.verbose {
        let started = OutputEvent::FileOperationExecutionStarted {
            operation: group.operation,
            source: copy_string(&group.source),
            target: copy_string(&group.target),
            action_count: progress_action_count,
        };
        let r = report(reporter, started);
        proof {
            let h = reporter.handed@;
            assert(h.take(h0.len() as int) =~= h0);
            assert(h.skip(h0.len() as int) =~= seq![h.last()]);
            assert(s0.skip(s0.len() as int) =~= Seq::<(ActionSteps, Result<(), Error>)>::empty());
            assert(s0.take(s0.len() as int) =~= s0);
        }
        match r {
            Ok(()) => {},
            Err(e) => return Err(e),
        }
    }
    // Where the body's events start.
    let ghost hb = if options.verbose { h0.len() as int } else { h0.len() + 1int };
    let ghost runner_before = *runner;
    proof {
        let h = reporter.handed@;
        assert(h.take(h0.len() as int) =~= h0);
        assert(h.skip(hb) =~= Seq::<(OutputEvent, Result<(), String>)>::empty());
        assert(s0.skip(s0.len() as int) =~= Seq::<(ActionSteps, Result<(), Error>)>::empty());
        assert(s0.take(s0.len() as int) =~= s0);
        assert(group.actions@.take(0) =~= Seq::<FileAction>::empty());
        if !options.verbose {
            assert(h.skip(h0.len() as int).skip(1) =~= h.skip(hb));
        }
    }
    let mut i: usize = 0;
    while i < group.actions.len()
        invariant
            i <= group.actions.len(),
            group.actions@.len() > 0,
            runner_before == *old(runner),
            options.dry_run ==> *runner == runner_before,
            h0 == old(reporter).handed@,
            s0 == old(runner).handed@,
            h0.len() <= hb <= reporter.handed@.len(),
            hb == if options.verbose { h0.len() as int } else { h0.len() + 1int },
            reporter.handed@.take(h0.len() as int) == h0,
            runner.handed@.len() >= s0.len(),
            runner.handed@.take(s0.len() as int) == s0,
            !options.verbose ==> reporter.handed@[h0.len() as int].0 == started_event(*group)
                && reporter.handed@[h0.len() as int].1 is Ok,
            actions_run(
                *group,
                group.actions@.take(i as int),
                options.dry_run,
                options.verbose,
                reporter.handed@.skip(hb),
                runner.handed@.skip(s0.len() as int),
                Ok::<(), Error>(()),
            ),
        decreases group.actions.len() - i,
    {
        let ghost hi = reporter.handed@;
        let ghost si = runner.handed@;
        let second = group_action(group, i, options, runner, reporter);
        proof {
            let h = reporter.handed@;
            let st = runner.handed@;
            let hh = h.skip(hb);
            let ss = st.skip(s0.len() as int);
            let n = hi.len() - hb;
            let m = si.len() - s0.len();
            assert(h.take(hi.len() as int).take(h0.len() as int) =~= h.take(h0.len() as int));
            assert(h.take(h0.len() as int) =~= h0);
            assert(st.take(si.len() as int).take(s0.len() as int) =~= st.take(s0.len() as int));
            assert(st.take(s0.len() as int) =~= s0);
            assert(hh.take(n) =~= hi.skip(hb));
            assert(ss.take(m) =~= si.skip(s0.len() as int));
            assert(hh.skip(n) =~= h.skip(hi.len() as int));
            assert(ss.skip(m) =~= st.skip(si.len() as int));
            let acts = group.actions@.take(i + 1);
            assert(acts.drop_last() =~= group.actions@.take(i as int));
            assert(acts.last() == group.actions@[i as int]);
            assert(actions_run(*group, acts.drop_last(), options.dry_run, options.verbose, hh.take(n), ss.take(m), Ok::<(), Error>(())));
            assert(action_part(*group, acts.last(), options.dry_run, options.verbose, hh.skip(n), ss.skip(m), second));
            assert(actions_run(*group, acts, options.dry_run, options.verbose, hh, ss, second));
            if !options.verbose {
                assert(h[h0.len() as int] == hi[h0.len() as int]);
            }
        }
        match second {
            Ok(()) => {},
            Err(e) => {
                proof {
                    let h = reporter.handed@;
                    assert(body_outcome(*group, options.dry_run, options.verbose, h.skip(hb), runner.handed@.skip(s0.len() as int), Err::<usize, Error>(e)));
                    if !options.verbose {
                        assert(h.skip(h0.len() as int).skip(1) =~= h.skip(hb));
                    }
                }
                return Err(e);
            },
        }
        i = i + 1;
    }
    proof {
        assert(group.actions@.take(group.actions.len() as int) =~= group.actions@);
    }
    let ghost hn = reporter.handed@;
    let mut result: Result<usize, Error> = Ok(progress_action_count);
    if !options.verbose {
        let summary = group.summary();
        proof {
            lemma_progress_is_decisions(*group, summary);
            lemma_count_bounded(group.actions@, |a: FileAction| counts_spec(a));
        }
        if summary.decision_count() > 0 {
            let finished = OutputEvent::FileOperationFinished {
                operation: group.operation,
                source: copy_string(&group.source),
                target: copy_string(&group.target),
                summary,
                dry_run: options.dry_run,
            };
            match report(reporter, finished) {
                Ok(()) => {},
                Err(e) => {
                    result = Err(e);
                },
            }
        }
    }
    proof {
        let h = reporter.handed@;
        let hh = h.skip(hb);
        let n = hn.len() - hb;
        assert(h.take(h0.len() as int) =~= h0);
        assert(hh.take(n) =~= hn.skip(hb));
        assert(hh.skip(n) =~= h.skip(hn.len() as int));
        assert(finish_part(*group, options.dry_run, options.verbose, hh.skip(n), result));
        assert(body_outcome(*group, options.dry_run, options.verbose, hh, runner.handed@.skip(s0.len() as int), result));
        if !options.verbose {
            assert(h.skip(h0.len() as int).skip(1) =~= hh);
        }
    }
    result
}

} // verus!
