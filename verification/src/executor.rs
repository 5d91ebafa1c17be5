//! Executing validated action plans: file operations first, then commands.

use vstd::prelude::*;
use crate::action_plan::ActionPlan;
use crate::commands::{CommandStage, 
    CommandLog, CommandRunner, Handed, Ran, command_error_of, dry_outcome, execute_commands, run_outcome,
};
use crate::error::Error;
use crate::fs_snapshot::FsSnapshot;
use crate::file_execution::{HandedEvents, StepLog, StepRunner};
use crate::file_operations::{
    groups_run, groups_failed, refused_last, some_refused, some_step_failed,
    SnapshotFileApplier, all_plannable, apply_file_operations, capped, lemma_prepared_is_plannable, planning_error,
    prepares, total_progress,
};
use crate::output::{ReportLog, Reporter};

verus! {

/// Options that control action plan execution.
#[derive(Debug, Clone, Copy, PartialEq, Eq, Structural)]
pub struct ExecuteOptions {
    /// Rejects strict-mode file-operation conflicts.
    pub strict: bool,
    /// Replaces existing file-operation targets where supported.
    pub force: bool,
    /// Prints planned work without changing files or running commands.
    pub dry_run: bool,
    /// Applies file operations only.
    pub skip_commands: bool,
}

impl Default for ExecuteOptions {
    fn default() -> (res: Self)
        ensures
            !res.strict && !res.force && !res.dry_run && !res.skip_commands,
    {
        ExecuteOptions { strict: false, force: false, dry_run: false, skip_commands: false }
    }
}

/// Options handed to file-operation application.
#[derive(Debug, Clone, Copy, PartialEq, Eq, Structural)]
pub struct FileApplyOptions {
    pub strict: bool,
    pub force: bool,
    pub dry_run: bool,
    pub verbose: bool,
}

/// Result summary for action plan execution.
#[derive(Debug, Clone, Copy, PartialEq, Eq, Structural)]
pub struct ExecutionReport {
    /// Number of file actions applied or reported.
    pub file_action_count: usize,
}

/// What the file stage of a run promises: a successful count is that of the
/// prepared groups; a dry run takes no step; a plan that cannot be fully
/// planned takes no step and fails with an output or planning error; a plan
/// without file operations succeeds with a count of zero and no step.
pub open spec fn files_stage<A>(
    s: FsSnapshot,
    plan: ActionPlan,
    o: ExecuteOptions,
    before: StepLog<A>,
    after: StepLog<A>,
    h: HandedEvents,
    res: Result<ExecutionReport, Error>,
) -> bool {
    let st = after.handed@.skip(before.handed@.len() as int);
    &&& after.handed@.len() >= before.handed@.len()
    &&& after.handed@.take(before.handed@.len() as int) == before.handed@
    &&& res matches Ok(r) ==> exists|groups: Seq<crate::file_actions::PlannedFileOperationActions>, k: int|
        0 <= k <= h.len() && prepares(s, plan, o.strict, o.force, groups) && r.file_action_count == capped(
            total_progress(groups),
        ) && #[trigger] groups_run(groups, o.dry_run, false, h.skip(k), st)
    &&& res matches Err(e) ==> {
        ||| planning_error(s, plan, o.strict, o.force, e)
        ||| refused_last(h, e)
        ||| exists|groups: Seq<crate::file_actions::PlannedFileOperationActions>, k: int|
            0 <= k <= h.len() && prepares(s, plan, o.strict, o.force, groups) && #[trigger] groups_failed(
                groups,
                o.dry_run,
                false,
                h.skip(k),
                st,
                e,
            )
    }
    &&& all_plannable(s, plan, o.strict, o.force) && !some_refused(h) && !some_step_failed(st) ==> res is Ok
    &&& o.dry_run ==> after == before
    &&& o.dry_run ==> (res matches Err(e) ==> e is Output || planning_error(s, plan, o.strict, o.force, e))
    &&& !all_plannable(s, plan, o.strict, o.force) ==> after == before && (res matches Err(e) && (e is Output
        || planning_error(s, plan, o.strict, o.force, e)))
    &&& plan.files@.len() == 0 ==> after == before && h.len() == 0 && res == Ok::<ExecutionReport, Error>(
        ExecutionReport { file_action_count: 0 },
    )
}

/// What the command stage of a run did: in a dry run each command announced
/// in order and none run; otherwise the commands run in order as
/// `run_outcome` describes. `h` and `r` are what it handed to the reporter
/// and the runner.
pub open spec fn commands_stage(plan: ActionPlan, dry_run: bool, h: Handed, r: Ran, res: Result<(), Error>) -> bool {
    if dry_run {
        r.len() == 0 && dry_outcome(CommandStage::Bootstrap, plan.commands@, h, res)
    } else {
        run_outcome(CommandStage::Bootstrap, plan.context, plan.commands@, h, r, res)
    }
}

/// Executes validated action plans.
#[derive(Debug, Clone, Copy, PartialEq, Eq, Structural)]
pub struct Executor {
    options: ExecuteOptions,
}

impl Executor {
    /// The options of this executor.
    pub closed spec fn spec_options(&self) -> ExecuteOptions {
        self.options
    }

    /// Creates an executor from execution options.
    pub fn new(options: ExecuteOptions) -> (res: Self)
        ensures
            res.spec_options() == options,
    {
        Executor { options }
    }

    /// The options handed to file application: strict, force and dry run as
    /// given, compact (not verbose) output.
    pub fn file_apply_options(&self) -> (res: FileApplyOptions)
        ensures
            res == (FileApplyOptions {
                strict: self.spec_options().strict,
                force: self.spec_options().force,
                dry_run: self.spec_options().dry_run,
                verbose: false,
            }),
    {
        FileApplyOptions {
            strict: self.options.strict,
            force: self.options.force,
            dry_run: self.options.dry_run,
            verbose: false,
        }
    }

    /// Applies the file-operation portion of a plan: every operation is
    /// planned against the snapshot of `files` before its runner takes any
    /// step, and the count of progress-visible actions is reported.
    pub fn execute_files<R: Reporter, A: StepRunner>(
        &self,
        plan: &ActionPlan,
        reporter: &mut ReportLog<R>,
        files: &mut SnapshotFileApplier<A>,
    ) -> (res: Result<ExecutionReport, Error>)
        ensures
            final(files).snapshot == old(files).snapshot,
            final(reporter).handed@.len() >= old(reporter).handed@.len(),
            final(reporter).handed@.take(old(reporter).handed@.len() as int) == old(reporter).handed@,
            plan.files@.len() == 0 ==> *final(reporter) == *old(reporter),
            files_stage(
                old(files).snapshot,
                *plan,
                self.spec_options(),
                old(files).runner,
                final(files).runner,
                final(reporter).handed@.skip(old(reporter).handed@.len() as int),
                res,
            ),
    {
        let options = self.file_apply_options();
        let ghost h0 = reporter.handed@.len() as int;
        let ghost s0 = files.runner.handed@.len() as int;
        let r = apply_file_operations(&files.snapshot, plan, options, &mut files.runner, reporter);
        let ghost h = reporter.handed@.skip(h0);
        let ghost st = files.runner.handed@.skip(s0);
        match r {
            Ok(count) => {
                proof {
                    let (g2, k) = choose|g2: Seq<crate::file_actions::PlannedFileOperationActions>, k: int|
                        h0 <= k <= reporter.handed@.len() && prepares(
                            files.snapshot,
                            *plan,
                            options.strict,
                            options.force,
                            g2,
                        ) && count == capped(total_progress(g2)) && #[trigger] groups_run(
                            g2,
                            options.dry_run,
                            options.verbose,
                            reporter.handed@.skip(k),
                            st,
                        );
                    assert(h.skip(k - h0) =~= reporter.handed@.skip(k));
                    assert(groups_run(g2, self.spec_options().dry_run, false, h.skip(k - h0), st));
                    if plan.files@.len() == 0 {
                        assert(h =~= Seq::<(crate::output::OutputEvent, Result<(), String>)>::empty());
                    }
                }
                Ok(ExecutionReport { file_action_count: count })
            },
            Err(e) => {
                proof {
                    if exists|g2: Seq<crate::file_actions::PlannedFileOperationActions>, k: int|
                        h0 <= k <= reporter.handed@.len() && prepares(
                            files.snapshot,
                            *plan,
                            options.strict,
                            options.force,
                            g2,
                        ) && #[trigger] groups_failed(g2, options.dry_run, options.verbose, reporter.handed@.skip(k), st, e) {
                        let (g2, k) = choose|g2: Seq<crate::file_actions::PlannedFileOperationActions>, k: int|
                            h0 <= k <= reporter.handed@.len() && prepares(
                                files.snapshot,
                                *plan,
                                options.strict,
                                options.force,
                                g2,
                            ) && #[trigger] groups_failed(g2, options.dry_run, options.verbose, reporter.handed@.skip(k), st, e);
                        assert(h.skip(k - h0) =~= reporter.handed@.skip(k));
                        assert(groups_failed(g2, self.spec_options().dry_run, false, h.skip(k - h0), st, e));
                    }
                }
                Err(e)
            },
        }
    }

    /// Executes the command portion of a plan.
    pub fn execute_commands<R: Reporter, C: CommandRunner>(
        &self,
        plan: &ActionPlan,
        reporter: &mut ReportLog<R>,
        runner: &mut CommandLog<C>,
    ) -> (res: Result<(), Error>)
        ensures
            res matches Err(e) ==> (e is Output || (!self.spec_options().dry_run && exists|i: int|
                0 <= i < plan.commands@.len() && command_error_of(e, #[trigger] plan.commands@[i]))),
            self.spec_options().dry_run ==> *final(runner) == *old(runner),
            plan.commands@.len() == 0 ==> res is Ok && *final(runner) == *old(runner) && *final(reporter)
                == *old(reporter),
            final(reporter).handed@.len() >= old(reporter).handed@.len(),
            final(reporter).handed@.take(old(reporter).handed@.len() as int) == old(reporter).handed@,
            final(runner).ran@.len() >= old(runner).ran@.len(),
            final(runner).ran@.take(old(runner).ran@.len() as int) == old(runner).ran@,
            commands_stage(
                *plan,
                self.spec_options().dry_run,
                final(reporter).handed@.skip(old(reporter).handed@.len() as int),
                final(runner).ran@.skip(old(runner).ran@.len() as int),
                res,
            ),
    {
        let r = execute_commands(plan, self.options.dry_run, reporter, runner);
        proof {
            if self.options.dry_run {
                assert(runner.ran@.skip(old(runner).ran@.len() as int) =~= Seq::<
                    (crate::context::Worktree, crate::action_plan::PlannedCommand, crate::commands::CommandOutcome),
                >::empty());
            }
        }
        r
    }

    /// Executes a complete action plan: files first, then, unless skipped,
    /// commands; the file report is returned.
    pub fn execute<R: Reporter, A: StepRunner, C: CommandRunner>(
        &self,
        plan: &ActionPlan,
        reporter: &mut ReportLog<R>,
        files: &mut SnapshotFileApplier<A>,
        runner: &mut CommandLog<C>,
    ) -> (res: Result<ExecutionReport, Error>)
        ensures
            (self.spec_options().dry_run || self.spec_options().skip_commands) ==> *final(runner)
                == *old(runner),
            self.spec_options().dry_run ==> final(files).runner == old(files).runner,
            !all_plannable(old(files).snapshot, *plan, self.spec_options().strict, self.spec_options().force)
                ==> final(files).runner == old(files).runner && *final(runner) == *old(runner) && res is Err,
            res matches Ok(r) ==> exists|groups: Seq<crate::file_actions::PlannedFileOperationActions>|
                prepares(old(files).snapshot, *plan, self.spec_options().strict, self.spec_options().force, groups)
                    && r.file_action_count == capped(total_progress(groups)),
            plan.files@.len() == 0 && (self.spec_options().skip_commands || plan.commands@.len() == 0) ==> res
                == Ok::<ExecutionReport, Error>(ExecutionReport { file_action_count: 0 }) && final(files).runner
                == old(files).runner && *final(runner) == *old(runner) && *final(reporter) == *old(reporter),
            final(files).snapshot == old(files).snapshot,
            final(runner).ran@.len() >= old(runner).ran@.len(),
            final(runner).ran@.take(old(runner).ran@.len() as int) == old(runner).ran@,
            exists|fr: Result<ExecutionReport, Error>, k: int|
                #![trigger files_stage(old(files).snapshot, *plan, self.spec_options(), old(files).runner, final(files).runner, final(reporter).handed@.subrange(old(reporter).handed@.len() as int, k), fr)]
                old(reporter).handed@.len() <= k <= final(reporter).handed@.len() && files_stage(
                    old(files).snapshot,
                    *plan,
                    self.spec_options(),
                    old(files).runner,
                    final(files).runner,
                    final(reporter).handed@.subrange(old(reporter).handed@.len() as int, k),
                    fr,
                ) && match fr {
                    Err(e) => res == Err::<ExecutionReport, Error>(e) && k == final(reporter).handed@.len()
                        && *final(runner) == *old(runner),
                    Ok(fr_r) => if self.spec_options().skip_commands {
                        res == Ok::<ExecutionReport, Error>(fr_r) && k == final(reporter).handed@.len()
                            && *final(runner) == *old(runner)
                    } else {
                        exists|cr: Result<(), Error>|
                            #[trigger] commands_stage(
                                *plan,
                                self.spec_options().dry_run,
                                final(reporter).handed@.skip(k),
                                final(runner).ran@.skip(old(runner).ran@.len() as int),
                                cr,
                            ) && res == match cr {
                                Ok(()) => Ok::<ExecutionReport, Error>(fr_r),
                                Err(e) => Err::<ExecutionReport, Error>(e),
                            }
                    },
                },
    {
        let ghost h0 = reporter.handed@.len() as int;
        let fr = self.execute_files(plan, reporter, files);
        let ghost k = reporter.handed@.len() as int;
        let ghost mid = reporter.handed@;
        let ghost r0 = runner.ran@;
        proof {
            assert(reporter.handed@.skip(k) =~= Seq::<(crate::output::OutputEvent, Result<(), String>)>::empty());
            assert(r0.take(r0.len() as int) =~= r0);
            assert(mid.subrange(h0, k) =~= mid.skip(h0));
        }
        let report = match fr {
            Ok(r) => r,
            Err(e) => {
                proof {
                    assert(files_stage(old(files).snapshot, *plan, self.spec_options(), old(files).runner, files.runner, reporter.handed@.subrange(h0, k), fr));
                }
                return Err(e);
            },
        };
        if !self.options.skip_commands {
            let cr = self.execute_commands(plan, reporter, runner);
            proof {
                let h = reporter.handed@;
                assert(h.take(k) == mid);
                assert(h.subrange(h0, k) =~= mid.skip(h0));
                assert(commands_stage(*plan, self.spec_options().dry_run, h.skip(k), runner.ran@.skip(r0.len() as int), cr));
                assert(files_stage(old(files).snapshot, *plan, self.spec_options(), old(files).runner, files.runner, h.subrange(h0, k), fr));
            }
            match cr {
                Ok(()) => {},
                Err(e) => return Err(e),
            }
        } else {
            proof {
                assert(files_stage(old(files).snapshot, *plan, self.spec_options(), old(files).runner, files.runner, reporter.handed@.subrange(h0, k), fr));
            }
        }
        Ok(report)
    }
}

} // verus!
