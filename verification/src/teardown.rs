//! `treeboot teardown`: running the teardown commands of a prepared plan.

use vstd::prelude::*;
use crate::action_plan::PlannedCommand;
use crate::commands::{CommandLog, CommandRunner, CommandStage, dry_outcome, execute_command_list, report, run_outcome};
use crate::context::Worktree;
use crate::error::Error;
use crate::output::{OutputEvent, ReportLog, Reporter};

verus! {

/// Validated teardown commands for one worktree.
#[derive(Debug, Clone, PartialEq, Eq)]
pub struct TeardownPlan {
    /// The worktree the commands run in.
    pub context: Worktree,
    /// Commands in declaration order.
    pub commands: Vec<PlannedCommand>,
}

/// The prepared outcome of teardown discovery and validation.
#[derive(Debug, Clone, PartialEq, Eq)]
#[non_exhaustive]
pub enum TeardownAction {
    /// No discovered config exists, so teardown is a no-op.
    MissingConfig,
    /// The selected config has no teardown commands.
    NoCommands,
    /// A validated teardown plan is ready for approval and execution.
    Ready(TeardownPlan),
}

/// The teardown action for a plan: ready only when it has commands. A plan
/// without commands is announced as such; the reporter's refusal is an
/// output error.
pub fn teardown_action<R: Reporter>(plan: TeardownPlan, reporter: &mut ReportLog<R>) -> (res: Result<
    TeardownAction,
    Error,
>)
    ensures
        plan.commands.len() > 0 ==> res == Ok::<TeardownAction, Error>(TeardownAction::Ready(plan))
            && final(reporter).handed@ == old(reporter).handed@,
        plan.commands.len() == 0 ==> {
            &&& final(reporter).handed@.len() == old(reporter).handed@.len() + 1
            &&& final(reporter).handed@.drop_last() == old(reporter).handed@
            &&& final(reporter).handed@.last().0 == OutputEvent::NoTeardownCommandsConfigured
            &&& match final(reporter).handed@.last().1 {
                Ok(()) => res == Ok::<TeardownAction, Error>(TeardownAction::NoCommands),
                Err(m) => res == Err::<TeardownAction, Error>(Error::Output { message: m }),
            }
        },
{
    if plan.commands.len() == 0 {
        let reported = report(reporter, OutputEvent::NoTeardownCommandsConfigured);
        proof {
            assert(reporter.handed@.drop_last() =~= old(reporter).handed@);
        }
        match reported {
            Ok(()) => Ok(TeardownAction::NoCommands),
            Err(e) => Err(e),
        }
    } else {
        Ok(TeardownAction::Ready(plan))
    }
}

/// Options for executing an already prepared teardown plan.
#[derive(Debug, Clone, Copy, PartialEq, Eq, Structural)]
pub struct TeardownExecuteOptions {
    /// Reports commands without spawning them.
    pub dry_run: bool,
}

/// Result summary for teardown execution.
#[derive(Debug, Clone, Copy, PartialEq, Eq, Structural)]
pub struct TeardownReport {
    /// Number of teardown commands reported or executed.
    pub command_count: usize,
}

/// The outcome of a run without its report.
pub open spec fn unit_result(res: Result<TeardownReport, Error>) -> Result<(), Error> {
    match res {
        Ok(_) => Ok(()),
        Err(e) => Err(e),
    }
}

/// Executes an already prepared teardown plan: runs (or, in a dry run,
/// reports) its commands in order and counts them.
pub fn execute_teardown<R: Reporter, C: CommandRunner>(
    plan: &TeardownPlan,
    options: TeardownExecuteOptions,
    reporter: &mut ReportLog<R>,
    runner: &mut CommandLog<C>,
) -> (res: Result<TeardownReport, Error>)
    ensures
        res matches Ok(r) ==> r.command_count == plan.commands.len(),
        res matches Err(e) ==> (e is Output || (!options.dry_run && (e is CommandIo
            || e is CommandFailed))),
        options.dry_run ==> *final(runner) == *old(runner),
        final(reporter).handed@.len() >= old(reporter).handed@.len(),
        final(reporter).handed@.take(old(reporter).handed@.len() as int) == old(reporter).handed@,
        final(runner).ran@.len() >= old(runner).ran@.len(),
        final(runner).ran@.take(old(runner).ran@.len() as int) == old(runner).ran@,
        options.dry_run ==> dry_outcome(
            CommandStage::Teardown,
            plan.commands@,
            final(reporter).handed@.skip(old(reporter).handed@.len() as int),
            unit_result(res),
        ),
        !options.dry_run ==> run_outcome(
            CommandStage::Teardown,
            plan.context,
            plan.commands@,
            final(reporter).handed@.skip(old(reporter).handed@.len() as int),
            final(runner).ran@.skip(old(runner).ran@.len() as int),
            unit_result(res),
        ),
{
    match execute_command_list(&plan.context, &plan.commands, options.dry_run, CommandStage::Teardown, reporter, runner) {
        Ok(()) => Ok(TeardownReport { command_count: plan.commands.len() }),
        Err(e) => Err(e),
    }
}

} // verus!
