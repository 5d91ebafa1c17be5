//! Labels of configured commands and the decisions taken when they run.

use vstd::prelude::*;
use crate::action_plan::{ActionPlan, PlannedCommand};
use crate::config::CommandKind;
use crate::context::Worktree;
use crate::error::Error;
use crate::output::{OutputEvent, ReportLog, Reporter, handed_outcome};
use crate::text::{copy_string, join_seqs, join_strings, string_views, concat2, owned};
use crate::apply_guard::{path_starts_within, starts_within};
use crate::paths::{join, join_paths};

verus! {

/// The invocation text of a command: the shell line, or the program followed
/// by its arguments, separated by spaces.
pub open spec fn invocation_text(command: CommandKind) -> Seq<char> {
    match command {
        CommandKind::Shell { run } => run@,
        CommandKind::Direct { program, args } => if args.len() == 0 {
            program@
        } else {
            program@ + " "@ + join_seqs(string_views(args@), " "@)
        },
    }
}

/// The label of a command: `"{name}: {invocation}"`, or the invocation alone.
pub open spec fn label_text(command: PlannedCommand) -> Seq<char> {
    match command.name {
        Some(name) => name@ + ": "@ + invocation_text(command.command),
        None => invocation_text(command.command),
    }
}

/// The invocation text of a command.
pub fn invocation_label(command: &CommandKind) -> (res: String)
    ensures
        res@ == invocation_text(*command),
{
    match command {
        CommandKind::Shell { run } => copy_string(run),
        CommandKind::Direct { program, args } => {
            if args.len() == 0 {
                copy_string(program)
            } else {
                let mut res = copy_string(program);
                res.append(" ");
                let joined = join_strings(args, " ");
                res.append(joined.as_str());
                res
            }
        },
    }
}

/// The human-readable label of a command.
pub fn command_label(command: &PlannedCommand) -> (res: String)
    ensures
        res@ == label_text(*command),
{
    let invocation = invocation_label(&command.command);
    match &command.name {
        Some(name) => {
            let mut res = copy_string(name);
            res.append(": ");
            res.append(invocation.as_str());
            res
        },
        None => invocation,
    }
}

/// How a command run ended.
#[derive(Debug, Clone, PartialEq, Eq)]
pub enum CommandOutcome {
    /// The process could not be started; the message says why.
    StartFailed(String),
    /// The process ran and exited with `status` (its display text).
    Exited { success: bool, status: String },
}

/// What follows a command run: nothing, a warning event for an allowed
/// failure, or an error.
pub open spec fn outcome_result(
    allow_failure: bool,
    label: Seq<char>,
    outcome: CommandOutcome,
    r: Result<Option<OutputEvent>, Error>,
) -> bool {
    match outcome {
        CommandOutcome::StartFailed(message) => if allow_failure {
            r matches Ok(Some(OutputEvent::CommandAllowedFailure { label: l, reason }))
                && l@ == label && reason@ == "failed to start: "@ + message@
        } else {
            r matches Err(Error::CommandIo { label: l, message: m }) && l@ == label && m@
                == message@
        },
        CommandOutcome::Exited { success, status } => if success {
            r == Ok::<Option<OutputEvent>, Error>(None)
        } else if allow_failure {
            r matches Ok(Some(OutputEvent::CommandAllowedFailure { label: l, reason }))
                && l@ == label && reason@ == "failed with "@ + status@
        } else {
            r matches Err(Error::CommandFailed { label: l, status: s }) && l@ == label && s@
                == status@
        },
    }
}

/// Decides what follows a command run.
pub fn command_outcome_decision(allow_failure: bool, label: &str, outcome: &CommandOutcome) -> (res:
    Result<Option<OutputEvent>, Error>)
    ensures
        outcome_result(allow_failure, label@, *outcome, res),
{
    match outcome {
        CommandOutcome::StartFailed(message) => {
            if allow_failure {
                Ok(
                    Some(
                        OutputEvent::CommandAllowedFailure {
                            label: String::from_str(label),
                            reason: concat2("failed to start: ", message.as_str()),
                        },
                    ),
                )
            } else {
                Err(Error::CommandIo { label: String::from_str(label), message: copy_string(message) })
            }
        },
        CommandOutcome::Exited { success, status } => {
            if *success {
                Ok(None)
            } else if allow_failure {
                Ok(
                    Some(
                        OutputEvent::CommandAllowedFailure {
                            label: String::from_str(label),
                            reason: concat2("failed with ", status.as_str()),
                        },
                    ),
                )
            } else {
                Err(Error::CommandFailed { label: String::from_str(label), status: copy_string(status) })
            }
        },
    }
}

/// Runs configured commands.
pub trait CommandRunner {
    /// Runs `command` in `context` and reports how it ended.
    fn run_command(&mut self, command: &PlannedCommand, context: &Worktree) -> CommandOutcome;
}

/// The directory a command is declared to run in, before symlinks are
/// resolved: its `cwd` joined onto the worktree, or the worktree itself.
pub fn declared_command_dir(command: &PlannedCommand, context: &Worktree) -> (res: String)
    ensures
        res@ == join(
            context.worktree_path@,
            match command.cwd {
                Some(c) => c@,
                None => context.worktree_path@,
            },
        ),
{
    match &command.cwd {
        Some(c) => join_paths(context.worktree_path.as_str(), c.as_str()),
        None => join_paths(context.worktree_path.as_str(), context.worktree_path.as_str()),
    }
}

/// The message of a command whose directory resolves outside the worktree.
pub open spec fn cwd_outside_message() -> Seq<char> {
    "command cwd resolves outside worktree"@
}

/// Decides where a command may start, from the resolved worktree and the
/// resolved command directory (or the messages of their failed
/// resolution): the command directory when it lies in the worktree,
/// otherwise the reason it may not start.
pub fn command_dir_verdict(worktree: &Result<String, String>, cwd: &Result<String, String>) -> (res: Result<
    String,
    String,
>)
    ensures
        match (worktree, cwd) {
            (Err(m), _) => res == Err::<String, String>(*m),
            (Ok(_), Err(m)) => res == Err::<String, String>(*m),
            (Ok(w), Ok(c)) => if starts_within(c@, w@) {
                res == Ok::<String, String>(*c)
            } else {
                res matches Err(m) && m@ == cwd_outside_message()
            },
        },
{
    let w = match worktree {
        Ok(w) => w,
        Err(m) => return Err(copy_string(m)),
    };
    let c = match cwd {
        Ok(c) => c,
        Err(m) => return Err(copy_string(m)),
    };
    if path_starts_within(c.as_str(), w.as_str()) {
        Ok(copy_string(c))
    } else {
        Err(owned("command cwd resolves outside worktree"))
    }
}

/// Which command list runs: the bootstrap's or the teardown's. Each
/// announces its commands with events of its own.
#[derive(Debug, Clone, Copy, PartialEq, Eq, Structural)]
pub enum CommandStage {
    /// The commands run after the file operations of a bootstrap.
    Bootstrap,
    /// The commands run when a worktree is torn down.
    Teardown,
}

/// Events handed to a reporter, each with the reporter's answer.
pub type Handed = Seq<(OutputEvent, Result<(), String>)>;

/// Commands handed to a runner, each with its context and how it ended.
pub type Ran = Seq<(Worktree, PlannedCommand, CommandOutcome)>;

/// A command runner together with the record of every command the library
/// has handed to it, in order, with the context and the outcome.
pub struct CommandLog<C> {
    /// The runner the commands go to.
    pub inner: C,
    /// The commands handed over so far.
    pub ran: Ghost<Ran>,
}

impl<C: CommandRunner> CommandLog<C> {
    /// Starts a log with no command handed over yet.
    pub fn new(inner: C) -> (res: Self)
        ensures
            res.inner == inner,
            res.ran@ == Seq::<(Worktree, PlannedCommand, CommandOutcome)>::empty(),
    {
        CommandLog { inner, ran: Ghost(Seq::empty()) }
    }

    /// Hands one command to the runner and records it with its outcome.
    pub fn run(&mut self, command: &PlannedCommand, context: &Worktree) -> (res: CommandOutcome)
        ensures
            final(self).ran@ == old(self).ran@.push((*context, *command, res)),
    {
        let outcome = self.inner.run_command(command, context);
        self.ran = Ghost(self.ran@.push((*context, *command, outcome)));
        outcome
    }
}

/// Whether `e` is an error that running `command` can end with: an output
/// error, or, for a command whose failure is not allowed, a start or exit
/// failure labelled with the command.
pub open spec fn command_error_of(e: Error, command: PlannedCommand) -> bool {
    match e {
        Error::Output { .. } => true,
        Error::CommandIo { label, .. } => !command.allow_failure && label@ == label_text(command),
        Error::CommandFailed { label, .. } => !command.allow_failure && label@ == label_text(command),
        _ => false,
    }
}

/// Hands an event to the reporter, turning a refusal into an output error.
pub fn report<R: Reporter>(reporter: &mut ReportLog<R>, event: OutputEvent) -> (res: Result<(), Error>)
    ensures
        final(reporter).handed@ == old(reporter).handed@.push((event, final(reporter).handed@.last().1)),
        res == handed_outcome(final(reporter).handed@.last().1),
        res matches Err(e) ==> e is Output,
{
    reporter.report(event)
}

/// Whether `e` announces that `command` starts.
pub open spec fn is_started(stage: CommandStage, e: OutputEvent, command: PlannedCommand) -> bool {
    match stage {
        CommandStage::Bootstrap => e matches OutputEvent::CommandStarted { label } && label@ == label_text(command),
        CommandStage::Teardown => e matches OutputEvent::TeardownCommandStarted { label } && label@ == label_text(
            command,
        ),
    }
}

/// Whether `e` announces that a dry run would run `command`.
pub open spec fn is_would_run(stage: CommandStage, e: OutputEvent, command: PlannedCommand) -> bool {
    match stage {
        CommandStage::Bootstrap => e matches OutputEvent::CommandWouldRun { label } && label@ == label_text(command),
        CommandStage::Teardown => e matches OutputEvent::TeardownCommandWouldRun { label } && label@ == label_text(
            command,
        ),
    }
}

/// The event that announces the start of a command with `label`.
pub fn started_event(stage: CommandStage, label: String) -> (e: OutputEvent)
    ensures
        e == (match stage {
            CommandStage::Bootstrap => OutputEvent::CommandStarted { label },
            CommandStage::Teardown => OutputEvent::TeardownCommandStarted { label },
        }),
{
    match stage {
        CommandStage::Bootstrap => OutputEvent::CommandStarted { label },
        CommandStage::Teardown => OutputEvent::TeardownCommandStarted { label },
    }
}

/// The event that announces that a dry run would run a command with
/// `label`.
pub fn would_run_event(stage: CommandStage, label: String) -> (e: OutputEvent)
    ensures
        e == (match stage {
            CommandStage::Bootstrap => OutputEvent::CommandWouldRun { label },
            CommandStage::Teardown => OutputEvent::TeardownCommandWouldRun { label },
        }),
{
    match stage {
        CommandStage::Bootstrap => OutputEvent::CommandWouldRun { label },
        CommandStage::Teardown => OutputEvent::TeardownCommandWouldRun { label },
    }
}

/// What follows the run of `command` with `outcome`: nothing more when it
/// succeeded; for an allowed failure, its warning handed to the reporter
/// (`h`) and the reporter's answer; otherwise the failure as the result.
pub open spec fn after_run(command: PlannedCommand, outcome: CommandOutcome, h: Handed, res: Result<(), Error>) -> bool {
    exists|d: Result<Option<OutputEvent>, Error>|
        #[trigger] outcome_result(command.allow_failure, label_text(command), outcome, d) && match d {
            Ok(None) => h.len() == 0 && res == Ok::<(), Error>(()),
            Ok(Some(ev)) => h.len() == 1 && h[0].0 == ev && res == handed_outcome(h[0].1),
            Err(e) => h.len() == 0 && res == Err::<(), Error>(e),
        }
}

/// One command run in `context`: its start is announced (`h` starts with
/// that event); when the reporter refuses it the command is not run;
/// otherwise the command alone is handed to the runner (`r`) and its
/// outcome decides the rest.
pub open spec fn command_step(stage: CommandStage, context: Worktree, command: PlannedCommand, h: Handed, r: Ran, res: Result<(), Error>) -> bool {
    &&& h.len() >= 1
    &&& is_started(stage, h[0].0, command)
    &&& match h[0].1 {
        Err(_) => h.len() == 1 && r.len() == 0 && res == handed_outcome(h[0].1),
        Ok(()) => r.len() == 1 && r[0].0 == context && r[0].1 == command && after_run(command, r[0].2, h.skip(1), res),
    }
}

/// `commands` run one after another, every one but the last going on to the
/// next, the last ending with `res`; `h` and `r` are what they handed to the
/// reporter and the runner, in order.
pub open spec fn list_run(stage: CommandStage, context: Worktree, commands: Seq<PlannedCommand>, h: Handed, r: Ran, res: Result<(), Error>) -> bool
    decreases commands.len(),
{
    if commands.len() == 0 {
        h.len() == 0 && r.len() == 0 && res == Ok::<(), Error>(())
    } else {
        exists|n: int, m: int|
            0 <= n <= h.len() && 0 <= m <= r.len() && list_run(stage,
                context,
                commands.drop_last(),
                h.take(n),
                r.take(m),
                Ok::<(), Error>(()),
            ) && #[trigger] command_step(stage, context, commands.last(), h.skip(n), r.skip(m), res)
    }
}

/// The run of a command list: success means every command ran and went on;
/// a failure is the result of the first command that did not go on, after
/// which no command ran.
pub open spec fn run_outcome(stage: CommandStage, context: Worktree, commands: Seq<PlannedCommand>, h: Handed, r: Ran, res: Result<(), Error>) -> bool {
    match res {
        Ok(()) => list_run(stage, context, commands, h, r, res),
        Err(_) => exists|k: int| 1 <= k <= commands.len() && #[trigger] list_run(stage, context, commands.take(k), h, r, res),
    }
}

/// A dry run over `commands`: each is announced in turn, the reporter's
/// refusal stopping it, and the last answer is the result.
pub open spec fn dry_list(stage: CommandStage, commands: Seq<PlannedCommand>, h: Handed, res: Result<(), Error>) -> bool
    decreases commands.len(),
{
    if commands.len() == 0 {
        h.len() == 0 && res == Ok::<(), Error>(())
    } else {
        &&& h.len() >= 1
        &&& dry_list(stage, commands.drop_last(), h.drop_last(), Ok::<(), Error>(()))
        &&& is_would_run(stage, h.last().0, commands.last())
        &&& res == handed_outcome(h.last().1)
    }
}

/// The dry run of a command list: success means every command was
/// announced; a failure stops at the first refused announcement.
pub open spec fn dry_outcome(stage: CommandStage, commands: Seq<PlannedCommand>, h: Handed, res: Result<(), Error>) -> bool {
    match res {
        Ok(()) => dry_list(stage, commands, h, res),
        Err(_) => exists|k: int| 1 <= k <= commands.len() && #[trigger] dry_list(stage, commands.take(k), h, res),
    }
}

/// Runs one command: announces its start, runs it, and applies the
/// decision for its outcome.
pub fn run_sequential<R: Reporter, C: CommandRunner>(
    command: &PlannedCommand,
    context: &Worktree,
    stage: CommandStage,
    reporter: &mut ReportLog<R>,
    runner: &mut CommandLog<C>,
) -> (res: Result<(), Error>)
    ensures
        res matches Err(e) ==> command_error_of(e, *command),
        final(reporter).handed@.len() >= old(reporter).handed@.len(),
        final(reporter).handed@.take(old(reporter).handed@.len() as int) == old(reporter).handed@,
        final(runner).ran@.len() >= old(runner).ran@.len(),
        final(runner).ran@.take(old(runner).ran@.len() as int) == old(runner).ran@,
        command_step(stage,
            *context,
            *command,
            final(reporter).handed@.skip(old(reporter).handed@.len() as int),
            final(runner).ran@.skip(old(runner).ran@.len() as int),
            res,
        ),
{
    let ghost h0 = reporter.handed@;
    let ghost r0 = runner.ran@;
    let label = command_label(command);
    let started = report(reporter, started_event(stage, copy_string(&label)));
    let ghost h1 = reporter.handed@;
    proof {
        assert(h1.skip(h0.len() as int) =~= seq![h1.last()]);
        assert(h1.take(h0.len() as int) =~= h0);
    }
    match started {
        Ok(()) => {},
        Err(e) => {
            proof {
                assert(runner.ran@.skip(r0.len() as int) =~= Seq::<(Worktree, PlannedCommand, CommandOutcome)>::empty());
                assert(runner.ran@.take(r0.len() as int) =~= r0);
            }
            return Err(e);
        },
    }
    let outcome = runner.run(command, context);
    proof {
        assert(runner.ran@.skip(r0.len() as int) =~= seq![(*context, *command, outcome)]);
        assert(runner.ran@.take(r0.len() as int) =~= r0);
    }
    let decision = command_outcome_decision(command.allow_failure, label.as_str(), &outcome);
    let ghost d = decision;
    match decision {
        Ok(Some(event)) => {
            let r = report(reporter, event);
            proof {
                let h = reporter.handed@;
                assert(h.take(h0.len() as int) =~= h0);
                assert(h.skip(h0.len() as int).skip(1) =~= seq![h.last()]);
                assert(h.skip(h0.len() as int)[0] == h1.last());
                assert(outcome_result(command.allow_failure, label_text(*command), outcome, d));
            }
            r
        },
        Ok(None) => {
            proof {
                assert(reporter.handed@.skip(h0.len() as int).skip(1) =~= Seq::<(OutputEvent, Result<(), String>)>::empty());
                assert(outcome_result(command.allow_failure, label_text(*command), outcome, d));
            }
            Ok(())
        },
        Err(e) => {
            proof {
                assert(reporter.handed@.skip(h0.len() as int).skip(1) =~= Seq::<(OutputEvent, Result<(), String>)>::empty());
                assert(outcome_result(command.allow_failure, label_text(*command), outcome, d));
            }
            Err(e)
        },
    }
}

/// Runs `commands` in order in `context`, or only announces them in a dry
/// run. The first error stops the run.
pub fn execute_command_list<R: Reporter, C: CommandRunner>(
    context: &Worktree,
    commands: &Vec<PlannedCommand>,
    dry_run: bool,
    stage: CommandStage,
    reporter: &mut ReportLog<R>,
    runner: &mut CommandLog<C>,
) -> (res: Result<(), Error>)
    ensures
        res matches Err(e) ==> (e is Output || (!dry_run && exists|i: int|
            0 <= i < commands@.len() && command_error_of(e, #[trigger] commands@[i]))),
        dry_run ==> *final(runner) == *old(runner),
        commands@.len() == 0 ==> res is Ok && *final(runner) == *old(runner) && *final(reporter)
            == *old(reporter),
        final(reporter).handed@.len() >= old(reporter).handed@.len(),
        final(reporter).handed@.take(old(reporter).handed@.len() as int) == old(reporter).handed@,
        final(runner).ran@.len() >= old(runner).ran@.len(),
        final(runner).ran@.take(old(runner).ran@.len() as int) == old(runner).ran@,
        dry_run ==> dry_outcome(stage, commands@, final(reporter).handed@.skip(old(reporter).handed@.len() as int), res),
        !dry_run ==> run_outcome(stage,
            *context,
            commands@,
            final(reporter).handed@.skip(old(reporter).handed@.len() as int),
            final(runner).ran@.skip(old(runner).ran@.len() as int),
            res,
        ),
{
    let ghost h0 = reporter.handed@;
    let ghost r0 = runner.ran@;
    let ghost before = *runner;
    proof {
        assert(commands@.take(0) =~= Seq::<PlannedCommand>::empty());
        assert(h0.skip(h0.len() as int) =~= Seq::<(OutputEvent, Result<(), String>)>::empty());
        assert(r0.skip(r0.len() as int) =~= Seq::<(Worktree, PlannedCommand, CommandOutcome)>::empty());
        assert(h0.take(h0.len() as int) =~= h0);
        assert(r0.take(r0.len() as int) =~= r0);
    }
    let mut i: usize = 0;
    while i < commands.len()
        invariant
            i <= commands.len(),
            before == *old(runner),
            h0 == old(reporter).handed@,
            r0 == old(runner).ran@,
            dry_run ==> *runner == before,
            commands@.len() == 0 ==> *runner == *old(runner) && *reporter == *old(reporter),
            reporter.handed@.len() >= h0.len(),
            reporter.handed@.take(h0.len() as int) == h0,
            runner.ran@.len() >= r0.len(),
            runner.ran@.take(r0.len() as int) == r0,
            dry_run ==> dry_list(stage, commands@.take(i as int), reporter.handed@.skip(h0.len() as int), Ok::<(), Error>(())),
            !dry_run ==> list_run(stage,
                *context,
                commands@.take(i as int),
                reporter.handed@.skip(h0.len() as int),
                runner.ran@.skip(r0.len() as int),
                Ok::<(), Error>(()),
            ),
        decreases commands.len() - i,
    {
        let command = &commands[i];
        let ghost hb = reporter.handed@;
        let ghost rb = runner.ran@;
        proof {
            assert(commands@.take(i + 1).drop_last() =~= commands@.take(i as int));
            assert(commands@.take(i + 1).last() == commands@[i as int]);
        }
        if dry_run {
            let r = report(reporter, would_run_event(stage, command_label(command)));
            proof {
                let h = reporter.handed@;
                assert(h.take(h0.len() as int) =~= h0);
                assert(h.skip(h0.len() as int).drop_last() =~= hb.skip(h0.len() as int));
                assert(h.skip(h0.len() as int).last() == h.last());
            }
            match r {
                Ok(()) => {},
                Err(e) => {
                    proof {
                        assert(dry_list(stage, commands@.take(i + 1), reporter.handed@.skip(h0.len() as int), Err::<(), Error>(e)));
                    }
                    return Err(e);
                },
            }
        } else {
            let r = run_sequential(command, context, stage, reporter, runner);
            proof {
                let h = reporter.handed@;
                let rr = runner.ran@;
                let n = hb.len() - h0.len();
                let m = rb.len() - r0.len();
                assert(h.take(h0.len() as int) =~= h0);
                assert(rr.take(r0.len() as int) =~= r0);
                assert(h.skip(h0.len() as int).take(n) =~= hb.skip(h0.len() as int));
                assert(rr.skip(r0.len() as int).take(m) =~= rb.skip(r0.len() as int));
                assert(h.skip(h0.len() as int).skip(n) =~= h.skip(hb.len() as int));
                assert(rr.skip(r0.len() as int).skip(m) =~= rr.skip(rb.len() as int));
                let hh = h.skip(h0.len() as int);
                let rs = rr.skip(r0.len() as int);
                let cs = commands@.take(i + 1);
                assert(list_run(stage, *context, cs.drop_last(), hh.take(n), rs.take(m), Ok::<(), Error>(())));
                assert(command_step(stage, *context, cs.last(), hh.skip(n), rs.skip(m), r));
                assert(0 <= n <= hh.len());
                assert(0 <= m <= rs.len());
                assert(cs.len() > 0);
                assert(list_run(stage, *context, cs, hh, rs, r));
            }
            match r {
                Ok(()) => {},
                Err(e) => {
                    assert(command_error_of(e, commands@[i as int]));
                    return Err(e);
                },
            }
        }
        i = i + 1;
    }
    proof {
        assert(commands@.take(commands.len() as int) =~= commands@);
    }
    Ok(())
}

/// Runs the plan's commands in order, or only announces them in a dry run.
pub fn execute_commands<R: Reporter, C: CommandRunner>(
    plan: &ActionPlan,
    dry_run: bool,
    reporter: &mut ReportLog<R>,
    runner: &mut CommandLog<C>,
) -> (res: Result<(), Error>)
    ensures
        res matches Err(e) ==> (e is Output || (!dry_run && exists|i: int|
            0 <= i < plan.commands@.len() && command_error_of(e, #[trigger] plan.commands@[i]))),
        dry_run ==> *final(runner) == *old(runner),
        plan.commands@.len() == 0 ==> res is Ok && *final(runner) == *old(runner) && *final(reporter)
            == *old(reporter),
        final(reporter).handed@.len() >= old(reporter).handed@.len(),
        final(reporter).handed@.take(old(reporter).handed@.len() as int) == old(reporter).handed@,
        final(runner).ran@.len() >= old(runner).ran@.len(),
        final(runner).ran@.take(old(runner).ran@.len() as int) == old(runner).ran@,
        dry_run ==> dry_outcome(CommandStage::Bootstrap, plan.commands@, final(reporter).handed@.skip(old(reporter).handed@.len() as int), res),
        !dry_run ==> run_outcome(CommandStage::Bootstrap,
            plan.context,
            plan.commands@,
            final(reporter).handed@.skip(old(reporter).handed@.len() as int),
            final(runner).ran@.skip(old(runner).ran@.len() as int),
            res,
        ),
{
    execute_command_list(&plan.context, &plan.commands, dry_run, CommandStage::Bootstrap, reporter, runner)
}

} // verus!
