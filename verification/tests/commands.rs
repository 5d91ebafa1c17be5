use treeboot_core::action_plan::PlannedCommand;
use treeboot_core::commands::{command_dir_verdict, command_label, command_outcome_decision, CommandOutcome};
use treeboot_core::config::CommandKind;
use treeboot_core::error::Error;
use treeboot_core::output::OutputEvent;

fn planned_command(name: Option<&str>, command: CommandKind) -> PlannedCommand {
    PlannedCommand {
        name: name.map(str::to_owned),
        command,
        cwd: None,
        env: Vec::new(),
        allow_failure: false,
    }
}

#[test]
fn command_label_should_include_name_and_invocation() {
    let command = planned_command(
        Some("Install packages"),
        CommandKind::Shell { run: "npm install".to_owned() },
    );

    assert_eq!(command_label(&command), "Install packages: npm install");
}

#[test]
fn command_label_should_format_direct_invocation() {
    let command = planned_command(
        None,
        CommandKind::Direct {
            program: "cargo".to_owned(),
            args: vec!["test".to_owned(), "--locked".to_owned()],
        },
    );

    assert_eq!(command_label(&command), "cargo test --locked");
}

#[test]
fn command_label_should_use_program_without_args() {
    let command = planned_command(
        None,
        CommandKind::Direct { program: "mise".to_owned(), args: Vec::new() },
    );
    assert_eq!(command_label(&command), "mise");
}

#[test]
fn command_outcome_should_warn_for_allowed_failures() {
    let outcome = CommandOutcome::Exited { success: false, status: "exit status: 1".to_owned() };
    let decision = command_outcome_decision(true, "lint", &outcome).expect("allowed failure");
    assert_eq!(
        decision,
        Some(OutputEvent::CommandAllowedFailure {
            label: "lint".to_owned(),
            reason: "failed with exit status: 1".to_owned(),
        })
    );
    let started = command_outcome_decision(
        true,
        "lint",
        &CommandOutcome::StartFailed("not found".to_owned()),
    )
    .expect("allowed start failure");
    assert_eq!(
        started,
        Some(OutputEvent::CommandAllowedFailure {
            label: "lint".to_owned(),
            reason: "failed to start: not found".to_owned(),
        })
    );
}

#[test]
fn command_outcome_should_fail_for_disallowed_failures() {
    let outcome = CommandOutcome::Exited { success: false, status: "exit status: 2".to_owned() };
    match command_outcome_decision(false, "build", &outcome) {
        Err(Error::CommandFailed { label, status }) => {
            assert_eq!(label, "build");
            assert_eq!(status, "exit status: 2");
        }
        other => panic!("unexpected {other:?}"),
    }
    assert!(matches!(
        command_outcome_decision(false, "build", &CommandOutcome::StartFailed("x".to_owned())),
        Err(Error::CommandIo { .. })
    ));
    assert_eq!(
        command_outcome_decision(
            false,
            "build",
            &CommandOutcome::Exited { success: true, status: "exit status: 0".to_owned() }
        )
        .expect("success"),
        None
    );
}

struct FailingReporter;

impl treeboot_core::output::Reporter for FailingReporter {
    fn report(&mut self, _event: OutputEvent) -> Result<(), String> {
        Err("reporter failed".to_owned())
    }
}

/// Counts the commands it is asked to run; nothing is spawned.
#[derive(Default)]
struct CountingRunner {
    runs: usize,
}

impl treeboot_core::commands::CommandRunner for CountingRunner {
    fn run_command(
        &mut self,
        _command: &PlannedCommand,
        _context: &treeboot_core::context::Worktree,
    ) -> CommandOutcome {
        self.runs += 1;
        CommandOutcome::Exited { success: true, status: "exit status: 0".to_owned() }
    }
}

fn plan(commands: Vec<PlannedCommand>) -> treeboot_core::action_plan::ActionPlan {
    let context = treeboot_core::context::Worktree::from_parts(
        "/r".to_owned(),
        "/w".to_owned(),
        "main".to_owned(),
        vec![],
    );
    treeboot_core::action_plan::ActionPlan::from_parts(
        context,
        treeboot_core::action_plan::PlanOrigin::Manual,
        Vec::new(),
        commands,
        Vec::new(),
    )
}

#[test]
fn execute_commands_should_fail_when_dry_run_reporting_fails() {
    let command = planned_command(
        None,
        CommandKind::Direct { program: "echo".to_owned(), args: vec!["planned".to_owned()] },
    );
    let plan = plan(vec![command]);
    let mut runner = CountingRunner::default();

    let error = treeboot_core::commands::execute_commands(&plan, true, &mut treeboot_core::output::ReportLog::new(FailingReporter), &mut treeboot_core::commands::CommandLog::new(&mut runner))
        .expect_err("report failure should propagate");

    assert!(matches!(error, Error::Output { .. }));
    assert_eq!(runner.runs, 0);
}

#[test]
fn execute_commands_should_fail_when_start_reporting_fails() {
    let command = planned_command(
        None,
        CommandKind::Direct { program: "echo".to_owned(), args: vec!["running".to_owned()] },
    );
    let plan = plan(vec![command]);
    let mut runner = CountingRunner::default();

    let error = treeboot_core::commands::execute_commands(&plan, false, &mut treeboot_core::output::ReportLog::new(FailingReporter), &mut treeboot_core::commands::CommandLog::new(&mut runner))
        .expect_err("report failure should propagate");

    assert!(matches!(error, Error::Output { .. }));
    assert_eq!(runner.runs, 0);
}

/// Plays each command as a shell would: `exit N` fails with status N, the
/// program `treeboot-missing-program-for-test` cannot start, and anything
/// else succeeds. Keeps the invocations it ran, in order.
#[derive(Default)]
struct ScriptedRunner {
    ran: Vec<String>,
}

impl treeboot_core::commands::CommandRunner for ScriptedRunner {
    fn run_command(
        &mut self,
        command: &PlannedCommand,
        _context: &treeboot_core::context::Worktree,
    ) -> CommandOutcome {
        let invocation = match &command.command {
            CommandKind::Shell { run } => run.clone(),
            CommandKind::Direct { program, .. } => program.clone(),
        };
        self.ran.push(invocation.clone());
        if invocation == "treeboot-missing-program-for-test" {
            return CommandOutcome::StartFailed("No such file or directory (os error 2)".to_owned());
        }
        match invocation.strip_prefix("exit ") {
            Some(code) => CommandOutcome::Exited { success: false, status: format!("exit status: {code}") },
            None => CommandOutcome::Exited { success: true, status: "exit status: 0".to_owned() },
        }
    }
}

#[derive(Default)]
struct Recorder {
    messages: Vec<String>,
}

impl treeboot_core::output::Reporter for Recorder {
    fn report(&mut self, event: OutputEvent) -> Result<(), String> {
        let message = event.message();
        if !message.is_empty() {
            self.messages.push(message);
        }
        Ok(())
    }
}

fn shell(name: Option<&str>, run: &str) -> PlannedCommand {
    planned_command(name, CommandKind::Shell { run: run.to_owned() })
}

fn allowed(mut command: PlannedCommand) -> PlannedCommand {
    command.allow_failure = true;
    command
}

fn missing_program(name: &str) -> PlannedCommand {
    planned_command(
        Some(name),
        CommandKind::Direct { program: "treeboot-missing-program-for-test".to_owned(), args: Vec::new() },
    )
}

#[test]
fn execute_commands_should_report_dry_run_without_spawning() {
    let plan = plan(vec![shell(None, "touch /w/marker")]);
    let mut reporter = Recorder::default();
    let mut runner = ScriptedRunner::default();

    treeboot_core::commands::execute_commands(&plan, true, &mut treeboot_core::output::ReportLog::new(&mut reporter), &mut treeboot_core::commands::CommandLog::new(&mut runner)).expect("dry-run should succeed");

    assert!(runner.ran.is_empty());
    assert_eq!(reporter.messages, vec!["treeboot: would run touch /w/marker".to_owned()]);
}

#[test]
fn execute_commands_should_report_each_dry_run_command_without_spawning() {
    let plan = plan(vec![shell(Some("first"), "touch /w/first"), shell(Some("second"), "touch /w/second")]);
    let mut reporter = Recorder::default();
    let mut runner = ScriptedRunner::default();

    treeboot_core::commands::execute_commands(&plan, true, &mut treeboot_core::output::ReportLog::new(&mut reporter), &mut treeboot_core::commands::CommandLog::new(&mut runner)).expect("dry-run should succeed");

    assert!(runner.ran.is_empty());
    assert_eq!(
        reporter.messages,
        vec![
            "treeboot: would run first: touch /w/first".to_owned(),
            "treeboot: would run second: touch /w/second".to_owned(),
        ]
    );
}

#[test]
fn execute_commands_should_warn_and_continue_after_allowed_failure() {
    let plan = plan(vec![allowed(shell(Some("optional"), "exit 7")), shell(None, "touch /w/marker")]);
    let mut reporter = Recorder::default();
    let mut runner = ScriptedRunner::default();

    treeboot_core::commands::execute_commands(&plan, false, &mut treeboot_core::output::ReportLog::new(&mut reporter), &mut treeboot_core::commands::CommandLog::new(&mut runner))
        .expect("allowed failure should continue");

    assert_eq!(runner.ran, vec!["exit 7".to_owned(), "touch /w/marker".to_owned()]);
    assert!(reporter
        .messages
        .iter()
        .any(|message| message == "treeboot: warning: command optional: exit 7 failed with exit status: 7"));
}

#[test]
fn execute_commands_should_stop_after_fatal_singleton_failure() {
    let plan = plan(vec![shell(Some("required"), "exit 6"), shell(None, "touch /w/marker")]);
    let mut runner = ScriptedRunner::default();

    let error = treeboot_core::commands::execute_commands(&plan, false, &mut treeboot_core::output::ReportLog::new(Recorder::default()), &mut treeboot_core::commands::CommandLog::new(&mut runner))
        .expect_err("fatal failure should fail");

    assert_eq!(runner.ran, vec!["exit 6".to_owned()]);
    assert!(error.message().contains("command required: exit 6 failed"));
}

#[test]
fn execute_commands_should_run_commands_in_declaration_order() {
    let plan = plan(vec![
        shell(Some("first"), "printf 'a' >> /w/order"),
        shell(Some("second"), "printf 'b' >> /w/order"),
    ]);
    let mut runner = ScriptedRunner::default();

    treeboot_core::commands::execute_commands(&plan, false, &mut treeboot_core::output::ReportLog::new(Recorder::default()), &mut treeboot_core::commands::CommandLog::new(&mut runner))
        .expect("commands should run");

    assert_eq!(runner.ran, vec!["printf 'a' >> /w/order".to_owned(), "printf 'b' >> /w/order".to_owned()]);
}

#[test]
fn execute_commands_should_allow_spawn_failures_when_configured() {
    let plan = plan(vec![allowed(missing_program("optional missing")), shell(None, "touch /w/marker")]);
    let mut reporter = Recorder::default();
    let mut runner = ScriptedRunner::default();

    treeboot_core::commands::execute_commands(&plan, false, &mut treeboot_core::output::ReportLog::new(&mut reporter), &mut treeboot_core::commands::CommandLog::new(&mut runner))
        .expect("allowed spawn failure should continue");

    assert_eq!(runner.ran.last(), Some(&"touch /w/marker".to_owned()));
    assert!(reporter.messages.iter().any(|message| message.contains("failed to start:")));
}

#[test]
fn execute_commands_should_stop_after_fatal_spawn_failure() {
    let plan = plan(vec![missing_program("missing"), shell(Some("later"), "touch /w/marker")]);
    let mut runner = ScriptedRunner::default();

    let error = treeboot_core::commands::execute_commands(&plan, false, &mut treeboot_core::output::ReportLog::new(Recorder::default()), &mut treeboot_core::commands::CommandLog::new(&mut runner))
        .expect_err("spawn failure should fail");

    assert_eq!(runner.ran, vec!["treeboot-missing-program-for-test".to_owned()]);
    assert!(error.message().contains("failed to run command missing:"));
}

#[test]
fn execute_commands_should_succeed_without_reporting_when_there_are_no_commands() {
    let plan = plan(Vec::new());
    let mut runner = CountingRunner::default();

    treeboot_core::commands::execute_commands(&plan, false, &mut treeboot_core::output::ReportLog::new(FailingReporter), &mut treeboot_core::commands::CommandLog::new(&mut runner))
        .expect("nothing to run should succeed");

    assert_eq!(runner.runs, 0);
}

#[test]
fn run_sequential_should_label_a_fatal_failure_with_the_command() {
    let command = shell(Some("required"), "exit 3");
    let context = treeboot_core::context::Worktree::from_parts("/r".to_owned(), "/w".to_owned(), "main".to_owned(), vec![]);

    let error = treeboot_core::commands::run_sequential(&command, &context, treeboot_core::commands::CommandStage::Bootstrap, &mut treeboot_core::output::ReportLog::new(Recorder::default()), &mut treeboot_core::commands::CommandLog::new(ScriptedRunner::default()))
        .expect_err("exit 3 should fail");

    assert!(matches!(error, Error::CommandFailed { ref label, .. } if label == "required: exit 3"));
}

impl treeboot_core::output::Reporter for &mut Recorder {
    fn report(&mut self, event: treeboot_core::output::OutputEvent) -> Result<(), String> {
        (**self).report(event)
    }
}

impl treeboot_core::commands::CommandRunner for &mut ScriptedRunner {
    fn run_command(
        &mut self,
        command: &treeboot_core::action_plan::PlannedCommand,
        context: &treeboot_core::context::Worktree,
    ) -> treeboot_core::commands::CommandOutcome {
        (**self).run_command(command, context)
    }
}

impl treeboot_core::commands::CommandRunner for &mut CountingRunner {
    fn run_command(
        &mut self,
        command: &treeboot_core::action_plan::PlannedCommand,
        context: &treeboot_core::context::Worktree,
    ) -> treeboot_core::commands::CommandOutcome {
        (**self).run_command(command, context)
    }
}

#[test]
fn command_dir_should_join_the_declared_cwd_onto_the_worktree() {
    let context = treeboot_core::context::Worktree::from_parts("/r".to_owned(), "/w".to_owned(), "main".to_owned(), vec![]);
    let mut command = planned_command(None, CommandKind::Shell { run: "true".to_owned() });
    assert_eq!(treeboot_core::commands::declared_command_dir(&command, &context), "/w");
    command.cwd = Some("sub/dir".to_owned());
    assert_eq!(treeboot_core::commands::declared_command_dir(&command, &context), "/w/sub/dir");
    command.cwd = Some("/abs".to_owned());
    assert_eq!(treeboot_core::commands::declared_command_dir(&command, &context), "/abs");
}

#[test]
fn command_dir_verdict_should_refuse_a_cwd_outside_the_worktree() {
    let worktree = Ok("/real/w".to_owned());
    assert_eq!(command_dir_verdict(&worktree, &Ok("/real/w/sub".to_owned())), Ok("/real/w/sub".to_owned()));
    assert_eq!(
        command_dir_verdict(&worktree, &Ok("/real/outside".to_owned())),
        Err("command cwd resolves outside worktree".to_owned())
    );
    assert_eq!(command_dir_verdict(&worktree, &Err("missing".to_owned())), Err("missing".to_owned()));
    assert_eq!(command_dir_verdict(&Err("no worktree".to_owned()), &Ok("/x".to_owned())), Err("no worktree".to_owned()));
}
