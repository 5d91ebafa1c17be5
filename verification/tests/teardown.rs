use treeboot_core::action_plan::PlannedCommand;
use treeboot_core::commands::{CommandLog, CommandOutcome, CommandRunner};
use treeboot_core::config::CommandKind;
use treeboot_core::context::Worktree;
use treeboot_core::output::{OutputEvent, ReportLog, Reporter};
use treeboot_core::teardown::{execute_teardown, teardown_action, TeardownAction, TeardownExecuteOptions, TeardownPlan};

#[derive(Default)]
struct Events {
    events: Vec<OutputEvent>,
}

impl Reporter for Events {
    fn report(&mut self, event: OutputEvent) -> Result<(), String> {
        self.events.push(event);
        Ok(())
    }
}

#[derive(Default)]
struct Runs {
    ran: Vec<String>,
}

impl CommandRunner for Runs {
    fn run_command(&mut self, command: &PlannedCommand, _context: &Worktree) -> CommandOutcome {
        if let CommandKind::Shell { run } = &command.command {
            self.ran.push(run.clone());
        }
        CommandOutcome::Exited { success: true, status: "exit status: 0".to_owned() }
    }
}

fn shell(run: &str) -> PlannedCommand {
    PlannedCommand {
        name: None,
        command: CommandKind::Shell { run: run.to_owned() },
        cwd: None,
        env: Vec::new(),
        allow_failure: false,
    }
}

fn plan(commands: Vec<PlannedCommand>) -> TeardownPlan {
    TeardownPlan {
        context: Worktree::from_parts("/root".to_owned(), "/wt".to_owned(), "main".to_owned(), vec![]),
        commands,
    }
}

#[test]
fn execute_teardown_should_emit_only_teardown_dry_run_events() {
    let plan = plan(vec![shell("echo first"), shell("echo second")]);
    let mut reporter = ReportLog::new(Events::default());
    let mut runner = CommandLog::new(Runs::default());
    let report = execute_teardown(&plan, TeardownExecuteOptions { dry_run: true }, &mut reporter, &mut runner)
        .expect("dry run should succeed");
    assert_eq!(report.command_count, 2);
    assert_eq!(
        reporter.inner.events,
        vec![
            OutputEvent::TeardownCommandWouldRun { label: "echo first".to_owned() },
            OutputEvent::TeardownCommandWouldRun { label: "echo second".to_owned() },
        ]
    );
    assert!(runner.inner.ran.is_empty());
}

#[test]
fn execute_teardown_should_run_commands_without_bootstrap_work() {
    let plan = plan(vec![shell("touch teardown-marker")]);
    let mut reporter = ReportLog::new(Events::default());
    let mut runner = CommandLog::new(Runs::default());
    execute_teardown(&plan, TeardownExecuteOptions { dry_run: false }, &mut reporter, &mut runner)
        .expect("teardown should run");
    assert_eq!(runner.inner.ran, vec!["touch teardown-marker".to_owned()]);
    assert_eq!(
        reporter.inner.events,
        vec![OutputEvent::TeardownCommandStarted { label: "touch teardown-marker".to_owned() }]
    );
}

#[test]
fn teardown_action_should_announce_a_plan_without_commands() {
    let mut reporter = ReportLog::new(Events::default());
    let action = teardown_action(plan(vec![]), &mut reporter).expect("reported");
    assert_eq!(action, TeardownAction::NoCommands);
    assert_eq!(reporter.inner.events, vec![OutputEvent::NoTeardownCommandsConfigured]);
    assert_eq!(
        OutputEvent::NoTeardownCommandsConfigured.message(),
        "treeboot: no teardown commands configured"
    );
    let mut quiet = ReportLog::new(Events::default());
    let ready = teardown_action(plan(vec![shell("echo")]), &mut quiet).expect("ready");
    assert!(matches!(ready, TeardownAction::Ready(_)));
    assert!(quiet.inner.events.is_empty());
}
