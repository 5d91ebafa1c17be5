use treeboot_core::action_plan::{ActionPlan, PlanOrigin, PlannedCommand};
use treeboot_core::commands::{CommandOutcome, CommandRunner};
use treeboot_core::config::CommandKind;
use treeboot_core::context::{build_environment, conductor_default_branch, root_candidate, Worktree};
use treeboot_core::error::Error;
use treeboot_core::executor::FileApplyOptions;
use treeboot_core::file_execution::{ActionSteps, StepRunner};
use treeboot_core::file_operations::PreparedFileOperations;
use treeboot_core::output::{OutputEvent, ReportLog, Reporter};
use treeboot_core::config::ConfigRuntimeOptions;
use treeboot_core::fs_snapshot::FsSnapshot;
use treeboot_core::plan::{empty_report, prepare_config_bootstrap, start_bootstrap, BootstrapAction, BootstrapStart, PreparedBootstrap};
use treeboot_core::runtime::{EnvValue, EnvironmentInput, RuntimeOptionOverrides, RuntimePolicy};

#[derive(Default)]
struct VecReporter {
    events: Vec<OutputEvent>,
}

impl Reporter for VecReporter {
    fn report(&mut self, event: OutputEvent) -> Result<(), String> {
        self.events.push(event);
        Ok(())
    }
}

#[derive(Default)]
struct Runners {
    steps: usize,
    commands: usize,
}

impl StepRunner for Runners {
    fn run_steps<R: Reporter>(&mut self, _steps: &ActionSteps, _reporter: &mut R) -> Result<(), Error> {
        self.steps += 1;
        Ok(())
    }
}

impl CommandRunner for Runners {
    fn run_command(&mut self, _command: &PlannedCommand, _context: &Worktree) -> CommandOutcome {
        self.commands += 1;
        CommandOutcome::Exited { success: true, status: "exit status: 0".to_owned() }
    }
}

fn context(root: &str, worktree: &str) -> Worktree {
    Worktree::resolved(root.to_owned(), worktree.to_owned(), "main".to_owned())
}

#[test]
fn start_bootstrap_should_skip_the_root_checkout() {
    let mut reporter = VecReporter::default();

    let start = start_bootstrap(&context("/r", "/r"), None, false, false, &mut treeboot_core::output::ReportLog::new(&mut reporter)).unwrap();

    match start {
        BootstrapStart::Done(prepared) => {
            assert_eq!(prepared.report.action, BootstrapAction::RootWorktreeSkipped);
            assert!(prepared.plan.is_none());
        }
        BootstrapStart::Config(_) => panic!("root checkout should not plan"),
    }
    assert!(matches!(reporter.events[..], [OutputEvent::RootWorktreeDetected]));
}

#[test]
fn start_bootstrap_should_fail_in_strict_mode_without_config() {
    let mut reporter = VecReporter::default();

    let error = start_bootstrap(&context("/r", "/w"), None, true, false, &mut treeboot_core::output::ReportLog::new(&mut reporter))
        .err()
        .expect("strict mode should fail");

    assert!(matches!(error, Error::NoConfigDetectedStrict));
    assert!(matches!(reporter.events[..], [OutputEvent::NoConfigDetected]));
}

#[test]
fn start_bootstrap_should_go_on_with_a_detected_config() {
    let mut reporter = VecReporter::default();

    let start = start_bootstrap(&context("/r", "/w"), Some("/w/.treeboot.toml".to_owned()), true, false, &mut treeboot_core::output::ReportLog::new(&mut reporter))
        .unwrap();

    assert!(matches!(start, BootstrapStart::Config(ref p) if p == "/w/.treeboot.toml"));
    assert!(matches!(reporter.events[..], [OutputEvent::ConfigDetected { .. }]));
}

fn prepared_with_command() -> PreparedBootstrap {
    let ctx = context("/r", "/w");
    let command = PlannedCommand {
        name: Some("install".to_owned()),
        command: CommandKind::Shell { run: "npm install".to_owned() },
        cwd: None,
        env: Vec::new(),
        allow_failure: false,
    };
    let plan = ActionPlan::from_parts(ctx.clone(), PlanOrigin::Manual, Vec::new(), vec![command], Vec::new());
    PreparedBootstrap {
        report: empty_report(&ctx, BootstrapAction::Config { path: "/w/.treeboot.toml".to_owned() }, false),
        context: ctx,
        plan: Some(plan),
        files: PreparedFileOperations { groups: Vec::new() },
    }
}

#[test]
fn preview_should_report_commands_without_running_them() {
    let prepared = prepared_with_command();
    let mut runners = Runners::default();
    let mut commands = Runners::default();
    let mut reporter = VecReporter::default();

    prepared.preview(false, false, &mut treeboot_core::file_execution::StepLog::new(&mut runners), &mut treeboot_core::commands::CommandLog::new(&mut commands), &mut treeboot_core::output::ReportLog::new(&mut reporter)).unwrap();

    assert_eq!(commands.commands, 0);
    assert!(matches!(reporter.events[..], [OutputEvent::CommandWouldRun { .. }]));
}

#[test]
fn execute_should_run_commands_unless_skipped() {
    let prepared = prepared_with_command();
    let options = FileApplyOptions { strict: false, force: false, dry_run: false, verbose: false };
    let mut steps = Runners::default();
    let mut commands = Runners::default();
    let mut reporter = VecReporter::default();

    assert_eq!(prepared.execute(options, false, &mut treeboot_core::file_execution::StepLog::new(&mut steps), &mut treeboot_core::commands::CommandLog::new(&mut commands), &mut treeboot_core::output::ReportLog::new(&mut reporter)).unwrap(), 0);
    assert_eq!(commands.commands, 1);

    let mut skipped = Runners::default();
    prepared.execute(options, true, &mut treeboot_core::file_execution::StepLog::new(&mut steps), &mut treeboot_core::commands::CommandLog::new(&mut skipped), &mut treeboot_core::output::ReportLog::new(&mut reporter)).unwrap();
    assert_eq!(skipped.commands, 0);
}

#[test]
fn build_environment_should_name_every_path_in_name_order() {
    let env = build_environment("/r", "/w", "main");

    assert_eq!(env.len(), 11);
    assert_eq!(env[0], ("CODEX_SOURCE_TREE_PATH".to_owned(), "/r".to_owned()));
    assert_eq!(env[2], ("CONDUCTOR_DEFAULT_BRANCH".to_owned(), "main".to_owned()));
    assert_eq!(env[10], ("TREEBOOT_WORKTREE_PATH".to_owned(), "/w".to_owned()));
    let mut names: Vec<&String> = env.iter().map(|(k, _)| k).collect();
    let before = names.clone();
    names.sort();
    assert_eq!(names, before);
}

#[test]
fn root_candidate_should_skip_empty_values_in_precedence_order() {
    let mut input = EnvironmentInput::empty();
    assert_eq!(root_candidate(&input), None);

    input.codex_source_tree_path = Some(EnvValue::Unicode("/codex".to_owned()));
    input.superset_root_path = Some(EnvValue::Unicode("/superset".to_owned()));
    input.treeboot_root_path = Some(EnvValue::Unicode(String::new()));
    assert_eq!(root_candidate(&input), Some(("CODEX_SOURCE_TREE_PATH", "/codex".to_owned())));

    input.treeboot_root_path = Some(EnvValue::Unicode("/root".to_owned()));
    assert_eq!(root_candidate(&input), Some(("TREEBOOT_ROOT_PATH", "/root".to_owned())));
}

#[test]
fn conductor_default_branch_should_ignore_empty_values() {
    let mut input = EnvironmentInput::empty();
    input.conductor_default_branch = Some(EnvValue::Unicode(String::new()));
    assert_eq!(conductor_default_branch(&input), None);
    input.conductor_default_branch = Some(EnvValue::Unicode("trunk".to_owned()));
    assert_eq!(conductor_default_branch(&input), Some("trunk".to_owned()));
}

impl treeboot_core::output::Reporter for &mut VecReporter {
    fn report(&mut self, event: treeboot_core::output::OutputEvent) -> Result<(), String> {
        (**self).report(event)
    }
}

impl treeboot_core::file_execution::StepRunner for &mut Runners {
    fn run_steps<R: treeboot_core::output::Reporter>(
        &mut self,
        steps: &treeboot_core::file_execution::ActionSteps,
        reporter: &mut R,
    ) -> Result<(), treeboot_core::error::Error> {
        (**self).run_steps(steps, reporter)
    }
}

impl treeboot_core::commands::CommandRunner for &mut Runners {
    fn run_command(
        &mut self,
        command: &treeboot_core::action_plan::PlannedCommand,
        context: &treeboot_core::context::Worktree,
    ) -> treeboot_core::commands::CommandOutcome {
        (**self).run_command(command, context)
    }
}

#[test]
fn prepare_config_bootstrap_should_announce_warnings_and_build_the_report() {

    let context = Worktree::from_parts("/root".to_owned(), "/wt".to_owned(), "main".to_owned(), vec![]);
    let plan = ActionPlan::from_parts(
        context,
        PlanOrigin::Manifest { path: "/wt/.treeboot.toml".to_owned() },
        vec![],
        vec![],
        vec!["first warning".to_owned()],
    );
    let snapshot = FsSnapshot {
        entries: vec![],
        listings: vec![],
        links: vec![],
        followed_dirs: vec![],
        contents: vec![],
        canonical: vec![],
    };
    let overrides = RuntimeOptionOverrides {
        strict: None,
        dangerously_allow_sources_outside_root: None,
        dangerously_allow_targets_outside_worktree: None,
    };
    let policy = RuntimePolicy::from_overrides(overrides, false);
    let mut reporter = ReportLog::new(VecReporter::default());
    let prepared = prepare_config_bootstrap(
        &snapshot,
        plan,
        "/wt/.treeboot.toml".to_owned(),
        &policy,
        &ConfigRuntimeOptions::default(),
        false,
        false,
        true,
        true,
        &mut reporter,
    )
    .expect("prepared");
    assert_eq!(
        reporter.inner.events,
        vec![OutputEvent::ValidationWarning { message: "first warning".to_owned() }]
    );
    assert_eq!(prepared.report.action, BootstrapAction::Config { path: "/wt/.treeboot.toml".to_owned() });
    assert_eq!(prepared.report.validation_warnings, vec!["first warning".to_owned()]);
    assert!(prepared.report.commands_skipped);
    assert!(prepared.plan.is_some());
    assert!(prepared.files.groups.is_empty());
    assert_eq!(
        OutputEvent::ValidationWarning { message: "x".to_owned() }.message(),
        "treeboot: warning: x"
    );
}
