use treeboot_core::config::ConfigRuntimeOptions;
use treeboot_core::error::Error;
use treeboot_core::runtime::{
    parse_bool, EnvValue, EnvironmentInput, RuntimeOptionOverrides, RuntimePolicy,
};

#[test]
fn runtime_option_overrides_should_parse_explicit_environment_input() {
    let overrides = RuntimeOptionOverrides::from_environment(&EnvironmentInput {
        treeboot_strict: Some(EnvValue::Unicode("yes".to_owned())),
        treeboot_dangerously_allow_sources_outside_root: Some(EnvValue::Unicode("true".to_owned())),
        treeboot_dangerously_allow_targets_outside_worktree: Some(EnvValue::Unicode("0".to_owned())),
        ..EnvironmentInput::empty()
    })
    .expect("environment should parse");

    assert_eq!(
        overrides,
        RuntimeOptionOverrides {
            strict: Some(true),
            dangerously_allow_sources_outside_root: Some(true),
            dangerously_allow_targets_outside_worktree: Some(false),
        }
    );
}

#[test]
fn runtime_option_overrides_should_reject_invalid_explicit_environment_input() {
    let error = RuntimeOptionOverrides::from_environment(&EnvironmentInput {
        treeboot_strict: Some(EnvValue::Unicode("sometimes".to_owned())),
        ..EnvironmentInput::empty()
    })
    .expect_err("environment should fail");

    assert!(matches!(
        error,
        Error::InvalidBooleanEnv { ref name, .. } if name == "TREEBOOT_STRICT"
    ));
}

#[test]
fn runtime_option_overrides_should_reject_non_utf8_explicit_environment_input() {
    let error = RuntimeOptionOverrides::from_environment(&EnvironmentInput {
        treeboot_strict: Some(EnvValue::NotUnicode("\u{FFFD}".to_owned())),
        ..EnvironmentInput::empty()
    })
    .expect_err("environment should fail");

    assert!(matches!(
        error,
        Error::InvalidBooleanEnv { ref name, .. } if name == "TREEBOOT_STRICT"
    ));
}

#[test]
fn runtime_option_overrides_should_report_first_invalid_variable() {
    let error = RuntimeOptionOverrides::from_environment(&EnvironmentInput {
        treeboot_dangerously_allow_sources_outside_root: Some(EnvValue::Unicode("maybe".to_owned())),
        treeboot_dangerously_allow_targets_outside_worktree: Some(EnvValue::Unicode("x".to_owned())),
        ..EnvironmentInput::empty()
    })
    .expect_err("environment should fail");

    match error {
        Error::InvalidBooleanEnv { name, value } => {
            assert_eq!(name, "TREEBOOT_DANGEROUSLY_ALLOW_SOURCES_OUTSIDE_ROOT");
            assert_eq!(value, "maybe");
        }
        other => panic!("unexpected error {other:?}"),
    }
}

#[test]
fn runtime_policy_should_resolve_config_defaults() {
    let policy = RuntimePolicy::from_overrides(RuntimeOptionOverrides::default(), false);
    let config = ConfigRuntimeOptions {
        strict: true,
        default_ignore: vec![".DS_Store".to_owned()],
        dangerously_allow_sources_outside_root: true,
        dangerously_allow_targets_outside_worktree: false,
    };

    let resolved = policy.resolve(&config);

    assert_eq!(resolved.options(), &config);
}

#[test]
fn runtime_policy_should_apply_environment_overrides_after_config() {
    let policy = RuntimePolicy::from_overrides(
        RuntimeOptionOverrides {
            strict: Some(false),
            dangerously_allow_sources_outside_root: Some(false),
            dangerously_allow_targets_outside_worktree: Some(true),
        },
        false,
    );
    let config = ConfigRuntimeOptions {
        strict: true,
        default_ignore: vec!["build".to_owned()],
        dangerously_allow_sources_outside_root: true,
        dangerously_allow_targets_outside_worktree: false,
    };

    let resolved = policy.resolve(&config);

    assert_eq!(
        resolved.into_options(),
        ConfigRuntimeOptions {
            strict: false,
            default_ignore: vec!["build".to_owned()],
            dangerously_allow_sources_outside_root: false,
            dangerously_allow_targets_outside_worktree: true,
        }
    );
}

#[test]
fn runtime_policy_should_apply_cli_strict_after_environment() {
    let policy = RuntimePolicy::from_overrides(
        RuntimeOptionOverrides { strict: Some(false), ..RuntimeOptionOverrides::default() },
        true,
    );

    let resolved = policy.resolve(&ConfigRuntimeOptions::default());

    assert!(resolved.strict());
}

#[test]
fn runtime_policy_should_enable_pre_config_strict_from_cli_or_environment() {
    let env_policy = RuntimePolicy::from_overrides(
        RuntimeOptionOverrides { strict: Some(true), ..RuntimeOptionOverrides::default() },
        false,
    );
    let cli_policy = RuntimePolicy::from_overrides(RuntimeOptionOverrides::default(), true);

    assert!(env_policy.pre_config_strict());
    assert!(cli_policy.pre_config_strict());
    assert!(!RuntimePolicy::from_overrides(RuntimeOptionOverrides::default(), false)
        .pre_config_strict());
}

#[test]
fn runtime_policy_should_expose_action_plan_options_and_default_ignore() {
    let policy = RuntimePolicy::from_environment(
        &EnvironmentInput {
            treeboot_dangerously_allow_targets_outside_worktree: Some(EnvValue::Unicode("ON".to_owned())),
            ..EnvironmentInput::empty()
        },
        false,
    )
    .expect("environment should parse");
    let config = ConfigRuntimeOptions {
        strict: false,
        default_ignore: vec!["target".to_owned()],
        dangerously_allow_sources_outside_root: false,
        dangerously_allow_targets_outside_worktree: false,
    };
    let resolved = policy.resolve(&config);
    let options = resolved.action_plan_options();
    assert!(options.dangerously_allow_targets_outside_worktree);
    assert!(!options.strict);
    assert_eq!(resolved.default_ignore(), &["target".to_owned()]);
}

#[test]
fn parse_bool_should_accept_supported_true_values() {
    for value in ["1", "true", "TRUE", "yes", "on"] {
        assert_eq!(parse_bool(value), Some(true), "value {value:?}");
    }
}

#[test]
fn parse_bool_should_accept_supported_false_values() {
    for value in ["0", "false", "FALSE", "no", "off"] {
        assert_eq!(parse_bool(value), Some(false), "value {value:?}");
    }
}

#[test]
fn parse_bool_should_reject_unsupported_values() {
    assert_eq!(parse_bool("sometimes"), None);
}
