use treeboot_core::doctor::{
    diagnose, init_scan_wanted, ConfigCheck, DiagnosticStatus, DoctorFindings, DoctorReport, InitScriptScan,
};
use treeboot_core::runtime::RuntimeOptionOverrides;
use treeboot_core::error::Error;
use treeboot_core::file_system::relative_path;
use treeboot_core::glob::{is_glob_source, split_glob_source};
use treeboot_core::paths::{join_paths, normalize_lexical};

#[test]
fn normalizing_twice_changes_nothing() {
    for path in ["/repo/./a/../b//c/", "../x/./y/..", "a/../../b", ".", "", "/..", "./a/b"] {
        let once = normalize_lexical(path);
        assert_eq!(normalize_lexical(&once), once, "path {path:?}");
        assert!(!once.split('/').any(|segment| segment == "."), "path {path:?}");
    }
}

#[test]
fn a_relative_link_resolves_to_its_target() {
    let cases = [
        ("/repo/wt/a/b", "/repo/wt/c/d"),
        ("/repo/wt", "/repo/wt"),
        ("/repo/wt", "/repo/wt/x/y"),
        ("/repo/wt/deep/er", "/repo/wt"),
        ("rel/a", "rel/b/c"),
    ];
    for (from, to) in cases {
        let link = relative_path(from, to).expect("comparable paths");
        assert_eq!(normalize_lexical(&join_paths(from, &link)), normalize_lexical(to), "{from} -> {to}");
    }
}

#[test]
fn split_glob_keeps_the_longest_literal_base() {
    let split = split_glob_source("certs/prod/*.pem").expect("splits");
    assert_eq!(split.base, "certs/prod");
    assert_eq!(split.components, vec!["*.pem".to_owned()]);
    let literal = split_glob_source("certs/prod/a.pem").expect("splits");
    assert!(literal.components.is_empty());
    assert!(!is_glob_source("certs/prod/a.pem"));
    assert!(split_glob_source("certs/*/../other").is_err());
    assert!(split_glob_source("certs/../*/other").is_ok());
}

#[test]
fn the_fatal_flag_follows_the_error_diagnostics() {
    let mut report = DoctorReport::start();
    assert!(!report.has_fatal());
    report.record_init_scripts(&InitScriptScan::NotFound { ignored: 2 });
    report.record_config(&ConfigCheck::NotFound);
    assert!(!report.has_fatal());
    assert!(report.diagnostics.iter().all(|d| d.status != DiagnosticStatus::Error));
    report.record_config(&ConfigCheck::LoadFailed(Error::NoConfigDetectedStrict));
    assert!(report.has_fatal());
    assert!(report.diagnostics.iter().any(|d| d.status == DiagnosticStatus::Error));
}

fn no_overrides() -> RuntimeOptionOverrides {
    RuntimeOptionOverrides { strict: None, dangerously_allow_sources_outside_root: None, dangerously_allow_targets_outside_worktree: None }
}

fn worktree() -> treeboot_core::context::Worktree {
    treeboot_core::context::Worktree::from_parts("/r".to_owned(), "/w".to_owned(), String::new(), vec![])
}

#[test]
fn a_diagnosed_report_is_fatal_exactly_when_a_check_failed() {
    let failed_env = diagnose(&DoctorFindings {
        environment: Err(Error::NoConfigDetectedStrict),
        context: None,
        init_scripts: None,
        config: None,
    });
    assert!(failed_env.has_fatal());
    assert_eq!(failed_env.diagnostics.len(), 1);

    let clean = diagnose(&DoctorFindings {
        environment: Ok(no_overrides()),
        context: Some(Ok(worktree())),
        init_scripts: Some(InitScriptScan::Skipped),
        config: Some(ConfigCheck::NotFound),
    });
    assert!(!clean.has_fatal());
    assert_eq!(clean.diagnostics.len(), 7);
    assert!(clean.context.is_some());

    let bad_config = diagnose(&DoctorFindings {
        environment: Ok(no_overrides()),
        context: Some(Ok(worktree())),
        init_scripts: Some(InitScriptScan::Skipped),
        config: Some(ConfigCheck::LoadFailed(Error::NoConfigDetectedStrict)),
    });
    assert!(bad_config.has_fatal());
    assert_eq!(bad_config.diagnostics.last().map(|d| d.status), Some(DiagnosticStatus::Error));
}

#[test]
fn init_scripts_are_scanned_only_without_a_named_config() {
    assert!(init_scan_wanted(false, &None));
    assert!(!init_scan_wanted(true, &None));
    assert!(!init_scan_wanted(false, &Some(".treeboot.toml".to_owned())));
}
