//! `treeboot doctor`: ordered diagnostics of discovery and validation.

use vstd::prelude::*;
use crate::check::WorktreeSnapshot;
use crate::context::Worktree;
use crate::error::Error;
use crate::runtime::RuntimeOptionOverrides;
use crate::text::{concat2, owned, usize_to_decimal, decimal, concat3};

verus! {

/// Diagnostic status.
#[derive(Debug, Clone, Copy, PartialEq, Eq, Structural)]
pub enum DiagnosticStatus {
    /// The check passed.
    Passed,
    /// The check found a non-fatal issue.
    Warning,
    /// The check found a fatal issue.
    Error,
}

/// One doctor diagnostic.
#[derive(Debug, Clone, PartialEq, Eq)]
pub struct Diagnostic {
    /// Stable diagnostic name.
    pub name: &'static str,
    /// Diagnostic status.
    pub status: DiagnosticStatus,
    /// Human-readable diagnostic message.
    pub message: String,
}

/// Result summary for a `treeboot doctor` invocation.
#[derive(Debug, Clone, PartialEq, Eq)]
pub struct DoctorReport {
    /// Whether any diagnostic is fatal.
    pub fatal: bool,
    /// Discovered worktree context, when available.
    pub context: Option<WorktreeSnapshot>,
    /// Ordered diagnostics.
    pub diagnostics: Vec<Diagnostic>,
}

/// Whether `d` has the given name, status and message.
pub open spec fn diag_is(d: Diagnostic, name: Seq<char>, status: DiagnosticStatus, message: Seq<char>) -> bool {
    d.name@ == name && d.status == status && d.message@ == message
}

/// A passing diagnostic.
pub fn ok(name: &'static str, message: String) -> (res: Diagnostic)
    ensures
        res.name == name,
        res.status == DiagnosticStatus::Passed,
        res.message == message,
{
    Diagnostic { name, status: DiagnosticStatus::Passed, message }
}

/// A non-fatal diagnostic.
pub fn warning(name: &'static str, message: String) -> (res: Diagnostic)
    ensures
        res.name == name,
        res.status == DiagnosticStatus::Warning,
        res.message == message,
{
    Diagnostic { name, status: DiagnosticStatus::Warning, message }
}

/// A fatal diagnostic.
pub fn error_diag(name: &'static str, message: String) -> (res: Diagnostic)
    ensures
        res.name == name,
        res.status == DiagnosticStatus::Error,
        res.message == message,
{
    Diagnostic { name, status: DiagnosticStatus::Error, message }
}

/// What init-script discovery found.
#[derive(Debug, Clone, PartialEq, Eq)]
pub enum InitScriptScan {
    /// Discovery was skipped by the options.
    Skipped,
    /// An executable init script was found at this path.
    Found(String),
    /// No executable script; this many non-executable candidates were ignored.
    NotFound { ignored: usize },
}

/// How checking the config went.
#[derive(Debug)]
pub enum ConfigCheck {
    /// Config discovery failed.
    DiscoveryFailed(Error),
    /// No config was found.
    NotFound,
    /// The config at hand could not be loaded.
    LoadFailed(Error),
    /// The config loaded but did not validate.
    ValidationFailed(Error),
    /// The config at this path is valid.
    Valid(String),
}

/// Whether some diagnostic of `ds` is an error.
pub open spec fn has_error(ds: Seq<Diagnostic>) -> bool {
    exists|i: int| 0 <= i < ds.len() && (#[trigger] ds[i]).status == DiagnosticStatus::Error
}

/// Whether the fatal flag of `r` says exactly that some diagnostic is an
/// error.
pub open spec fn fatal_matches(r: DoctorReport) -> bool {
    r.fatal == has_error(r.diagnostics@)
}

/// Errors in a concatenation are the errors of either part.
proof fn lemma_has_error_append(a: Seq<Diagnostic>, b: Seq<Diagnostic>)
    ensures
        has_error(a + b) == (has_error(a) || has_error(b)),
{
    if has_error(a + b) {
        let i = choose|i: int| 0 <= i < (a + b).len() && (#[trigger] (a + b)[i]).status == DiagnosticStatus::Error;
        if i < a.len() {
            assert(a[i] == (a + b)[i]);
        } else {
            assert(b[i - a.len()] == (a + b)[i]);
        }
    }
    if has_error(a) {
        let i = choose|i: int| 0 <= i < a.len() && (#[trigger] a[i]).status == DiagnosticStatus::Error;
        assert((a + b)[i] == a[i]);
    }
    if has_error(b) {
        let i = choose|i: int| 0 <= i < b.len() && (#[trigger] b[i]).status == DiagnosticStatus::Error;
        assert((a + b)[a.len() + i] == b[i]);
    }
}

/// Errors after one more diagnostic.
proof fn lemma_has_error_push(a: Seq<Diagnostic>, d: Diagnostic)
    ensures
        has_error(a.push(d)) == (has_error(a) || d.status == DiagnosticStatus::Error),
{
    assert(a.push(d) =~= a + seq![d]);
    lemma_has_error_append(a, seq![d]);
    if d.status == DiagnosticStatus::Error {
        assert(seq![d][0] == d);
    }
}

impl DoctorReport {
    /// Returns true when the report contains any fatal diagnostic.
    pub fn has_fatal(&self) -> (res: bool)
        ensures
            res == self.fatal,
    {
        self.fatal
    }

    /// An empty report, before any diagnostic.
    pub fn start() -> (res: Self)
        ensures
            !res.fatal,
            fatal_matches(res),
            res.context.is_none(),
            res.diagnostics@.len() == 0,
    {
        DoctorReport { fatal: false, context: None, diagnostics: Vec::new() }
    }

    /// Records whether the environment options parse. Diagnosis goes on
    /// (`true`) only when they do; otherwise the report turns fatal.
    pub fn record_environment(&mut self, result: &Result<RuntimeOptionOverrides, Error>) -> (go_on: bool)
        ensures
            go_on == result.is_ok(),
            final(self).context == old(self).context,
            final(self).fatal == (old(self).fatal || result.is_err()),
            fatal_matches(*old(self)) ==> fatal_matches(*final(self)),
            final(self).diagnostics@.len() == old(self).diagnostics@.len() + 1,
            final(self).diagnostics@.drop_last() == old(self).diagnostics@,
            match result {
                Ok(_) => diag_is(final(self).diagnostics@.last(), "environment_options"@, DiagnosticStatus::Passed, "environment options are valid"@),
                Err(e) => diag_is(final(self).diagnostics@.last(), "environment_options"@, DiagnosticStatus::Error, e.message_spec()),
            },
    {
        let ghost before = self.diagnostics@;
        let go_on = match result {
            Ok(_) => {
                self.diagnostics.push(ok("environment_options", owned("environment options are valid")));
                true
            },
            Err(e) => {
                self.diagnostics.push(error_diag("environment_options", e.message()));
                self.fatal = true;
                false
            },
        };
        assert(self.diagnostics@.drop_last() =~= before);
        proof {
            assert(self.diagnostics@ =~= before.push(self.diagnostics@.last()));
            lemma_has_error_push(before, self.diagnostics@.last());
        }
        go_on
    }

    /// Records worktree discovery. On success it adds the worktree, root,
    /// default-branch and environment diagnostics and keeps the context; on
    /// failure the report turns fatal and diagnosis stops.
    pub fn record_context(&mut self, result: &Result<Worktree, Error>) -> (go_on: bool)
        ensures
            go_on == result.is_ok(),
            final(self).fatal == (old(self).fatal || result.is_err()),
            fatal_matches(*old(self)) ==> fatal_matches(*final(self)),
            final(self).diagnostics@.take(old(self).diagnostics@.len() as int) == old(self).diagnostics@,
            match result {
                Ok(c) => {
                    let d = final(self).diagnostics@;
                    let n = old(self).diagnostics@.len() as int;
                    &&& d.len() == n + 4
                    &&& diag_is(d[n], "worktree"@, DiagnosticStatus::Passed, "worktree context resolved"@)
                    &&& diag_is(d[n + 1], "root"@, DiagnosticStatus::Passed, "root checkout resolved"@)
                    &&& (if c.default_branch@.len() == 0 {
                        diag_is(d[n + 2], "default_branch"@, DiagnosticStatus::Warning, "default branch unknown"@)
                    } else {
                        diag_is(d[n + 2], "default_branch"@, DiagnosticStatus::Passed, "default branch resolved"@)
                    })
                    &&& diag_is(d[n + 3], "environment"@, DiagnosticStatus::Passed, "child environment built"@)
                    &&& final(self).context matches Some(s) && s.root_path == c.root_path
                        && s.worktree_path == c.worktree_path && s.default_branch == c.default_branch
                },
                Err(e) => {
                    &&& final(self).diagnostics@.len() == old(self).diagnostics@.len() + 1
                    &&& diag_is(final(self).diagnostics@.last(), "worktree"@, DiagnosticStatus::Error, e.message_spec())
                    &&& final(self).context == old(self).context
                },
            },
    {
        let ghost before = self.diagnostics@;
        match result {
            Ok(c) => {
                self.diagnostics.push(ok("worktree", owned("worktree context resolved")));
                self.diagnostics.push(ok("root", owned("root checkout resolved")));
                if c.default_branch.as_str().is_empty() {
                    self.diagnostics.push(warning("default_branch", owned("default branch unknown")));
                } else {
                    self.diagnostics.push(ok("default_branch", owned("default branch resolved")));
                }
                self.diagnostics.push(ok("environment", owned("child environment built")));
                self.context = Some(WorktreeSnapshot::from_worktree(c));
                assert(self.diagnostics@.take(before.len() as int) =~= before);
                proof {
                    let extra = self.diagnostics@.skip(before.len() as int);
                    assert(self.diagnostics@ =~= before + extra);
                    lemma_has_error_append(before, extra);
                    assert forall|i: int| 0 <= i < extra.len() implies (#[trigger] extra[i]).status
                        != DiagnosticStatus::Error by {
                        assert(extra[i] == self.diagnostics@[before.len() + i]);
                    }
                }
                true
            },
            Err(e) => {
                self.diagnostics.push(error_diag("worktree", e.message()));
                self.fatal = true;
                assert(self.diagnostics@.take(before.len() as int) =~= before);
                proof {
                    assert(self.diagnostics@ =~= before.push(self.diagnostics@.last()));
                    lemma_has_error_push(before, self.diagnostics@.last());
                }
                false
            },
        }
    }

    /// Records what init-script discovery found; never fatal.
    pub fn record_init_scripts(&mut self, scan: &InitScriptScan)
        ensures
            final(self).fatal == old(self).fatal,
            fatal_matches(*old(self)) ==> fatal_matches(*final(self)),
            final(self).context == old(self).context,
            final(self).diagnostics@.len() == old(self).diagnostics@.len() + 1,
            final(self).diagnostics@.drop_last() == old(self).diagnostics@,
            match scan {
                InitScriptScan::Skipped => diag_is(final(self).diagnostics@.last(), "init_script"@, DiagnosticStatus::Passed, "init script discovery skipped"@),
                InitScriptScan::Found(p) => diag_is(final(self).diagnostics@.last(), "init_script"@, DiagnosticStatus::Passed, "executable init script found: "@ + p@),
                InitScriptScan::NotFound { ignored } => if *ignored == 0 {
                    diag_is(final(self).diagnostics@.last(), "init_script"@, DiagnosticStatus::Warning, "no executable init script found"@)
                } else {
                    diag_is(final(self).diagnostics@.last(), "init_script"@, DiagnosticStatus::Warning,
                        "no executable init script found; ignored "@ + decimal(*ignored as nat) + " non-executable path(s)"@)
                },
            },
    {
        let ghost before = self.diagnostics@;
        match scan {
            InitScriptScan::Skipped => {
                self.diagnostics.push(ok("init_script", owned("init script discovery skipped")));
            },
            InitScriptScan::Found(p) => {
                self.diagnostics.push(ok("init_script", concat2("executable init script found: ", p.as_str())));
            },
            InitScriptScan::NotFound { ignored } => {
                if *ignored == 0 {
                    self.diagnostics.push(warning("init_script", owned("no executable init script found")));
                } else {
                    let count = usize_to_decimal(*ignored);
                    self.diagnostics.push(warning("init_script", concat3(
                        "no executable init script found; ignored ",
                        count.as_str(),
                        " non-executable path(s)",
                    )));
                }
            },
        }
        assert(self.diagnostics@.drop_last() =~= before);
        proof {
            assert(self.diagnostics@ =~= before.push(self.diagnostics@.last()));
            lemma_has_error_push(before, self.diagnostics@.last());
        }
    }

    /// Records the config check; a failed check makes the report fatal.
    pub fn record_config(&mut self, check: &ConfigCheck)
        ensures
            final(self).context == old(self).context,
            final(self).diagnostics@.len() == old(self).diagnostics@.len() + 1,
            final(self).diagnostics@.drop_last() == old(self).diagnostics@,
            final(self).fatal == (old(self).fatal || !(check is NotFound || check is Valid)),
            fatal_matches(*old(self)) ==> fatal_matches(*final(self)),
            match check {
                ConfigCheck::DiscoveryFailed(e) => diag_is(final(self).diagnostics@.last(), "config"@, DiagnosticStatus::Error, e.message_spec()),
                ConfigCheck::NotFound => diag_is(final(self).diagnostics@.last(), "config"@, DiagnosticStatus::Warning, "no config detected"@),
                ConfigCheck::LoadFailed(e) => diag_is(final(self).diagnostics@.last(), "config"@, DiagnosticStatus::Error, e.message_spec()),
                ConfigCheck::ValidationFailed(e) => diag_is(final(self).diagnostics@.last(), "config_validation"@, DiagnosticStatus::Error, e.message_spec()),
                ConfigCheck::Valid(p) => diag_is(final(self).diagnostics@.last(), "config"@, DiagnosticStatus::Passed, "config is valid: "@ + p@),
            },
    {
        let ghost before = self.diagnostics@;
        match check {
            ConfigCheck::DiscoveryFailed(e) => {
                self.diagnostics.push(error_diag("config", e.message()));
                self.fatal = true;
            },
            ConfigCheck::NotFound => {
                self.diagnostics.push(warning("config", owned("no config detected")));
            },
            ConfigCheck::LoadFailed(e) => {
                self.diagnostics.push(error_diag("config", e.message()));
                self.fatal = true;
            },
            ConfigCheck::ValidationFailed(e) => {
                self.diagnostics.push(error_diag("config_validation", e.message()));
                self.fatal = true;
            },
            ConfigCheck::Valid(p) => {
                self.diagnostics.push(ok("config", concat2("config is valid: ", p.as_str())));
            },
        }
        assert(self.diagnostics@.drop_last() =~= before);
        proof {
            assert(self.diagnostics@ =~= before.push(self.diagnostics@.last()));
            lemma_has_error_push(before, self.diagnostics@.last());
        }
    }
}

/// Whether doctor looks for init scripts: not when that is disabled, and
/// not when a config file is named.
pub fn init_scan_wanted(no_init_script: bool, config: &Option<String>) -> (res: bool)
    ensures
        res == (!no_init_script && config.is_none()),
{
    !no_init_script && config.is_none()
}

/// What doctor found at each of its checks, as far as it got: the
/// environment options always; the worktree context once they parsed; the
/// init scripts and the config once the context resolved.
pub struct DoctorFindings {
    /// The environment options, or why they do not parse.
    pub environment: Result<RuntimeOptionOverrides, Error>,
    /// The worktree context, when it was looked for.
    pub context: Option<Result<Worktree, Error>>,
    /// What init-script discovery found, when it was asked.
    pub init_scripts: Option<InitScriptScan>,
    /// How the config check went, when it was made.
    pub config: Option<ConfigCheck>,
}

/// Whether a config check failed.
pub open spec fn config_failed(check: ConfigCheck) -> bool {
    !(check is NotFound || check is Valid)
}

/// The diagnostic of the environment check.
pub open spec fn environment_diagnostic(d: Diagnostic, result: Result<RuntimeOptionOverrides, Error>) -> bool {
    match result {
        Ok(_) => diag_is(d, "environment_options"@, DiagnosticStatus::Passed, "environment options are valid"@),
        Err(e) => diag_is(d, "environment_options"@, DiagnosticStatus::Error, e.message_spec()),
    }
}

/// The diagnostics of the worktree check: four for a resolved context, one
/// for a failure.
pub open spec fn context_diagnostics(ds: Seq<Diagnostic>, result: Result<Worktree, Error>) -> bool {
    match result {
        Ok(c) => {
            &&& ds.len() == 4
            &&& diag_is(ds[0], "worktree"@, DiagnosticStatus::Passed, "worktree context resolved"@)
            &&& diag_is(ds[1], "root"@, DiagnosticStatus::Passed, "root checkout resolved"@)
            &&& (if c.default_branch@.len() == 0 {
                diag_is(ds[2], "default_branch"@, DiagnosticStatus::Warning, "default branch unknown"@)
            } else {
                diag_is(ds[2], "default_branch"@, DiagnosticStatus::Passed, "default branch resolved"@)
            })
            &&& diag_is(ds[3], "environment"@, DiagnosticStatus::Passed, "child environment built"@)
        },
        Err(e) => ds.len() == 1 && diag_is(ds[0], "worktree"@, DiagnosticStatus::Error, e.message_spec()),
    }
}

/// The diagnostic of the init-script check.
pub open spec fn init_script_diagnostic(d: Diagnostic, scan: InitScriptScan) -> bool {
    match scan {
        InitScriptScan::Skipped => diag_is(d, "init_script"@, DiagnosticStatus::Passed, "init script discovery skipped"@),
        InitScriptScan::Found(p) => diag_is(d, "init_script"@, DiagnosticStatus::Passed, "executable init script found: "@ + p@),
        InitScriptScan::NotFound { ignored } => if ignored == 0 {
            diag_is(d, "init_script"@, DiagnosticStatus::Warning, "no executable init script found"@)
        } else {
            diag_is(d, "init_script"@, DiagnosticStatus::Warning,
                "no executable init script found; ignored "@ + decimal(ignored as nat) + " non-executable path(s)"@)
        },
    }
}

/// The diagnostic of the config check.
pub open spec fn config_diagnostic(d: Diagnostic, check: ConfigCheck) -> bool {
    match check {
        ConfigCheck::DiscoveryFailed(e) => diag_is(d, "config"@, DiagnosticStatus::Error, e.message_spec()),
        ConfigCheck::NotFound => diag_is(d, "config"@, DiagnosticStatus::Warning, "no config detected"@),
        ConfigCheck::LoadFailed(e) => diag_is(d, "config"@, DiagnosticStatus::Error, e.message_spec()),
        ConfigCheck::ValidationFailed(e) => diag_is(d, "config_validation"@, DiagnosticStatus::Error, e.message_spec()),
        ConfigCheck::Valid(p) => diag_is(d, "config"@, DiagnosticStatus::Passed, "config is valid: "@ + p@),
    }
}

/// The diagnostics of a doctor run, in order: the environment check; when
/// it passed, the worktree check; when that resolved, the init-script and
/// config checks.
pub open spec fn doctor_listing(ds: Seq<Diagnostic>, f: DoctorFindings) -> bool {
    &&& ds.len() >= 1
    &&& environment_diagnostic(ds[0], f.environment)
    &&& match f.environment {
        Err(_) => ds.len() == 1,
        Ok(_) => match f.context {
            Some(Err(e)) => context_diagnostics(ds.skip(1), Err(e)),
            Some(Ok(c)) => {
                &&& ds.len() == 7
                &&& context_diagnostics(ds.subrange(1, 5), Ok(c))
                &&& init_script_diagnostic(ds[5], f.init_scripts.unwrap())
                &&& config_diagnostic(ds[6], f.config.unwrap())
            },
            None => false,
        },
    }
}

/// Builds the doctor report from its findings, in order: the environment
/// options; then, when they parsed, the worktree context; then, when it
/// resolved, the init scripts and the config. The report lists exactly the
/// diagnostics of the checks reached, and is fatal exactly when one of them
/// is an error, which happens exactly when a check that was reached failed.
pub fn diagnose(findings: &DoctorFindings) -> (report: DoctorReport)
    requires
        findings.environment is Ok ==> findings.context is Some,
        findings.context matches Some(Ok(_)) ==> findings.init_scripts is Some && findings.config is Some,
    ensures
        doctor_listing(report.diagnostics@, *findings),
        fatal_matches(report),
        report.fatal == (findings.environment is Err || (findings.context matches Some(Err(_))) || (
        findings.context matches Some(Ok(_)) && config_failed(findings.config.unwrap()))),
        !(findings.environment is Ok && findings.context matches Some(Ok(_))) ==> report.context.is_none()
            && report.fatal,
        findings.environment is Ok ==> (findings.context matches Some(Ok(c)) ==> (report.context matches Some(s)
            && s.root_path == c.root_path && s.worktree_path == c.worktree_path)),
{
    let mut report = DoctorReport::start();
    if !report.record_environment(&findings.environment) {
        return report;
    }
    let ghost d1 = report.diagnostics@;
    let context = match &findings.context {
        Some(c) => c,
        None => return report,
    };
    if !report.record_context(context) {
        proof {
            assert(report.diagnostics@.skip(1) =~= seq![report.diagnostics@.last()]);
            assert(report.diagnostics@[0] == d1[0]);
        }
        return report;
    }
    let ghost d5 = report.diagnostics@;
    proof {
        assert(d5.subrange(1, 5) =~= d5.skip(1));
        assert(d5[0] == d5.take(1)[0]);
    }
    match &findings.init_scripts {
        Some(scan) => report.record_init_scripts(scan),
        None => {},
    }
    let ghost d6 = report.diagnostics@;
    match &findings.config {
        Some(check) => report.record_config(check),
        None => {},
    }
    proof {
        let d = report.diagnostics@;
        assert(d.drop_last() == d6);
        assert(d6.drop_last() == d5);
        assert(d[0] == d5[0]);
        assert(d.subrange(1, 5) =~= d5.subrange(1, 5));
        assert(d[5] == d6.last());
    }
    report
}

} // verus!
