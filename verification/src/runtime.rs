//! Runtime option resolution: config defaults, environment, then CLI.

use vstd::prelude::*;
use crate::config::{ConfigRuntimeOptions, RuntimeOptionsView};
use crate::error::Error;
use crate::text::{chars_of, str_eq, string_from_chars, copy_string};

verus! {

/// ASCII lowercase of one character; other characters are unchanged.
pub open spec fn ascii_lower_char(c: char) -> char {
    if 'A' <= c && c <= 'Z' {
        ((c as u8) + 32) as char
    } else {
        c
    }
}

/// ASCII lowercase of a string.
pub open spec fn ascii_lowercase(s: Seq<char>) -> Seq<char> {
    s.map_values(|c: char| ascii_lower_char(c))
}

/// Parsed boolean spelling accepted by treeboot environment options,
/// compared without regard to ASCII case.
pub open spec fn spec_parse_bool(value: Seq<char>) -> Option<bool> {
    let lower = ascii_lowercase(value);
    if lower == "1"@ || lower == "true"@ || lower == "yes"@ || lower == "on"@ {
        Some(true)
    } else if lower == "0"@ || lower == "false"@ || lower == "no"@ || lower == "off"@ {
        Some(false)
    } else {
        None
    }
}

fn lower_char(c: char) -> (res: char)
    ensures
        res == ascii_lower_char(c),
{
    if 'A' <= c && c <= 'Z' {
        let b: u8 = c as u8;
        (b + 32) as char
    } else {
        c
    }
}

/// ASCII lowercase copy of `value`.
pub fn to_ascii_lowercase(value: &str) -> (res: String)
    ensures
        res@ == ascii_lowercase(value@),
{
    let chars = chars_of(value);
    let mut out: Vec<char> = Vec::new();
    let mut i: usize = 0;
    while i < chars.len()
        invariant
            i <= chars.len(),
            chars@ == value@,
            out@ == ascii_lowercase(chars@.take(i as int)),
        decreases chars.len() - i,
    {
        out.push(lower_char(chars[i]));
        proof {
            assert(ascii_lowercase(chars@.take(i + 1)) =~= ascii_lowercase(chars@.take(i as int)).push(
                ascii_lower_char(chars@[i as int]),
            ));
        }
        i = i + 1;
    }
    assert(chars@.take(chars.len() as int) =~= chars@);
    string_from_chars(out.as_slice())
}

/// Parses a boolean environment value: `1`, `true`, `yes`, `on` and `0`,
/// `false`, `no`, `off`, in any ASCII case.
pub fn parse_bool(value: &str) -> (res: Option<bool>)
    ensures
        res == spec_parse_bool(value@),
{
    let lower = to_ascii_lowercase(value);
    let l = lower.as_str();
    if str_eq(l, "1") || str_eq(l, "true") || str_eq(l, "yes") || str_eq(l, "on") {
        Some(true)
    } else if str_eq(l, "0") || str_eq(l, "false") || str_eq(l, "no") || str_eq(l, "off") {
        Some(false)
    } else {
        None
    }
}

/// An environment variable's value: text, or the lossy rendering of a value
/// that is not valid Unicode.
#[derive(Debug, Clone, PartialEq, Eq)]
pub enum EnvValue {
    Unicode(String),
    NotUnicode(String),
}

/// The environment variables that treeboot reads.
#[derive(Debug, Clone, PartialEq, Eq)]
pub struct EnvironmentInput {
    /// Root checkout override from `TREEBOOT_ROOT_PATH`.
    pub treeboot_root_path: Option<EnvValue>,
    /// Root checkout compatibility override from `CODEX_SOURCE_TREE_PATH`.
    pub codex_source_tree_path: Option<EnvValue>,
    /// Root checkout compatibility override from `CONDUCTOR_ROOT_PATH`.
    pub conductor_root_path: Option<EnvValue>,
    /// Root checkout compatibility override from `SUPERSET_ROOT_PATH`.
    pub superset_root_path: Option<EnvValue>,
    /// Default branch compatibility override from `CONDUCTOR_DEFAULT_BRANCH`.
    pub conductor_default_branch: Option<EnvValue>,
    /// Runtime strict-mode override from `TREEBOOT_STRICT`.
    pub treeboot_strict: Option<EnvValue>,
    /// Runtime source-boundary override.
    pub treeboot_dangerously_allow_sources_outside_root: Option<EnvValue>,
    /// Runtime target-boundary override.
    pub treeboot_dangerously_allow_targets_outside_worktree: Option<EnvValue>,
}

impl EnvironmentInput {
    /// An environment input with no variable set.
    pub fn empty() -> (res: Self)
        ensures
            res.treeboot_root_path.is_none(),
            res.codex_source_tree_path.is_none(),
            res.conductor_root_path.is_none(),
            res.superset_root_path.is_none(),
            res.conductor_default_branch.is_none(),
            res.treeboot_strict.is_none(),
            res.treeboot_dangerously_allow_sources_outside_root.is_none(),
            res.treeboot_dangerously_allow_targets_outside_worktree.is_none(),
    {
        EnvironmentInput {
            treeboot_root_path: None,
            codex_source_tree_path: None,
            conductor_root_path: None,
            superset_root_path: None,
            conductor_default_branch: None,
            treeboot_strict: None,
            treeboot_dangerously_allow_sources_outside_root: None,
            treeboot_dangerously_allow_targets_outside_worktree: None,
        }
    }
}

/// What reading one boolean environment variable yields: the parsed value,
/// nothing when unset, or the text that failed to parse.
pub open spec fn env_bool_outcome(value: Option<EnvValue>) -> Result<Option<bool>, Seq<char>> {
    match value {
        None => Ok(None),
        Some(EnvValue::NotUnicode(lossy)) => Err(lossy@),
        Some(EnvValue::Unicode(text)) => match spec_parse_bool(text@) {
            Some(b) => Ok(Some(b)),
            None => Err(text@),
        },
    }
}

/// Whether the variable's value reads as `b`.
pub open spec fn reads_as(value: Option<EnvValue>, b: Option<bool>) -> bool {
    env_bool_outcome(value) == Ok::<Option<bool>, Seq<char>>(b)
}

/// Whether `e` is the error for variable `name` whose `value` fails to read.
pub open spec fn rejects(name: Seq<char>, value: Option<EnvValue>, e: Error) -> bool {
    match env_bool_outcome(value) {
        Ok(_) => false,
        Err(text) => e matches Error::InvalidBooleanEnv { name: n, value: v } && n@ == name && v@
            == text,
    }
}

/// Whether `r` is the result of reading variable `name` with `value`.
pub open spec fn env_bool_result(
    name: Seq<char>,
    value: Option<EnvValue>,
    r: Result<Option<bool>, Error>,
) -> bool {
    match env_bool_outcome(value) {
        Ok(b) => r == Ok::<Option<bool>, Error>(b),
        Err(text) => r matches Err(Error::InvalidBooleanEnv { name: n, value: v }) && n@ == name
            && v@ == text,
    }
}

fn env_bool(name: &str, value: &Option<EnvValue>) -> (res: Result<Option<bool>, Error>)
    ensures
        env_bool_result(name@, *value, res),
{
    match value {
        None => Ok(None),
        Some(EnvValue::NotUnicode(lossy)) => Err(
            Error::InvalidBooleanEnv { name: String::from_str(name), value: copy_string(lossy) },
        ),
        Some(EnvValue::Unicode(text)) => match parse_bool(text.as_str()) {
            Some(b) => Ok(Some(b)),
            None => Err(
                Error::InvalidBooleanEnv { name: String::from_str(name), value: copy_string(text) },
            ),
        },
    }
}

/// Environment overrides for config runtime options.
#[derive(Debug, Clone, Copy, PartialEq, Eq, Structural)]
pub struct RuntimeOptionOverrides {
    /// Strict mode environment override.
    pub strict: Option<bool>,
    /// Source-boundary environment override.
    pub dangerously_allow_sources_outside_root: Option<bool>,
    /// Target-boundary environment override.
    pub dangerously_allow_targets_outside_worktree: Option<bool>,
}

impl Default for RuntimeOptionOverrides {
    fn default() -> (res: Self)
        ensures
            res.strict.is_none(),
            res.dangerously_allow_sources_outside_root.is_none(),
            res.dangerously_allow_targets_outside_worktree.is_none(),
    {
        RuntimeOptionOverrides {
            strict: None,
            dangerously_allow_sources_outside_root: None,
            dangerously_allow_targets_outside_worktree: None,
        }
    }
}

/// Name of the strict-mode variable.
pub open spec fn strict_var() -> Seq<char> {
    "TREEBOOT_STRICT"@
}

/// Name of the source-boundary variable.
pub open spec fn sources_var() -> Seq<char> {
    "TREEBOOT_DANGEROUSLY_ALLOW_SOURCES_OUTSIDE_ROOT"@
}

/// Name of the target-boundary variable.
pub open spec fn targets_var() -> Seq<char> {
    "TREEBOOT_DANGEROUSLY_ALLOW_TARGETS_OUTSIDE_WORKTREE"@
}

impl RuntimeOptionOverrides {
    /// Parses the runtime overrides from explicit environment input.
    ///
    /// The variables are read in the order strict, sources, targets; the
    /// first that does not hold a supported boolean is the error.
    pub fn from_environment(environment: &EnvironmentInput) -> (res: Result<Self, Error>)
        ensures
            res.is_ok() <==> (env_bool_outcome(environment.treeboot_strict).is_ok()
                && env_bool_outcome(environment.treeboot_dangerously_allow_sources_outside_root).is_ok()
                && env_bool_outcome(environment.treeboot_dangerously_allow_targets_outside_worktree).is_ok()),
            res matches Ok(o) ==> {
                &&& reads_as(environment.treeboot_strict, o.strict)
                &&& reads_as(environment.treeboot_dangerously_allow_sources_outside_root, o.dangerously_allow_sources_outside_root)
                &&& reads_as(environment.treeboot_dangerously_allow_targets_outside_worktree, o.dangerously_allow_targets_outside_worktree)
            },
            res matches Err(e) ==> {
                if env_bool_outcome(environment.treeboot_strict) is Err {
                    rejects(strict_var(), environment.treeboot_strict, e)
                } else if env_bool_outcome(environment.treeboot_dangerously_allow_sources_outside_root) is Err {
                    rejects(sources_var(), environment.treeboot_dangerously_allow_sources_outside_root, e)
                } else {
                    rejects(targets_var(), environment.treeboot_dangerously_allow_targets_outside_worktree, e)
                }
            },
    {
        let strict = match env_bool("TREEBOOT_STRICT", &environment.treeboot_strict) {
            Ok(v) => v,
            Err(e) => return Err(e),
        };
        let sources = match env_bool(
            "TREEBOOT_DANGEROUSLY_ALLOW_SOURCES_OUTSIDE_ROOT",
            &environment.treeboot_dangerously_allow_sources_outside_root,
        ) {
            Ok(v) => v,
            Err(e) => return Err(e),
        };
        let targets = match env_bool(
            "TREEBOOT_DANGEROUSLY_ALLOW_TARGETS_OUTSIDE_WORKTREE",
            &environment.treeboot_dangerously_allow_targets_outside_worktree,
        ) {
            Ok(v) => v,
            Err(e) => return Err(e),
        };
        Ok(
            RuntimeOptionOverrides {
                strict,
                dangerously_allow_sources_outside_root: sources,
                dangerously_allow_targets_outside_worktree: targets,
            },
        )
    }
}

/// Runtime policy resolved from environment and CLI input.
#[derive(Debug, Clone, Copy, PartialEq, Eq, Structural)]
pub struct RuntimePolicy {
    overrides: RuntimeOptionOverrides,
    cli_strict: bool,
}

/// The options after config defaults, then environment, then CLI are applied.
pub open spec fn resolved_options(
    overrides: RuntimeOptionOverrides,
    cli_strict: bool,
    config: RuntimeOptionsView,
) -> RuntimeOptionsView {
    RuntimeOptionsView {
        strict: if cli_strict {
            true
        } else {
            match overrides.strict {
                Some(s) => s,
                None => config.strict,
            }
        },
        default_ignore: config.default_ignore,
        dangerously_allow_sources_outside_root: match overrides.dangerously_allow_sources_outside_root {
            Some(a) => a,
            None => config.dangerously_allow_sources_outside_root,
        },
        dangerously_allow_targets_outside_worktree: match overrides.dangerously_allow_targets_outside_worktree {
            Some(a) => a,
            None => config.dangerously_allow_targets_outside_worktree,
        },
    }
}

impl RuntimePolicy {
    /// The environment overrides of this policy.
    pub closed spec fn spec_overrides(&self) -> RuntimeOptionOverrides {
        self.overrides
    }

    /// Whether the CLI asked for strict mode.
    pub closed spec fn spec_cli_strict(&self) -> bool {
        self.cli_strict
    }

    /// Parses runtime policy from explicit environment input and CLI strictness.
    pub fn from_environment(environment: &EnvironmentInput, cli_strict: bool) -> (res: Result<
        Self,
        Error,
    >)
        ensures
            res.is_ok() <==> (env_bool_outcome(environment.treeboot_strict).is_ok()
                && env_bool_outcome(environment.treeboot_dangerously_allow_sources_outside_root).is_ok()
                && env_bool_outcome(environment.treeboot_dangerously_allow_targets_outside_worktree).is_ok()),
            res matches Ok(p) ==> {
                &&& p.spec_cli_strict() == cli_strict
                &&& reads_as(environment.treeboot_strict, p.spec_overrides().strict)
                &&& reads_as(environment.treeboot_dangerously_allow_sources_outside_root, p.spec_overrides().dangerously_allow_sources_outside_root)
                &&& reads_as(environment.treeboot_dangerously_allow_targets_outside_worktree, p.spec_overrides().dangerously_allow_targets_outside_worktree)
            },
            res matches Err(e) ==> {
                if env_bool_outcome(environment.treeboot_strict) is Err {
                    rejects(strict_var(), environment.treeboot_strict, e)
                } else if env_bool_outcome(environment.treeboot_dangerously_allow_sources_outside_root) is Err {
                    rejects(sources_var(), environment.treeboot_dangerously_allow_sources_outside_root, e)
                } else {
                    rejects(targets_var(), environment.treeboot_dangerously_allow_targets_outside_worktree, e)
                }
            },
    {
        match RuntimeOptionOverrides::from_environment(environment) {
            Ok(o) => Ok(Self::from_overrides(o, cli_strict)),
            Err(e) => Err(e),
        }
    }

    /// Builds runtime policy from parsed environment overrides.
    pub fn from_overrides(overrides: RuntimeOptionOverrides, cli_strict: bool) -> (res: Self)
        ensures
            res.spec_overrides() == overrides,
            res.spec_cli_strict() == cli_strict,
    {
        RuntimePolicy { overrides, cli_strict }
    }

    /// Returns strict mode before config discovery: the CLI flag or a strict
    /// environment override.
    pub fn pre_config_strict(&self) -> (res: bool)
        ensures
            res == (self.spec_cli_strict() || self.spec_overrides().strict == Some(true)),
    {
        self.cli_strict || match self.overrides.strict {
            Some(true) => true,
            _ => false,
        }
    }

    /// Resolves runtime options using defaults, config, environment, then CLI.
    pub fn resolve(&self, config: &ConfigRuntimeOptions) -> (res: ResolvedRuntimePolicy)
        ensures
            res@ == resolved_options(self.spec_overrides(), self.spec_cli_strict(), config@),
    {
        let mut options = config.duplicate();
        if let Some(strict) = self.overrides.strict {
            options.strict = strict;
        }
        if let Some(allow) = self.overrides.dangerously_allow_sources_outside_root {
            options.dangerously_allow_sources_outside_root = allow;
        }
        if let Some(allow) = self.overrides.dangerously_allow_targets_outside_worktree {
            options.dangerously_allow_targets_outside_worktree = allow;
        }
        if self.cli_strict {
            options.strict = true;
        }
        ResolvedRuntimePolicy { options }
    }
}

/// Validation options for an action plan.
#[derive(Debug, Clone, Copy, PartialEq, Eq, Structural)]
pub struct ActionPlanOptions {
    /// Strict declarative validation and conflict handling.
    pub strict: bool,
    /// Allows file operation sources outside the root checkout.
    pub dangerously_allow_sources_outside_root: bool,
    /// Allows file operation targets outside the current worktree.
    pub dangerously_allow_targets_outside_worktree: bool,
}

/// Runtime policy after config defaults, environment, and CLI are merged.
#[derive(Debug)]
pub struct ResolvedRuntimePolicy {
    options: ConfigRuntimeOptions,
}

impl View for ResolvedRuntimePolicy {
    type V = RuntimeOptionsView;

    closed spec fn view(&self) -> RuntimeOptionsView {
        self.options@
    }
}

impl ResolvedRuntimePolicy {
    /// Returns the resolved config-compatible runtime options.
    pub fn options(&self) -> (res: &ConfigRuntimeOptions)
        ensures
            res@ == self@,
    {
        &self.options
    }

    /// Consumes the policy and returns the resolved config-compatible options.
    pub fn into_options(self) -> (res: ConfigRuntimeOptions)
        ensures
            res@ == self@,
    {
        self.options
    }

    /// Returns whether strict mode is enabled.
    pub fn strict(&self) -> (res: bool)
        ensures
            res == self@.strict,
    {
        self.options.strict
    }

    /// Returns default ignore patterns from the resolved policy.
    pub fn default_ignore(&self) -> (res: &[String])
        ensures
            crate::text::string_views(res@) == self@.default_ignore,
    {
        self.options.default_ignore.as_slice()
    }

    /// Returns action-plan validation options for this resolved policy.
    pub fn action_plan_options(&self) -> (res: ActionPlanOptions)
        ensures
            res.strict == self@.strict,
            res.dangerously_allow_sources_outside_root == self@.dangerously_allow_sources_outside_root,
            res.dangerously_allow_targets_outside_worktree
                == self@.dangerously_allow_targets_outside_worktree,
    {
        ActionPlanOptions {
            strict: self.options.strict,
            dangerously_allow_sources_outside_root: self.options.dangerously_allow_sources_outside_root,
            dangerously_allow_targets_outside_worktree: self.options.dangerously_allow_targets_outside_worktree,
        }
    }
}

/// The CLI's strict flag wins over everything: a policy built with it
/// resolves to strict mode whatever the environment and config say.
pub proof fn lemma_cli_strict_wins(
    overrides: RuntimeOptionOverrides,
    config: RuntimeOptionsView,
)
    ensures
        resolved_options(overrides, true, config).strict,
{
}

/// Without the CLI flag, an environment override decides each option; with
/// no override, the config's value stands. Default ignore patterns always
/// come from the config.
pub proof fn lemma_environment_over_config(
    overrides: RuntimeOptionOverrides,
    config: RuntimeOptionsView,
)
    ensures
        ({
            let r = resolved_options(overrides, false, config);
            &&& r.default_ignore == config.default_ignore
            &&& r.strict == (match overrides.strict {
                Some(s) => s,
                None => config.strict,
            })
            &&& r.dangerously_allow_sources_outside_root == (match overrides.dangerously_allow_sources_outside_root {
                Some(a) => a,
                None => config.dangerously_allow_sources_outside_root,
            })
            &&& r.dangerously_allow_targets_outside_worktree == (match overrides.dangerously_allow_targets_outside_worktree {
                Some(a) => a,
                None => config.dangerously_allow_targets_outside_worktree,
            })
        }),
{
}

/// With no overrides and no CLI flag, resolution gives back the config's
/// options unchanged.
pub proof fn lemma_no_overrides_keep_config(config: RuntimeOptionsView)
    ensures
        resolved_options(
            RuntimeOptionOverrides {
                strict: None,
                dangerously_allow_sources_outside_root: None,
                dangerously_allow_targets_outside_worktree: None,
            },
            false,
            config,
        ) == config,
{
}

} // verus!
