//! Reports of `treeboot check` and the decisions taken before a config is
//! loaded.

use vstd::prelude::*;
use crate::context::Worktree;
use crate::error::Error;
use crate::text::copy_string;

verus! {

/// Worktree context snapshot for reports.
#[derive(Debug, Clone, PartialEq, Eq)]
pub struct WorktreeSnapshot {
    /// Source checkout used for file operations.
    pub root_path: String,
    /// Current worktree root where targets and commands are anchored.
    pub worktree_path: String,
    /// Best-effort default branch name.
    pub default_branch: String,
}

impl WorktreeSnapshot {
    /// The snapshot of a worktree context.
    pub fn from_worktree(context: &Worktree) -> (res: Self)
        ensures
            res.root_path == context.root_path,
            res.worktree_path == context.worktree_path,
            res.default_branch == context.default_branch,
    {
        WorktreeSnapshot {
            root_path: copy_string(&context.root_path),
            worktree_path: copy_string(&context.worktree_path),
            default_branch: copy_string(&context.default_branch),
        }
    }
}

/// Completed action for a `treeboot check` invocation.
#[derive(Debug, Clone, PartialEq, Eq)]
pub enum CheckAction {
    /// No config or executable init script was detected.
    MissingConfig,
    /// The check started from the root checkout and had no work to validate.
    RootWorktreeSkipped,
    /// An init script would take precedence.
    InitScript { path: String },
    /// Declarative config was validated.
    Config { path: String },
}

/// Result summary for a `treeboot check` invocation.
#[derive(Debug, Clone, PartialEq, Eq)]
pub struct CheckReport {
    /// Runtime context used by the check.
    pub context: WorktreeSnapshot,
    /// Action that was validated.
    pub action: CheckAction,
}

/// Whether the run starts in the root checkout, and what was found before
/// any config is loaded.
#[derive(Debug, Clone, Copy, PartialEq, Eq, Structural)]
pub enum PreConfigOutcome {
    /// The run stops: it started in the root checkout.
    RootWorktree,
    /// The run stops: no config was found.
    MissingConfig,
    /// A config was found; loading goes on.
    Proceed,
}

/// The decision taken before loading a config: a strict run refuses the root
/// checkout and a missing config; otherwise both end the run quietly.
pub open spec fn pre_config_result(
    is_root: bool,
    config_found: bool,
    strict: bool,
    r: Result<PreConfigOutcome, Error>,
) -> bool {
    if is_root {
        if strict {
            r matches Err(Error::RootWorktreeStrict)
        } else {
            r == Ok::<PreConfigOutcome, Error>(PreConfigOutcome::RootWorktree)
        }
    } else if !config_found {
        if strict {
            r matches Err(Error::NoConfigDetectedStrict)
        } else {
            r == Ok::<PreConfigOutcome, Error>(PreConfigOutcome::MissingConfig)
        }
    } else {
        r == Ok::<PreConfigOutcome, Error>(PreConfigOutcome::Proceed)
    }
}

/// Decides how a check, plan or run goes on before a config is loaded.
pub fn pre_config_decision(is_root: bool, config_found: bool, strict: bool) -> (res: Result<
    PreConfigOutcome,
    Error,
>)
    ensures
        pre_config_result(is_root, config_found, strict, res),
{
    if is_root {
        if strict {
            Err(Error::RootWorktreeStrict)
        } else {
            Ok(PreConfigOutcome::RootWorktree)
        }
    } else if !config_found {
        if strict {
            Err(Error::NoConfigDetectedStrict)
        } else {
            Ok(PreConfigOutcome::MissingConfig)
        }
    } else {
        Ok(PreConfigOutcome::Proceed)
    }
}

/// The report of a check that ended before a config was loaded.
pub fn early_check_report(context: &Worktree, outcome: PreConfigOutcome) -> (res: Option<CheckReport>)
    ensures
        outcome == PreConfigOutcome::Proceed <==> res.is_none(),
        outcome == PreConfigOutcome::RootWorktree ==> (res matches Some(r) && r.action
            == CheckAction::RootWorktreeSkipped),
        outcome == PreConfigOutcome::MissingConfig ==> (res matches Some(r) && r.action
            == CheckAction::MissingConfig),
        res matches Some(r) ==> r.context.root_path == context.root_path && r.context.worktree_path
            == context.worktree_path && r.context.default_branch == context.default_branch,
{
    match outcome {
        PreConfigOutcome::RootWorktree => Some(
            CheckReport {
                context: WorktreeSnapshot::from_worktree(context),
                action: CheckAction::RootWorktreeSkipped,
            },
        ),
        PreConfigOutcome::MissingConfig => Some(
            CheckReport {
                context: WorktreeSnapshot::from_worktree(context),
                action: CheckAction::MissingConfig,
            },
        ),
        PreConfigOutcome::Proceed => None,
    }
}

/// A strict run never ends quietly before loading a config: it either
/// proceeds or fails.
pub proof fn lemma_strict_never_skips(is_root: bool, config_found: bool, r: Result<PreConfigOutcome, Error>)
    requires
        pre_config_result(is_root, config_found, true, r),
    ensures
        r matches Ok(o) ==> o == PreConfigOutcome::Proceed,
{
}

} // verus!
