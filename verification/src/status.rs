//! `treeboot status` and `treeboot env` reports.

use vstd::prelude::*;
use crate::check::WorktreeSnapshot;
use crate::context::Worktree;
use crate::text::copy_string;

verus! {

/// Serializable result summary for a `treeboot status` invocation.
#[derive(Debug, Clone, PartialEq, Eq)]
pub struct StatusSnapshotReport {
    /// Runtime context snapshot discovered for the current worktree.
    pub context: WorktreeSnapshot,
    /// Selected config path, when one was requested or discovered.
    pub config: Option<String>,
}

impl StatusSnapshotReport {
    /// The status snapshot of a context and the selected config.
    pub fn from_parts(context: &Worktree, config: Option<String>) -> (res: Self)
        ensures
            res.context.root_path == context.root_path,
            res.context.worktree_path == context.worktree_path,
            res.context.default_branch == context.default_branch,
            res.config == config,
    {
        StatusSnapshotReport { context: WorktreeSnapshot::from_worktree(context), config }
    }
}

/// Result summary for a `treeboot env` invocation: the variables passed to
/// configured commands, in name order.
#[derive(Debug, Clone, PartialEq, Eq)]
pub struct EnvReport {
    pub environment: Vec<(String, String)>,
}

impl EnvReport {
    /// The environment of a worktree context.
    pub fn from_worktree(context: &Worktree) -> (res: Self)
        ensures
            res.environment@ == context.environment@,
    {
        let mut environment: Vec<(String, String)> = Vec::new();
        let mut i: usize = 0;
        while i < context.environment.len()
            invariant
                i <= context.environment.len(),
                environment@ == context.environment@.take(i as int),
            decreases context.environment.len() - i,
        {
            let (name, value) = &context.environment[i];
            environment.push((copy_string(name), copy_string(value)));
            proof {
                assert(context.environment@.take(i + 1) =~= context.environment@.take(i as int).push(
                    context.environment@[i as int],
                ));
            }
            i = i + 1;
        }
        assert(context.environment@.take(context.environment.len() as int) =~= context.environment@);
        EnvReport { environment }
    }
}

} // verus!
