//! A validated bootstrap plan: the file operations and commands to run in a
//! worktree context.

use vstd::prelude::*;
use crate::config::{CommandKind, FileOperationKind, MetadataField, SymlinkMode, SyncCompare};
use crate::context::Worktree;

verus! {

/// Whether a planned file operation can run.
#[derive(Debug, Clone, Copy, PartialEq, Eq, Structural)]
pub enum PlannedFileStatus {
    /// The source exists and the operation is ready.
    Ready,
    /// The optional source is missing; the operation is skipped.
    SkippedMissingSource,
}

/// A file operation ready for planning against the filesystem.
#[derive(Debug, Clone, PartialEq, Eq)]
pub struct PlannedFileOperation {
    pub operation: FileOperationKind,
    /// Display source path.
    pub source: String,
    /// Display target path.
    pub target: String,
    /// Absolute source path.
    pub source_path: String,
    /// Absolute target path.
    pub target_path: String,
    pub status: PlannedFileStatus,
    pub compare: Option<SyncCompare>,
    pub delete: Option<bool>,
    pub symlinks: Option<SymlinkMode>,
    pub ignore: Vec<String>,
    pub include_patterns: Vec<String>,
    pub ignore_metadata: Vec<MetadataField>,
}

/// A command ready to run.
#[derive(Debug, Clone, PartialEq, Eq)]
pub struct PlannedCommand {
    /// Optional display name.
    pub name: Option<String>,
    /// Invocation.
    pub command: CommandKind,
    /// Declared working directory.
    pub cwd: Option<String>,
    /// Extra environment, in name order.
    pub env: Vec<(String, String)>,
    /// Whether a failure is reported and skipped.
    pub allow_failure: bool,
}

/// Where a plan came from.
#[derive(Debug, Clone, PartialEq, Eq)]
pub enum PlanOrigin {
    /// A config file.
    Manifest { path: String },
    /// A single manual file operation.
    Manual,
}

/// A plan of file operations and commands for one worktree.
#[derive(Debug, Clone, PartialEq, Eq)]
pub struct ActionPlan {
    pub context: Worktree,
    pub origin: PlanOrigin,
    pub files: Vec<PlannedFileOperation>,
    pub commands: Vec<PlannedCommand>,
    /// Non-fatal validation warnings.
    pub warnings: Vec<String>,
}

impl ActionPlan {
    /// Assembles a plan from already validated parts.
    pub fn from_parts(
        context: Worktree,
        origin: PlanOrigin,
        files: Vec<PlannedFileOperation>,
        commands: Vec<PlannedCommand>,
        warnings: Vec<String>,
    ) -> (res: Self)
        ensures
            res.context == context,
            res.origin == origin,
            res.files == files,
            res.commands == commands,
            res.warnings == warnings,
    {
        ActionPlan { context, origin, files, commands, warnings }
    }
}

} // verus!
