//! Planning the concrete actions of a file operation from a snapshot of the
//! source and target trees.

use vstd::prelude::*;
use crate::action_plan::{PlannedFileOperation, PlannedFileStatus};
use crate::config::{FileOperationKind, SyncCompare, kind_name};
use crate::context::Worktree;
use crate::error::Error;
use crate::file_actions::{
    ActionView, FileAction, MetadataPolicy, MetadataTarget, PlannedFileOperationActions, action_views,
    policy_from_ignored,
};
use crate::file_system::{
    ContentInput, EntryKind, EntryMetadata, drift_result, is_conflict, is_io_error, metadata_drifted,
    metadata_changed, metadata_sync_changed, raw_source_path, raw_source_path_spec, relative_path,
    relative_path_spec,
};
use crate::fs_snapshot::{
    ContentCheck, FsSnapshot, LinkRead, Listing, Lookup, find_content, find_entry, find_link,
    find_listing, followed_dir,
};
use crate::path_filter::{
    IncludePatternIssue, PathIgnoreRules, PathIncludeRules, RulesView, component_names, ignore_match,
    include_issue, invalid_include_pattern, may_contain_spec, rules_result, whitelist_count,
};
use crate::paths::{
    is_absolute, join, join_paths, normalize_lexical, normalize_lexical_spec, parent_or_dot,
    parent_spec, path_is_absolute, paths_equal, same_path, strip_prefix, strip_prefix_spec,
};
use crate::text::{concat2, copy_string, owned, string_views};

verus! {

/// Why planning a file operation failed.
pub enum PlanError {
    /// The filesystem conflicts with the operation at `path`.
    Conflict { path: Seq<char>, message: Seq<char> },
    /// Reading `path` failed.
    Io { path: Seq<char>, message: Seq<char> },
    /// The operation's patterns are invalid.
    Invalid { message: Seq<char> },
}

/// Whether `e` is the error `pe` of an operation of this kind.
pub open spec fn error_is(e: Error, operation: FileOperationKind, pe: PlanError) -> bool {
    match pe {
        PlanError::Conflict { path, message } => is_conflict(e, operation, path, message),
        PlanError::Io { path, message } => is_io_error(e, operation, path, message),
        PlanError::Invalid { message } => e matches Error::FileOperationInvalid { operation: o, message: m }
            && o@ == kind_name(operation) && m@ == message,
    }
}

/// The result of planning part of a tree.
pub type PlanResult = Result<Seq<ActionView>, PlanError>;

/// Whether `res` is the planned result `spec`.
pub open spec fn plans(res: Result<Vec<FileAction>, Error>, spec: PlanResult, operation: FileOperationKind) -> bool {
    match (res, spec) {
        (Ok(v), Ok(a)) => action_views(v@) == a,
        (Err(e), Err(pe)) => error_is(e, operation, pe),
        _ => false,
    }
}

/// `a` followed by the actions of `r`, or the error of `r`.
pub open spec fn then_prefix(a: Seq<ActionView>, r: PlanResult) -> PlanResult {
    match r {
        Ok(x) => Ok(a + x),
        Err(e) => Err(e),
    }
}

/// Message of a path missing from the snapshot.
pub open spec fn uncaptured() -> Seq<char> {
    "path was not captured"@
}

/// `symlink_metadata` of a path that must exist.
pub open spec fn metadata_of(s: FsSnapshot, p: Seq<char>) -> Result<EntryMetadata, PlanError> {
    match find_entry(s.entries@, p) {
        Some(Lookup::Found(m)) => Ok(m),
        Some(Lookup::Missing(m)) => Err(PlanError::Io { path: p, message: m@ }),
        Some(Lookup::Failed(m)) => Err(PlanError::Io { path: p, message: m@ }),
        None => Err(PlanError::Io { path: p, message: uncaptured() }),
    }
}

/// `symlink_metadata` of a path that may be missing.
pub open spec fn maybe_metadata_of(s: FsSnapshot, p: Seq<char>) -> Result<Option<EntryMetadata>, PlanError> {
    match find_entry(s.entries@, p) {
        Some(Lookup::Found(m)) => Ok(Some(m)),
        Some(Lookup::Missing(_)) => Ok(None),
        Some(Lookup::Failed(m)) => Err(PlanError::Io { path: p, message: m@ }),
        None => Err(PlanError::Io { path: p, message: uncaptured() }),
    }
}

/// The source metadata handed to comparisons: the entry, or why reading it
/// failed.
pub open spec fn source_metadata_result(s: FsSnapshot, p: Seq<char>) -> Result<EntryMetadata, Seq<char>> {
    match metadata_of(s, p) {
        Ok(m) => Ok(m),
        Err(PlanError::Io { message, .. }) => Err(message),
        Err(_) => Err(Seq::empty()),
    }
}

/// How a tree is planned.
#[derive(Debug, Clone, Copy, PartialEq, Eq, Structural)]
pub enum TreePlanMode {
    Copy { strict: bool, force: bool },
    Sync,
}

/// A source entry and where it goes.
pub struct EntrySpec {
    pub source_path: Seq<char>,
    pub target_path: Seq<char>,
    pub source: Seq<char>,
    pub target: Seq<char>,
    /// Path relative to the operation's source (and target) root.
    pub rel: Seq<char>,
    /// Whether the entry passes the inclusion gate through an ancestor.
    pub included: bool,
}

/// A source entry and where it goes.
pub struct CopyEntry {
    pub source_path: String,
    pub target_path: String,
    pub source: String,
    pub target: String,
    pub rel: String,
    pub included: bool,
}

impl View for CopyEntry {
    type V = EntrySpec;

    open spec fn view(&self) -> EntrySpec {
        EntrySpec {
            source_path: self.source_path@,
            target_path: self.target_path@,
            source: self.source@,
            target: self.target@,
            rel: self.rel@,
            included: self.included,
        }
    }
}

/// The entry of child `name`.
pub open spec fn child_spec(e: EntrySpec, name: Seq<char>, included: bool) -> EntrySpec {
    EntrySpec {
        source_path: join(e.source_path, name),
        target_path: join(e.target_path, name),
        source: join(e.source, name),
        target: join(e.target, name),
        rel: join(e.rel, name),
        included,
    }
}

/// The ignore and include rules of an operation.
pub struct FilterSpec {
    pub ignore: Option<RulesView>,
    pub include_rules: Option<RulesView>,
}

/// Whether the ignore rules hold a negated pattern.
pub open spec fn has_negation(f: FilterSpec) -> bool {
    match f.ignore {
        Some(r) => whitelist_count(r.lines) > 0,
        None => false,
    }
}

/// Whether an entry is ignored.
pub open spec fn ignored(f: FilterSpec, rel: Seq<char>, is_dir: bool) -> bool {
    match f.ignore {
        Some(r) => ignore_match(r.root, r.lines, rel, is_dir),
        None => false,
    }
}

/// Whether an entry passes the inclusion gate by itself.
pub open spec fn included(f: FilterSpec, rel: Seq<char>, is_dir: bool) -> bool {
    match f.include_rules {
        Some(r) => ignore_match(r.root, r.lines, rel, is_dir),
        None => true,
    }
}

/// Whether a directory may hold inclusion matches below it.
pub open spec fn include_viable(f: FilterSpec, rel: Seq<char>) -> bool {
    match f.include_rules {
        Some(r) => may_contain_spec(component_names(rel), r.lines),
        None => true,
    }
}

/// The metadata policy of an operation.
pub open spec fn op_policy(op: PlannedFileOperation) -> MetadataPolicy {
    policy_from_ignored(op.ignore_metadata@)
}

/// A copy of an entry's file.
pub open spec fn copy_action(op: PlannedFileOperation, e: EntrySpec, replace: bool) -> ActionView {
    ActionView::CopyFile {
        operation: op.operation,
        source: e.source,
        target: e.target,
        source_path: e.source_path,
        target_path: e.target_path,
        metadata_policy: op_policy(op),
        replace,
    }
}

/// A metadata repair of an entry.
pub open spec fn repair_action(op: PlannedFileOperation, e: EntrySpec, kind: MetadataTarget, report: bool) -> ActionView {
    ActionView::RepairMetadata {
        operation: op.operation,
        source: e.source,
        target: e.target,
        source_path: e.source_path,
        target_path: e.target_path,
        metadata_policy: op_policy(op),
        target_kind: kind,
        report,
    }
}

/// Whether a synced file changed: a symlink target always did; otherwise by
/// metadata or, with checksum comparison, by contents.
pub open spec fn sync_changed(s: FsSnapshot, op: PlannedFileOperation, e: EntrySpec, target: EntryMetadata) -> Result<bool, PlanError> {
    if target.kind == EntryKind::Symlink {
        Ok(true)
    } else if op.compare == Some(SyncCompare::Checksum) {
        match metadata_of(s, e.source_path) {
            Err(pe) => Err(pe),
            Ok(sm) => match metadata_of(s, e.target_path) {
                Err(pe) => Err(pe),
                Ok(tm) => if sm.len != tm.len {
                    Ok(true)
                } else {
                    match find_content(s.contents@, e.source_path, e.target_path) {
                        Some(ContentCheck::OpenSourceFailed(m)) => Err(PlanError::Io { path: e.source_path, message: m@ }),
                        Some(ContentCheck::OpenTargetFailed(m)) => Err(PlanError::Io { path: e.target_path, message: m@ }),
                        Some(ContentCheck::Compared(changed)) => Ok(changed),
                        Some(ContentCheck::ReadFailed(r)) => Err(PlanError::Io {
                            path: if r.input == ContentInput::Source { e.source_path } else { e.target_path },
                            message: r.message@,
                        }),
                        None => Err(PlanError::Io { path: e.source_path, message: uncaptured() }),
                    }
                },
            },
        }
    } else {
        match source_metadata_result(s, e.source_path) {
            Err(m) => Err(PlanError::Io { path: e.source_path, message: m }),
            Ok(sm) => if sm.len != target.len {
                Ok(true)
            } else {
                match (sm.modified, target.modified) {
                    (crate::file_system::ModifiedTime::Unavailable(m), _) => Err(PlanError::Io { path: e.source_path, message: m@ }),
                    (_, crate::file_system::ModifiedTime::Unavailable(m)) => Err(PlanError::Io { path: e.target_path, message: m@ }),
                    (crate::file_system::ModifiedTime::Known(a), crate::file_system::ModifiedTime::Known(b)) => Ok(a != b),
                }
            },
        }
    }
}

/// Whether an entry's metadata drifted from its source.
pub open spec fn drifted(s: FsSnapshot, op: PlannedFileOperation, e: EntrySpec, target: EntryMetadata, kind: MetadataTarget) -> Result<bool, PlanError> {
    match source_metadata_result(s, e.source_path) {
        Err(m) => Err(PlanError::Io { path: e.source_path, message: m }),
        Ok(sm) => {
            let policy = op_policy(op);
            if policy.permissions && sm.mode != target.mode {
                Ok(true)
            } else if kind == MetadataTarget::File && !(sm.modified is Known && target.modified is Known
                && sm.modified == target.modified) {
                match (sm.modified, target.modified) {
                    (crate::file_system::ModifiedTime::Unavailable(m), _) => Err(PlanError::Io { path: e.source_path, message: m@ }),
                    (_, crate::file_system::ModifiedTime::Unavailable(m)) => Err(PlanError::Io { path: e.target_path, message: m@ }),
                    (crate::file_system::ModifiedTime::Known(a), crate::file_system::ModifiedTime::Known(b)) => Ok(a != b),
                }
            } else {
                Ok((policy.owner && sm.uid != target.uid) || (policy.group && sm.gid != target.gid))
            }
        },
    }
}

/// The actions for a source file.
pub open spec fn plan_file_spec(s: FsSnapshot, op: PlannedFileOperation, e: EntrySpec, mode: TreePlanMode) -> PlanResult {
    match maybe_metadata_of(s, e.target_path) {
        Err(pe) => Err(pe),
        Ok(None) => Ok(seq![copy_action(op, e, false)]),
        Ok(Some(t)) => if t.kind == EntryKind::Directory {
            Err(PlanError::Conflict { path: e.target_path, message: "target is a directory"@ })
        } else {
            match mode {
                TreePlanMode::Copy { strict, force } => if strict {
                    Err(PlanError::Conflict { path: e.target_path, message: "target exists"@ })
                } else if force {
                    Ok(seq![copy_action(op, e, true)])
                } else {
                    Ok(seq![ActionView::Skip { operation: op.operation, target: e.target, reason: "target exists"@ }])
                },
                TreePlanMode::Sync => if t.kind != EntryKind::File && t.kind != EntryKind::Symlink {
                    Err(PlanError::Conflict { path: e.target_path, message: "target file type is unsupported"@ })
                } else {
                    match sync_changed(s, op, e, t) {
                        Err(pe) => Err(pe),
                        Ok(true) => Ok(seq![copy_action(op, e, true)]),
                        Ok(false) => match drifted(s, op, e, t, MetadataTarget::File) {
                            Err(pe) => Err(pe),
                            Ok(true) => Ok(seq![repair_action(op, e, MetadataTarget::File, true)]),
                            Ok(false) => Ok(Seq::empty()),
                        },
                    }
                },
            }
        },
    }
}

/// A symlink to create, before deciding whether it replaces the target.
pub struct SymlinkSpec {
    pub operation: FileOperationKind,
    pub source: Seq<char>,
    pub target: Seq<char>,
    pub target_path: Seq<char>,
    pub preserved_source_path: Option<Seq<char>>,
    pub link_target: Seq<char>,
    pub final_target: Seq<char>,
    pub target_is_dir: bool,
}

/// The symlink action of a plan.
pub open spec fn symlink_action(p: SymlinkSpec, replace: bool) -> ActionView {
    ActionView::CreateSymlink {
        operation: p.operation,
        source: p.source,
        target: p.target,
        target_path: p.target_path,
        preserved_source_path: p.preserved_source_path,
        link_target: p.link_target,
        final_target: p.final_target,
        target_is_dir: p.target_is_dir,
        replace,
    }
}

/// The actions for a symlink in a copy or a symlink operation.
pub open spec fn plan_symlink_action_spec(s: FsSnapshot, p: SymlinkSpec, strict: bool, force: bool) -> PlanResult {
    match maybe_metadata_of(s, p.target_path) {
        Err(pe) => Err(pe),
        Ok(None) => Ok(seq![symlink_action(p, false)]),
        Ok(Some(t)) => if t.kind == EntryKind::Directory {
            Err(PlanError::Conflict { path: p.target_path, message: "target is a directory"@ })
        } else if strict {
            Err(PlanError::Conflict { path: p.target_path, message: "target exists"@ })
        } else if force {
            Ok(seq![symlink_action(p, true)])
        } else {
            Ok(seq![ActionView::Skip { operation: p.operation, target: p.target, reason: "target exists"@ }])
        },
    }
}

/// The actions for a symlink in a sync: an existing symlink to the same
/// place stays.
pub open spec fn plan_sync_symlink_spec(s: FsSnapshot, p: SymlinkSpec) -> PlanResult {
    match maybe_metadata_of(s, p.target_path) {
        Err(pe) => Err(pe),
        Ok(None) => Ok(seq![symlink_action(p, false)]),
        Ok(Some(t)) => if t.kind == EntryKind::Directory {
            Err(PlanError::Conflict { path: p.target_path, message: "target is a directory"@ })
        } else if t.kind == EntryKind::Symlink {
            match find_link(s.links@, p.target_path) {
                Some(LinkRead::Target(existing)) => if same_path(existing@, p.link_target) {
                    Ok(Seq::empty())
                } else {
                    Ok(seq![symlink_action(p, true)])
                },
                Some(LinkRead::Failed(m)) => Err(PlanError::Io { path: p.target_path, message: m@ }),
                None => Err(PlanError::Io { path: p.target_path, message: uncaptured() }),
            }
        } else {
            Ok(seq![symlink_action(p, true)])
        },
    }
}

/// The parent of a path, or `.` when it has none.
pub open spec fn parent_or_dot_spec(p: Seq<char>) -> Seq<char> {
    match parent_spec(p) {
        Some(q) => q,
        None => seq!['.'],
    }
}

/// Where a source symlink points once recreated in the worktree: its link
/// text resolved against its directory, moved from the root checkout into
/// the worktree when it points inside the root; the link text is made
/// relative to the new link's directory when possible.
pub open spec fn preserved_link_spec(
    s: FsSnapshot,
    root: Seq<char>,
    worktree: Seq<char>,
    source_path: Seq<char>,
    target_path: Seq<char>,
) -> Result<(Seq<char>, Seq<char>, bool), PlanError> {
    match find_link(s.links@, source_path) {
        None => Err(PlanError::Io { path: source_path, message: uncaptured() }),
        Some(LinkRead::Failed(m)) => Err(PlanError::Io { path: source_path, message: m@ }),
        Some(LinkRead::Target(raw)) => if raw@.len() == 0 {
            Err(PlanError::Conflict { path: source_path, message: "source symlink target is empty"@ })
        } else {
            let resolved = if is_absolute(raw@) {
                normalize_lexical_spec(raw@)
            } else {
                normalize_lexical_spec(join(parent_or_dot_spec(source_path), raw@))
            };
            let target_is_dir = followed_dir(s, resolved);
            let final_target = match strip_prefix_spec(resolved, root) {
                Some(rel) => join(worktree, rel),
                None => resolved,
            };
            let link_target = match relative_path_spec(parent_or_dot_spec(target_path), final_target) {
                Some(r) => r,
                None => raw@,
            };
            Ok((link_target, final_target, target_is_dir))
        },
    }
}

/// The actions for a source symlink inside a copy or sync tree.
pub open spec fn plan_tree_symlink_spec(
    s: FsSnapshot,
    root: Seq<char>,
    worktree: Seq<char>,
    op: PlannedFileOperation,
    e: EntrySpec,
    mode: TreePlanMode,
) -> PlanResult {
    match preserved_link_spec(s, root, worktree, e.source_path, e.target_path) {
        Err(pe) => Err(pe),
        Ok((link_target, final_target, target_is_dir)) => {
            let p = SymlinkSpec {
                operation: op.operation,
                source: e.source,
                target: e.target,
                target_path: e.target_path,
                preserved_source_path: Some(e.source_path),
                link_target,
                final_target,
                target_is_dir,
            };
            match mode {
                TreePlanMode::Copy { strict, force } => plan_symlink_action_spec(s, p, strict, force),
                TreePlanMode::Sync => plan_sync_symlink_spec(s, p),
            }
        },
    }
}

/// The actions of a symlink operation: a link to the source, relative to
/// the link's directory when possible.
pub open spec fn plan_symlink_spec(s: FsSnapshot, op: PlannedFileOperation, strict: bool, force: bool) -> PlanResult {
    let link_target = match relative_path_spec(parent_or_dot_spec(op.target_path@), op.source_path@) {
        Some(r) => r,
        None => op.source_path@,
    };
    plan_symlink_action_spec(
        s,
        SymlinkSpec {
            operation: op.operation,
            source: op.source@,
            target: op.target@,
            target_path: op.target_path@,
            preserved_source_path: None,
            link_target,
            final_target: op.source_path@,
            target_is_dir: followed_dir(s, op.source_path@),
        },
        strict,
        force,
    )
}

/// Whether a directory below the source holds an entry in scope: included
/// (itself or through an ancestor) and not ignored. Directories that cannot
/// be reached or cannot hold matches are skipped; anything unreadable counts
/// as in scope.
pub open spec fn subtree_in_scope(
    s: FsSnapshot,
    f: FilterSpec,
    dir_path: Seq<char>,
    dir_rel: Seq<char>,
    ancestor_included: bool,
    fuel: nat,
) -> bool
    decreases fuel, 1nat, 0nat,
{
    match find_listing(s.listings@, dir_path) {
        Some(Listing::Names(names)) => if fuel == 0 {
            true
        } else {
            scope_from(s, f, dir_path, dir_rel, ancestor_included, names@, 0, fuel)
        },
        _ => true,
    }
}

/// `subtree_in_scope` over the directory entries from index `i` on.
pub open spec fn scope_from(
    s: FsSnapshot,
    f: FilterSpec,
    dir_path: Seq<char>,
    dir_rel: Seq<char>,
    ancestor_included: bool,
    names: Seq<String>,
    i: nat,
    fuel: nat,
) -> bool
    decreases fuel, 0nat, names.len() - i,
{
    if i >= names.len() || fuel == 0 {
        false
    } else {
        let name = names[i as int]@;
        let path = join(dir_path, name);
        let rel = join(dir_rel, name);
        match find_entry(s.entries@, path) {
            Some(Lookup::Found(m)) => {
                let is_dir = m.kind == EntryKind::Directory;
                let inc = ancestor_included || included(f, rel, is_dir);
                let ign = ignored(f, rel, is_dir);
                if inc && !ign {
                    true
                } else if !is_dir || (ign && !has_negation(f)) || (!inc && !include_viable(f, rel)) {
                    scope_from(s, f, dir_path, dir_rel, ancestor_included, names, i + 1, fuel)
                } else {
                    subtree_in_scope(s, f, path, rel, inc, (fuel - 1) as nat) || scope_from(
                        s,
                        f,
                        dir_path,
                        dir_rel,
                        ancestor_included,
                        names,
                        i + 1,
                        fuel,
                    )
                }
            },
            _ => true,
        }
    }
}

/// Whether a directory may hold an entry in scope below it.
pub open spec fn descendants_possible(s: FsSnapshot, f: FilterSpec, e: EntrySpec, fuel: nat) -> bool {
    match f.include_rules {
        None => true,
        Some(_) => include_viable(f, e.rel) && subtree_in_scope(s, f, e.source_path, e.rel, false, fuel),
    }
}

/// What planning keeps fixed over a tree: the snapshot, the worktree
/// context, the operation, its rules and mode.
pub struct TreeSpec {
    pub s: FsSnapshot,
    pub root: Seq<char>,
    pub worktree: Seq<char>,
    pub op: PlannedFileOperation,
    pub f: FilterSpec,
    pub mode: TreePlanMode,
}

/// Whether a sync deletes target-only entries.
pub open spec fn deletes(t: TreeSpec) -> bool {
    t.mode == TreePlanMode::Sync && t.op.delete == Some(true)
}

/// The actions for a source entry of the given metadata.
pub open spec fn plan_entry_spec(t: TreeSpec, e: EntrySpec, m: EntryMetadata, fuel: nat) -> PlanResult
    decreases fuel, 3nat, 0nat,
{
    if m.kind == EntryKind::Symlink {
        plan_tree_symlink_spec(t.s, t.root, t.worktree, t.op, e, t.mode)
    } else if m.kind == EntryKind::File {
        plan_file_spec(t.s, t.op, e, t.mode)
    } else if m.kind == EntryKind::Directory {
        plan_directory_spec(t, e, fuel)
    } else {
        Err(PlanError::Conflict { path: e.source_path, message: "source file type is unsupported"@ })
    }
}

/// The actions for a source directory: create it or check the existing
/// target, plan its children, then repair its metadata.
pub open spec fn plan_directory_spec(t: TreeSpec, e: EntrySpec, fuel: nat) -> PlanResult
    decreases fuel, 2nat, 0nat,
{
    match maybe_metadata_of(t.s, e.target_path) {
        Err(pe) => Err(pe),
        Ok(None) => match plan_children_spec(t, e, fuel) {
            Err(pe) => Err(pe),
            Ok(c) => Ok(seq![ActionView::CreateDirectory {
                operation: t.op.operation,
                source: e.source,
                target: e.target,
                target_path: e.target_path,
            }] + c + seq![repair_action(t.op, e, MetadataTarget::Directory, false)]),
        },
        Ok(Some(m)) => if m.kind == EntryKind::Symlink || m.kind == EntryKind::File {
            Err(PlanError::Conflict { path: e.target_path, message: "target is a file or symlink"@ })
        } else if m.kind == EntryKind::Directory {
            if t.mode matches TreePlanMode::Copy { strict: true, .. } {
                Err(PlanError::Conflict { path: e.target_path, message: "target directory exists"@ })
            } else {
                let repair: Result<Seq<ActionView>, PlanError> = if t.mode == TreePlanMode::Sync {
                    match drifted(t.s, t.op, e, m, MetadataTarget::Directory) {
                        Err(pe) => Err(pe),
                        Ok(true) => Ok(seq![repair_action(t.op, e, MetadataTarget::Directory, true)]),
                        Ok(false) => Ok(Seq::empty()),
                    }
                } else {
                    Ok(Seq::empty())
                };
                match repair {
                    Err(pe) => Err(pe),
                    Ok(r) => match plan_children_spec(t, e, fuel) {
                        Err(pe) => Err(pe),
                        Ok(c) => Ok(c + r),
                    },
                }
            }
        } else {
            Err(PlanError::Conflict { path: e.target_path, message: "target file type is unsupported"@ })
        },
    }
}

/// The actions for the children of a source directory, then its sync
/// deletes.
pub open spec fn plan_children_spec(t: TreeSpec, e: EntrySpec, fuel: nat) -> PlanResult
    decreases fuel, 1nat, 0nat,
{
    match find_listing(t.s.listings@, e.source_path) {
        None => Err(PlanError::Io { path: e.source_path, message: uncaptured() }),
        Some(Listing::Failed(m)) => Err(PlanError::Io { path: e.source_path, message: m@ }),
        Some(Listing::Names(names)) => match children_from(t, e, names@, 0, fuel) {
            Err(pe) => Err(pe),
            Ok(c) => if deletes(t) {
                match deletes_spec(t, e, fuel) {
                    Err(pe) => Err(pe),
                    Ok((d, _)) => Ok(c + d),
                }
            } else {
                Ok(c)
            },
        },
    }
}

/// The actions for the children from index `i` on.
pub open spec fn children_from(t: TreeSpec, e: EntrySpec, names: Seq<String>, i: nat, fuel: nat) -> PlanResult
    decreases fuel, 0nat, names.len() - i,
{
    if i >= names.len() {
        Ok(Seq::empty())
    } else if fuel == 0 {
        Err(PlanError::Io { path: e.source_path, message: "directory nesting exceeds the captured tree"@ })
    } else {
        let name = names[i as int]@;
        let path = join(e.source_path, name);
        let rel = join(e.rel, name);
        match metadata_of(t.s, path) {
            Err(pe) => Err(pe),
            Ok(m) => {
                let is_dir = m.kind == EntryKind::Directory;
                let inc = e.included || included(t.f, rel, is_dir);
                let child = child_spec(e, name, inc);
                let here: PlanResult = if ignored(t.f, rel, is_dir) {
                    if is_dir && has_negation(t.f) && (inc || include_viable(t.f, rel)) {
                        plan_children_spec(t, child, (fuel - 1) as nat)
                    } else {
                        Ok(Seq::empty())
                    }
                } else if t.f.include_rules is Some && !inc && (!is_dir || !descendants_possible(
                    t.s,
                    t.f,
                    child,
                    (fuel - 1) as nat,
                )) {
                    Ok(Seq::empty())
                } else {
                    plan_entry_spec(t, child, m, (fuel - 1) as nat)
                };
                match here {
                    Err(pe) => Err(pe),
                    Ok(a) => then_prefix(a, children_from(t, e, names, i + 1, fuel)),
                }
            },
        }
    }
}

/// The deletes of a sync below a target directory: target entries with no
/// source are deleted, except ignored ones and directories that still hold
/// ignored entries, whose target-only children are deleted instead. The flag
/// tells whether something ignored was kept.
pub open spec fn deletes_spec(t: TreeSpec, e: EntrySpec, fuel: nat) -> Result<(Seq<ActionView>, bool), PlanError>
    decreases fuel, 1nat, 0nat,
{
    match maybe_metadata_of(t.s, e.target_path) {
        Err(pe) => Err(pe),
        Ok(None) => Ok((Seq::empty(), false)),
        Ok(Some(m)) => if m.kind != EntryKind::Directory {
            Ok((Seq::empty(), false))
        } else {
            match find_listing(t.s.listings@, e.target_path) {
                None => Err(PlanError::Io { path: e.target_path, message: uncaptured() }),
                Some(Listing::Failed(msg)) => Err(PlanError::Io { path: e.target_path, message: msg@ }),
                Some(Listing::Names(names)) => deletes_from(t, e, names@, 0, fuel),
            }
        },
    }
}

/// The deletes for the target entries from index `i` on.
pub open spec fn deletes_from(t: TreeSpec, e: EntrySpec, names: Seq<String>, i: nat, fuel: nat) -> Result<(Seq<ActionView>, bool), PlanError>
    decreases fuel, 0nat, names.len() - i,
{
    if i >= names.len() {
        Ok((Seq::empty(), false))
    } else if fuel == 0 {
        Err(PlanError::Io { path: e.target_path, message: "directory nesting exceeds the captured tree"@ })
    } else {
        let name = names[i as int]@;
        let child = child_spec(e, name, e.included);
        let here: Result<(Seq<ActionView>, bool), PlanError> = match metadata_of(t.s, child.target_path) {
            Err(pe) => Err(pe),
            Ok(m) => {
                let is_dir = m.kind == EntryKind::Directory;
                if ignored(t.f, child.rel, is_dir) {
                    if is_dir && has_negation(t.f) {
                        match deletes_spec(t, child, (fuel - 1) as nat) {
                            Err(pe) => Err(pe),
                            Ok((a, _)) => Ok((a, true)),
                        }
                    } else {
                        Ok((Seq::empty(), true))
                    }
                } else {
                    match maybe_metadata_of(t.s, child.source_path) {
                        Err(pe) => Err(pe),
                        Ok(Some(_)) => Ok((Seq::empty(), false)),
                        Ok(None) => {
                            let delete = seq![ActionView::Delete { target: child.target, target_path: child.target_path }];
                            if is_dir && t.f.ignore is Some {
                                match deletes_spec(t, child, (fuel - 1) as nat) {
                                    Err(pe) => Err(pe),
                                    Ok((a, true)) => Ok((a, true)),
                                    Ok((_, false)) => Ok((delete, false)),
                                }
                            } else {
                                Ok((delete, false))
                            }
                        },
                    }
                }
            },
        };
        match here {
            Err(pe) => Err(pe),
            Ok((a, kept)) => match deletes_from(t, e, names, i + 1, fuel) {
                Err(pe) => Err(pe),
                Ok((rest, rest_kept)) => Ok((a + rest, kept || rest_kept)),
            },
        }
    }
}

/// The first include pattern that is not an effective positive pattern.
pub open spec fn first_include_issue(patterns: Seq<Seq<char>>) -> Option<(Seq<char>, IncludePatternIssue)>
    decreases patterns.len(),
{
    if patterns.len() == 0 {
        None
    } else {
        match first_include_issue(patterns.drop_last()) {
            Some(x) => Some(x),
            None => match include_issue(patterns.last()) {
                Some(issue) => Some((patterns.last(), issue)),
                None => None,
            },
        }
    }
}

/// The validation message of an include pattern issue.
pub open spec fn issue_message(pattern: Seq<char>, issue: IncludePatternIssue) -> Seq<char> {
    match issue {
        IncludePatternIssue::Negation => "include pattern `"@ + pattern + "` uses `!` negation; use `ignore` to exclude paths"@,
        IncludePatternIssue::Blank => "include patterns cannot be blank"@,
        IncludePatternIssue::Comment => "include pattern `"@ + pattern
            + "` is a gitignore comment; escape a literal leading `#` as `\\#`"@,
    }
}

/// The rules of an operation over its source: none without patterns.
pub open spec fn op_filter(op: PlannedFileOperation, source_path: Seq<char>) -> Result<FilterSpec, PlanError> {
    let ignore: Result<Option<RulesView>, PlanError> = if op.ignore@.len() == 0 {
        Ok(None)
    } else {
        match rules_result(source_path, string_views(op.ignore@)) {
            Ok(v) => Ok(Some(v)),
            Err(m) => Err(PlanError::Invalid { message: "invalid ignore pattern: "@ + m }),
        }
    };
    match ignore {
        Err(pe) => Err(pe),
        Ok(ig) => if op.include_patterns@.len() == 0 {
            Ok(FilterSpec { ignore: ig, include_rules: None })
        } else {
            match first_include_issue(string_views(op.include_patterns@)) {
                Some((pattern, issue)) => Err(PlanError::Invalid { message: issue_message(pattern, issue) }),
                None => match rules_result(source_path, string_views(op.include_patterns@)) {
                    Ok(v) => Ok(FilterSpec { ignore: ig, include_rules: Some(v) }),
                    Err(m) => Err(PlanError::Invalid { message: "invalid include pattern: "@ + m }),
                },
            }
        },
    }
}

/// The recursion budget of a snapshot: one level per captured listing.
pub open spec fn snapshot_fuel(s: FsSnapshot) -> nat {
    if s.listings@.len() < usize::MAX {
        (s.listings@.len() + 1) as nat
    } else {
        usize::MAX as nat
    }
}

/// The actions of a copy or sync: the source tree planned from its root.
pub open spec fn plan_tree_spec(s: FsSnapshot, ctx: Worktree, op: PlannedFileOperation, mode: TreePlanMode) -> PlanResult {
    let source_path = raw_source_path_spec(ctx.root_path@, op.source@);
    match metadata_of(s, source_path) {
        Err(pe) => Err(pe),
        Ok(m) => match op_filter(op, source_path) {
            Err(pe) => Err(pe),
            Ok(f) => plan_entry_spec(
                TreeSpec { s, root: ctx.root_path@, worktree: ctx.worktree_path@, op, f, mode },
                EntrySpec {
                    source_path,
                    target_path: op.target_path@,
                    source: op.source@,
                    target: op.target@,
                    rel: Seq::empty(),
                    included: false,
                },
                m,
                snapshot_fuel(s),
            ),
        },
    }
}

/// The actions of one planned file operation.
pub open spec fn plan_operation_spec(s: FsSnapshot, ctx: Worktree, op: PlannedFileOperation, strict: bool, force: bool) -> PlanResult {
    if op.status == PlannedFileStatus::SkippedMissingSource {
        Ok(seq![ActionView::Skip { operation: op.operation, target: op.target@, reason: "missing source"@ }])
    } else {
        match op.operation {
            FileOperationKind::Copy => plan_tree_spec(s, ctx, op, TreePlanMode::Copy { strict, force }),
            FileOperationKind::Symlink => plan_symlink_spec(s, op, strict, force),
            FileOperationKind::Sync => plan_tree_spec(s, ctx, op, TreePlanMode::Sync),
        }
    }
}

/// Whether an operation's source is a directory (and so expands into child
/// actions).
pub open spec fn source_is_directory(s: FsSnapshot, ctx: Worktree, op: PlannedFileOperation) -> bool {
    op.status != PlannedFileStatus::SkippedMissingSource && match find_entry(
        s.entries@,
        raw_source_path_spec(ctx.root_path@, op.source@),
    ) {
        Some(Lookup::Found(m)) => m.kind == EntryKind::Directory,
        _ => false,
    }
}

/// Whether `res` is the outcome `spec` (a value or a plan error).
pub open spec fn outcome_is<T>(res: Result<T, Error>, spec: Result<T, PlanError>, operation: FileOperationKind) -> bool {
    match (res, spec) {
        (Ok(a), Ok(b)) => a == b,
        (Err(e), Err(pe)) => error_is(e, operation, pe),
        _ => false,
    }
}

fn copy_metadata(m: &EntryMetadata) -> (res: EntryMetadata)
    ensures
        res == *m,
{
    EntryMetadata {
        kind: m.kind,
        len: m.len,
        modified: match &m.modified {
            crate::file_system::ModifiedTime::Known(t) => crate::file_system::ModifiedTime::Known(*t),
            crate::file_system::ModifiedTime::Unavailable(e) => crate::file_system::ModifiedTime::Unavailable(copy_string(e)),
        },
        mode: m.mode,
        uid: m.uid,
        gid: m.gid,
    }
}

fn io_err(operation: FileOperationKind, path: &str, message: &str) -> (res: Error)
    ensures
        error_is(res, operation, PlanError::Io { path: path@, message: message@ }),
{
    crate::file_system::io_error(operation, path, message)
}

fn conflict_err(operation: FileOperationKind, path: &str, message: &str) -> (res: Error)
    ensures
        error_is(res, operation, PlanError::Conflict { path: path@, message: message@ }),
{
    crate::file_system::conflict(operation, path, message)
}

/// `symlink_metadata` of a path that must exist.
pub fn metadata(s: &FsSnapshot, path: &str, operation: FileOperationKind) -> (res: Result<EntryMetadata, Error>)
    ensures
        outcome_is(res, metadata_of(*s, path@), operation),
{
    match s.entry(path) {
        Some(Lookup::Found(m)) => Ok(copy_metadata(m)),
        Some(Lookup::Missing(m)) => Err(io_err(operation, path, m.as_str())),
        Some(Lookup::Failed(m)) => Err(io_err(operation, path, m.as_str())),
        None => Err(io_err(operation, path, "path was not captured")),
    }
}

/// `symlink_metadata` of a path that may be missing.
pub fn maybe_metadata(s: &FsSnapshot, path: &str, operation: FileOperationKind) -> (res: Result<Option<EntryMetadata>, Error>)
    ensures
        outcome_is(res, maybe_metadata_of(*s, path@), operation),
{
    match s.entry(path) {
        Some(Lookup::Found(m)) => Ok(Some(copy_metadata(m))),
        Some(Lookup::Missing(_)) => Ok(None),
        Some(Lookup::Failed(m)) => Err(io_err(operation, path, m.as_str())),
        None => Err(io_err(operation, path, "path was not captured")),
    }
}

fn source_metadata(s: &FsSnapshot, path: &str) -> (res: Result<EntryMetadata, String>)
    ensures
        match (res, source_metadata_result(*s, path@)) {
            (Ok(a), Ok(b)) => a == b,
            (Err(a), Err(b)) => a@ == b,
            _ => false,
        },
{
    match s.entry(path) {
        Some(Lookup::Found(m)) => Ok(copy_metadata(m)),
        Some(Lookup::Missing(m)) => Err(copy_string(m)),
        Some(Lookup::Failed(m)) => Err(copy_string(m)),
        None => Err(owned("path was not captured")),
    }
}

fn sync_changed_exec(s: &FsSnapshot, op: &PlannedFileOperation, e: &CopyEntry, target: &EntryMetadata) -> (res: Result<bool, Error>)
    ensures
        outcome_is(res, sync_changed(*s, *op, e@, *target), op.operation),
{
    if target.kind == EntryKind::Symlink {
        return Ok(true);
    }
    let checksum = match op.compare {
        Some(SyncCompare::Checksum) => true,
        _ => false,
    };
    if checksum {
        let sm = match metadata(s, e.source_path.as_str(), op.operation) {
            Ok(m) => m,
            Err(err) => return Err(err),
        };
        let tm = match metadata(s, e.target_path.as_str(), op.operation) {
            Ok(m) => m,
            Err(err) => return Err(err),
        };
        if sm.len != tm.len {
            return Ok(true);
        }
        match s.content(e.source_path.as_str(), e.target_path.as_str()) {
            Some(ContentCheck::OpenSourceFailed(m)) => Err(io_err(op.operation, e.source_path.as_str(), m.as_str())),
            Some(ContentCheck::OpenTargetFailed(m)) => Err(io_err(op.operation, e.target_path.as_str(), m.as_str())),
            Some(ContentCheck::Compared(changed)) => Ok(*changed),
            Some(ContentCheck::ReadFailed(r)) => {
                if r.input == ContentInput::Source {
                    Err(io_err(op.operation, e.source_path.as_str(), r.message.as_str()))
                } else {
                    Err(io_err(op.operation, e.target_path.as_str(), r.message.as_str()))
                }
            },
            None => Err(io_err(op.operation, e.source_path.as_str(), "path was not captured")),
        }
    } else {
        let source = source_metadata(s, e.source_path.as_str());
        metadata_changed(op.operation, e.source_path.as_str(), e.target_path.as_str(), &source, target)
    }
}

fn drifted_exec(
    s: &FsSnapshot,
    op: &PlannedFileOperation,
    e: &CopyEntry,
    target: &EntryMetadata,
    kind: MetadataTarget,
) -> (res: Result<bool, Error>)
    ensures
        outcome_is(res, drifted(*s, *op, e@, *target, kind), op.operation),
{
    let source = source_metadata(s, e.source_path.as_str());
    let policy = MetadataPolicy::from_ignored(op.ignore_metadata.as_slice());
    metadata_drifted(op.operation, e.source_path.as_str(), e.target_path.as_str(), &source, target, kind, policy)
}

fn copy_file_action(op: &PlannedFileOperation, e: &CopyEntry, replace: bool) -> (res: FileAction)
    ensures
        res@ == copy_action(*op, e@, replace),
{
    FileAction::CopyFile {
        operation: op.operation,
        source: copy_string(&e.source),
        target: copy_string(&e.target),
        source_path: copy_string(&e.source_path),
        target_path: copy_string(&e.target_path),
        metadata_policy: MetadataPolicy::from_ignored(op.ignore_metadata.as_slice()),
        replace,
    }
}

fn repair_metadata_action(op: &PlannedFileOperation, e: &CopyEntry, kind: MetadataTarget, report: bool) -> (res: FileAction)
    ensures
        res@ == repair_action(*op, e@, kind, report),
{
    FileAction::RepairMetadata {
        operation: op.operation,
        source: copy_string(&e.source),
        target: copy_string(&e.target),
        source_path: copy_string(&e.source_path),
        target_path: copy_string(&e.target_path),
        metadata_policy: MetadataPolicy::from_ignored(op.ignore_metadata.as_slice()),
        target_kind: kind,
        report,
    }
}

fn one(a: FileAction) -> (res: Vec<FileAction>)
    ensures
        action_views(res@) == seq![a@],
{
    let v = vec![a];
    assert(action_views(v@) =~= seq![a@]);
    v
}

fn none() -> (res: Vec<FileAction>)
    ensures
        action_views(res@) == Seq::<ActionView>::empty(),
{
    let v: Vec<FileAction> = Vec::new();
    assert(action_views(v@) =~= Seq::<ActionView>::empty());
    v
}

/// Plans a source file.
pub fn plan_tree_file(s: &FsSnapshot, op: &PlannedFileOperation, e: &CopyEntry, mode: TreePlanMode) -> (res: Result<Vec<FileAction>, Error>)
    ensures
        plans(res, plan_file_spec(*s, *op, e@, mode), op.operation),
{
    let target = match maybe_metadata(s, e.target_path.as_str(), op.operation) {
        Ok(t) => t,
        Err(err) => return Err(err),
    };
    match target {
        None => Ok(one(copy_file_action(op, e, false))),
        Some(t) => {
            if t.kind == EntryKind::Directory {
                return Err(conflict_err(op.operation, e.target_path.as_str(), "target is a directory"));
            }
            match mode {
                TreePlanMode::Copy { strict, force } => {
                    if strict {
                        Err(conflict_err(op.operation, e.target_path.as_str(), "target exists"))
                    } else if force {
                        Ok(one(copy_file_action(op, e, true)))
                    } else {
                        Ok(one(FileAction::Skip {
                            operation: op.operation,
                            target: copy_string(&e.target),
                            reason: owned("target exists"),
                        }))
                    }
                },
                TreePlanMode::Sync => {
                    if t.kind != EntryKind::File && t.kind != EntryKind::Symlink {
                        return Err(conflict_err(op.operation, e.target_path.as_str(), "target file type is unsupported"));
                    }
                    match sync_changed_exec(s, op, e, &t) {
                        Err(err) => Err(err),
                        Ok(true) => Ok(one(copy_file_action(op, e, true))),
                        Ok(false) => match drifted_exec(s, op, e, &t, MetadataTarget::File) {
                            Err(err) => Err(err),
                            Ok(true) => Ok(one(repair_metadata_action(op, e, MetadataTarget::File, true))),
                            Ok(false) => Ok(none()),
                        },
                    }
                },
            }
        },
    }
}

/// A symlink to create, before deciding whether it replaces the target.
pub struct SymlinkActionPlan {
    pub operation: FileOperationKind,
    pub source: String,
    pub target: String,
    pub target_path: String,
    pub preserved_source_path: Option<String>,
    pub link_target: String,
    pub final_target: String,
    pub target_is_dir: bool,
}

impl View for SymlinkActionPlan {
    type V = SymlinkSpec;

    open spec fn view(&self) -> SymlinkSpec {
        SymlinkSpec {
            operation: self.operation,
            source: self.source@,
            target: self.target@,
            target_path: self.target_path@,
            preserved_source_path: match self.preserved_source_path {
                Some(p) => Some(p@),
                None => None,
            },
            link_target: self.link_target@,
            final_target: self.final_target@,
            target_is_dir: self.target_is_dir,
        }
    }
}

impl SymlinkActionPlan {
    /// The symlink action, replacing the target or not.
    pub fn into_action(self, replace: bool) -> (res: FileAction)
        ensures
            res@ == symlink_action(self@, replace),
    {
        FileAction::CreateSymlink {
            operation: self.operation,
            source: self.source,
            target: self.target,
            target_path: self.target_path,
            preserved_source_path: self.preserved_source_path,
            link_target: self.link_target,
            final_target: self.final_target,
            target_is_dir: self.target_is_dir,
            replace,
        }
    }
}

/// Plans a symlink in a copy or a symlink operation.
pub fn plan_symlink_action(s: &FsSnapshot, plan: SymlinkActionPlan, strict: bool, force: bool) -> (res: Result<Vec<FileAction>, Error>)
    ensures
        plans(res, plan_symlink_action_spec(*s, plan@, strict, force), plan.operation),
{
    let target = match maybe_metadata(s, plan.target_path.as_str(), plan.operation) {
        Ok(t) => t,
        Err(err) => return Err(err),
    };
    match target {
        None => Ok(one(plan.into_action(false))),
        Some(t) => {
            if t.kind == EntryKind::Directory {
                Err(conflict_err(plan.operation, plan.target_path.as_str(), "target is a directory"))
            } else if strict {
                Err(conflict_err(plan.operation, plan.target_path.as_str(), "target exists"))
            } else if force {
                Ok(one(plan.into_action(true)))
            } else {
                Ok(one(FileAction::Skip { operation: plan.operation, target: plan.target, reason: owned("target exists") }))
            }
        },
    }
}

/// Plans a symlink in a sync.
pub fn plan_sync_symlink_action(s: &FsSnapshot, plan: SymlinkActionPlan) -> (res: Result<Vec<FileAction>, Error>)
    ensures
        plans(res, plan_sync_symlink_spec(*s, plan@), plan.operation),
{
    let target = match maybe_metadata(s, plan.target_path.as_str(), plan.operation) {
        Ok(t) => t,
        Err(err) => return Err(err),
    };
    match target {
        None => Ok(one(plan.into_action(false))),
        Some(t) => {
            if t.kind == EntryKind::Directory {
                Err(conflict_err(plan.operation, plan.target_path.as_str(), "target is a directory"))
            } else if t.kind == EntryKind::Symlink {
                match s.link(plan.target_path.as_str()) {
                    Some(LinkRead::Target(existing)) => {
                        if paths_equal(existing.as_str(), plan.link_target.as_str()) {
                            Ok(none())
                        } else {
                            Ok(one(plan.into_action(true)))
                        }
                    },
                    Some(LinkRead::Failed(m)) => Err(io_err(plan.operation, plan.target_path.as_str(), m.as_str())),
                    None => Err(io_err(plan.operation, plan.target_path.as_str(), "path was not captured")),
                }
            } else {
                Ok(one(plan.into_action(true)))
            }
        },
    }
}

fn parent_or_dot_exec(p: &str) -> (res: String)
    ensures
        res@ == parent_or_dot_spec(p@),
{
    parent_or_dot(p)
}

/// Where a source symlink points once recreated in the worktree: the link
/// target, the final target and whether that is a directory.
pub fn preserved_source_link(
    s: &FsSnapshot,
    context: &Worktree,
    operation: FileOperationKind,
    source_path: &str,
    target_path: &str,
) -> (res: Result<(String, String, bool), Error>)
    ensures
        match (res, preserved_link_spec(*s, context.root_path@, context.worktree_path@, source_path@, target_path@)) {
            (Ok((l, f, d)), Ok((sl, sf, sd))) => l@ == sl && f@ == sf && d == sd,
            (Err(e), Err(pe)) => error_is(e, operation, pe),
            _ => false,
        },
{
    let raw = match s.link(source_path) {
        None => return Err(io_err(operation, source_path, "path was not captured")),
        Some(LinkRead::Failed(m)) => return Err(io_err(operation, source_path, m.as_str())),
        Some(LinkRead::Target(raw)) => raw,
    };
    if raw.as_str().is_empty() {
        return Err(conflict_err(operation, source_path, "source symlink target is empty"));
    }
    let resolved = if path_is_absolute(raw.as_str()) {
        normalize_lexical(raw.as_str())
    } else {
        let parent = parent_or_dot_exec(source_path);
        let joined = join_paths(parent.as_str(), raw.as_str());
        normalize_lexical(joined.as_str())
    };
    let target_is_dir = s.is_followed_dir(resolved.as_str());
    let final_target = match strip_prefix(resolved.as_str(), context.root_path.as_str()) {
        Some(rel) => join_paths(context.worktree_path.as_str(), rel.as_str()),
        None => resolved,
    };
    let target_parent = parent_or_dot_exec(target_path);
    let link_target = match relative_path(target_parent.as_str(), final_target.as_str()) {
        Some(r) => r,
        None => copy_string(raw),
    };
    Ok((link_target, final_target, target_is_dir))
}

/// Plans the symlink operation of `op`.
pub fn plan_symlink(s: &FsSnapshot, op: &PlannedFileOperation, strict: bool, force: bool) -> (res: Result<Vec<FileAction>, Error>)
    ensures
        plans(res, plan_symlink_spec(*s, *op, strict, force), op.operation),
{
    let target_parent = parent_or_dot_exec(op.target_path.as_str());
    let link_target = match relative_path(target_parent.as_str(), op.source_path.as_str()) {
        Some(r) => r,
        None => copy_string(&op.source_path),
    };
    let plan = SymlinkActionPlan {
        operation: op.operation,
        source: copy_string(&op.source),
        target: copy_string(&op.target),
        target_path: copy_string(&op.target_path),
        preserved_source_path: None,
        link_target,
        final_target: copy_string(&op.source_path),
        target_is_dir: s.is_followed_dir(op.source_path.as_str()),
    };
    plan_symlink_action(s, plan, strict, force)
}

/// `then_prefix` for deletes: actions first, flags or-ed.
pub open spec fn then_deletes(a: Seq<ActionView>, kept: bool, r: Result<(Seq<ActionView>, bool), PlanError>) -> Result<(Seq<ActionView>, bool), PlanError> {
    match r {
        Ok((x, k)) => Ok((a + x, kept || k)),
        Err(e) => Err(e),
    }
}

proof fn lemma_then_prefix_assoc(a: Seq<ActionView>, b: Seq<ActionView>, r: PlanResult)
    ensures
        then_prefix(a, then_prefix(b, r)) == then_prefix(a + b, r),
{
    if let Ok(x) = r {
        assert(a + (b + x) =~= (a + b) + x);
    }
}

proof fn lemma_then_deletes_assoc(a: Seq<ActionView>, ka: bool, b: Seq<ActionView>, kb: bool, r: Result<(Seq<ActionView>, bool), PlanError>)
    ensures
        then_deletes(a, ka, then_deletes(b, kb, r)) == then_deletes(a + b, ka || kb, r),
{
    if let Ok((x, k)) = r {
        assert(a + (b + x) =~= (a + b) + x);
    }
}

fn append_actions(acc: &mut Vec<FileAction>, more: Vec<FileAction>)
    ensures
        action_views(final(acc)@) == action_views(old(acc)@) + action_views(more@),
{
    let mut more = more;
    let ghost a = old(acc)@;
    let ghost b = more@;
    acc.append(&mut more);
    assert(action_views(acc@) =~= action_views(a) + action_views(b));
}

/// Plans the tree of one copy or sync operation.
pub struct TreePlanner<'a> {
    pub s: &'a FsSnapshot,
    pub context: &'a Worktree,
    pub op: &'a PlannedFileOperation,
    pub ignore: Option<PathIgnoreRules>,
    pub include_rules: Option<PathIncludeRules>,
    pub mode: TreePlanMode,
}

impl<'a> TreePlanner<'a> {
    /// What this planner keeps fixed.
    pub open spec fn tree(&self) -> TreeSpec {
        TreeSpec {
            s: *self.s,
            root: self.context.root_path@,
            worktree: self.context.worktree_path@,
            op: *self.op,
            f: FilterSpec {
                ignore: match self.ignore {
                    Some(r) => Some(r.spec_view()),
                    None => None,
                },
                include_rules: match self.include_rules {
                    Some(r) => Some(r.spec_view()),
                    None => None,
                },
            },
            mode: self.mode,
        }
    }

    fn ignored(&self, rel: &str, is_dir: bool) -> (res: bool)
        ensures
            res == ignored(self.tree().f, rel@, is_dir),
    {
        match &self.ignore {
            Some(r) => r.is_ignored(rel, is_dir),
            None => false,
        }
    }

    fn has_negation(&self) -> (res: bool)
        ensures
            res == has_negation(self.tree().f),
    {
        match &self.ignore {
            Some(r) => r.has_negation(),
            None => false,
        }
    }

    fn included(&self, rel: &str, is_dir: bool) -> (res: bool)
        ensures
            res == included(self.tree().f, rel@, is_dir),
    {
        match &self.include_rules {
            Some(r) => r.is_included(rel, is_dir),
            None => true,
        }
    }

    fn include_viable(&self, rel: &str) -> (res: bool)
        ensures
            res == include_viable(self.tree().f, rel@),
    {
        match &self.include_rules {
            Some(r) => r.dir_may_contain_matches(rel),
            None => true,
        }
    }

    fn child(&self, e: &CopyEntry, name: &str, included: bool) -> (res: CopyEntry)
        ensures
            res@ == child_spec(e@, name@, included),
    {
        CopyEntry {
            source_path: join_paths(e.source_path.as_str(), name),
            target_path: join_paths(e.target_path.as_str(), name),
            source: join_paths(e.source.as_str(), name),
            target: join_paths(e.target.as_str(), name),
            rel: join_paths(e.rel.as_str(), name),
            included,
        }
    }

    /// Whether a directory below the source holds an entry in scope.
    fn subtree_in_scope(&self, dir_path: &str, dir_rel: &str, ancestor_included: bool, fuel: usize) -> (res: bool)
        ensures
            res == subtree_in_scope(self.tree().s, self.tree().f, dir_path@, dir_rel@, ancestor_included, fuel as nat),
        decreases fuel, 1nat, 0nat,
    {
        let names = match self.s.listing(dir_path) {
            Some(Listing::Names(names)) => names,
            _ => return true,
        };
        if fuel == 0 {
            return true;
        }
        let ghost t = self.tree();
        let mut i: usize = 0;
        while i < names.len()
            invariant
                i <= names.len(),
                fuel > 0,
                t == self.tree(),
                subtree_in_scope(t.s, t.f, dir_path@, dir_rel@, ancestor_included, fuel as nat)
                    == scope_from(t.s, t.f, dir_path@, dir_rel@, ancestor_included, names@, i as nat, fuel as nat),
            decreases names.len() - i,
        {
            let path = join_paths(dir_path, names[i].as_str());
            let rel = join_paths(dir_rel, names[i].as_str());
            let m = match self.s.entry(path.as_str()) {
                Some(Lookup::Found(m)) => m,
                _ => return true,
            };
            let is_dir = m.kind == EntryKind::Directory;
            let inc = ancestor_included || self.included(rel.as_str(), is_dir);
            let ign = self.ignored(rel.as_str(), is_dir);
            if inc && !ign {
                return true;
            }
            if !(!is_dir || (ign && !self.has_negation()) || (!inc && !self.include_viable(rel.as_str()))) {
                if self.subtree_in_scope(path.as_str(), rel.as_str(), inc, fuel - 1) {
                    return true;
                }
            }
            i = i + 1;
        }
        false
    }

    fn descendants_possible(&self, e: &CopyEntry, fuel: usize) -> (res: bool)
        ensures
            res == descendants_possible(self.tree().s, self.tree().f, e@, fuel as nat),
    {
        match &self.include_rules {
            None => true,
            Some(_) => self.include_viable(e.rel.as_str()) && self.subtree_in_scope(
                e.source_path.as_str(),
                e.rel.as_str(),
                false,
                fuel,
            ),
        }
    }

    /// Plans a source entry of the given metadata.
    pub fn plan_entry(&self, e: &CopyEntry, m: &EntryMetadata, fuel: usize) -> (res: Result<Vec<FileAction>, Error>)
        ensures
            plans(res, plan_entry_spec(self.tree(), e@, *m, fuel as nat), self.op.operation),
        decreases fuel, 3nat, 0nat,
    {
        if m.kind == EntryKind::Symlink {
            let (link_target, final_target, target_is_dir) = match preserved_source_link(
                self.s,
                self.context,
                self.op.operation,
                e.source_path.as_str(),
                e.target_path.as_str(),
            ) {
                Ok(x) => x,
                Err(err) => return Err(err),
            };
            let plan = SymlinkActionPlan {
                operation: self.op.operation,
                source: copy_string(&e.source),
                target: copy_string(&e.target),
                target_path: copy_string(&e.target_path),
                preserved_source_path: Some(copy_string(&e.source_path)),
                link_target,
                final_target,
                target_is_dir,
            };
            match self.mode {
                TreePlanMode::Copy { strict, force } => plan_symlink_action(self.s, plan, strict, force),
                TreePlanMode::Sync => plan_sync_symlink_action(self.s, plan),
            }
        } else if m.kind == EntryKind::File {
            plan_tree_file(self.s, self.op, e, self.mode)
        } else if m.kind == EntryKind::Directory {
            self.plan_directory(e, fuel)
        } else {
            Err(conflict_err(self.op.operation, e.source_path.as_str(), "source file type is unsupported"))
        }
    }

    /// Plans a source directory.
    pub fn plan_directory(&self, e: &CopyEntry, fuel: usize) -> (res: Result<Vec<FileAction>, Error>)
        ensures
            plans(res, plan_directory_spec(self.tree(), e@, fuel as nat), self.op.operation),
        decreases fuel, 2nat, 0nat,
    {
        let target = match maybe_metadata(self.s, e.target_path.as_str(), self.op.operation) {
            Ok(t) => t,
            Err(err) => return Err(err),
        };
        match target {
            None => {
                let children = match self.plan_children(e, fuel) {
                    Ok(c) => c,
                    Err(err) => return Err(err),
                };
                let mut actions = one(FileAction::CreateDirectory {
                    operation: self.op.operation,
                    source: copy_string(&e.source),
                    target: copy_string(&e.target),
                    target_path: copy_string(&e.target_path),
                });
                append_actions(&mut actions, children);
                append_actions(&mut actions, one(repair_metadata_action(self.op, e, MetadataTarget::Directory, false)));
                Ok(actions)
            },
            Some(m) => {
                if m.kind == EntryKind::Symlink || m.kind == EntryKind::File {
                    return Err(conflict_err(self.op.operation, e.target_path.as_str(), "target is a file or symlink"));
                }
                if m.kind != EntryKind::Directory {
                    return Err(conflict_err(self.op.operation, e.target_path.as_str(), "target file type is unsupported"));
                }
                let repair = match self.mode {
                    TreePlanMode::Copy { strict, .. } => {
                        if strict {
                            return Err(conflict_err(self.op.operation, e.target_path.as_str(), "target directory exists"));
                        }
                        none()
                    },
                    TreePlanMode::Sync => match drifted_exec(self.s, self.op, e, &m, MetadataTarget::Directory) {
                        Err(err) => return Err(err),
                        Ok(true) => one(repair_metadata_action(self.op, e, MetadataTarget::Directory, true)),
                        Ok(false) => none(),
                    },
                };
                let mut children = match self.plan_children(e, fuel) {
                    Ok(c) => c,
                    Err(err) => return Err(err),
                };
                append_actions(&mut children, repair);
                Ok(children)
            },
        }
    }

    /// Plans the children of a source directory, then its sync deletes.
    pub fn plan_children(&self, e: &CopyEntry, fuel: usize) -> (res: Result<Vec<FileAction>, Error>)
        ensures
            plans(res, plan_children_spec(self.tree(), e@, fuel as nat), self.op.operation),
        decreases fuel, 1nat, 0nat,
    {
        let names = match self.s.listing(e.source_path.as_str()) {
            None => return Err(io_err(self.op.operation, e.source_path.as_str(), "path was not captured")),
            Some(Listing::Failed(m)) => return Err(io_err(self.op.operation, e.source_path.as_str(), m.as_str())),
            Some(Listing::Names(names)) => names,
        };
        let ghost t = self.tree();
        if fuel == 0 && names.len() > 0 {
            return Err(io_err(self.op.operation, e.source_path.as_str(), "directory nesting exceeds the captured tree"));
        }
        let mut acc = none();
        let mut i: usize = 0;
        while i < names.len()
            invariant
                i <= names.len(),
                fuel > 0 || names.len() == 0,
                t == self.tree(),
                find_listing(t.s.listings@, e@.source_path) == Some(Listing::Names(*names)),
                children_from(t, e@, names@, 0, fuel as nat) == then_prefix(action_views(acc@), children_from(t, e@, names@, i as nat, fuel as nat)),
            decreases names.len() - i,
        {
            let name = names[i].as_str();
            let path = join_paths(e.source_path.as_str(), name);
            let rel = join_paths(e.rel.as_str(), name);
            let m = match metadata(self.s, path.as_str(), self.op.operation) {
                Ok(m) => m,
                Err(err) => {
                    return Err(err);
                },
            };
            let is_dir = m.kind == EntryKind::Directory;
            let inc = e.included || self.included(rel.as_str(), is_dir);
            let child = self.child(e, name, inc);
            let here = if self.ignored(rel.as_str(), is_dir) {
                if is_dir && self.has_negation() && (inc || self.include_viable(rel.as_str())) {
                    self.plan_children(&child, fuel - 1)
                } else {
                    Ok(none())
                }
            } else if self.include_rules.is_some() && !inc && (!is_dir || !self.descendants_possible(&child, fuel - 1)) {
                Ok(none())
            } else {
                self.plan_entry(&child, &m, fuel - 1)
            };
            match here {
                Err(err) => return Err(err),
                Ok(a) => {
                    let ghost av = action_views(a@);
                    let ghost before = action_views(acc@);
                    append_actions(&mut acc, a);
                    proof {
                        lemma_then_prefix_assoc(before, av, children_from(t, e@, names@, (i + 1) as nat, fuel as nat));
                    }
                },
            }
            i = i + 1;
        }
        proof {
            if let Ok(x) = children_from(t, e@, names@, i as nat, fuel as nat) {
                assert(action_views(acc@) + x =~= action_views(acc@));
            }
        }
        let deletes = match self.mode {
            TreePlanMode::Sync => match self.op.delete {
                Some(true) => true,
                _ => false,
            },
            _ => false,
        };
        if deletes {
            match self.plan_sync_deletes(e, fuel) {
                Err(err) => Err(err),
                Ok((d, _)) => {
                    append_actions(&mut acc, d);
                    Ok(acc)
                },
            }
        } else {
            Ok(acc)
        }
    }

    /// Plans the deletes of a sync below a target directory; the flag tells
    /// whether something ignored was kept.
    pub fn plan_sync_deletes(&self, e: &CopyEntry, fuel: usize) -> (res: Result<(Vec<FileAction>, bool), Error>)
        ensures
            match (res, deletes_spec(self.tree(), e@, fuel as nat)) {
                (Ok((v, k)), Ok((a, sk))) => action_views(v@) == a && k == sk,
                (Err(err), Err(pe)) => error_is(err, self.op.operation, pe),
                _ => false,
            },
        decreases fuel, 1nat, 0nat,
    {
        let target = match maybe_metadata(self.s, e.target_path.as_str(), self.op.operation) {
            Ok(t) => t,
            Err(err) => return Err(err),
        };
        match target {
            None => return Ok((none(), false)),
            Some(m) => {
                if m.kind != EntryKind::Directory {
                    return Ok((none(), false));
                }
            },
        }
        let names = match self.s.listing(e.target_path.as_str()) {
            None => return Err(io_err(self.op.operation, e.target_path.as_str(), "path was not captured")),
            Some(Listing::Failed(m)) => return Err(io_err(self.op.operation, e.target_path.as_str(), m.as_str())),
            Some(Listing::Names(names)) => names,
        };
        let ghost t = self.tree();
        if fuel == 0 && names.len() > 0 {
            return Err(io_err(self.op.operation, e.target_path.as_str(), "directory nesting exceeds the captured tree"));
        }
        let mut acc = none();
        let mut kept = false;
        let mut i: usize = 0;
        while i < names.len()
            invariant
                i <= names.len(),
                fuel > 0 || names.len() == 0,
                t == self.tree(),
                maybe_metadata_of(t.s, e@.target_path) matches Ok(Some(dm)) && dm.kind == EntryKind::Directory,
                find_listing(t.s.listings@, e@.target_path) == Some(Listing::Names(*names)),
                deletes_from(t, e@, names@, 0, fuel as nat) == then_deletes(action_views(acc@), kept, deletes_from(t, e@, names@, i as nat, fuel as nat)),
            decreases names.len() - i,
        {
            let name = names[i].as_str();
            let child = self.child(e, name, e.included);
            let m = match metadata(self.s, child.target_path.as_str(), self.op.operation) {
                Ok(m) => m,
                Err(err) => return Err(err),
            };
            let is_dir = m.kind == EntryKind::Directory;
            let here: Result<(Vec<FileAction>, bool), Error> = if self.ignored(child.rel.as_str(), is_dir) {
                if is_dir && self.has_negation() {
                    match self.plan_sync_deletes(&child, fuel - 1) {
                        Err(err) => Err(err),
                        Ok((a, _)) => Ok((a, true)),
                    }
                } else {
                    Ok((none(), true))
                }
            } else {
                match maybe_metadata(self.s, child.source_path.as_str(), self.op.operation) {
                    Err(err) => Err(err),
                    Ok(Some(_)) => Ok((none(), false)),
                    Ok(None) => {
                        if is_dir && self.ignore.is_some() {
                            match self.plan_sync_deletes(&child, fuel - 1) {
                                Err(err) => Err(err),
                                Ok((a, true)) => Ok((a, true)),
                                Ok((_, false)) => Ok((one(FileAction::Delete { target: copy_string(&child.target), target_path: copy_string(&child.target_path) }), false)),
                            }
                        } else {
                            Ok((one(FileAction::Delete { target: copy_string(&child.target), target_path: copy_string(&child.target_path) }), false))
                        }
                    },
                }
            };
            match here {
                Err(err) => return Err(err),
                Ok((a, k)) => {
                    let ghost av = action_views(a@);
                    let ghost before = action_views(acc@);
                    let ghost kept_before = kept;
                    append_actions(&mut acc, a);
                    kept = kept || k;
                    proof {
                        lemma_then_deletes_assoc(before, kept_before, av, k, deletes_from(t, e@, names@, (i + 1) as nat, fuel as nat));
                    }
                },
            }
            i = i + 1;
        }
        proof {
            if let Ok((x, k)) = deletes_from(t, e@, names@, i as nat, fuel as nat) {
                assert(action_views(acc@) + x =~= action_views(acc@));
            }
        }
        Ok((acc, kept))
    }
}

fn first_invalid_include(patterns: &Vec<String>) -> (res: Option<(usize, IncludePatternIssue)>)
    ensures
        match (res, first_include_issue(string_views(patterns@))) {
            (None, None) => true,
            (Some((k, issue)), Some((p, sissue))) => k < patterns.len() && patterns@[k as int]@ == p && issue == sissue,
            _ => false,
        },
{
    let ghost views = string_views(patterns@);
    let mut i: usize = 0;
    while i < patterns.len()
        invariant
            i <= patterns.len(),
            views == string_views(patterns@),
            first_include_issue(views.take(i as int)).is_none(),
        decreases patterns.len() - i,
    {
        proof {
            assert(views.take(i + 1).drop_last() =~= views.take(i as int));
        }
        match invalid_include_pattern(patterns[i].as_str()) {
            Some(issue) => {
                proof {
                    lemma_first_issue_extends(views, i + 1);
                }
                return Some((i, issue));
            },
            None => {},
        }
        i = i + 1;
    }
    proof {
        assert(views.take(patterns.len() as int) =~= views);
    }
    None
}

proof fn lemma_first_issue_extends(views: Seq<Seq<char>>, k: int)
    requires
        0 < k <= views.len(),
        first_include_issue(views.take(k)).is_some(),
    ensures
        first_include_issue(views) == first_include_issue(views.take(k)),
    decreases views.len() - k,
{
    if k < views.len() {
        assert(views.take(k + 1).drop_last() =~= views.take(k));
        lemma_first_issue_extends(views, k + 1);
    } else {
        assert(views.take(k) =~= views);
    }
}

/// Plans a copy or sync of `op` from its source root.
pub fn plan_tree(s: &FsSnapshot, context: &Worktree, op: &PlannedFileOperation, mode: TreePlanMode) -> (res: Result<Vec<FileAction>, Error>)
    ensures
        plans(res, plan_tree_spec(*s, *context, *op, mode), op.operation),
{
    let source_path = raw_source_path(context, op);
    let m = match metadata(s, source_path.as_str(), op.operation) {
        Ok(m) => m,
        Err(err) => return Err(err),
    };
    let ignore = if op.ignore.len() == 0 {
        None
    } else {
        match PathIgnoreRules::new(source_path.as_str(), &op.ignore) {
            Ok(r) => Some(r),
            Err(msg) => {
                return Err(Error::FileOperationInvalid {
                    operation: owned(op.operation.as_str()),
                    message: concat2("invalid ignore pattern: ", msg.as_str()),
                });
            },
        }
    };
    let include_rules = if op.include_patterns.len() == 0 {
        None
    } else {
        match first_invalid_include(&op.include_patterns) {
            Some((k, issue)) => {
                return Err(Error::FileOperationInvalid {
                    operation: owned(op.operation.as_str()),
                    message: issue.message(op.include_patterns[k].as_str()),
                });
            },
            None => {},
        }
        match PathIncludeRules::new(source_path.as_str(), &op.include_patterns) {
            Ok(r) => Some(r),
            Err(msg) => {
                return Err(Error::FileOperationInvalid {
                    operation: owned(op.operation.as_str()),
                    message: concat2("invalid include pattern: ", msg.as_str()),
                });
            },
        }
    };
    let planner = TreePlanner { s, context, op, ignore, include_rules, mode };
    let entry = CopyEntry {
        source_path,
        target_path: copy_string(&op.target_path),
        source: copy_string(&op.source),
        target: copy_string(&op.target),
        rel: String::new(),
        included: false,
    };
    let fuel = if s.listings.len() < usize::MAX {
        s.listings.len() + 1
    } else {
        usize::MAX
    };
    planner.plan_entry(&entry, &m, fuel)
}

/// Plans one file operation.
pub fn plan_operation(s: &FsSnapshot, context: &Worktree, op: &PlannedFileOperation, strict: bool, force: bool) -> (res: Result<Vec<FileAction>, Error>)
    ensures
        plans(res, plan_operation_spec(*s, *context, *op, strict, force), op.operation),
{
    if op.status == PlannedFileStatus::SkippedMissingSource {
        return Ok(one(FileAction::Skip { operation: op.operation, target: copy_string(&op.target), reason: owned("missing source") }));
    }
    match op.operation {
        FileOperationKind::Copy => plan_tree(s, context, op, TreePlanMode::Copy { strict, force }),
        FileOperationKind::Symlink => plan_symlink(s, op, strict, force),
        FileOperationKind::Sync => plan_tree(s, context, op, TreePlanMode::Sync),
    }
}

/// Whether an operation's source is a directory.
pub fn operation_source_is_directory(s: &FsSnapshot, context: &Worktree, op: &PlannedFileOperation) -> (res: bool)
    ensures
        res == source_is_directory(*s, *context, *op),
{
    if op.status == PlannedFileStatus::SkippedMissingSource {
        return false;
    }
    let source_path = raw_source_path(context, op);
    match s.entry(source_path.as_str()) {
        Some(Lookup::Found(m)) => m.kind == EntryKind::Directory,
        _ => false,
    }
}

/// The planned actions of one top-level file operation.
pub fn plan_file_operation_group(s: &FsSnapshot, context: &Worktree, op: &PlannedFileOperation, strict: bool, force: bool) -> (res: Result<PlannedFileOperationActions, Error>)
    ensures
        match (res, plan_operation_spec(*s, *context, *op, strict, force)) {
            (Ok(g), Ok(a)) => action_views(g.actions@) == a && g.operation == op.operation && g.source == op.source
                && g.target == op.target && g.expanded == source_is_directory(*s, *context, *op),
            (Err(e), Err(pe)) => error_is(e, op.operation, pe),
            _ => false,
        },
{
    let actions = match plan_operation(s, context, op, strict, force) {
        Ok(a) => a,
        Err(e) => return Err(e),
    };
    Ok(PlannedFileOperationActions {
        operation: op.operation,
        source: copy_string(&op.source),
        target: copy_string(&op.target),
        expanded: operation_source_is_directory(s, context, op),
        actions,
    })
}

/// Whether an action leaves existing targets alone: it replaces nothing and
/// deletes nothing.
pub open spec fn keeps_targets(a: ActionView) -> bool {
    !(a matches ActionView::CopyFile { replace: true, .. }) && !(a matches ActionView::CreateSymlink {
        replace: true,
        ..
    }) && !(a is Delete)
}

/// Whether every action leaves existing targets alone.
pub open spec fn keeps_all(actions: Seq<ActionView>) -> bool {
    forall|i: int| 0 <= i < actions.len() ==> #[trigger] keeps_targets(actions[i])
}

/// Whether every action of a result leaves existing targets alone.
pub open spec fn all_keep_targets(r: PlanResult) -> bool {
    match r {
        Ok(actions) => keeps_all(actions),
        Err(_) => true,
    }
}

proof fn lemma_keep_concat(a: Seq<ActionView>, b: Seq<ActionView>)
    requires
        keeps_all(a),
        keeps_all(b),
    ensures
        keeps_all(a + b),
{
    assert forall|i: int| 0 <= i < (a + b).len() implies #[trigger] keeps_targets((a + b)[i]) by {
        if i < a.len() {
            assert((a + b)[i] == a[i]);
            assert(keeps_targets(a[i]));
        } else {
            assert((a + b)[i] == b[i - a.len()]);
            assert(keeps_targets(b[i - a.len()]));
        }
    }
}

/// Without force, planning a symlink replaces nothing.
proof fn lemma_symlink_action_keeps(s: FsSnapshot, p: SymlinkSpec, strict: bool)
    ensures
        all_keep_targets(plan_symlink_action_spec(s, p, strict, false)),
{
}

/// Entries of a copy tree planned without force replace and delete
/// nothing.
proof fn lemma_entry_keeps(t: TreeSpec, e: EntrySpec, m: EntryMetadata, fuel: nat)
    requires
        t.mode matches TreePlanMode::Copy { force: false, .. },
    ensures
        all_keep_targets(plan_entry_spec(t, e, m, fuel)),
    decreases fuel, 3nat, 0nat,
{
    if m.kind == EntryKind::Symlink {
        match preserved_link_spec(t.s, t.root, t.worktree, e.source_path, e.target_path) {
            Err(_) => {},
            Ok((link_target, final_target, target_is_dir)) => {
                let p = SymlinkSpec {
                    operation: t.op.operation,
                    source: e.source,
                    target: e.target,
                    target_path: e.target_path,
                    preserved_source_path: Some(e.source_path),
                    link_target,
                    final_target,
                    target_is_dir,
                };
                if let TreePlanMode::Copy { strict, force } = t.mode {
                    lemma_symlink_action_keeps(t.s, p, strict);
                }
            },
        }
    } else if m.kind == EntryKind::File {
    } else if m.kind == EntryKind::Directory {
        lemma_directory_keeps(t, e, fuel);
    }
}

proof fn lemma_directory_keeps(t: TreeSpec, e: EntrySpec, fuel: nat)
    requires
        t.mode matches TreePlanMode::Copy { force: false, .. },
    ensures
        all_keep_targets(plan_directory_spec(t, e, fuel)),
    decreases fuel, 2nat, 0nat,
{
    lemma_children_keeps(t, e, fuel);
    match maybe_metadata_of(t.s, e.target_path) {
        Err(_) => {},
        Ok(None) => match plan_children_spec(t, e, fuel) {
            Err(_) => {},
            Ok(c) => {
                let head = seq![ActionView::CreateDirectory {
                    operation: t.op.operation,
                    source: e.source,
                    target: e.target,
                    target_path: e.target_path,
                }];
                let tail = seq![repair_action(t.op, e, MetadataTarget::Directory, false)];
                assert(keeps_all(head));
                assert(keeps_all(tail));
                lemma_keep_concat(head, c);
                lemma_keep_concat(head + c, tail);
            },
        },
        Ok(Some(m)) => match plan_children_spec(t, e, fuel) {
            Err(_) => {},
            Ok(c) => {
                assert(keeps_all(Seq::<ActionView>::empty()));
                lemma_keep_concat(c, Seq::empty());
            },
        },
    }
}

proof fn lemma_children_keeps(t: TreeSpec, e: EntrySpec, fuel: nat)
    requires
        t.mode matches TreePlanMode::Copy { force: false, .. },
    ensures
        all_keep_targets(plan_children_spec(t, e, fuel)),
    decreases fuel, 1nat, 0nat,
{
    match find_listing(t.s.listings@, e.source_path) {
        Some(Listing::Names(names)) => {
            lemma_children_from_keeps(t, e, names@, 0, fuel);
        },
        _ => {},
    }
}

proof fn lemma_children_from_keeps(t: TreeSpec, e: EntrySpec, names: Seq<String>, i: nat, fuel: nat)
    requires
        t.mode matches TreePlanMode::Copy { force: false, .. },
    ensures
        all_keep_targets(children_from(t, e, names, i, fuel)),
    decreases fuel, 0nat, names.len() - i,
{
    if i < names.len() && fuel > 0 {
        let name = names[i as int]@;
        let path = join(e.source_path, name);
        let rel = join(e.rel, name);
        match metadata_of(t.s, path) {
            Err(_) => {},
            Ok(m) => {
                let is_dir = m.kind == EntryKind::Directory;
                let inc = e.included || included(t.f, rel, is_dir);
                let child = child_spec(e, name, inc);
                lemma_children_keeps(t, child, (fuel - 1) as nat);
                lemma_entry_keeps(t, child, m, (fuel - 1) as nat);
                lemma_children_from_keeps(t, e, names, i + 1, fuel);
                let here: PlanResult = if ignored(t.f, rel, is_dir) {
                    if is_dir && has_negation(t.f) && (inc || include_viable(t.f, rel)) {
                        plan_children_spec(t, child, (fuel - 1) as nat)
                    } else {
                        Ok(Seq::empty())
                    }
                } else if t.f.include_rules is Some && !inc && (!is_dir || !descendants_possible(
                    t.s,
                    t.f,
                    child,
                    (fuel - 1) as nat,
                )) {
                    Ok(Seq::empty())
                } else {
                    plan_entry_spec(t, child, m, (fuel - 1) as nat)
                };
                match here {
                    Err(_) => {},
                    Ok(a) => match children_from(t, e, names, i + 1, fuel) {
                        Err(_) => {},
                        Ok(b) => lemma_keep_concat(a, b),
                    },
                }
            },
        }
    }
}

/// Unless forced, copy and symlink operations never replace an existing
/// target and never delete anything: an existing target is skipped or
/// rejected instead. (Only sync updates and deletes.)
pub proof fn lemma_unforced_plans_keep_targets(
    s: FsSnapshot,
    ctx: Worktree,
    op: PlannedFileOperation,
    strict: bool,
)
    requires
        op.operation != FileOperationKind::Sync,
    ensures
        all_keep_targets(plan_operation_spec(s, ctx, op, strict, false)),
{
    if op.status == PlannedFileStatus::SkippedMissingSource {
    } else if op.operation == FileOperationKind::Copy {
        let source_path = raw_source_path_spec(ctx.root_path@, op.source@);
        match metadata_of(s, source_path) {
            Err(_) => {},
            Ok(m) => match op_filter(op, source_path) {
                Err(_) => {},
                Ok(f) => {
                    lemma_entry_keeps(
                        TreeSpec {
                            s,
                            root: ctx.root_path@,
                            worktree: ctx.worktree_path@,
                            op,
                            f,
                            mode: TreePlanMode::Copy { strict, force: false },
                        },
                        EntrySpec {
                            source_path,
                            target_path: op.target_path@,
                            source: op.source@,
                            target: op.target@,
                            rel: Seq::empty(),
                            included: false,
                        },
                        m,
                        snapshot_fuel(s),
                    );
                },
            },
        }
    } else {
        let link_target = match relative_path_spec(parent_or_dot_spec(op.target_path@), op.source_path@) {
            Some(r) => r,
            None => op.source_path@,
        };
        lemma_symlink_action_keeps(
            s,
            SymlinkSpec {
                operation: op.operation,
                source: op.source@,
                target: op.target@,
                target_path: op.target_path@,
                preserved_source_path: None,
                link_target,
                final_target: op.source_path@,
                target_is_dir: followed_dir(s, op.source_path@),
            },
            strict,
        );
    }
}

/// Whether no action of a sequence deletes anything.
pub open spec fn deletes_nothing(actions: Seq<ActionView>) -> bool {
    forall|i: int| 0 <= i < actions.len() ==> !(#[trigger] actions[i] is Delete)
}

/// Whether a result deletes nothing.
pub open spec fn result_deletes_nothing(r: PlanResult) -> bool {
    match r {
        Ok(actions) => deletes_nothing(actions),
        Err(_) => true,
    }
}

proof fn lemma_deletes_nothing_concat(a: Seq<ActionView>, b: Seq<ActionView>)
    requires
        deletes_nothing(a),
        deletes_nothing(b),
    ensures
        deletes_nothing(a + b),
{
    assert forall|i: int| 0 <= i < (a + b).len() implies !(#[trigger] (a + b)[i] is Delete) by {
        if i < a.len() {
            assert((a + b)[i] == a[i]);
            assert(!(a[i] is Delete));
        } else {
            assert((a + b)[i] == b[i - a.len()]);
            assert(!(b[i - a.len()] is Delete));
        }
    }
}

proof fn lemma_entry_deletes_nothing(t: TreeSpec, e: EntrySpec, m: EntryMetadata, fuel: nat)
    requires
        !deletes(t),
    ensures
        result_deletes_nothing(plan_entry_spec(t, e, m, fuel)),
    decreases fuel, 3nat, 0nat,
{
    if m.kind == EntryKind::Directory {
        lemma_directory_deletes_nothing(t, e, fuel);
    }
}

proof fn lemma_directory_deletes_nothing(t: TreeSpec, e: EntrySpec, fuel: nat)
    requires
        !deletes(t),
    ensures
        result_deletes_nothing(plan_directory_spec(t, e, fuel)),
    decreases fuel, 2nat, 0nat,
{
    lemma_children_deletes_nothing(t, e, fuel);
    match maybe_metadata_of(t.s, e.target_path) {
        Err(_) => {},
        Ok(None) => match plan_children_spec(t, e, fuel) {
            Err(_) => {},
            Ok(c) => {
                let head = seq![ActionView::CreateDirectory {
                    operation: t.op.operation,
                    source: e.source,
                    target: e.target,
                    target_path: e.target_path,
                }];
                let tail = seq![repair_action(t.op, e, MetadataTarget::Directory, false)];
                assert(deletes_nothing(head));
                assert(deletes_nothing(tail));
                lemma_deletes_nothing_concat(head, c);
                lemma_deletes_nothing_concat(head + c, tail);
            },
        },
        Ok(Some(m)) => {
            if m.kind == EntryKind::Directory && !(t.mode matches TreePlanMode::Copy { strict: true, .. }) {
                let repair: Result<Seq<ActionView>, PlanError> = if t.mode == TreePlanMode::Sync {
                    match drifted(t.s, t.op, e, m, MetadataTarget::Directory) {
                        Err(pe) => Err(pe),
                        Ok(true) => Ok(seq![repair_action(t.op, e, MetadataTarget::Directory, true)]),
                        Ok(false) => Ok(Seq::empty()),
                    }
                } else {
                    Ok(Seq::empty())
                };
                match repair {
                    Err(_) => {},
                    Ok(r) => match plan_children_spec(t, e, fuel) {
                        Err(_) => {},
                        Ok(c) => {
                            assert(deletes_nothing(r));
                            lemma_deletes_nothing_concat(c, r);
                        },
                    },
                }
            }
        },
    }
}

proof fn lemma_children_deletes_nothing(t: TreeSpec, e: EntrySpec, fuel: nat)
    requires
        !deletes(t),
    ensures
        result_deletes_nothing(plan_children_spec(t, e, fuel)),
    decreases fuel, 1nat, 0nat,
{
    match find_listing(t.s.listings@, e.source_path) {
        Some(Listing::Names(names)) => {
            lemma_children_from_deletes_nothing(t, e, names@, 0, fuel);
        },
        _ => {},
    }
}

proof fn lemma_children_from_deletes_nothing(t: TreeSpec, e: EntrySpec, names: Seq<String>, i: nat, fuel: nat)
    requires
        !deletes(t),
    ensures
        result_deletes_nothing(children_from(t, e, names, i, fuel)),
    decreases fuel, 0nat, names.len() - i,
{
    if i < names.len() && fuel > 0 {
        let name = names[i as int]@;
        let path = join(e.source_path, name);
        let rel = join(e.rel, name);
        match metadata_of(t.s, path) {
            Err(_) => {},
            Ok(m) => {
                let is_dir = m.kind == EntryKind::Directory;
                let inc = e.included || included(t.f, rel, is_dir);
                let child = child_spec(e, name, inc);
                lemma_children_deletes_nothing(t, child, (fuel - 1) as nat);
                lemma_entry_deletes_nothing(t, child, m, (fuel - 1) as nat);
                lemma_children_from_deletes_nothing(t, e, names, i + 1, fuel);
                let here: PlanResult = if ignored(t.f, rel, is_dir) {
                    if is_dir && has_negation(t.f) && (inc || include_viable(t.f, rel)) {
                        plan_children_spec(t, child, (fuel - 1) as nat)
                    } else {
                        Ok(Seq::empty())
                    }
                } else if t.f.include_rules is Some && !inc && (!is_dir || !descendants_possible(
                    t.s,
                    t.f,
                    child,
                    (fuel - 1) as nat,
                )) {
                    Ok(Seq::empty())
                } else {
                    plan_entry_spec(t, child, m, (fuel - 1) as nat)
                };
                match here {
                    Err(_) => {},
                    Ok(a) => match children_from(t, e, names, i + 1, fuel) {
                        Err(_) => {},
                        Ok(b) => {
                            assert(deletes_nothing(Seq::<ActionView>::empty()));
                            lemma_deletes_nothing_concat(a, b);
                        },
                    },
                }
            },
        }
    }
}

/// Only a sync with `delete = true` deletes: every other operation plans no
/// deletes.
pub proof fn lemma_only_sync_delete_deletes(
    s: FsSnapshot,
    ctx: Worktree,
    op: PlannedFileOperation,
    strict: bool,
    force: bool,
)
    requires
        op.operation != FileOperationKind::Sync || op.delete != Some(true),
    ensures
        result_deletes_nothing(plan_operation_spec(s, ctx, op, strict, force)),
{
    if op.status == PlannedFileStatus::SkippedMissingSource {
        assert(deletes_nothing(seq![ActionView::Skip { operation: op.operation, target: op.target@, reason: "missing source"@ }]));
    } else if op.operation == FileOperationKind::Symlink {
    } else {
        let source_path = raw_source_path_spec(ctx.root_path@, op.source@);
        match metadata_of(s, source_path) {
            Err(_) => {},
            Ok(m) => match op_filter(op, source_path) {
                Err(_) => {},
                Ok(f) => {
                    let mode = if op.operation == FileOperationKind::Copy {
                        TreePlanMode::Copy { strict, force }
                    } else {
                        TreePlanMode::Sync
                    };
                    lemma_entry_deletes_nothing(
                        TreeSpec { s, root: ctx.root_path@, worktree: ctx.worktree_path@, op, f, mode },
                        EntrySpec {
                            source_path,
                            target_path: op.target_path@,
                            source: op.source@,
                            target: op.target@,
                            rel: Seq::empty(),
                            included: false,
                        },
                        m,
                        snapshot_fuel(s),
                    );
                },
            },
        }
    }
}


/// The path reached from `base` by joining `names` one after another.
pub open spec fn join_all(base: Seq<char>, names: Seq<Seq<char>>) -> Seq<char>
    decreases names.len(),
{
    if names.len() == 0 {
        base
    } else {
        join_all(join(base, names[0]), names.drop_first())
    }
}

/// Whether an action, if it is a delete, deletes an entry below `e` that the
/// ignore rules do not match.
pub open spec fn delete_spares_ignored(t: TreeSpec, e: EntrySpec, a: ActionView) -> bool {
    a matches ActionView::Delete { target_path, .. } ==> exists|p: Seq<Seq<char>>|
        #![trigger join_all(e.target_path, p)]
        p.len() > 0 && join_all(e.target_path, p) == target_path && (metadata_of(t.s, target_path) matches Ok(m)
            && !ignored(t.f, join_all(e.rel, p), m.kind == EntryKind::Directory))
}

/// Whether no delete of a sequence removes an entry below `e` that the ignore
/// rules match.
pub open spec fn deletes_spare_ignored(t: TreeSpec, e: EntrySpec, actions: Seq<ActionView>) -> bool {
    forall|k: int| 0 <= k < actions.len() ==> delete_spares_ignored(t, e, #[trigger] actions[k])
}

proof fn lemma_spare_ignored_concat(t: TreeSpec, e: EntrySpec, a: Seq<ActionView>, b: Seq<ActionView>)
    requires
        deletes_spare_ignored(t, e, a),
        deletes_spare_ignored(t, e, b),
    ensures
        deletes_spare_ignored(t, e, a + b),
{
    assert forall|k: int| 0 <= k < (a + b).len() implies delete_spares_ignored(t, e, #[trigger] (a + b)[k]) by {
        if k < a.len() {
            assert((a + b)[k] == a[k]);
        } else {
            assert((a + b)[k] == b[k - a.len()]);
        }
    }
}

/// What spares ignored entries below a child spares them below its parent.
proof fn lemma_spare_ignored_lift(t: TreeSpec, e: EntrySpec, name: Seq<char>, inc: bool, a: Seq<ActionView>)
    requires
        deletes_spare_ignored(t, child_spec(e, name, inc), a),
    ensures
        deletes_spare_ignored(t, e, a),
{
    let c = child_spec(e, name, inc);
    assert forall|k: int| 0 <= k < a.len() implies delete_spares_ignored(t, e, #[trigger] a[k]) by {
        assert(delete_spares_ignored(t, c, a[k]));
        if let ActionView::Delete { target_path, .. } = a[k] {
            let q = choose|q: Seq<Seq<char>>|
                #![trigger join_all(c.target_path, q)]
                q.len() > 0 && join_all(c.target_path, q) == target_path && (metadata_of(t.s, target_path) matches Ok(m)
                    && !ignored(t.f, join_all(c.rel, q), m.kind == EntryKind::Directory));
            let p = seq![name] + q;
            assert(p[0] == name);
            assert(p.drop_first() =~= q);
            assert(join_all(e.target_path, p) == join_all(c.target_path, q));
            assert(join_all(e.rel, p) == join_all(c.rel, q));
        }
    }
}

/// The delete of a child itself spares ignored entries when the ignore rules
/// do not match the child.
proof fn lemma_child_delete_spares_ignored(t: TreeSpec, e: EntrySpec, name: Seq<char>, inc: bool, m: EntryMetadata)
    requires
        metadata_of(t.s, child_spec(e, name, inc).target_path) == Ok::<EntryMetadata, PlanError>(m),
        !ignored(t.f, child_spec(e, name, inc).rel, m.kind == EntryKind::Directory),
    ensures
        deletes_spare_ignored(
            t,
            e,
            seq![ActionView::Delete { target: child_spec(e, name, inc).target, target_path: child_spec(e, name, inc).target_path }],
        ),
{
    let c = child_spec(e, name, inc);
    let p = seq![name];
    assert(p[0] == name);
    assert(p.drop_first() =~= Seq::<Seq<char>>::empty());
    assert(join_all(c.target_path, Seq::<Seq<char>>::empty()) == c.target_path);
    assert(join_all(c.rel, Seq::<Seq<char>>::empty()) == c.rel);
    assert(join_all(e.target_path, p) == c.target_path);
    assert(join_all(e.rel, p) == c.rel);
    let d = ActionView::Delete { target: c.target, target_path: c.target_path };
    assert(delete_spares_ignored(t, e, d));
    assert forall|k: int| 0 <= k < seq![d].len() implies delete_spares_ignored(t, e, #[trigger] seq![d][k]) by {
        assert(seq![d][k] == d);
    }
}

/// A sync never deletes a target entry that the ignore rules match: every
/// delete it plans below a target directory names an entry whose own path,
/// relative to the operation, is not ignored.
pub proof fn lemma_sync_deletes_spare_ignored(t: TreeSpec, e: EntrySpec, fuel: nat)
    ensures
        deletes_spec(t, e, fuel) matches Ok((actions, _)) ==> deletes_spare_ignored(t, e, actions),
    decreases fuel, 1nat, 0nat,
{
    match maybe_metadata_of(t.s, e.target_path) {
        Ok(Some(m)) => if m.kind == EntryKind::Directory {
            match find_listing(t.s.listings@, e.target_path) {
                Some(Listing::Names(names)) => lemma_deletes_from_spare_ignored(t, e, names@, 0, fuel),
                _ => {},
            }
        },
        _ => {},
    }
}

/// The deletes from index `i` on spare entries that the ignore rules match.
pub proof fn lemma_deletes_from_spare_ignored(t: TreeSpec, e: EntrySpec, names: Seq<String>, i: nat, fuel: nat)
    ensures
        deletes_from(t, e, names, i, fuel) matches Ok((actions, _)) ==> deletes_spare_ignored(t, e, actions),
    decreases fuel, 0nat, names.len() - i,
{
    if i >= names.len() {
    } else if fuel == 0 {
    } else {
        let name = names[i as int]@;
        let child = child_spec(e, name, e.included);
        lemma_deletes_from_spare_ignored(t, e, names, i + 1, fuel);
        let here: Result<(Seq<ActionView>, bool), PlanError> = match metadata_of(t.s, child.target_path) {
            Err(pe) => Err(pe),
            Ok(m) => {
                let is_dir = m.kind == EntryKind::Directory;
                if ignored(t.f, child.rel, is_dir) {
                    if is_dir && has_negation(t.f) {
                        lemma_sync_deletes_spare_ignored(t, child, (fuel - 1) as nat);
                        match deletes_spec(t, child, (fuel - 1) as nat) {
                            Err(pe) => Err(pe),
                            Ok((a, _)) => {
                                lemma_spare_ignored_lift(t, e, name, e.included, a);
                                Ok((a, true))
                            },
                        }
                    } else {
                        assert(deletes_spare_ignored(t, e, Seq::<ActionView>::empty()));
                        Ok((Seq::empty(), true))
                    }
                } else {
                    match maybe_metadata_of(t.s, child.source_path) {
                        Err(pe) => Err(pe),
                        Ok(Some(_)) => {
                            assert(deletes_spare_ignored(t, e, Seq::<ActionView>::empty()));
                            Ok((Seq::empty(), false))
                        },
                        Ok(None) => {
                            let delete = seq![ActionView::Delete { target: child.target, target_path: child.target_path }];
                            lemma_child_delete_spares_ignored(t, e, name, e.included, m);
                            if is_dir && t.f.ignore is Some {
                                lemma_sync_deletes_spare_ignored(t, child, (fuel - 1) as nat);
                                match deletes_spec(t, child, (fuel - 1) as nat) {
                                    Err(pe) => Err(pe),
                                    Ok((a, true)) => {
                                        lemma_spare_ignored_lift(t, e, name, e.included, a);
                                        Ok((a, true))
                                    },
                                    Ok((_, false)) => Ok((delete, false)),
                                }
                            } else {
                                Ok((delete, false))
                            }
                        },
                    }
                }
            },
        };
        match here {
            Err(_) => {},
            Ok((a, _)) => match deletes_from(t, e, names, i + 1, fuel) {
                Err(_) => {},
                Ok((rest, _)) => {
                    assert(deletes_spare_ignored(t, e, a));
                    lemma_spare_ignored_concat(t, e, a, rest);
                },
            },
        }
    }
}

/// Without checksum comparison, a synced regular file whose length matches
/// its source counts as changed exactly when the two known modification times
/// differ, whichever of them is the later one.
pub proof fn lemma_sync_same_length_changed_iff_times_differ(
    s: FsSnapshot,
    op: PlannedFileOperation,
    e: EntrySpec,
    source: EntryMetadata,
    target: EntryMetadata,
    source_time: crate::file_system::Timestamp,
    target_time: crate::file_system::Timestamp,
)
    requires
        target.kind != EntryKind::Symlink,
        op.compare != Some(SyncCompare::Checksum),
        metadata_of(s, e.source_path) == Ok::<EntryMetadata, PlanError>(source),
        source.len == target.len,
        source.modified == crate::file_system::ModifiedTime::Known(source_time),
        target.modified == crate::file_system::ModifiedTime::Known(target_time),
    ensures
        sync_changed(s, op, e, target) == Ok::<bool, PlanError>(source_time != target_time),
        source_time.secs < target_time.secs ==> sync_changed(s, op, e, target) == Ok::<bool, PlanError>(true),
{
}

} // verus!
