//! Concrete file actions planned for a file operation, and their summaries.

use vstd::prelude::*;
use crate::config::{FileOperationKind, MetadataField};
use crate::output::{FileOperationSummary, decisions};
use crate::text::{copy_string, owned, str_eq};

verus! {

/// Which metadata a copy or repair carries over from the source.
#[derive(Debug, Clone, Copy, PartialEq, Eq, Structural)]
pub struct MetadataPolicy {
    /// Carry permissions.
    pub permissions: bool,
    /// Carry the owner.
    pub owner: bool,
    /// Carry the group.
    pub group: bool,
}

/// The policy that carries every field not in `fields`.
pub open spec fn policy_from_ignored(fields: Seq<MetadataField>) -> MetadataPolicy {
    MetadataPolicy {
        permissions: !fields.contains(MetadataField::Permissions),
        owner: !fields.contains(MetadataField::Owner),
        group: !fields.contains(MetadataField::Group),
    }
}

fn contains_field(fields: &[MetadataField], field: MetadataField) -> (res: bool)
    ensures
        res == fields@.contains(field),
{
    let mut i: usize = 0;
    while i < fields.len()
        invariant
            i <= fields.len(),
            forall|j: int| 0 <= j < i ==> fields@[j] != field,
        decreases fields.len() - i,
    {
        if fields[i] == field {
            assert(fields@[i as int] == field);
            return true;
        }
        i = i + 1;
    }
    false
}

impl MetadataPolicy {
    /// The policy that carries every field not listed as ignored.
    pub fn from_ignored(fields: &[MetadataField]) -> (res: Self)
        ensures
            res == policy_from_ignored(fields@),
    {
        MetadataPolicy {
            permissions: !contains_field(fields, MetadataField::Permissions),
            owner: !contains_field(fields, MetadataField::Owner),
            group: !contains_field(fields, MetadataField::Group),
        }
    }
}

impl Default for MetadataPolicy {
    fn default() -> (res: Self)
        ensures
            res == (MetadataPolicy { permissions: true, owner: true, group: true }),
    {
        MetadataPolicy { permissions: true, owner: true, group: true }
    }
}

/// Kind of entry whose metadata is repaired.
#[derive(Debug, Clone, Copy, PartialEq, Eq, Structural)]
pub enum MetadataTarget {
    File,
    Directory,
}

/// One concrete action on the target tree.
#[derive(Debug, Clone, PartialEq, Eq)]
pub enum FileAction {
    CreateDirectory {
        operation: FileOperationKind,
        source: String,
        target: String,
        target_path: String,
    },
    CopyFile {
        operation: FileOperationKind,
        source: String,
        target: String,
        source_path: String,
        target_path: String,
        metadata_policy: MetadataPolicy,
        replace: bool,
    },
    RepairMetadata {
        operation: FileOperationKind,
        source: String,
        target: String,
        source_path: String,
        target_path: String,
        metadata_policy: MetadataPolicy,
        target_kind: MetadataTarget,
        report: bool,
    },
    CreateSymlink {
        operation: FileOperationKind,
        source: String,
        target: String,
        target_path: String,
        preserved_source_path: Option<String>,
        link_target: String,
        final_target: String,
        target_is_dir: bool,
        replace: bool,
    },
    Delete { target: String, target_path: String },
    Skip { operation: FileOperationKind, target: String, reason: String },
    Warning { path: String, reason: String },
}

/// Whether an action is a visible step of progress: everything but silent
/// metadata repairs and warnings.
pub open spec fn counts_spec(a: FileAction) -> bool {
    !(a matches FileAction::RepairMetadata { report: false, .. }) && !(a is Warning)
}

/// Whether an action creates, replaces or reports a change.
pub open spec fn is_change(a: FileAction) -> bool {
    a is CreateDirectory || a is CopyFile || a is CreateSymlink || a matches FileAction::RepairMetadata {
        report: true,
        ..
    }
}

/// Whether an action is a reported metadata-only repair.
pub open spec fn is_metadata_change(a: FileAction) -> bool {
    a matches FileAction::RepairMetadata { report: true, .. }
}

/// Number of actions in `s` that satisfy `f`.
pub open spec fn count_where(s: Seq<FileAction>, f: spec_fn(FileAction) -> bool) -> nat
    decreases s.len(),
{
    if s.len() == 0 {
        0
    } else {
        count_where(s.drop_last(), f) + if f(s.last()) {
            1nat
        } else {
            0nat
        }
    }
}

/// The reason of the first skip in `s`, if any.
pub open spec fn first_skip_reason(s: Seq<FileAction>) -> Option<Seq<char>>
    decreases s.len(),
{
    if s.len() == 0 {
        None
    } else {
        match first_skip_reason(s.drop_last()) {
            Some(r) => Some(r),
            None => match s.last() {
                FileAction::Skip { reason, .. } => Some(reason@),
                _ => None,
            },
        }
    }
}

/// Whether `summary` is the summary of `actions`.
pub open spec fn summarizes(summary: FileOperationSummary, actions: Seq<FileAction>, expanded: bool) -> bool {
    &&& summary.changed == count_where(actions, |a: FileAction| is_change(a))
    &&& summary.metadata_changed == count_where(actions, |a: FileAction| is_metadata_change(a))
    &&& summary.deleted == count_where(actions, |a: FileAction| a is Delete)
    &&& summary.skipped == count_where(actions, |a: FileAction| a is Skip)
    &&& summary.warnings == count_where(actions, |a: FileAction| a is Warning)
    &&& summary.expanded == expanded
    &&& match summary.skip_reason {
        Some(r) => first_skip_reason(actions) == Some(r@),
        None => first_skip_reason(actions).is_none(),
    }
}

/// A count never exceeds the number of actions.
pub proof fn lemma_count_bounded(s: Seq<FileAction>, f: spec_fn(FileAction) -> bool)
    ensures
        count_where(s, f) <= s.len(),
    decreases s.len(),
{
    if s.len() > 0 {
        lemma_count_bounded(s.drop_last(), f);
    }
}

proof fn lemma_count_push(s: Seq<FileAction>, a: FileAction, f: spec_fn(FileAction) -> bool)
    ensures
        count_where(s.push(a), f) == count_where(s, f) + if f(a) {
            1nat
        } else {
            0nat
        },
{
    assert(s.push(a).drop_last() =~= s);
}

proof fn lemma_first_skip_push(s: Seq<FileAction>, a: FileAction)
    ensures
        first_skip_reason(s.push(a)) == (match first_skip_reason(s) {
            Some(r) => Some(r),
            None => match a {
                FileAction::Skip { reason, .. } => Some(reason@),
                _ => None,
            },
        }),
{
    assert(s.push(a).drop_last() =~= s);
}

impl FileAction {
    /// Whether the action is a visible step of progress.
    pub fn counts(&self) -> (res: bool)
        ensures
            res == counts_spec(*self),
    {
        match self {
            FileAction::RepairMetadata { report, .. } => *report,
            FileAction::Warning { .. } => false,
            _ => true,
        }
    }
}

/// The actions planned for one top-level file operation.
#[derive(Debug, Clone, PartialEq, Eq)]
pub struct PlannedFileOperationActions {
    pub operation: FileOperationKind,
    pub source: String,
    pub target: String,
    pub expanded: bool,
    pub actions: Vec<FileAction>,
}

impl PlannedFileOperationActions {
    /// Number of progress-visible actions.
    pub fn progress_action_count(&self) -> (res: usize)
        ensures
            res == count_where(self.actions@, |a: FileAction| counts_spec(a)),
    {
        let mut count: usize = 0;
        let mut i: usize = 0;
        while i < self.actions.len()
            invariant
                i <= self.actions.len(),
                count == count_where(self.actions@.take(i as int), |a: FileAction| counts_spec(a)),
            decreases self.actions.len() - i,
        {
            proof {
                lemma_count_push(self.actions@.take(i as int), self.actions@[i as int], |a: FileAction| counts_spec(a));
                assert(self.actions@.take(i + 1) =~= self.actions@.take(i as int).push(self.actions@[i as int]));
                lemma_count_bounded(self.actions@.take(i as int), |a: FileAction| counts_spec(a));
            }
            if self.actions[i].counts() {
                count = count + 1;
            }
            i = i + 1;
        }
        assert(self.actions@.take(self.actions.len() as int) =~= self.actions@);
        count
    }

    /// The compact counts of this operation.
    pub fn summary(&self) -> (res: FileOperationSummary)
        ensures
            summarizes(res, self.actions@, self.expanded),
    {
        summarize_actions(&self.actions, self.expanded)
    }
}

/// Counts the actions of one operation.
pub fn summarize_actions(actions: &Vec<FileAction>, expanded: bool) -> (res: FileOperationSummary)
    ensures
        summarizes(res, actions@, expanded),
{
    let mut summary = FileOperationSummary {
        changed: 0,
        skipped: 0,
        deleted: 0,
        warnings: 0,
        metadata_changed: 0,
        expanded,
        skip_reason: None,
    };
    let mut i: usize = 0;
    while i < actions.len()
        invariant
            i <= actions.len(),
            summarizes(summary, actions@.take(i as int), expanded),
        decreases actions.len() - i,
    {
        let ghost prefix = actions@.take(i as int);
        let ghost a = actions@[i as int];
        proof {
            assert(actions@.take(i + 1) =~= prefix.push(a));
            lemma_count_push(prefix, a, |a: FileAction| is_change(a));
            lemma_count_push(prefix, a, |a: FileAction| is_metadata_change(a));
            lemma_count_push(prefix, a, |a: FileAction| a is Delete);
            lemma_count_push(prefix, a, |a: FileAction| a is Skip);
            lemma_count_push(prefix, a, |a: FileAction| a is Warning);
            lemma_first_skip_push(prefix, a);
            lemma_count_bounded(prefix, |a: FileAction| is_change(a));
            lemma_count_bounded(prefix, |a: FileAction| is_metadata_change(a));
            lemma_count_bounded(prefix, |a: FileAction| a is Delete);
            lemma_count_bounded(prefix, |a: FileAction| a is Skip);
            lemma_count_bounded(prefix, |a: FileAction| a is Warning);
        }
        match &actions[i] {
            FileAction::CreateDirectory { .. } => {
                summary.changed = summary.changed + 1;
            },
            FileAction::CopyFile { .. } => {
                summary.changed = summary.changed + 1;
            },
            FileAction::CreateSymlink { .. } => {
                summary.changed = summary.changed + 1;
            },
            FileAction::RepairMetadata { report, .. } => {
                if *report {
                    summary.changed = summary.changed + 1;
                    summary.metadata_changed = summary.metadata_changed + 1;
                }
            },
            FileAction::Delete { .. } => {
                summary.deleted = summary.deleted + 1;
            },
            FileAction::Skip { reason, .. } => {
                summary.skipped = summary.skipped + 1;
                if summary.skip_reason.is_none() {
                    summary.skip_reason = Some(copy_string(reason));
                }
            },
            FileAction::Warning { .. } => {
                summary.warnings = summary.warnings + 1;
            },
        }
        i = i + 1;
    }
    assert(actions@.take(actions.len() as int) =~= actions@);
    summary
}

/// Every planned summary is consistent with the progress count: the visible
/// decisions of a summary (changes, skips and deletes) are exactly the
/// actions that count as progress.
pub proof fn lemma_summary_matches_progress(actions: Seq<FileAction>)
    ensures
        count_where(actions, |a: FileAction| is_change(a)) + count_where(actions, |a: FileAction| a is Skip)
            + count_where(actions, |a: FileAction| a is Delete) == count_where(
            actions,
            |a: FileAction| counts_spec(a),
        ),
    decreases actions.len(),
{
    if actions.len() > 0 {
        lemma_summary_matches_progress(actions.drop_last());
    }
}

/// The progress count of a planned operation equals the decision count of
/// its summary.
pub proof fn lemma_progress_is_decisions(
    group: PlannedFileOperationActions,
    summary: FileOperationSummary,
)
    requires
        summarizes(summary, group.actions@, group.expanded),
    ensures
        decisions(summary) == count_where(group.actions@, |a: FileAction| counts_spec(a)),
{
    lemma_summary_matches_progress(group.actions@);
}

/// The target path an action creates, if it creates one.
pub open spec fn created_path(a: FileAction) -> Option<Seq<char>> {
    match a {
        FileAction::CreateDirectory { target_path, .. } => Some(target_path@),
        FileAction::CopyFile { target_path, .. } => Some(target_path@),
        FileAction::CreateSymlink { target_path, .. } => Some(target_path@),
        _ => None,
    }
}

/// Every path created by some action of some group.
pub open spec fn created_paths(groups: Seq<PlannedFileOperationActions>) -> Set<Seq<char>> {
    Set::new(
        |p: Seq<char>|
            exists|g: int, i: int|
                0 <= g < groups.len() && 0 <= i < groups[g].actions@.len() && created_path(
                    #[trigger] groups[g].actions@[i],
                ) == Some(p),
    )
}

/// Whether `a` is a symlink whose final target neither exists nor is
/// created by the plan.
pub open spec fn dangles(a: FileAction, exists: bool, created: Set<Seq<char>>) -> bool {
    match a {
        FileAction::CreateSymlink { final_target, .. } => !exists && !created.contains(final_target@),
        _ => false,
    }
}

/// Whether `w` is the dangling-symlink warning for action `a`.
pub open spec fn is_dangling_warning(w: FileAction, a: FileAction) -> bool {
    match (w, a) {
        (FileAction::Warning { path, reason }, FileAction::CreateSymlink { target, .. }) => path@
            == target@ && reason@ == "symlink target does not exist"@,
        _ => false,
    }
}

/// Whether `w` lists, in action order, one warning for each action of
/// `actions` that dangles, `exists[i]` telling whether the final target of
/// action `i` exists on disk.
pub open spec fn dangling_warnings(
    w: Seq<FileAction>,
    actions: Seq<FileAction>,
    exists: Seq<bool>,
    created: Set<Seq<char>>,
) -> bool
    decreases actions.len(),
{
    if actions.len() == 0 {
        w.len() == 0
    } else if dangles(actions.last(), exists[actions.len() - 1], created) {
        w.len() > 0 && is_dangling_warning(w.last(), actions.last()) && dangling_warnings(
            w.drop_last(),
            actions.drop_last(),
            exists,
            created,
        )
    } else {
        dangling_warnings(w, actions.drop_last(), exists, created)
    }
}

/// The final targets whose existence decides the dangling-symlink warnings,
/// per group and action: the final target of each symlink action, nothing
/// for other actions.
pub fn symlink_final_targets(groups: &Vec<PlannedFileOperationActions>) -> (res: Vec<Vec<Option<String>>>)
    ensures
        res.len() == groups.len(),
        forall|g: int| 0 <= g < groups.len() ==> #[trigger] res[g].len() == groups[g].actions.len(),
        forall|g: int, i: int|
            0 <= g < groups.len() && 0 <= i < groups[g].actions.len() ==> match #[trigger] groups[g].actions@[i] {
                FileAction::CreateSymlink { final_target, .. } => res[g][i] == Some(final_target),
                _ => res[g][i].is_none(),
            },
{
    let mut res: Vec<Vec<Option<String>>> = Vec::new();
    let mut g: usize = 0;
    while g < groups.len()
        invariant
            g <= groups.len(),
            res.len() == g,
            forall|h: int| 0 <= h < g ==> #[trigger] res[h].len() == groups[h].actions.len(),
            forall|h: int, i: int|
                0 <= h < g && 0 <= i < groups[h].actions.len() ==> match #[trigger] groups[h].actions@[i] {
                    FileAction::CreateSymlink { final_target, .. } => res[h][i] == Some(final_target),
                    _ => res[h][i].is_none(),
                },
        decreases groups.len() - g,
    {
        let actions = &groups[g].actions;
        let mut row: Vec<Option<String>> = Vec::new();
        let mut i: usize = 0;
        while i < actions.len()
            invariant
                i <= actions.len(),
                row.len() == i,
                forall|j: int| 0 <= j < i ==> match #[trigger] actions@[j] {
                    FileAction::CreateSymlink { final_target, .. } => row[j] == Some(final_target),
                    _ => row[j].is_none(),
                },
            decreases actions.len() - i,
        {
            match &actions[i] {
                FileAction::CreateSymlink { final_target, .. } => row.push(Some(copy_string(final_target))),
                _ => row.push(None),
            }
            i = i + 1;
        }
        res.push(row);
        g = g + 1;
    }
    res
}

fn created_anywhere(groups: &Vec<PlannedFileOperationActions>, path: &str) -> (res: bool)
    ensures
        res == created_paths(groups@).contains(path@),
{
    let mut g: usize = 0;
    while g < groups.len()
        invariant
            g <= groups.len(),
            forall|h: int, i: int|
                0 <= h < g && 0 <= i < groups@[h].actions@.len() ==> created_path(
                    #[trigger] groups@[h].actions@[i],
                ) != Some(path@),
        decreases groups.len() - g,
    {
        let actions = &groups[g].actions;
        let mut i: usize = 0;
        while i < actions.len()
            invariant
                g < groups.len(),
                i <= actions.len(),
                actions@ == groups@[g as int].actions@,
                forall|j: int| 0 <= j < i ==> created_path(#[trigger] actions@[j]) != Some(path@),
            decreases actions.len() - i,
        {
            let found = match &actions[i] {
                FileAction::CreateDirectory { target_path, .. } => str_eq(target_path.as_str(), path),
                FileAction::CopyFile { target_path, .. } => str_eq(target_path.as_str(), path),
                FileAction::CreateSymlink { target_path, .. } => str_eq(target_path.as_str(), path),
                _ => false,
            };
            if found {
                proof {
                    assert(created_path(groups@[g as int].actions@[i as int]) == Some(path@));
                    assert(created_paths(groups@).contains(path@));
                }
                return true;
            }
            i = i + 1;
        }
        g = g + 1;
    }
    proof {
        if created_paths(groups@).contains(path@) {
            let (h, i) = choose|h: int, i: int|
                0 <= h < groups@.len() && 0 <= i < groups@[h].actions@.len() && created_path(
                    #[trigger] groups@[h].actions@[i],
                ) == Some(path@);
            assert(created_path(groups@[h].actions@[i]) != Some(path@));
        }
    }
    false
}

/// Whether `after` is `before` with, appended to each group, a warning for
/// each of its symlinks whose final target neither exists (`exists`, one
/// answer per action) nor is created by any group.
pub open spec fn symlink_warnings_added(
    before: Seq<PlannedFileOperationActions>,
    after: Seq<PlannedFileOperationActions>,
    exists: Seq<Seq<bool>>,
) -> bool {
    &&& after.len() == before.len()
    &&& forall|g: int|
        0 <= g < before.len() ==> {
            let b = #[trigger] before[g];
            let a = after[g];
            &&& a.operation == b.operation
            &&& a.source == b.source
            &&& a.target == b.target
            &&& a.expanded == b.expanded
            &&& a.actions@.len() >= b.actions@.len()
            &&& a.actions@.take(b.actions@.len() as int) == b.actions@
            &&& dangling_warnings(
                a.actions@.skip(b.actions@.len() as int),
                b.actions@,
                exists[g],
                created_paths(before),
            )
        }
}

/// Appends to each group a warning for every symlink whose final target
/// neither exists (`final_target_exists[g][i]` for action `i` of group `g`)
/// nor is created by any group of the plan.
pub fn add_symlink_warnings(
    groups: &mut Vec<PlannedFileOperationActions>,
    final_target_exists: &Vec<Vec<bool>>,
)
    requires
        final_target_exists.len() == old(groups).len(),
        forall|g: int|
            0 <= g < old(groups).len() ==> #[trigger] final_target_exists[g].len() == old(
                groups,
            )[g].actions.len(),
    ensures
        symlink_warnings_added(old(groups)@, final(groups)@, final_target_exists@.map_values(|e: Vec<bool>| e@)),
{
    let ghost initial = groups@;
    let mut warnings_per_group: Vec<Vec<FileAction>> = Vec::new();
    let mut g: usize = 0;
    while g < groups.len()
        invariant
            g <= groups.len(),
            groups@ == initial,
            final_target_exists.len() == initial.len(),
            forall|h: int|
                0 <= h < initial.len() ==> #[trigger] final_target_exists[h].len()
                    == initial[h].actions.len(),
            warnings_per_group.len() == g,
            forall|h: int|
                0 <= h < g ==> dangling_warnings(
                    #[trigger] warnings_per_group[h]@,
                    initial[h].actions@,
                    final_target_exists[h]@,
                    created_paths(initial),
                ),
        decreases groups.len() - g,
    {
        let actions = &groups[g].actions;
        let exists = &final_target_exists[g];
        assert(final_target_exists[g as int].len() == initial[g as int].actions.len());
        let mut warnings: Vec<FileAction> = Vec::new();
        let mut i: usize = 0;
        while i < actions.len()
            invariant
                i <= actions.len(),
                actions@ == initial[g as int].actions@,
                exists@.len() == actions@.len(),
                groups@ == initial,
                dangling_warnings(warnings@, actions@.take(i as int), exists@, created_paths(initial)),
            decreases actions.len() - i,
        {
            let ghost prefix = actions@.take(i as int);
            proof {
                assert(actions@.take(i + 1).drop_last() =~= prefix);
                assert(actions@.take(i + 1).last() == actions@[i as int]);
            }
            match &actions[i] {
                FileAction::CreateSymlink { target, final_target, .. } => {
                    if !exists[i] && !created_anywhere(groups, final_target.as_str()) {
                        let ghost before = warnings@;
                        warnings.push(
                            FileAction::Warning {
                                path: copy_string(target),
                                reason: owned("symlink target does not exist"),
                            },
                        );
                        proof {
                            assert(warnings@.drop_last() =~= before);
                        }
                    }
                },
                _ => {},
            }
            i = i + 1;
        }
        proof {
            assert(actions@.take(actions.len() as int) =~= actions@);
        }
        warnings_per_group.push(warnings);
        g = g + 1;
    }
    let ghost all_warnings = warnings_per_group@;
    let mut taken: Vec<PlannedFileOperationActions> = Vec::new();
    std::mem::swap(groups, &mut taken);
    let mut k: usize = 0;
    let n = taken.len();
    while k < n
        invariant
            n == initial.len(),
            k <= n,
            taken@ == initial.skip(k as int),
            warnings_per_group@ == all_warnings.skip(k as int),
            all_warnings.len() == n,
            groups.len() == k,
            forall|h: int|
                0 <= h < k ==> {
                    let before = #[trigger] initial[h];
                    let after = groups[h];
                    &&& after.operation == before.operation
                    &&& after.source == before.source
                    &&& after.target == before.target
                    &&& after.expanded == before.expanded
                    &&& after.actions@ == before.actions@ + all_warnings[h]@
                },
        decreases n - k,
    {
        proof {
            assert(taken@[0] == initial[k as int]);
            assert(warnings_per_group@[0] == all_warnings[k as int]);
        }
        let mut group = taken.remove(0);
        let mut extra = warnings_per_group.remove(0);
        group.actions.append(&mut extra);
        groups.push(group);
        proof {
            assert(initial.skip(k as int).remove(0) =~= initial.skip(k + 1));
            assert(all_warnings.skip(k as int).remove(0) =~= all_warnings.skip(k + 1));
        }
        k = k + 1;
    }
    proof {
        assert forall|h: int| 0 <= h < initial.len() implies {
            let before = #[trigger] initial[h];
            let after = groups[h];
            &&& after.actions@.len() >= before.actions@.len()
            &&& after.actions@.take(before.actions@.len() as int) == before.actions@
            &&& after.actions@.skip(before.actions@.len() as int) == all_warnings[h]@
        } by {
            assert(groups[h].actions@.take(initial[h].actions@.len() as int) =~= initial[h].actions@);
            assert(groups[h].actions@.skip(initial[h].actions@.len() as int) =~= all_warnings[h]@);
        }
    }
}

/// Model of a file action, its paths as character sequences.
pub enum ActionView {
    CreateDirectory { operation: FileOperationKind, source: Seq<char>, target: Seq<char>, target_path: Seq<char> },
    CopyFile {
        operation: FileOperationKind,
        source: Seq<char>,
        target: Seq<char>,
        source_path: Seq<char>,
        target_path: Seq<char>,
        metadata_policy: MetadataPolicy,
        replace: bool,
    },
    RepairMetadata {
        operation: FileOperationKind,
        source: Seq<char>,
        target: Seq<char>,
        source_path: Seq<char>,
        target_path: Seq<char>,
        metadata_policy: MetadataPolicy,
        target_kind: MetadataTarget,
        report: bool,
    },
    CreateSymlink {
        operation: FileOperationKind,
        source: Seq<char>,
        target: Seq<char>,
        target_path: Seq<char>,
        preserved_source_path: Option<Seq<char>>,
        link_target: Seq<char>,
        final_target: Seq<char>,
        target_is_dir: bool,
        replace: bool,
    },
    Delete { target: Seq<char>, target_path: Seq<char> },
    Skip { operation: FileOperationKind, target: Seq<char>, reason: Seq<char> },
    Warning { path: Seq<char>, reason: Seq<char> },
}

impl View for FileAction {
    type V = ActionView;

    open spec fn view(&self) -> ActionView {
        match self {
            FileAction::CreateDirectory { operation, source, target, target_path } => ActionView::CreateDirectory {
                operation: *operation,
                source: source@,
                target: target@,
                target_path: target_path@,
            },
            FileAction::CopyFile { operation, source, target, source_path, target_path, metadata_policy, replace } =>
                ActionView::CopyFile {
                operation: *operation,
                source: source@,
                target: target@,
                source_path: source_path@,
                target_path: target_path@,
                metadata_policy: *metadata_policy,
                replace: *replace,
            },
            FileAction::RepairMetadata {
                operation,
                source,
                target,
                source_path,
                target_path,
                metadata_policy,
                target_kind,
                report,
            } => ActionView::RepairMetadata {
                operation: *operation,
                source: source@,
                target: target@,
                source_path: source_path@,
                target_path: target_path@,
                metadata_policy: *metadata_policy,
                target_kind: *target_kind,
                report: *report,
            },
            FileAction::CreateSymlink {
                operation,
                source,
                target,
                target_path,
                preserved_source_path,
                link_target,
                final_target,
                target_is_dir,
                replace,
            } => ActionView::CreateSymlink {
                operation: *operation,
                source: source@,
                target: target@,
                target_path: target_path@,
                preserved_source_path: match preserved_source_path {
                    Some(p) => Some(p@),
                    None => None,
                },
                link_target: link_target@,
                final_target: final_target@,
                target_is_dir: *target_is_dir,
                replace: *replace,
            },
            FileAction::Delete { target, target_path } => ActionView::Delete { target: target@, target_path: target_path@ },
            FileAction::Skip { operation, target, reason } => ActionView::Skip {
                operation: *operation,
                target: target@,
                reason: reason@,
            },
            FileAction::Warning { path, reason } => ActionView::Warning { path: path@, reason: reason@ },
        }
    }
}

/// The views of a list of actions.
pub open spec fn action_views(v: Seq<FileAction>) -> Seq<ActionView> {
    v.map_values(|a: FileAction| a@)
}

} // verus!
