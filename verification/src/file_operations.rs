//! Applying the file operations of a plan: every operation is planned
//! before any file changes, dangling symlinks are flagged across the whole
//! plan, then the planned actions are executed in order.

use vstd::prelude::*;
use crate::action_plan::{ActionPlan, PlannedFileOperation};
use crate::commands::report;
use crate::context::Worktree;
use crate::error::Error;
use crate::executor::FileApplyOptions;
use crate::file_actions::{
    FileAction, PlannedFileOperationActions, action_views, add_symlink_warnings, count_where, counts_spec,
    symlink_final_targets, symlink_warnings_added,
};
use crate::file_execution::{
    FileExecutionOptions, HandedEvents, HandedSteps, StepLog, StepRunner, execute_file_operation_group,
    group_outcome, first_part, advance_part, action_part, actions_run, finish_part, body_outcome,
    applied_outcome, dry_run_event,
};
use crate::output::handed_outcome;
use crate::file_planning::{error_is, plan_file_operation_group, plan_operation_spec, source_is_directory};
use crate::fs_snapshot::{Canonical, FsSnapshot, find_canonical};
use crate::output::{OutputEvent, ReportLog, Reporter};
use crate::text::copy_string;

verus! {

/// Whether the snapshot records something at `path` (following symlinks).
pub open spec fn target_exists(s: FsSnapshot, path: Seq<char>) -> bool {
    find_canonical(s.canonical@, path) matches Some(Canonical::Resolved(_))
}

fn target_exists_exec(s: &FsSnapshot, path: &str) -> (res: bool)
    ensures
        res == target_exists(*s, path@),
{
    match s.canonical_of(path) {
        Some(Canonical::Resolved(_)) => true,
        _ => false,
    }
}

/// The existence answers the dangling-symlink warnings use: for each
/// symlink action, whether its final target exists.
pub open spec fn existence_answers(s: FsSnapshot, groups: Seq<PlannedFileOperationActions>) -> Seq<Seq<bool>> {
    groups.map_values(
        |g: PlannedFileOperationActions|
            g.actions@.map_values(
                |a: FileAction|
                    match a {
                        FileAction::CreateSymlink { final_target, .. } => target_exists(s, final_target@),
                        _ => false,
                    },
            ),
    )
}

/// The planned actions of every file operation of a plan.
#[derive(Debug, Clone, PartialEq, Eq)]
pub struct PreparedFileOperations {
    pub groups: Vec<PlannedFileOperationActions>,
}

/// Whether `g` is the planned group of operation `op`.
pub open spec fn plans_group(
    s: FsSnapshot,
    ctx: Worktree,
    op: PlannedFileOperation,
    strict: bool,
    force: bool,
    g: PlannedFileOperationActions,
) -> bool {
    &&& (plan_operation_spec(s, ctx, op, strict, force) matches Ok(a) && a == action_views(g.actions@))
    &&& g.operation == op.operation
    &&& g.source == op.source
    &&& g.target == op.target
    &&& g.expanded == source_is_directory(s, ctx, op)
}

/// Whether `groups` are the planned groups of the plan's operations, in order.
pub open spec fn plans_all(
    s: FsSnapshot,
    plan: ActionPlan,
    strict: bool,
    force: bool,
    groups: Seq<PlannedFileOperationActions>,
) -> bool {
    &&& groups.len() == plan.files@.len()
    &&& forall|g: int|
        0 <= g < groups.len() ==> #[trigger] plans_group(s, plan.context, plan.files@[g], strict, force, groups[g])
}

/// Whether every operation of the plan can be planned.
pub open spec fn all_plannable(s: FsSnapshot, plan: ActionPlan, strict: bool, force: bool) -> bool {
    forall|i: int| 0 <= i < plan.files@.len() ==> #[trigger] plan_operation_spec(s, plan.context, plan.files@[i], strict, force) is Ok
}

/// Whether `e` is the planning error of the first of the plan's operations
/// that cannot be planned.
pub open spec fn planning_error(s: FsSnapshot, plan: ActionPlan, strict: bool, force: bool, e: Error) -> bool {
    exists|i: int|
        0 <= i < plan.files@.len() && (forall|j: int| 0 <= j < i ==> #[trigger] plan_operation_spec(s, plan.context, plan.files@[j], strict, force) is Ok)
            && (#[trigger] plan_operation_spec(s, plan.context, plan.files@[i], strict, force)
            matches Err(pe) && error_is(e, plan.files@[i].operation, pe))
}

/// Whether `e` is the output error of the reporter's refusal of the last
/// event of `h`.
pub open spec fn refused_last(h: HandedEvents, e: Error) -> bool {
    h.len() > 0 && h.last().1 is Err && handed_outcome(h.last().1) == Err::<(), Error>(e)
}

/// Whether `groups` are the plan's groups with the dangling-symlink warnings
/// added, by which final targets the snapshot holds.
pub open spec fn prepares(
    s: FsSnapshot,
    plan: ActionPlan,
    strict: bool,
    force: bool,
    groups: Seq<PlannedFileOperationActions>,
) -> bool {
    exists|planned: Seq<PlannedFileOperationActions>|
        plans_all(s, plan, strict, force, planned) && #[trigger] symlink_warnings_added(
            planned,
            groups,
            existence_answers(s, planned),
        )
}

/// The event that announces the planning of `op`.
pub open spec fn planning_started(op: PlannedFileOperation) -> OutputEvent {
    OutputEvent::FileOperationPlanningStarted { operation: op.operation, source: op.source, target: op.target }
}

/// Whether `e` announces that the planning of `op` finished.
pub open spec fn planning_finished_for(e: OutputEvent, op: PlannedFileOperation) -> bool {
    e matches OutputEvent::FileOperationPlanningFinished { operation, source, target, .. } && operation
        == op.operation && source == op.source && target == op.target
}

/// Compact planning output for the first `n` operations of `ops`: for each,
/// its start and then a finish announcement, both accepted.
pub open spec fn planning_announced(ops: Seq<PlannedFileOperation>, n: int, h: HandedEvents) -> bool {
    &&& h.len() == 2 * n
    &&& forall|k: int|
        0 <= k < n ==> {
            &&& (#[trigger] h[2 * k]).0 == planning_started(ops[k])
            &&& h[2 * k].1 is Ok
            &&& planning_finished_for(h[2 * k + 1].0, ops[k])
            &&& h[2 * k + 1].1 is Ok
        }
}

proof fn lemma_announced_step(ops: Seq<PlannedFileOperation>, i: int, h0: HandedEvents, hb: HandedEvents, ha: HandedEvents)
    requires
        0 <= i < ops.len(),
        h0.len() <= hb.len(),
        ha.len() == hb.len() + 2,
        ha.take(hb.len() as int) == hb,
        planning_announced(ops, i, hb.skip(h0.len() as int)),
        ha[hb.len() as int].0 == planning_started(ops[i]),
        ha[hb.len() as int].1 is Ok,
        planning_finished_for(ha[hb.len() + 1int].0, ops[i]),
        ha[hb.len() + 1int].1 is Ok,
    ensures
        planning_announced(ops, i + 1, ha.skip(h0.len() as int)),
{
    let prev = hb.skip(h0.len() as int);
    let now = ha.skip(h0.len() as int);
    assert forall|k: int| 0 <= k < i implies #[trigger] now[2 * k] == prev[2 * k] && now[2 * k + 1] == prev[2 * k + 1] by {
        assert(now[2 * k] == ha[h0.len() + 2 * k]);
        assert(ha.take(hb.len() as int)[h0.len() + 2 * k] == hb[h0.len() + 2 * k]);
        assert(now[2 * k + 1] == ha[h0.len() + 2 * k + 1]);
        assert(ha.take(hb.len() as int)[h0.len() + 2 * k + 1] == hb[h0.len() + 2 * k + 1]);
    }
    assert(now[2 * i] == ha[hb.len() as int]);
    assert(now[2 * i + 1] == ha[hb.len() + 1int]);
}

/// Plans every file operation of the plan before anything changes, then
/// warns about symlinks whose final target neither exists nor is created by
/// the plan. Compact output reports the start and end of each planning.
pub fn prepare_file_operations<R: Reporter>(
    s: &FsSnapshot,
    plan: &ActionPlan,
    options: FileApplyOptions,
    reporter: &mut ReportLog<R>,
) -> (res: Result<PreparedFileOperations, Error>)
    ensures
        res matches Ok(p) ==> prepares(*s, *plan, options.strict, options.force, p.groups@),
        res matches Err(e) ==> planning_error(*s, *plan, options.strict, options.force, e) || refused_last(
            final(reporter).handed@.skip(old(reporter).handed@.len() as int),
            e,
        ),
        res matches Err(e) ==> e is Output || planning_error(*s, *plan, options.strict, options.force, e),
        options.verbose ==> (res is Ok <==> all_plannable(*s, *plan, options.strict, options.force)),
        plan.files@.len() == 0 ==> (res matches Ok(p) && p.groups@.len() == 0),
        plan.files@.len() == 0 ==> *final(reporter) == *old(reporter),
        options.verbose ==> *final(reporter) == *old(reporter),
        final(reporter).handed@.len() >= old(reporter).handed@.len(),
        final(reporter).handed@.take(old(reporter).handed@.len() as int) == old(reporter).handed@,
        !options.verbose && res is Ok ==> planning_announced(
            plan.files@,
            plan.files@.len() as int,
            final(reporter).handed@.skip(old(reporter).handed@.len() as int),
        ),
{
    let ghost h0 = reporter.handed@;
    let mut groups: Vec<PlannedFileOperationActions> = Vec::new();
    let mut i: usize = 0;
    while i < plan.files.len()
        invariant
            i <= plan.files.len(),
            groups.len() == i,
            plan.files@.len() == 0 ==> *reporter == *old(reporter),
            options.verbose ==> *reporter == *old(reporter),
            h0 == old(reporter).handed@,
            reporter.handed@.len() >= h0.len(),
            reporter.handed@.take(h0.len() as int) == h0,
            !options.verbose ==> planning_announced(plan.files@, i as int, reporter.handed@.skip(h0.len() as int)),
            forall|g: int|
                0 <= g < i ==> #[trigger] plans_group(
                    *s,
                    plan.context,
                    plan.files@[g],
                    options.strict,
                    options.force,
                    groups@[g],
                ),
        decreases plan.files.len() - i,
    {
        let op = &plan.files[i];
        let ghost hb = reporter.handed@;
        if !options.verbose {
            let started = OutputEvent::FileOperationPlanningStarted {
                operation: op.operation,
                source: copy_string(&op.source),
                target: copy_string(&op.target),
            };
            match report(reporter, started) {
                Ok(()) => {},
                Err(e) => {
                    proof {
                        let ha = reporter.handed@;
                        assert(ha.take(hb.len() as int) =~= hb);
                        assert(ha.take(hb.len() as int).take(h0.len() as int) =~= ha.take(h0.len() as int));
                        assert(ha.skip(h0.len() as int).last() == ha.last());
                        assert(refused_last(ha.skip(h0.len() as int), e));
                    }
                    return Err(e);
                },
            }
        }
        let ghost hm = reporter.handed@;
        let group = match plan_file_operation_group(s, &plan.context, op, options.strict, options.force) {
            Ok(g) => g,
            Err(e) => {
                proof {
                    assert(!(plan_operation_spec(*s, plan.context, plan.files@[i as int], options.strict, options.force) is Ok));
                    assert forall|j: int| 0 <= j < i implies #[trigger] plan_operation_spec(*s, plan.context, plan.files@[j], options.strict, options.force) is Ok by {
                        assert(plans_group(*s, plan.context, plan.files@[j], options.strict, options.force, groups@[j]));
                    }
                    assert(planning_error(*s, *plan, options.strict, options.force, e));
                    let ha = reporter.handed@;
                    assert(ha.take(hb.len() as int) =~= hb);
                    assert(ha.take(hb.len() as int).take(h0.len() as int) =~= ha.take(h0.len() as int));
                }
                return Err(e);
            },
        };
        if !options.verbose {
            let finished = OutputEvent::FileOperationPlanningFinished {
                operation: group.operation,
                source: copy_string(&group.source),
                target: copy_string(&group.target),
                action_count: group.progress_action_count(),
            };
            match report(reporter, finished) {
                Ok(()) => {},
                Err(e) => {
                    proof {
                        let ha = reporter.handed@;
                        assert(ha.take(hb.len() as int) =~= hb);
                        assert(ha.take(hb.len() as int).take(h0.len() as int) =~= ha.take(h0.len() as int));
                        assert(ha.skip(h0.len() as int).last() == ha.last());
                        assert(refused_last(ha.skip(h0.len() as int), e));
                    }
                    return Err(e);
                },
            }
        }
        proof {
            let ha = reporter.handed@;
            assert(ha.take(hb.len() as int) =~= hb);
            assert(ha.take(hb.len() as int).take(h0.len() as int) =~= ha.take(h0.len() as int));
            if !options.verbose {
                assert(ha[hb.len() as int] == hm.last());
                lemma_announced_step(plan.files@, i as int, h0, hb, ha);
            }
        }
        groups.push(group);
        i = i + 1;
    }
    let ghost planned = groups@;
    assert(plans_all(*s, *plan, options.strict, options.force, planned));
    assert forall|k: int| 0 <= k < plan.files@.len() implies #[trigger] plan_operation_spec(
        *s,
        plan.context,
        plan.files@[k],
        options.strict,
        options.force,
    ) is Ok by {
        assert(plans_group(*s, plan.context, plan.files@[k], options.strict, options.force, planned[k]));
    }
    let final_targets = symlink_final_targets(&groups);
    let ghost answers = existence_answers(*s, planned);
    let mut exists: Vec<Vec<bool>> = Vec::new();
    let mut g: usize = 0;
    while g < final_targets.len()
        invariant
            g <= final_targets.len(),
            final_targets.len() == groups.len(),
            groups@ == planned,
            answers == existence_answers(*s, planned),
            exists.len() == g,
            forall|h: int| 0 <= h < final_targets.len() ==> #[trigger] final_targets[h].len() == groups[h].actions.len(),
            forall|h: int, i: int|
                0 <= h < groups.len() && 0 <= i < groups[h].actions.len() ==> match #[trigger] groups[h].actions@[i] {
                    FileAction::CreateSymlink { final_target, .. } => final_targets[h][i] == Some(final_target),
                    _ => final_targets[h][i].is_none(),
                },
            forall|h: int| 0 <= h < g ==> #[trigger] exists[h]@ == answers[h],
        decreases final_targets.len() - g,
    {
        let targets = &final_targets[g];
        let mut row: Vec<bool> = Vec::new();
        let mut k: usize = 0;
        let ghost want = answers[g as int];
        assert(want.len() == targets.len());
        while k < targets.len()
            invariant
                k <= targets.len(),
                targets.len() == groups[g as int].actions.len(),
                want == answers[g as int],
                answers == existence_answers(*s, planned),
                groups@ == planned,
                g < groups.len(),
                *targets == final_targets[g as int],
                forall|i: int|
                    0 <= i < groups[g as int].actions.len() ==> match #[trigger] groups[g as int].actions@[i] {
                        FileAction::CreateSymlink { final_target, .. } => targets[i] == Some(final_target),
                        _ => targets[i].is_none(),
                    },
                row@ == want.take(k as int),
            decreases targets.len() - k,
        {
            let found = match &targets[k] {
                Some(t) => target_exists_exec(s, t.as_str()),
                None => false,
            };
            proof {
                let a = groups[g as int].actions@[k as int];
                assert(want[k as int] == (match a {
                    FileAction::CreateSymlink { final_target, .. } => target_exists(*s, final_target@),
                    _ => false,
                }));
            }
            row.push(found);
            proof {
                assert(want.take(k + 1) =~= want.take(k as int).push(want[k as int]));
            }
            k = k + 1;
        }
        assert(want.take(targets.len() as int) =~= want);
        exists.push(row);
        g = g + 1;
    }
    add_symlink_warnings(&mut groups, &exists);
    assert(exists@.map_values(|e: Vec<bool>| e@) =~= answers);
    assert(symlink_warnings_added(planned, groups@, answers));
    Ok(PreparedFileOperations { groups })
}

/// The progress-visible actions of all groups.
pub open spec fn total_progress(groups: Seq<PlannedFileOperationActions>) -> nat
    decreases groups.len(),
{
    if groups.len() == 0 {
        0
    } else {
        total_progress(groups.drop_last()) + count_where(groups.last().actions@, |a: FileAction| counts_spec(a))
    }
}

/// `n`, or the largest `usize` where `n` does not fit.
pub open spec fn capped(n: nat) -> nat {
    if n <= usize::MAX {
        n
    } else {
        usize::MAX as nat
    }
}

/// Whether no prepared group holds an action.
pub open spec fn no_actions(groups: Seq<PlannedFileOperationActions>) -> bool {
    forall|g: int| 0 <= g < groups.len() ==> (#[trigger] groups[g]).actions@.len() == 0
}

/// `groups` executed one after another, each going on to the next; `h` and
/// `st` are the events and steps they handed out, in order.
pub open spec fn groups_run(groups: Seq<PlannedFileOperationActions>, dry_run: bool, verbose: bool, h: HandedEvents, st: HandedSteps) -> bool
    decreases groups.len(),
{
    if groups.len() == 0 {
        h.len() == 0 && st.len() == 0
    } else {
        exists|n: int, m: int, c: usize|
            0 <= n <= h.len() && 0 <= m <= st.len() && groups_run(
                groups.drop_last(),
                dry_run,
                verbose,
                h.take(n),
                st.take(m),
            ) && #[trigger] group_outcome(groups.last(), dry_run, verbose, h.skip(n), st.skip(m), Ok::<usize, Error>(c))
    }
}

/// Execution stopped at group `k` with error `e`: the groups before it ran
/// and went on, and group `k` ended with `e`.
pub open spec fn groups_failed(groups: Seq<PlannedFileOperationActions>, dry_run: bool, verbose: bool, h: HandedEvents, st: HandedSteps, e: Error) -> bool {
    exists|k: int, n: int, m: int|
        0 <= k < groups.len() && 0 <= n <= h.len() && 0 <= m <= st.len() && groups_run(
            groups.take(k),
            dry_run,
            verbose,
            h.take(n),
            st.take(m),
        ) && #[trigger] group_outcome(groups[k], dry_run, verbose, h.skip(n), st.skip(m), Err::<usize, Error>(e))
}

/// Whether the reporter refused some event of `h`.
pub open spec fn some_refused(h: HandedEvents) -> bool {
    exists|i: int| 0 <= i < h.len() && (#[trigger] h[i]).1 is Err
}

/// Whether some step set of `st` failed.
pub open spec fn some_step_failed(st: HandedSteps) -> bool {
    exists|i: int| 0 <= i < st.len() && (#[trigger] st[i]).1 is Err
}

proof fn lemma_refused_take(h: HandedEvents, n: int)
    requires
        0 <= n <= h.len(),
        some_refused(h.take(n)),
    ensures
        some_refused(h),
{
    let i = choose|i: int| 0 <= i < h.take(n).len() && (#[trigger] h.take(n)[i]).1 is Err;
    assert(h[i] == h.take(n)[i]);
}

proof fn lemma_refused_skip(h: HandedEvents, n: int)
    requires
        0 <= n <= h.len(),
        some_refused(h.skip(n)),
    ensures
        some_refused(h),
{
    let i = choose|i: int| 0 <= i < h.skip(n).len() && (#[trigger] h.skip(n)[i]).1 is Err;
    assert(h[n + i] == h.skip(n)[i]);
}

proof fn lemma_failed_skip(st: HandedSteps, m: int)
    requires
        0 <= m <= st.len(),
        some_step_failed(st.skip(m)),
    ensures
        some_step_failed(st),
{
    let i = choose|i: int| 0 <= i < st.skip(m).len() && (#[trigger] st.skip(m)[i]).1 is Err;
    assert(st[m + i] == st.skip(m)[i]);
}

proof fn lemma_first_refused(h: HandedEvents)
    requires
        h.len() > 0,
        h[0].1 is Err,
    ensures
        some_refused(h),
{
    assert((h[0]).1 is Err);
}

proof fn lemma_first_part_err(a: FileAction, dry_run: bool, verbose: bool, h: HandedEvents, st: HandedSteps, e: Error)
    requires
        first_part(a, dry_run, verbose, h, st, Err::<(), Error>(e)),
    ensures
        some_refused(h) || some_step_failed(st),
{
    if dry_run {
        if h.len() == 1 {
            lemma_first_refused(h);
        }
    } else {
        if st[0].1 is Err {
            assert((st[0]).1 is Err);
        } else if h.len() == 1 {
            lemma_first_refused(h);
        }
    }
}

proof fn lemma_action_part_err(
    g: PlannedFileOperationActions,
    a: FileAction,
    dry_run: bool,
    verbose: bool,
    h: HandedEvents,
    st: HandedSteps,
    e: Error,
)
    requires
        action_part(g, a, dry_run, verbose, h, st, Err::<(), Error>(e)),
    ensures
        some_refused(h) || some_step_failed(st),
{
    let (n, r1) = choose|n: int, r1: Result<(), Error>|
        0 <= n <= h.len() && #[trigger] first_part(a, dry_run, verbose, h.take(n), st, r1) && match r1 {
            Err(e2) => n == h.len() && Err::<(), Error>(e) == Err::<(), Error>(e2),
            Ok(()) => advance_part(g, a, verbose, h.skip(n), Err::<(), Error>(e)),
        };
    match r1 {
        Err(e2) => {
            lemma_first_part_err(a, dry_run, verbose, h.take(n), st, e2);
            if some_refused(h.take(n)) {
                lemma_refused_take(h, n);
            }
        },
        Ok(()) => {
            let t = h.skip(n);
            if t.len() == 1 {
                lemma_first_refused(t);
            }
            lemma_refused_skip(h, n);
        },
    }
}

proof fn lemma_actions_run_err(
    g: PlannedFileOperationActions,
    acts: Seq<FileAction>,
    dry_run: bool,
    verbose: bool,
    h: HandedEvents,
    st: HandedSteps,
    e: Error,
)
    requires
        actions_run(g, acts, dry_run, verbose, h, st, Err::<(), Error>(e)),
    ensures
        some_refused(h) || some_step_failed(st),
{
    let (n, m) = choose|n: int, m: int|
        0 <= n <= h.len() && 0 <= m <= st.len() && actions_run(
            g,
            acts.drop_last(),
            dry_run,
            verbose,
            h.take(n),
            st.take(m),
            Ok::<(), Error>(()),
        ) && #[trigger] action_part(g, acts.last(), dry_run, verbose, h.skip(n), st.skip(m), Err::<(), Error>(e));
    lemma_action_part_err(g, acts.last(), dry_run, verbose, h.skip(n), st.skip(m), e);
    if some_refused(h.skip(n)) {
        lemma_refused_skip(h, n);
    } else {
        lemma_failed_skip(st, m);
    }
}

proof fn lemma_group_err(g: PlannedFileOperationActions, dry_run: bool, verbose: bool, h: HandedEvents, st: HandedSteps, e: Error)
    requires
        group_outcome(g, dry_run, verbose, h, st, Err::<usize, Error>(e)),
    ensures
        some_refused(h) || some_step_failed(st),
{
    if g.actions@.len() > 0 {
        let body_h = if verbose { h } else { h.skip(1) };
        if !verbose && handed_outcome(h[0].1) is Err {
            lemma_first_refused(h);
        } else {
            assert(body_outcome(g, dry_run, verbose, body_h, st, Err::<usize, Error>(e)));
            if exists|n: int|
                0 <= n <= body_h.len() && #[trigger] actions_run(g, g.actions@, dry_run, verbose, body_h.take(n), st, Ok::<(), Error>(()))
                    && finish_part(g, dry_run, verbose, body_h.skip(n), Err::<usize, Error>(e)) {
                let n = choose|n: int|
                    0 <= n <= body_h.len() && #[trigger] actions_run(g, g.actions@, dry_run, verbose, body_h.take(n), st, Ok::<(), Error>(()))
                        && finish_part(g, dry_run, verbose, body_h.skip(n), Err::<usize, Error>(e));
                let t = body_h.skip(n);
                if t.len() == 1 {
                    lemma_first_refused(t);
                }
                lemma_refused_skip(body_h, n);
            } else {
                let (j, e2) = choose|j: int, e2: Error|
                    1 <= j <= g.actions@.len() && Err::<usize, Error>(e) == Err::<usize, Error>(e2) && #[trigger] actions_run(
                        g,
                        g.actions@.take(j),
                        dry_run,
                        verbose,
                        body_h,
                        st,
                        Err::<(), Error>(e2),
                    );
                lemma_actions_run_err(g, g.actions@.take(j), dry_run, verbose, body_h, st, e2);
            }
            if !verbose && some_refused(body_h) {
                lemma_refused_skip(h, 1);
            }
        }
    }
}

/// A run of prepared groups fails only through a refused report or a failed
/// step: a failure names a group that ended with an error, and every such
/// error comes from the reporter's refusal or a step set that failed.
pub proof fn lemma_groups_failed_cause(
    groups: Seq<PlannedFileOperationActions>,
    dry_run: bool,
    verbose: bool,
    h: HandedEvents,
    st: HandedSteps,
    e: Error,
)
    requires
        groups_failed(groups, dry_run, verbose, h, st, e),
    ensures
        some_refused(h) || some_step_failed(st),
{
    let (k, n, m) = choose|k: int, n: int, m: int|
        0 <= k < groups.len() && 0 <= n <= h.len() && 0 <= m <= st.len() && groups_run(
            groups.take(k),
            dry_run,
            verbose,
            h.take(n),
            st.take(m),
        ) && #[trigger] group_outcome(groups[k], dry_run, verbose, h.skip(n), st.skip(m), Err::<usize, Error>(e));
    lemma_group_err(groups[k], dry_run, verbose, h.skip(n), st.skip(m), e);
    if some_refused(h.skip(n)) {
        lemma_refused_skip(h, n);
    } else {
        lemma_failed_skip(st, m);
    }
}

/// Executes the prepared groups in order and returns how many
/// progress-visible actions they hold (capped at the largest `usize`). The
/// first error stops execution.
pub fn execute_prepared_file_operations<R: Reporter, A: StepRunner>(
    prepared: &PreparedFileOperations,
    options: FileApplyOptions,
    runner: &mut StepLog<A>,
    reporter: &mut ReportLog<R>,
) -> (res: Result<usize, Error>)
    ensures
        res matches Ok(n) ==> n == capped(total_progress(prepared.groups@)),
        no_actions(prepared.groups@) ==> res == Ok::<usize, Error>(0) && *final(runner) == *old(runner)
            && *final(reporter) == *old(reporter),
        options.dry_run ==> *final(runner) == *old(runner),
        options.dry_run ==> (res matches Err(e) ==> e is Output),
        final(reporter).handed@.len() >= old(reporter).handed@.len(),
        final(reporter).handed@.take(old(reporter).handed@.len() as int) == old(reporter).handed@,
        final(runner).handed@.len() >= old(runner).handed@.len(),
        final(runner).handed@.take(old(runner).handed@.len() as int) == old(runner).handed@,
        ({
            let h = final(reporter).handed@.skip(old(reporter).handed@.len() as int);
            let st = final(runner).handed@.skip(old(runner).handed@.len() as int);
            match res {
                Ok(_) => groups_run(prepared.groups@, options.dry_run, options.verbose, h, st),
                Err(e) => groups_failed(prepared.groups@, options.dry_run, options.verbose, h, st, e),
            }
        }),
{
    let ghost h0 = reporter.handed@;
    let ghost s0 = runner.handed@;
    let execution = FileExecutionOptions { dry_run: options.dry_run, verbose: options.verbose };
    let ghost runner_before = *runner;
    let mut action_count: usize = 0;
    let mut i: usize = 0;
    while i < prepared.groups.len()
        invariant
            i <= prepared.groups.len(),
            execution.dry_run == options.dry_run,
            execution.verbose == options.verbose,
            action_count == capped(total_progress(prepared.groups@.take(i as int))),
            runner_before == *old(runner),
            options.dry_run ==> *runner == runner_before,
            h0 == old(reporter).handed@,
            s0 == old(runner).handed@,
            reporter.handed@.len() >= h0.len(),
            reporter.handed@.take(h0.len() as int) == h0,
            runner.handed@.len() >= s0.len(),
            runner.handed@.take(s0.len() as int) == s0,
            groups_run(
                prepared.groups@.take(i as int),
                options.dry_run,
                options.verbose,
                reporter.handed@.skip(h0.len() as int),
                runner.handed@.skip(s0.len() as int),
            ),
            no_actions(prepared.groups@) ==> action_count == 0 && *runner == *old(runner) && *reporter == *old(
                reporter,
            ),
        decreases prepared.groups.len() - i,
    {
        assert(no_actions(prepared.groups@) ==> prepared.groups@[i as int].actions@.len() == 0);
        let ghost hb = reporter.handed@;
        let ghost sb = runner.handed@;
        let result = execute_file_operation_group(&prepared.groups[i], execution, runner, reporter);
        let ghost hn = reporter.handed@.skip(h0.len() as int);
        let ghost sn = runner.handed@.skip(s0.len() as int);
        let ghost n = hb.len() - h0.len();
        let ghost m = sb.len() - s0.len();
        proof {
            let ha = reporter.handed@;
            let sa = runner.handed@;
            assert(ha.take(hb.len() as int).take(h0.len() as int) =~= ha.take(h0.len() as int));
            assert(sa.take(sb.len() as int).take(s0.len() as int) =~= sa.take(s0.len() as int));
            assert(hn.take(n) =~= hb.skip(h0.len() as int));
            assert(sn.take(m) =~= sb.skip(s0.len() as int));
            assert(hn.skip(n) =~= ha.skip(hb.len() as int));
            assert(sn.skip(m) =~= sa.skip(sb.len() as int));
        }
        let count = match result {
            Ok(c) => c,
            Err(e) => {
                proof {
                    assert(group_outcome(prepared.groups@[i as int], options.dry_run, options.verbose, hn.skip(n), sn.skip(m), Err::<usize, Error>(e)));
                }
                return Err(e);
            },
        };
        proof {
            let before = prepared.groups@.take(i as int);
            let after = prepared.groups@.take(i + 1);
            assert(after.drop_last() =~= before);
            assert(after.last() == prepared.groups@[i as int]);
            assert(group_outcome(after.last(), options.dry_run, options.verbose, hn.skip(n), sn.skip(m), Ok::<usize, Error>(count)));
        }
        action_count = action_count.saturating_add(count);
        i = i + 1;
    }
    assert(prepared.groups@.take(prepared.groups.len() as int) =~= prepared.groups@);
    Ok(action_count)
}

/// Plans every file operation of the plan, then executes the planned
/// actions, returning how many progress-visible actions were applied or
/// reported. Planning failures happen before any file changes.
pub fn apply_file_operations<R: Reporter, A: StepRunner>(
    s: &FsSnapshot,
    plan: &ActionPlan,
    options: FileApplyOptions,
    runner: &mut StepLog<A>,
    reporter: &mut ReportLog<R>,
) -> (res: Result<usize, Error>)
    ensures
        res matches Ok(n) ==> exists|groups: Seq<PlannedFileOperationActions>|
            prepares(*s, *plan, options.strict, options.force, groups) && n == capped(total_progress(groups)),
        final(runner).handed@.len() >= old(runner).handed@.len(),
        final(runner).handed@.take(old(runner).handed@.len() as int) == old(runner).handed@,
        res matches Ok(n) ==> exists|groups: Seq<PlannedFileOperationActions>, k: int|
            old(reporter).handed@.len() <= k <= final(reporter).handed@.len() && prepares(
                *s,
                *plan,
                options.strict,
                options.force,
                groups,
            ) && n == capped(total_progress(groups)) && #[trigger] groups_run(
                groups,
                options.dry_run,
                options.verbose,
                final(reporter).handed@.skip(k),
                final(runner).handed@.skip(old(runner).handed@.len() as int),
            ),
        options.dry_run ==> *final(runner) == *old(runner),
        options.dry_run ==> (res matches Err(e) ==> e is Output || planning_error(
            *s,
            *plan,
            options.strict,
            options.force,
            e,
        )),
        !all_plannable(*s, *plan, options.strict, options.force) ==> *final(runner) == *old(runner),
        !all_plannable(*s, *plan, options.strict, options.force) ==> (res matches Err(e) && (e is Output
            || planning_error(*s, *plan, options.strict, options.force, e))),
        plan.files@.len() == 0 ==> res == Ok::<usize, Error>(0) && *final(runner) == *old(runner)
            && *final(reporter) == *old(reporter),
        final(reporter).handed@.len() >= old(reporter).handed@.len(),
        final(reporter).handed@.take(old(reporter).handed@.len() as int) == old(reporter).handed@,
        res matches Err(e) ==> {
            ||| planning_error(*s, *plan, options.strict, options.force, e)
            ||| refused_last(final(reporter).handed@.skip(old(reporter).handed@.len() as int), e)
            ||| exists|groups: Seq<PlannedFileOperationActions>, k: int|
                old(reporter).handed@.len() <= k <= final(reporter).handed@.len() && prepares(
                    *s,
                    *plan,
                    options.strict,
                    options.force,
                    groups,
                ) && #[trigger] groups_failed(
                    groups,
                    options.dry_run,
                    options.verbose,
                    final(reporter).handed@.skip(k),
                    final(runner).handed@.skip(old(runner).handed@.len() as int),
                    e,
                )
        },
        all_plannable(*s, *plan, options.strict, options.force) && !some_refused(
            final(reporter).handed@.skip(old(reporter).handed@.len() as int),
        ) && !some_step_failed(final(runner).handed@.skip(old(runner).handed@.len() as int)) ==> res is Ok,
{
    let prepared = match prepare_file_operations(s, plan, options, reporter) {
        Ok(p) => p,
        Err(e) => {
            assert(runner.handed@.take(runner.handed@.len() as int) =~= runner.handed@);
            proof {
                let h = reporter.handed@.skip(old(reporter).handed@.len() as int);
                if refused_last(h, e) {
                    assert((h[h.len() - 1]).1 is Err);
                }
                if planning_error(*s, *plan, options.strict, options.force, e) && all_plannable(*s, *plan, options.strict, options.force) {
                    let i = choose|i: int|
                        0 <= i < plan.files@.len() && (forall|j: int| 0 <= j < i ==> #[trigger] plan_operation_spec(*s, plan.context, plan.files@[j], options.strict, options.force) is Ok)
                            && (#[trigger] plan_operation_spec(*s, plan.context, plan.files@[i], options.strict, options.force)
                            matches Err(pe) && error_is(e, plan.files@[i].operation, pe));
                    assert(plan_operation_spec(*s, plan.context, plan.files@[i], options.strict, options.force) is Ok);
                }
            }
            return Err(e);
        },
    };
    proof {
        lemma_prepared_is_plannable(*s, *plan, options.strict, options.force, prepared.groups@);
    }
    let ghost k = reporter.handed@.len() as int;
    let res = execute_prepared_file_operations(&prepared, options, runner, reporter);
    proof {
        let ha = reporter.handed@;
        assert(ha.take(k).take(old(reporter).handed@.len() as int) =~= ha.take(old(reporter).handed@.len() as int));
        if res is Ok {
            assert(groups_run(
                prepared.groups@,
                options.dry_run,
                options.verbose,
                reporter.handed@.skip(k),
                runner.handed@.skip(old(runner).handed@.len() as int),
            ));
        }
        if res is Err {
            let e = res->Err_0;
            let st = runner.handed@.skip(old(runner).handed@.len() as int);
            assert(groups_failed(prepared.groups@, options.dry_run, options.verbose, ha.skip(k), st, e));
            lemma_groups_failed_cause(prepared.groups@, options.dry_run, options.verbose, ha.skip(k), st, e);
            let h = ha.skip(old(reporter).handed@.len() as int);
            assert(h.skip(k - old(reporter).handed@.len()) =~= ha.skip(k));
            if some_refused(ha.skip(k)) {
                lemma_refused_skip(h, k - old(reporter).handed@.len());
            }
        }
    }
    res
}

/// Prepared groups exist only when every operation of the plan can be
/// planned: a planning failure leaves the filesystem untouched, because
/// every operation is planned before any step runs.
pub proof fn lemma_prepared_is_plannable(
    s: FsSnapshot,
    plan: ActionPlan,
    strict: bool,
    force: bool,
    groups: Seq<PlannedFileOperationActions>,
)
    requires
        prepares(s, plan, strict, force, groups),
    ensures
        all_plannable(s, plan, strict, force),
{
    let planned = choose|planned: Seq<PlannedFileOperationActions>|
        plans_all(s, plan, strict, force, planned) && #[trigger] symlink_warnings_added(
            planned,
            groups,
            existence_answers(s, planned),
        );
    assert forall|i: int| 0 <= i < plan.files@.len() implies #[trigger] plan_operation_spec(
        s,
        plan.context,
        plan.files@[i],
        strict,
        force,
    ) is Ok by {
        assert(plans_group(s, plan.context, plan.files@[i], strict, force, planned[i]));
    }
}

/// Applies file operations from a snapshot of the filesystem taken before
/// planning, running the planned steps with `runner`.
pub struct SnapshotFileApplier<A: StepRunner> {
    pub snapshot: FsSnapshot,
    pub runner: StepLog<A>,
}

} // verus!
