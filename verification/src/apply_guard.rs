//! The checks a step makes on disk just before it writes: the target must
//! lie in the worktree, no directory on the way down from the worktree may
//! be a symlink or a non-directory, and a source must still be what was
//! planned and still resolve inside the root checkout.

use vstd::prelude::*;
use crate::config::FileOperationKind;
use crate::error::Error;
use crate::file_actions::MetadataPolicy;
use crate::file_system::{conflict, io_error, is_conflict, is_io_error};
use crate::text::copy_string;
use crate::paths::{
    clone_component, comp_views, components, components_of, components_prefix, render,
    render_components, PathComponent,
};

verus! {

/// What a look at one directory on the way to a target found.
#[derive(Debug, Clone, PartialEq, Eq)]
pub enum Observed {
    /// A real directory.
    Directory,
    /// A symbolic link.
    Symlink,
    /// Something that is neither a directory nor a symlink.
    NotDirectory,
    /// Nothing is there; the message says what the lookup reported.
    Missing(String),
    /// The lookup failed; the message says why.
    Failed(String),
}

/// The paths from the worktree down to `path`, the worktree first, each the
/// one before with one more component of `path`; none when `path` does not
/// start with the worktree's components.
pub open spec fn ancestor_chain_spec(worktree: Seq<char>, path: Seq<char>) -> Option<Seq<Seq<char>>> {
    let pc = components(path);
    let wc = components(worktree);
    if wc.len() <= pc.len() && pc.take(wc.len() as int) == wc {
        Some(Seq::new((pc.len() - wc.len() + 1) as nat, |i: int| render(pc.take(wc.len() + i))))
    } else {
        None
    }
}

/// The message of a target that lies outside the worktree.
pub open spec fn outside_message() -> Seq<char> {
    "target resolves outside worktree during apply"@
}

/// Lists the directories to check for `path`, the worktree first, or
/// refuses a path outside the worktree.
pub fn target_ancestor_chain(operation: FileOperationKind, worktree: &str, path: &str) -> (res: Result<
    Vec<String>,
    Error,
>)
    ensures
        match res {
            Ok(v) => ancestor_chain_spec(worktree@, path@) == Some(v@.map_values(|s: String| s@)),
            Err(e) => ancestor_chain_spec(worktree@, path@).is_none() && is_conflict(
                e,
                operation,
                path@,
                outside_message(),
            ),
        },
{
    let pc = components_of(path);
    let wc = components_of(worktree);
    let ghost pv = comp_views(pc@);
    let ghost wv = comp_views(wc@);
    if !components_prefix(&pc, &wc) {
        return Err(conflict(operation, path, "target resolves outside worktree during apply"));
    }
    let mut prefix: Vec<PathComponent> = Vec::new();
    let mut k: usize = 0;
    while k < wc.len()
        invariant
            k <= wc.len(),
            wc.len() <= pc.len(),
            pv == comp_views(pc@),
            comp_views(prefix@) == pv.take(k as int),
        decreases wc.len() - k,
    {
        let ghost before = comp_views(prefix@);
        prefix.push(clone_component(&pc[k]));
        proof {
            assert(comp_views(prefix@) =~= before.push(pc@[k as int]@));
            assert(pv.take(k + 1) =~= pv.take(k as int).push(pv[k as int]));
        }
        k = k + 1;
    }
    let ghost expected = Seq::new((pv.len() - wv.len() + 1) as nat, |i: int| render(pv.take(wv.len() + i)));
    let mut chain: Vec<String> = Vec::new();
    chain.push(render_components(&prefix));
    proof {
        assert(chain@.map_values(|s: String| s@) =~= expected.take(1));
    }
    while k < pc.len()
        invariant
            wc.len() <= k <= pc.len(),
            pv == comp_views(pc@),
            wv.len() == wc.len(),
            comp_views(prefix@) == pv.take(k as int),
            expected == Seq::new((pv.len() - wv.len() + 1) as nat, |i: int| render(pv.take(wv.len() + i))),
            chain@.map_values(|s: String| s@) == expected.take(k - wc.len() + 1),
        decreases pc.len() - k,
    {
        let ghost before = comp_views(prefix@);
        let ghost names = chain@.map_values(|s: String| s@);
        prefix.push(clone_component(&pc[k]));
        proof {
            assert(comp_views(prefix@) =~= before.push(pc@[k as int]@));
            assert(pv.take(k + 1) =~= pv.take(k as int).push(pv[k as int]));
        }
        let next = render_components(&prefix);
        chain.push(next);
        proof {
            assert(chain@.map_values(|s: String| s@) =~= names.push(next@));
            assert(expected.take(k + 1 - wc.len() + 1) =~= expected.take(k - wc.len() + 1).push(expected[k + 1 - wc.len()]));
        }
        k = k + 1;
    }
    proof {
        assert(expected.take(pc.len() - wc.len() + 1) =~= expected);
        assert(pv.take(wv.len() as int) == wv);
    }
    Ok(chain)
}

/// Whether the first `n` observations all found a directory.
pub open spec fn directories_up_to(chain: Seq<(String, Observed)>, n: int) -> bool {
    forall|k: int| 0 <= k < n ==> (#[trigger] chain[k]).1 == Observed::Directory
}

/// What the check answers when the first observation that is not a
/// directory stands at `i`.
pub open spec fn problem_outcome(
    operation: FileOperationKind,
    chain: Seq<(String, Observed)>,
    i: int,
    require_exists: bool,
    res: Result<(), Error>,
) -> bool {
    let path = chain[i].0@;
    match chain[i].1 {
        Observed::Directory => false,
        Observed::Symlink => res matches Err(e) && is_conflict(e, operation, path, "target parent is a symlink"@),
        Observed::NotDirectory => res matches Err(e) && is_conflict(
            e,
            operation,
            path,
            "target parent is not a directory"@,
        ),
        Observed::Missing(m) => if require_exists {
            res matches Err(e) && is_io_error(e, operation, path, m@)
        } else {
            res is Ok
        },
        Observed::Failed(m) => res matches Err(e) && is_io_error(e, operation, path, m@),
    }
}

/// Decides, from what was found at each directory from the worktree down,
/// whether a step may write below them. The first one that is not a
/// directory decides: a symlink or a non-directory is refused, a missing
/// one ends the check (an error when it must exist), a failed lookup is an
/// error. When every one is a directory, the step may go on.
pub fn check_ancestors(operation: FileOperationKind, chain: &Vec<(String, Observed)>, require_exists: bool) -> (res:
    Result<(), Error>)
    ensures
        directories_up_to(chain@, chain@.len() as int) ==> res is Ok,
        forall|i: int|
            0 <= i < chain@.len() && directories_up_to(chain@, i) && (#[trigger] chain@[i]).1 != Observed::Directory
                ==> problem_outcome(operation, chain@, i, require_exists, res),
{
    let mut i: usize = 0;
    while i < chain.len()
        invariant
            i <= chain.len(),
            directories_up_to(chain@, i as int),
        decreases chain.len() - i,
    {
        let (path, observed) = &chain[i];
        match observed {
            Observed::Directory => {},
            Observed::Symlink => {
                return Err(conflict(operation, path.as_str(), "target parent is a symlink"));
            },
            Observed::NotDirectory => {
                return Err(conflict(operation, path.as_str(), "target parent is not a directory"));
            },
            Observed::Missing(m) => {
                if require_exists {
                    return Err(io_error(operation, path.as_str(), m.as_str()));
                }
                return Ok(());
            },
            Observed::Failed(m) => {
                return Err(io_error(operation, path.as_str(), m.as_str()));
            },
        }
        i = i + 1;
    }
    Ok(())
}

/// Whether the components of `base` begin those of `path`.
pub open spec fn starts_within(path: Seq<char>, base: Seq<char>) -> bool {
    let pc = components(path);
    let bc = components(base);
    bc.len() <= pc.len() && pc.take(bc.len() as int) == bc
}

/// Whether the components of `base` begin those of `path`, as
/// `Path::starts_with` compares them.
pub fn path_starts_within(path: &str, base: &str) -> (res: bool)
    ensures
        res == starts_within(path@, base@),
{
    let pc = components_of(path);
    let bc = components_of(base);
    components_prefix(&pc, &bc)
}

/// What a look at a source path, without following a final symlink, found.
#[derive(Debug, Clone, PartialEq, Eq)]
pub enum SourceLook {
    /// A symbolic link.
    Symlink,
    /// A regular file.
    File,
    /// Something else.
    Other,
    /// The lookup failed; the message says why.
    Failed(String),
}

/// Whether `res` is the refusal of `operation` at `path` with `message`.
pub open spec fn refused(res: Result<(), Error>, operation: FileOperationKind, path: Seq<char>, message: Seq<char>) -> bool {
    res matches Err(e) && is_conflict(e, operation, path, message)
}

/// Whether `res` is the I/O failure of `operation` at `path` with `message`.
pub open spec fn failed(res: Result<(), Error>, operation: FileOperationKind, path: Seq<char>, message: Seq<char>) -> bool {
    res matches Err(e) && is_io_error(e, operation, path, message)
}

/// Decides whether a source about to be copied is still a regular file.
pub fn check_source_file_kind(operation: FileOperationKind, source: &str, look: &SourceLook) -> (res: Result<
    (),
    Error,
>)
    ensures
        match look {
            SourceLook::File => res is Ok,
            SourceLook::Symlink => refused(res, operation, source@, "source changed to a symlink before apply"@),
            SourceLook::Other => refused(res, operation, source@, "source file type changed before apply"@),
            SourceLook::Failed(m) => failed(res, operation, source@, m@),
        },
{
    match look {
        SourceLook::File => Ok(()),
        SourceLook::Symlink => Err(conflict(operation, source, "source changed to a symlink before apply")),
        SourceLook::Other => Err(conflict(operation, source, "source file type changed before apply")),
        SourceLook::Failed(m) => Err(io_error(operation, source, m.as_str())),
    }
}

/// Decides whether a source file declared under the root checkout still
/// resolves inside it, from the resolved source and the resolved root (or
/// the messages of their failed resolution).
pub fn check_source_in_root(
    operation: FileOperationKind,
    source: &str,
    root: &str,
    resolved: &Result<String, String>,
    canonical_root: &Result<String, String>,
) -> (res: Result<(), Error>)
    ensures
        match (resolved, canonical_root) {
            (Err(m), _) => failed(res, operation, source@, m@),
            (Ok(_), Err(m)) => failed(res, operation, root@, m@),
            (Ok(r), Ok(c)) => if starts_within(source@, root@) && !starts_within(r@, c@) {
                refused(res, operation, r@, "source resolves outside root during apply"@)
            } else {
                res is Ok
            },
        },
{
    let stays_in_root = path_starts_within(source, root);
    let r = match resolved {
        Ok(r) => r,
        Err(m) => return Err(io_error(operation, source, m.as_str())),
    };
    let c = match canonical_root {
        Ok(c) => c,
        Err(m) => return Err(io_error(operation, root, m.as_str())),
    };
    if stays_in_root && !path_starts_within(r.as_str(), c.as_str()) {
        return Err(conflict(operation, r.as_str(), "source resolves outside root during apply"));
    }
    Ok(())
}

/// Decides whether a source planned as a symlink is still one.
pub fn check_preserved_link_kind(operation: FileOperationKind, source: &str, look: &SourceLook) -> (res: Result<
    (),
    Error,
>)
    ensures
        match look {
            SourceLook::Symlink => res is Ok,
            SourceLook::Failed(m) => failed(res, operation, source@, m@),
            _ => refused(res, operation, source@, "source changed from a symlink before apply"@),
        },
{
    match look {
        SourceLook::Symlink => Ok(()),
        SourceLook::Failed(m) => Err(io_error(operation, source, m.as_str())),
        _ => Err(conflict(operation, source, "source changed from a symlink before apply")),
    }
}

/// How resolving a path through its symlinks went.
#[derive(Debug, Clone, PartialEq, Eq)]
pub enum Resolution {
    /// The path resolved to this one.
    Resolved(String),
    /// Something on the way does not exist.
    Missing,
    /// Resolution failed; the message says why.
    Failed(String),
}

/// Decides whether a preserved source symlink still resolves inside the
/// root checkout.
pub fn check_link_in_root(
    operation: FileOperationKind,
    source: &str,
    root: &str,
    resolved: &Resolution,
    canonical_root: &Result<String, String>,
) -> (res: Result<(), Error>)
    ensures
        match (resolved, canonical_root) {
            (Resolution::Missing, _) => refused(res, operation, source@, "source symlink changed before apply"@),
            (Resolution::Failed(m), _) => failed(res, operation, source@, m@),
            (Resolution::Resolved(_), Err(m)) => failed(res, operation, root@, m@),
            (Resolution::Resolved(r), Ok(c)) => if starts_within(r@, c@) {
                res is Ok
            } else {
                refused(res, operation, r@, "source symlink resolves outside root during apply"@)
            },
        },
{
    let r = match resolved {
        Resolution::Resolved(r) => r,
        Resolution::Missing => return Err(conflict(operation, source, "source symlink changed before apply")),
        Resolution::Failed(m) => return Err(io_error(operation, source, m.as_str())),
    };
    let c = match canonical_root {
        Ok(c) => c,
        Err(m) => return Err(io_error(operation, root, m.as_str())),
    };
    if !path_starts_within(r.as_str(), c.as_str()) {
        return Err(conflict(operation, r.as_str(), "source symlink resolves outside root during apply"));
    }
    Ok(())
}

/// The deepest of the directories looked at that exists, from the worktree
/// down: walking up from the bottom, missing ones are passed over, a failed
/// lookup is an error at its path, and none when all are missing.
pub open spec fn nearest_existing_outcome(
    operation: FileOperationKind,
    chain: Seq<(String, Observed)>,
    res: Result<Option<String>, Error>,
) -> bool
    decreases chain.len(),
{
    if chain.len() == 0 {
        res == Ok::<Option<String>, Error>(None)
    } else {
        match chain.last().1 {
            Observed::Missing(_) => nearest_existing_outcome(operation, chain.drop_last(), res),
            Observed::Failed(m) => res matches Err(e) && is_io_error(e, operation, chain.last().0@, m@),
            _ => res == Ok::<Option<String>, Error>(Some(chain.last().0)),
        }
    }
}

/// Finds the nearest existing directory of `chain` (the worktree first)
/// from what was found at each.
pub fn nearest_existing(operation: FileOperationKind, chain: &Vec<(String, Observed)>) -> (res: Result<
    Option<String>,
    Error,
>)
    ensures
        nearest_existing_outcome(operation, chain@, res),
{
    let mut i: usize = chain.len();
    assert(chain@.take(chain.len() as int) =~= chain@);
    while i > 0
        invariant
            i <= chain.len(),
            forall|r: Result<Option<String>, Error>|
                nearest_existing_outcome(operation, chain@.take(i as int), r) ==> #[trigger] nearest_existing_outcome(
                    operation,
                    chain@,
                    r,
                ),
        decreases i,
    {
        let (path, observed) = &chain[i - 1];
        proof {
            assert(chain@.take(i as int).last() == chain@[i - 1]);
            assert(chain@.take(i as int).drop_last() =~= chain@.take(i - 1));
        }
        match observed {
            Observed::Missing(_) => {},
            Observed::Failed(m) => {
                return Err(io_error(operation, path.as_str(), m.as_str()));
            },
            _ => {
                return Ok(Some(copy_string(path)));
            },
        }
        i = i - 1;
    }
    proof {
        assert(chain@.take(0) =~= Seq::<(String, Observed)>::empty());
    }
    Ok(None)
}

/// The mode that makes a read-only directory writable for its owner, or
/// none when some write bit is already set.
pub fn writable_parent_mode(mode: u32) -> (res: Option<u32>)
    ensures
        res == (if mode & 0o222u32 != 0 { None } else { Some(mode | 0o200u32) }),
{
    if mode & 0o222u32 != 0 {
        None
    } else {
        Some(mode | 0o200u32)
    }
}

/// The owner and group to set on a target: the source's, for each one the
/// policy carries and that differs from the target's.
pub fn ownership_change(policy: MetadataPolicy, source_uid: u32, source_gid: u32, target_uid: u32, target_gid: u32) -> (res: (
    Option<u32>,
    Option<u32>,
))
    ensures
        res.0 == (if policy.owner && source_uid != target_uid { Some(source_uid) } else { None }),
        res.1 == (if policy.group && source_gid != target_gid { Some(source_gid) } else { None }),
{
    let uid = if policy.owner && source_uid != target_uid { Some(source_uid) } else { None };
    let gid = if policy.group && source_gid != target_gid { Some(source_gid) } else { None };
    (uid, gid)
}

} // verus!
