//! Finding the config file of a worktree.

use vstd::prelude::*;
use crate::context::resolve_worktree_path;
use crate::error::Error;
use crate::paths::join;
use crate::text::copy_string;

verus! {

/// Where a config file is looked for, relative to the worktree, in order.
pub open spec fn config_paths() -> Seq<Seq<char>> {
    seq![".treeboot.toml"@, "treeboot.toml"@, ".config/treeboot/config.toml"@]
}

/// The paths to test: the requested config resolved against the worktree,
/// or each default location.
pub open spec fn config_candidates_spec(worktree: Seq<char>, requested: Option<Seq<char>>) -> Seq<Seq<char>> {
    match requested {
        Some(r) => seq![join(worktree, r)],
        None => config_paths().map_values(|p: Seq<char>| join(worktree, p)),
    }
}

/// The plain values of a list of paths.
pub open spec fn path_views(v: Seq<String>) -> Seq<Seq<char>> {
    v.map_values(|s: String| s@)
}

/// The paths to test for a config file.
pub fn config_candidates(worktree_path: &str, requested: &Option<String>) -> (res: Vec<String>)
    ensures
        path_views(res@) == config_candidates_spec(
            worktree_path@,
            match requested {
                Some(r) => Some(r@),
                None => None,
            },
        ),
{
    match requested {
        Some(r) => {
            let v = vec![resolve_worktree_path(worktree_path, r.as_str())];
            assert(path_views(v@) =~= seq![join(worktree_path@, r@)]);
            v
        },
        None => {
            let v = vec![
                resolve_worktree_path(worktree_path, ".treeboot.toml"),
                resolve_worktree_path(worktree_path, "treeboot.toml"),
                resolve_worktree_path(worktree_path, ".config/treeboot/config.toml"),
            ];
            proof {
                reveal_strlit(".treeboot.toml");
                reveal_strlit("treeboot.toml");
                reveal_strlit(".config/treeboot/config.toml");
            }
            assert(path_views(v@) =~= config_paths().map_values(|p: Seq<char>| join(worktree_path@, p)));
            v
        },
    }
}

/// The first candidate that is a file, by index.
pub open spec fn first_file(is_file: Seq<bool>, from: int) -> Option<int>
    decreases is_file.len() - from,
{
    if from >= is_file.len() || from < 0 {
        None
    } else if is_file[from] {
        Some(from)
    } else {
        first_file(is_file, from + 1)
    }
}

/// The config file found among the candidates, given which of them are
/// files: a requested config must be a file, or it is not found; otherwise
/// the first default location that is a file, if any.
pub fn select_config(candidates: &Vec<String>, is_file: &Vec<bool>, requested: bool) -> (res: Result<Option<String>, Error>)
    requires
        candidates.len() == is_file.len(),
        requested ==> candidates.len() == 1,
    ensures
        requested ==> (if is_file[0] {
            res matches Ok(Some(p)) && p@ == candidates[0]@
        } else {
            res matches Err(Error::ConfigNotFound(p)) && p@ == candidates[0]@
        }),
        !requested ==> match first_file(is_file@, 0) {
            Some(i) => res matches Ok(Some(p)) && p@ == candidates[i]@,
            None => res matches Ok(None),
        },
{
    if requested {
        if is_file[0] {
            return Ok(Some(copy_string(&candidates[0])));
        }
        return Err(Error::ConfigNotFound(copy_string(&candidates[0])));
    }
    let mut i: usize = 0;
    while i < candidates.len()
        invariant
            i <= candidates.len(),
            candidates.len() == is_file.len(),
            !requested,
            first_file(is_file@, 0) == first_file(is_file@, i as int),
        decreases candidates.len() - i,
    {
        if is_file[i] {
            return Ok(Some(copy_string(&candidates[i])));
        }
        i = i + 1;
    }
    Ok(None)
}

} // verus!
