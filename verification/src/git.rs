//! Reading the output of the `git` commands treeboot runs.

use vstd::prelude::*;
use crate::error::Error;
use crate::text::{copy_string, owned, join_strings, string_views, join_seqs, chars_of, string_from_chars};

verus! {

/// A worktree listed by `git worktree list --porcelain -z`.
#[derive(Debug, Clone, PartialEq, Eq)]
pub struct GitWorktree {
    /// The worktree path, as the raw bytes git printed.
    pub path: Vec<u8>,
    /// Whether the record is marked bare.
    pub bare: bool,
    /// Whether this is the first (main) worktree.
    pub main: bool,
}

/// `stdout` without one trailing line feed, if it has one.
pub open spec fn strip_lf_spec(stdout: Seq<u8>) -> Seq<u8> {
    if stdout.len() > 0 && stdout.last() == 10u8 {
        stdout.drop_last()
    } else {
        stdout
    }
}

/// Removes one trailing line feed, keeping any other whitespace.
pub fn strip_one_trailing_lf(stdout: &[u8]) -> (res: Vec<u8>)
    ensures
        res@ == strip_lf_spec(stdout@),
{
    let n = stdout.len();
    let end = if n > 0 && stdout[n - 1] == 10u8 {
        n - 1
    } else {
        n
    };
    let mut out: Vec<u8> = Vec::new();
    let mut i: usize = 0;
    while i < end
        invariant
            i <= end,
            end <= n,
            n == stdout@.len(),
            out@ == stdout@.take(i as int),
        decreases end - i,
    {
        out.push(stdout[i]);
        proof {
            assert(stdout@.take(i + 1) =~= stdout@.take(i as int).push(stdout@[i as int]));
        }
        i = i + 1;
    }
    assert(out@ =~= strip_lf_spec(stdout@));
    out
}

/// Splits `s` at every NUL byte, keeping empty pieces.
pub open spec fn split_nul(s: Seq<u8>) -> Seq<Seq<u8>>
    decreases s.len(),
{
    if s.len() == 0 {
        seq![Seq::empty()]
    } else {
        let r = split_nul(s.drop_last());
        if s.last() == 0u8 {
            r.push(Seq::empty())
        } else {
            r.update(r.len() - 1, r.last().push(s.last()))
        }
    }
}

/// The bytes `worktree ` that open a worktree record.
pub open spec fn worktree_prefix() -> Seq<u8> {
    seq![119u8, 111u8, 114u8, 107u8, 116u8, 114u8, 101u8, 101u8, 32u8]
}

/// The field `bare`.
pub open spec fn bare_field() -> Seq<u8> {
    seq![98u8, 97u8, 114u8, 101u8]
}

/// The worktrees described by the fields so far: each `worktree <path>`
/// field opens a record (the first one is the main worktree), and a `bare`
/// field marks the open record; other fields are ignored.
pub open spec fn worktrees_of(fields: Seq<Seq<u8>>) -> Seq<(Seq<u8>, bool, bool)>
    decreases fields.len(),
{
    if fields.len() == 0 {
        Seq::empty()
    } else {
        let prev = worktrees_of(fields.drop_last());
        let f = fields.last();
        if f.len() >= worktree_prefix().len() && f.take(worktree_prefix().len() as int)
            == worktree_prefix() {
            prev.push((f.skip(worktree_prefix().len() as int), false, prev.len() == 0))
        } else if f == bare_field() && prev.len() > 0 {
            prev.update(prev.len() - 1, (prev.last().0, true, prev.last().2))
        } else {
            prev
        }
    }
}

/// The view of a worktree list: path bytes, bare flag, main flag.
pub open spec fn worktree_views(v: Seq<GitWorktree>) -> Seq<(Seq<u8>, bool, bool)> {
    v.map_values(|w: GitWorktree| (w.path@, w.bare, w.main))
}

fn starts_with_worktree(field: &Vec<u8>) -> (res: bool)
    ensures
        res == (field@.len() >= worktree_prefix().len() && field@.take(worktree_prefix().len() as int)
            == worktree_prefix()),
{
    let prefix: Vec<u8> = vec![119u8, 111u8, 114u8, 107u8, 116u8, 114u8, 101u8, 101u8, 32u8];
    assert(prefix@ =~= worktree_prefix());
    if field.len() < prefix.len() {
        return false;
    }
    let mut i: usize = 0;
    while i < prefix.len()
        invariant
            i <= prefix.len(),
            prefix@ == worktree_prefix(),
            prefix.len() <= field.len(),
            forall|k: int| 0 <= k < i ==> field@[k] == prefix@[k],
        decreases prefix.len() - i,
    {
        if field[i] != prefix[i] {
            assert(field@.take(prefix.len() as int)[i as int] != prefix@[i as int]);
            return false;
        }
        i = i + 1;
    }
    assert(field@.take(prefix.len() as int) =~= prefix@);
    true
}

fn is_bare_field(field: &Vec<u8>) -> (res: bool)
    ensures
        res == (field@ == bare_field()),
{
    let r = field.len() == 4 && field[0] == 98u8 && field[1] == 97u8 && field[2] == 114u8 && field[3]
        == 101u8;
    if r {
        assert(field@ =~= bare_field());
    }
    r
}

fn skip_prefix(field: &Vec<u8>, n: usize) -> (res: Vec<u8>)
    requires
        n <= field.len(),
    ensures
        res@ == field@.skip(n as int),
{
    let mut out: Vec<u8> = Vec::new();
    let mut i: usize = n;
    while i < field.len()
        invariant
            n <= i <= field.len(),
            out@ == field@.subrange(n as int, i as int),
        decreases field.len() - i,
    {
        out.push(field[i]);
        proof {
            assert(field@.subrange(n as int, i + 1) =~= field@.subrange(n as int, i as int).push(
                field@[i as int],
            ));
        }
        i = i + 1;
    }
    assert(out@ =~= field@.skip(n as int));
    out
}

fn apply_field(worktrees: &mut Vec<GitWorktree>, field: &Vec<u8>)
    ensures
        worktree_views(final(worktrees)@) == ({
            let prev = worktree_views(old(worktrees)@);
            let f = field@;
            if f.len() >= worktree_prefix().len() && f.take(worktree_prefix().len() as int)
                == worktree_prefix() {
                prev.push((f.skip(worktree_prefix().len() as int), false, prev.len() == 0))
            } else if f == bare_field() && prev.len() > 0 {
                prev.update(prev.len() - 1, (prev.last().0, true, prev.last().2))
            } else {
                prev
            }
        }),
{
    let ghost prev = worktree_views(old(worktrees)@);
    if starts_with_worktree(field) {
        let main = worktrees.len() == 0;
        let path = skip_prefix(field, 9);
        worktrees.push(GitWorktree { path, bare: false, main });
        assert(worktree_views(worktrees@) =~= prev.push((field@.skip(9), false, prev.len() == 0)));
    } else if is_bare_field(field) && worktrees.len() > 0 {
        let last = worktrees.len() - 1;
        let mut w = worktrees.remove(last);
        w.bare = true;
        worktrees.push(w);
        assert(worktree_views(worktrees@) =~= prev.update(
            prev.len() - 1,
            (prev.last().0, true, prev.last().2),
        ));
    }
}

/// Parses `git worktree list --porcelain -z` output.
pub fn parse_worktrees(stdout: &[u8]) -> (res: Vec<GitWorktree>)
    ensures
        worktree_views(res@) == worktrees_of(split_nul(stdout@)),
{
    let mut worktrees: Vec<GitWorktree> = Vec::new();
    let mut field: Vec<u8> = Vec::new();
    let ghost mut done: Seq<Seq<u8>> = Seq::empty();
    let mut i: usize = 0;
    proof {
        assert(stdout@.take(0) =~= Seq::<u8>::empty());
        assert(split_nul(stdout@.take(0)) =~= seq![Seq::<u8>::empty()]);
        assert(done.push(field@) =~= seq![Seq::<u8>::empty()]);
    }
    while i < stdout.len()
        invariant
            i <= stdout.len(),
            split_nul(stdout@.take(i as int)) == done.push(field@),
            worktree_views(worktrees@) == worktrees_of(done),
        decreases stdout.len() - i,
    {
        let b = stdout[i];
        proof {
            assert(stdout@.take(i + 1).drop_last() =~= stdout@.take(i as int));
            assert(stdout@.take(i + 1).last() == b);
        }
        if b == 0u8 {
            apply_field(&mut worktrees, &field);
            proof {
                assert(done.push(field@).drop_last() =~= done);
                done = done.push(field@);
            }
            field = Vec::new();
            proof {
                assert(split_nul(stdout@.take(i + 1)) =~= done.push(field@));
            }
        } else {
            let ghost old_field = field@;
            field.push(b);
            proof {
                assert(split_nul(stdout@.take(i + 1)) =~= done.push(old_field).update(
                    done.len() as int,
                    old_field.push(b),
                ));
                assert(done.push(old_field).update(done.len() as int, old_field.push(b)) =~= done.push(
                    field@,
                ));
            }
        }
        i = i + 1;
    }
    apply_field(&mut worktrees, &field);
    proof {
        assert(stdout@.take(stdout.len() as int) =~= stdout@);
        assert(done.push(field@).drop_last() =~= done);
    }
    worktrees
}

/// The path of the main worktree, when one is listed.
pub fn main_worktree_path(worktrees: &Vec<GitWorktree>) -> (res: Option<Vec<u8>>)
    ensures
        match res {
            Some(p) => exists|i: int|
                0 <= i < worktrees.len() && worktrees[i].main && worktrees[i].path@ == p@ && forall|
                    j: int,
                | 0 <= j < i ==> !(#[trigger] worktrees[j]).main,
            None => forall|i: int| 0 <= i < worktrees.len() ==> !(#[trigger] worktrees[i]).main,
        },
{
    let mut i: usize = 0;
    while i < worktrees.len()
        invariant
            i <= worktrees.len(),
            forall|j: int| 0 <= j < i ==> !(#[trigger] worktrees[j]).main,
        decreases worktrees.len() - i,
    {
        if worktrees[i].main {
            return Some(worktrees[i].path.clone());
        }
        i = i + 1;
    }
    None
}

/// The label of a git command: `git` followed by its arguments.
pub fn command_label(args: &Vec<String>) -> (res: String)
    ensures
        res@ == "git "@ + join_seqs(string_views(args@), " "@),
{
    let joined = join_strings(args, " ");
    let mut res = owned("git ");
    res.append(joined.as_str());
    res
}

/// The bytes `origin/`.
pub open spec fn origin_prefix() -> Seq<char> {
    seq!['o', 'r', 'i', 'g', 'i', 'n', '/']
}

/// The default branch named by `git symbolic-ref --short
/// refs/remotes/origin/HEAD`: empty when the command failed, otherwise its
/// trimmed output without the `origin/` prefix.
pub open spec fn default_branch_spec(success: bool, trimmed: Seq<char>) -> Seq<char> {
    if !success {
        Seq::empty()
    } else if trimmed.len() >= 7 && trimmed.take(7) == origin_prefix() {
        trimmed.skip(7)
    } else {
        trimmed
    }
}

/// The default branch from the outcome of the symbolic-ref command.
pub fn default_branch_from(success: bool, trimmed: &str) -> (res: String)
    ensures
        res@ == default_branch_spec(success, trimmed@),
{
    if !success {
        return String::new();
    }
    let chars = chars_of(trimmed);
    let prefix: Vec<char> = vec!['o', 'r', 'i', 'g', 'i', 'n', '/'];
    if chars.len() >= 7 {
        let mut same = true;
        let mut i: usize = 0;
        while i < 7
            invariant
                i <= 7,
                chars.len() >= 7,
                prefix@ == origin_prefix(),
                same == (forall|k: int| 0 <= k < i ==> chars@[k] == prefix@[k]),
            decreases 7 - i,
        {
            same = same && chars[i] == prefix[i];
            i = i + 1;
        }
        if same {
            assert(chars@.take(7) =~= origin_prefix());
            let mut rest: Vec<char> = Vec::new();
            let mut j: usize = 7;
            while j < chars.len()
                invariant
                    7 <= j <= chars.len(),
                    rest@ == chars@.subrange(7, j as int),
                decreases chars.len() - j,
            {
                rest.push(chars[j]);
                proof {
                    assert(chars@.subrange(7, j + 1) =~= chars@.subrange(7, j as int).push(chars@[j as int]));
                }
                j = j + 1;
            }
            assert(rest@ =~= chars@.skip(7));
            return string_from_chars(rest.as_slice());
        } else {
            assert(chars@.take(7) != origin_prefix()) by {
                let k = choose|k: int| 0 <= k < 7 && chars@[k] != prefix@[k];
                assert(chars@.take(7)[k] != origin_prefix()[k]);
            }
        }
    }
    owned(trimmed)
}

/// The worktree path from the outcome of `git rev-parse --show-toplevel`:
/// its output without one trailing line feed, or not a worktree when the
/// command failed.
pub fn worktree_path_from(success: bool, stdout: &[u8]) -> (res: Result<Vec<u8>, Error>)
    ensures
        success ==> (res matches Ok(p) && p@ == strip_lf_spec(stdout@)),
        !success ==> (res matches Err(Error::NotGitWorktree)),
{
    if !success {
        return Err(Error::NotGitWorktree);
    }
    Ok(strip_one_trailing_lf(stdout))
}

} // verus!
