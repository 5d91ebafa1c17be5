//! Worktree context: the root checkout, the current worktree and the
//! environment handed to child processes.

use vstd::prelude::*;

use crate::paths::{join, join_paths, path_is_absolute, is_absolute};
use crate::runtime::{EnvValue, EnvironmentInput};
use crate::text::{chars_of, copy_string, owned, str_eq};

verus! {

/// Child-process environment, as name and value pairs in name order.
pub type Environment = Vec<(String, String)>;

/// Runtime context for a treeboot invocation.
#[derive(Debug, Clone, PartialEq, Eq)]
pub struct Worktree {
    /// Root checkout path.
    pub root_path: String,
    /// Current worktree path.
    pub worktree_path: String,
    /// Default branch name, or empty when unknown.
    pub default_branch: String,
    /// Environment passed to child processes.
    pub environment: Environment,
}

impl Worktree {
    /// Builds a context from already-resolved parts.
    pub fn from_parts(
        root_path: String,
        worktree_path: String,
        default_branch: String,
        environment: Environment,
    ) -> (res: Worktree)
        ensures
            res.root_path == root_path,
            res.worktree_path == worktree_path,
            res.default_branch == default_branch,
            res.environment == environment,
    {
        Worktree { root_path, worktree_path, default_branch, environment }
    }

    /// Returns whether the current worktree is the root checkout.
    pub fn is_root(&self) -> (res: bool)
        ensures
            res == (self.root_path@ == self.worktree_path@),
    {
        str_eq(self.root_path.as_str(), self.worktree_path.as_str())
    }
}

/// A path given relative to the worktree: itself when absolute, otherwise
/// joined to the worktree path.
pub fn resolve_worktree_path(worktree_path: &str, path: &str) -> (res: String)
    ensures
        res@ == join(worktree_path@, path@),
{
    join_paths(worktree_path, path)
}

/// A path given relative to the working directory: itself when absolute,
/// otherwise joined to the working directory.
pub fn resolve_input_path(cwd: &str, path: &str) -> (res: String)
    ensures
        res@ == join(cwd@, path@),
{
    join_paths(cwd, path)
}

/// The environment handed to child processes: the root checkout, the
/// worktree and the default branch under each name that tools look for, in
/// name order.
pub open spec fn environment_spec(root: Seq<char>, worktree: Seq<char>, branch: Seq<char>) -> Seq<(Seq<char>, Seq<char>)> {
    seq![
        ("CODEX_SOURCE_TREE_PATH"@, root),
        ("CODEX_WORKTREE_PATH"@, worktree),
        ("CONDUCTOR_DEFAULT_BRANCH"@, branch),
        ("CONDUCTOR_ROOT_PATH"@, root),
        ("CONDUCTOR_WORKSPACE_PATH"@, worktree),
        ("GIT_SOURCE_TREE_PATH"@, root),
        ("GIT_WORKTREE_PATH"@, worktree),
        ("SUPERSET_ROOT_PATH"@, root),
        ("TREEBOOT_DEFAULT_BRANCH"@, branch),
        ("TREEBOOT_ROOT_PATH"@, root),
        ("TREEBOOT_WORKTREE_PATH"@, worktree),
    ]
}

/// The plain values of an environment.
pub open spec fn environment_view(env: Seq<(String, String)>) -> Seq<(Seq<char>, Seq<char>)> {
    env.map_values(|p: (String, String)| (p.0@, p.1@))
}

fn var(name: &str, value: &str) -> (res: (String, String))
    ensures
        res.0@ == name@,
        res.1@ == value@,
{
    (owned(name), owned(value))
}

/// Builds the environment handed to child processes.
pub fn build_environment(root_path: &str, worktree_path: &str, default_branch: &str) -> (res: Environment)
    ensures
        environment_view(res@) == environment_spec(root_path@, worktree_path@, default_branch@),
{
    let env = vec![
        var("CODEX_SOURCE_TREE_PATH", root_path),
        var("CODEX_WORKTREE_PATH", worktree_path),
        var("CONDUCTOR_DEFAULT_BRANCH", default_branch),
        var("CONDUCTOR_ROOT_PATH", root_path),
        var("CONDUCTOR_WORKSPACE_PATH", worktree_path),
        var("GIT_SOURCE_TREE_PATH", root_path),
        var("GIT_WORKTREE_PATH", worktree_path),
        var("SUPERSET_ROOT_PATH", root_path),
        var("TREEBOOT_DEFAULT_BRANCH", default_branch),
        var("TREEBOOT_ROOT_PATH", root_path),
        var("TREEBOOT_WORKTREE_PATH", worktree_path),
    ];
    assert(environment_view(env@) =~= environment_spec(root_path@, worktree_path@, default_branch@));
    env
}

/// Whether a variable names the root checkout.
pub open spec fn is_root_path_var(name: Seq<char>) -> bool {
    name == "TREEBOOT_ROOT_PATH"@ || name == "GIT_SOURCE_TREE_PATH"@ || name == "CODEX_SOURCE_TREE_PATH"@
        || name == "CONDUCTOR_ROOT_PATH"@ || name == "SUPERSET_ROOT_PATH"@
}

/// Whether a variable names the worktree.
pub open spec fn is_worktree_path_var(name: Seq<char>) -> bool {
    name == "TREEBOOT_WORKTREE_PATH"@ || name == "GIT_WORKTREE_PATH"@ || name == "CODEX_WORKTREE_PATH"@
        || name == "CONDUCTOR_WORKSPACE_PATH"@
}

/// Whether a variable names the default branch.
pub open spec fn is_default_branch_var(name: Seq<char>) -> bool {
    name == "TREEBOOT_DEFAULT_BRANCH"@ || name == "CONDUCTOR_DEFAULT_BRANCH"@
}

/// Every root-path variable of the command environment is set, and to the
/// root checkout path; every worktree variable to the worktree path; every
/// default-branch variable to the default branch; and each variable is one
/// of these.
pub proof fn lemma_environment_values(root: Seq<char>, worktree: Seq<char>, branch: Seq<char>)
    ensures
        forall|i: int| #![trigger environment_spec(root, worktree, branch)[i]]
            0 <= i < environment_spec(root, worktree, branch).len() ==> {
                let (name, value) = environment_spec(root, worktree, branch)[i];
                &&& is_root_path_var(name) ==> value == root
                &&& is_worktree_path_var(name) ==> value == worktree
                &&& is_default_branch_var(name) ==> value == branch
                &&& is_root_path_var(name) || is_worktree_path_var(name) || is_default_branch_var(name)
            },
        forall|name: Seq<char>|
            is_root_path_var(name) || is_worktree_path_var(name) || is_default_branch_var(name) ==> exists|i: int|
                0 <= i < environment_spec(root, worktree, branch).len() && (#[trigger] environment_spec(
                    root,
                    worktree,
                    branch,
                )[i]).0 == name,
{
    reveal_strlit("CODEX_SOURCE_TREE_PATH");
    reveal_strlit("CODEX_WORKTREE_PATH");
    reveal_strlit("CONDUCTOR_DEFAULT_BRANCH");
    reveal_strlit("CONDUCTOR_ROOT_PATH");
    reveal_strlit("CONDUCTOR_WORKSPACE_PATH");
    reveal_strlit("GIT_SOURCE_TREE_PATH");
    reveal_strlit("GIT_WORKTREE_PATH");
    reveal_strlit("SUPERSET_ROOT_PATH");
    reveal_strlit("TREEBOOT_DEFAULT_BRANCH");
    reveal_strlit("TREEBOOT_ROOT_PATH");
    reveal_strlit("TREEBOOT_WORKTREE_PATH");
    let env = environment_spec(root, worktree, branch);
    assert(env[0] == ("CODEX_SOURCE_TREE_PATH"@, root));
    assert(env[1] == ("CODEX_WORKTREE_PATH"@, worktree));
    assert(env[2] == ("CONDUCTOR_DEFAULT_BRANCH"@, branch));
    assert(env[3] == ("CONDUCTOR_ROOT_PATH"@, root));
    assert(env[4] == ("CONDUCTOR_WORKSPACE_PATH"@, worktree));
    assert(env[5] == ("GIT_SOURCE_TREE_PATH"@, root));
    assert(env[6] == ("GIT_WORKTREE_PATH"@, worktree));
    assert(env[7] == ("SUPERSET_ROOT_PATH"@, root));
    assert(env[8] == ("TREEBOOT_DEFAULT_BRANCH"@, branch));
    assert(env[9] == ("TREEBOOT_ROOT_PATH"@, root));
    assert(env[10] == ("TREEBOOT_WORKTREE_PATH"@, worktree));
    assert(env.len() == 11);
    assert("CODEX_SOURCE_TREE_PATH"@.len() == 22);
    assert("CODEX_WORKTREE_PATH"@.len() == 19);
    assert("CONDUCTOR_DEFAULT_BRANCH"@.len() == 24);
    assert("CONDUCTOR_ROOT_PATH"@.len() == 19);
    assert("CONDUCTOR_WORKSPACE_PATH"@.len() == 24);
    assert("GIT_SOURCE_TREE_PATH"@.len() == 20);
    assert("GIT_WORKTREE_PATH"@.len() == 17);
    assert("SUPERSET_ROOT_PATH"@.len() == 18);
    assert("TREEBOOT_DEFAULT_BRANCH"@.len() == 23);
    assert("TREEBOOT_ROOT_PATH"@.len() == 18);
    assert("TREEBOOT_WORKTREE_PATH"@.len() == 22);
    assert("CODEX_SOURCE_TREE_PATH"@[0] != "TREEBOOT_WORKTREE_PATH"@[0]);
    assert("CODEX_WORKTREE_PATH"@[2] != "CONDUCTOR_ROOT_PATH"@[2]);
    assert("CONDUCTOR_DEFAULT_BRANCH"@[10] != "CONDUCTOR_WORKSPACE_PATH"@[10]);
    assert("SUPERSET_ROOT_PATH"@[0] != "TREEBOOT_ROOT_PATH"@[0]);
    assert forall|i: int| #![trigger env[i]] 0 <= i < env.len() implies {
        let (name, value) = env[i];
        &&& is_root_path_var(name) ==> value == root
        &&& is_worktree_path_var(name) ==> value == worktree
        &&& is_default_branch_var(name) ==> value == branch
        &&& is_root_path_var(name) || is_worktree_path_var(name) || is_default_branch_var(name)
    } by {
        if i < 5 {
            if i == 0 {} else if i == 1 {} else if i == 2 {} else if i == 3 {}
        } else {
            if i == 5 {} else if i == 6 {} else if i == 7 {} else if i == 8 {} else if i == 9 {}
        }
    }
    assert forall|name: Seq<char>|
        is_root_path_var(name) || is_worktree_path_var(name) || is_default_branch_var(name) implies exists|i: int|
            0 <= i < env.len() && (#[trigger] env[i]).0 == name by {
        if name == "CODEX_SOURCE_TREE_PATH"@ {
            assert(env[0].0 == name);
        } else if name == "CODEX_WORKTREE_PATH"@ {
            assert(env[1].0 == name);
        } else if name == "CONDUCTOR_DEFAULT_BRANCH"@ {
            assert(env[2].0 == name);
        } else if name == "CONDUCTOR_ROOT_PATH"@ {
            assert(env[3].0 == name);
        } else if name == "CONDUCTOR_WORKSPACE_PATH"@ {
            assert(env[4].0 == name);
        } else if name == "GIT_SOURCE_TREE_PATH"@ {
            assert(env[5].0 == name);
        } else if name == "GIT_WORKTREE_PATH"@ {
            assert(env[6].0 == name);
        } else if name == "SUPERSET_ROOT_PATH"@ {
            assert(env[7].0 == name);
        } else if name == "TREEBOOT_DEFAULT_BRANCH"@ {
            assert(env[8].0 == name);
        } else if name == "TREEBOOT_ROOT_PATH"@ {
            assert(env[9].0 == name);
        } else {
            assert(env[10].0 == name);
        }
    }
}

impl Worktree {
    /// The context of a resolved root checkout, worktree and default branch,
    /// with the environment built from them.
    pub fn resolved(root_path: String, worktree_path: String, default_branch: String) -> (res: Worktree)
        ensures
            res.root_path == root_path,
            res.worktree_path == worktree_path,
            res.default_branch == default_branch,
            environment_view(res.environment@) == environment_spec(root_path@, worktree_path@, default_branch@),
    {
        let environment = build_environment(root_path.as_str(), worktree_path.as_str(), default_branch.as_str());
        Worktree { root_path, worktree_path, default_branch, environment }
    }
}

/// The text of an environment value.
pub open spec fn env_text(v: EnvValue) -> Seq<char> {
    match v {
        EnvValue::Unicode(s) => s@,
        EnvValue::NotUnicode(s) => s@,
    }
}

/// A set, non-empty environment value.
pub open spec fn non_empty(v: Option<EnvValue>) -> Option<Seq<char>> {
    match v {
        Some(e) => if env_text(e).len() > 0 {
            Some(env_text(e))
        } else {
            None
        },
        None => None,
    }
}

fn non_empty_value(v: &Option<EnvValue>) -> (res: Option<String>)
    ensures
        match non_empty(*v) {
            Some(t) => res matches Some(r) && r@ == t,
            None => res.is_none(),
        },
{
    match v {
        Some(EnvValue::Unicode(s)) => if chars_of(s.as_str()).len() > 0 { Some(copy_string(s)) } else { None },
        Some(EnvValue::NotUnicode(s)) => if chars_of(s.as_str()).len() > 0 { Some(copy_string(s)) } else { None },
        None => None,
    }
}

/// The first root checkout override that is set and non-empty, in order of
/// precedence, with the variable's name.
pub open spec fn root_candidate_spec(e: EnvironmentInput) -> Option<(Seq<char>, Seq<char>)> {
    if non_empty(e.treeboot_root_path).is_some() {
        Some(("TREEBOOT_ROOT_PATH"@, non_empty(e.treeboot_root_path).unwrap()))
    } else if non_empty(e.codex_source_tree_path).is_some() {
        Some(("CODEX_SOURCE_TREE_PATH"@, non_empty(e.codex_source_tree_path).unwrap()))
    } else if non_empty(e.conductor_root_path).is_some() {
        Some(("CONDUCTOR_ROOT_PATH"@, non_empty(e.conductor_root_path).unwrap()))
    } else if non_empty(e.superset_root_path).is_some() {
        Some(("SUPERSET_ROOT_PATH"@, non_empty(e.superset_root_path).unwrap()))
    } else {
        None
    }
}

/// The first root checkout override that is set and non-empty.
pub fn root_candidate(e: &EnvironmentInput) -> (res: Option<(&'static str, String)>)
    ensures
        match root_candidate_spec(*e) {
            Some((n, v)) => res matches Some((rn, rv)) && rn@ == n && rv@ == v,
            None => res.is_none(),
        },
{
    if let Some(v) = non_empty_value(&e.treeboot_root_path) {
        return Some(("TREEBOOT_ROOT_PATH", v));
    }
    if let Some(v) = non_empty_value(&e.codex_source_tree_path) {
        return Some(("CODEX_SOURCE_TREE_PATH", v));
    }
    if let Some(v) = non_empty_value(&e.conductor_root_path) {
        return Some(("CONDUCTOR_ROOT_PATH", v));
    }
    if let Some(v) = non_empty_value(&e.superset_root_path) {
        return Some(("SUPERSET_ROOT_PATH", v));
    }
    None
}

/// `s` with the named value appended when it is set and non-empty.
pub open spec fn push_candidate(
    s: Seq<(Seq<char>, Seq<char>)>,
    name: Seq<char>,
    v: Option<EnvValue>,
) -> Seq<(Seq<char>, Seq<char>)> {
    match non_empty(v) {
        Some(t) => s.push((name, t)),
        None => s,
    }
}

/// The root checkout overrides that are set and non-empty, in order of
/// precedence, each with its variable's name.
pub open spec fn root_candidates_spec(e: EnvironmentInput) -> Seq<(Seq<char>, Seq<char>)> {
    push_candidate(
        push_candidate(
            push_candidate(
                push_candidate(Seq::empty(), "TREEBOOT_ROOT_PATH"@, e.treeboot_root_path),
                "CODEX_SOURCE_TREE_PATH"@,
                e.codex_source_tree_path,
            ),
            "CONDUCTOR_ROOT_PATH"@,
            e.conductor_root_path,
        ),
        "SUPERSET_ROOT_PATH"@,
        e.superset_root_path,
    )
}

/// The views of named candidates.
pub open spec fn candidate_views(c: Seq<(&'static str, String)>) -> Seq<(Seq<char>, Seq<char>)> {
    c.map_values(|p: (&'static str, String)| (p.0@, p.1@))
}

fn push_if_set(out: &mut Vec<(&'static str, String)>, name: &'static str, v: &Option<EnvValue>)
    ensures
        candidate_views(final(out)@) == push_candidate(candidate_views(old(out)@), name@, *v),
{
    match non_empty_value(v) {
        Some(t) => {
            let ghost before = candidate_views(out@);
            out.push((name, t));
            assert(candidate_views(out@) =~= before.push((name@, t@)));
        },
        None => {},
    }
}

impl EnvironmentInput {
    /// The root checkout overrides that are set and non-empty, in treeboot
    /// precedence order.
    pub fn root_candidates(&self) -> (res: Vec<(&'static str, String)>)
        ensures
            candidate_views(res@) == root_candidates_spec(*self),
    {
        let mut out: Vec<(&'static str, String)> = Vec::new();
        assert(candidate_views(out@) =~= Seq::<(Seq<char>, Seq<char>)>::empty());
        push_if_set(&mut out, "TREEBOOT_ROOT_PATH", &self.treeboot_root_path);
        push_if_set(&mut out, "CODEX_SOURCE_TREE_PATH", &self.codex_source_tree_path);
        push_if_set(&mut out, "CONDUCTOR_ROOT_PATH", &self.conductor_root_path);
        push_if_set(&mut out, "SUPERSET_ROOT_PATH", &self.superset_root_path);
        out
    }
}

/// The root checkout override that discovery uses is the first of the
/// candidates, and there is one exactly when some candidate is set.
pub proof fn lemma_root_candidate_is_first(e: EnvironmentInput)
    ensures
        root_candidate_spec(e) == (if root_candidates_spec(e).len() > 0 {
            Some(root_candidates_spec(e)[0])
        } else {
            None
        }),
{
}

/// The default branch override, when set and non-empty.
pub fn conductor_default_branch(e: &EnvironmentInput) -> (res: Option<String>)
    ensures
        match non_empty(e.conductor_default_branch) {
            Some(t) => res matches Some(r) && r@ == t,
            None => res.is_none(),
        },
{
    non_empty_value(&e.conductor_default_branch)
}

/// A copy of an environment.
pub fn copy_environment(env: &Environment) -> (res: Environment)
    ensures
        res@ == env@,
{
    let mut res: Environment = Vec::new();
    let mut i: usize = 0;
    while i < env.len()
        invariant
            i <= env.len(),
            res@ == env@.take(i as int),
        decreases env.len() - i,
    {
        let (k, v) = &env[i];
        res.push((copy_string(k), copy_string(v)));
        proof {
            assert(env@.take(i + 1) =~= env@.take(i as int).push(env@[i as int]));
        }
        i = i + 1;
    }
    assert(env@.take(env.len() as int) =~= env@);
    res
}

impl Worktree {
    /// A copy of this context.
    pub fn duplicate(&self) -> (res: Worktree)
        ensures
            res.root_path == self.root_path,
            res.worktree_path == self.worktree_path,
            res.default_branch == self.default_branch,
            res.environment@ == self.environment@,
    {
        Worktree {
            root_path: copy_string(&self.root_path),
            worktree_path: copy_string(&self.worktree_path),
            default_branch: copy_string(&self.default_branch),
            environment: copy_environment(&self.environment),
        }
    }
}

} // verus!
