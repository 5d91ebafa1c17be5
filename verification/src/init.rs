//! `treeboot init`: the starter files and where they go.

use vstd::prelude::*;
use crate::context::resolve_worktree_path;
use crate::error::Error;
use crate::paths::join;
use crate::text::copy_string;

verus! {

/// Default path of a starter config.
pub const DEFAULT_CONFIG_PATH: &'static str = ".treeboot.toml";

/// Default path of a starter init script.
pub const DEFAULT_SCRIPT_PATH: &'static str = ".treeboot.sh";

/// Starter config content.
pub const STARTER_CONFIG: &'static str = "#:schema https://github.com/jimeh/treeboot/releases/latest/download/config.schema.json\n\ncopy = [\n  \".env.local\",\n]\n\nsymlink = [\n]\n\ncommands = [\n]\n";

/// Starter init script content.
pub const STARTER_SCRIPT: &'static str = "#!/usr/bin/env sh\nset -eu\n\nroot_path=\"$1\"\n\nprintf 'treeboot root directory: %s\\n' \"$root_path\"\nprintf 'treeboot worktree directory: %s\\n' \"$(pwd)\"\n";

/// Init file type to create.
#[derive(Debug, Clone, Copy, PartialEq, Eq, Structural)]
pub enum InitKind {
    /// Create a starter TOML config.
    Config,
    /// Create an executable init script.
    Script,
}

impl Default for InitKind {
    fn default() -> (res: Self)
        ensures
            res == InitKind::Config,
    {
        InitKind::Config
    }
}

/// Options for `treeboot init`.
#[derive(Debug, Clone, PartialEq, Eq)]
pub struct InitOptions {
    /// Directory in which the init target is created.
    pub cwd: Option<String>,
    /// Init file type to create.
    pub kind: InitKind,
    /// Output path. Defaults depend on the selected kind.
    pub path: Option<String>,
}

/// Result summary for `treeboot init`.
#[derive(Debug, Clone, PartialEq, Eq)]
pub struct InitReport {
    /// Init file type that was created.
    pub kind: InitKind,
    /// Created path.
    pub path: String,
}

/// The default path of an init file of the given kind.
pub open spec fn default_path_spec(kind: InitKind) -> Seq<char> {
    match kind {
        InitKind::Config => DEFAULT_CONFIG_PATH@,
        InitKind::Script => DEFAULT_SCRIPT_PATH@,
    }
}

/// The default path of an init file of the given kind.
pub fn default_path(kind: InitKind) -> (res: &'static str)
    ensures
        res@ == default_path_spec(kind),
{
    match kind {
        InitKind::Config => DEFAULT_CONFIG_PATH,
        InitKind::Script => DEFAULT_SCRIPT_PATH,
    }
}

/// The starter content of an init file of the given kind.
pub fn starter_content(kind: InitKind) -> (res: &'static str)
    ensures
        res@ == (match kind {
            InitKind::Config => STARTER_CONFIG@,
            InitKind::Script => STARTER_SCRIPT@,
        }),
{
    match kind {
        InitKind::Config => STARTER_CONFIG,
        InitKind::Script => STARTER_SCRIPT,
    }
}

/// Where the init file goes: the requested path, or the kind's default,
/// resolved against `cwd`.
pub fn init_target(cwd: &str, kind: InitKind, path: &Option<String>) -> (res: String)
    ensures
        res@ == join(
            cwd@,
            match path {
                Some(p) => p@,
                None => default_path_spec(kind),
            },
        ),
{
    match path {
        Some(p) => resolve_worktree_path(cwd, p.as_str()),
        None => resolve_worktree_path(cwd, default_path(kind)),
    }
}

/// The outcome of checking the init target: writable only when it does not
/// exist.
pub open spec fn init_check_result(target: Seq<char>, exists: Result<bool, String>, res: Result<(), Error>) -> bool {
    match exists {
        Ok(false) => res is Ok,
        Ok(true) => res matches Err(Error::InitTargetExists(p)) && p@ == target,
        Err(m) => res matches Err(Error::InitIo { path: p, message: mm }) && p@ == target && mm == m,
    }
}

/// Whether the init target may be written: it must not exist. `exists` is
/// the outcome of looking the target up (an error message when that failed).
pub fn init_target_check(target: &str, exists: &Result<bool, String>) -> (res: Result<(), Error>)
    ensures
        init_check_result(target@, *exists, res),
{
    match exists {
        Ok(false) => Ok(()),
        Ok(true) => Err(Error::InitTargetExists(String::from_str(target))),
        Err(m) => Err(Error::InitIo { path: String::from_str(target), message: copy_string(m) }),
    }
}

/// The permission bits of an init script: the current bits with execute set
/// for user, group and others.
pub fn make_executable_mode(mode: u32) -> (res: u32)
    ensures
        res == mode | 0o111u32,
{
    mode | 0o111u32
}

} // verus!
