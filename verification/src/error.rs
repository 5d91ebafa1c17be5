//! Error type for treeboot operations.

use vstd::prelude::*;

use crate::text::{concat2, concat3, concat4, concat5, owned};

verus! {

/// Error type for treeboot operations. Paths are held as their display text
/// and I/O failures as their message.
#[derive(Debug)]
pub enum Error {
    /// The current working directory could not be read.
    CurrentDir { message: String },
    /// A filesystem path could not be normalized.
    NormalizePath { path: String, message: String },
    /// The command was not run from a Git worktree.
    NotGitWorktree,
    /// A Git command could not be spawned.
    GitIo { command: String, message: String },
    /// A Git command exited unsuccessfully.
    GitFailed { command: String, stderr: String },
    /// No root checkout path could be determined.
    RootPathNotFound,
    /// A specifically requested config file does not exist.
    ConfigNotFound(String),
    /// A config file could not be read.
    ConfigIo { path: String, message: String },
    /// A config file contains invalid TOML.
    ConfigParse { path: String, message: String },
    /// A config file contains unsupported or invalid declarations.
    ConfigInvalid { path: String, message: String },
    /// No config was found while strict mode was enabled.
    NoConfigDetectedStrict,
    /// An environment option does not hold a supported boolean.
    InvalidBooleanEnv { name: String, value: String },
    /// A file operation declaration is invalid.
    FileOperationInvalid { operation: String, message: String },
    /// A file operation conflicts with what is on disk.
    FileOperationConflict { operation: String, path: String, message: String },
    /// A file operation failed on an I/O error.
    FileOperationIo { operation: String, path: String, message: String },
    /// A command could not be started.
    CommandIo { label: String, message: String },
    /// A command exited unsuccessfully.
    CommandFailed { label: String, status: String },
    /// Writing output failed.
    Output { message: String },
    /// Strict mode rejects running from the root checkout.
    RootWorktreeStrict,
    /// `treeboot init` refused to replace an existing target.
    InitTargetExists(String),
    /// An init file could not be written.
    InitIo { path: String, message: String },
}

/// Quoted display of a path, as `{:?}` writes a plain path.
pub open spec fn quoted(p: Seq<char>) -> Seq<char> {
    seq!['"'] + p + seq!['"']
}

/// Builds the quoted display of a path.
pub fn quote(p: &str) -> (res: String)
    ensures
        res@ == quoted(p@),
{
    let mut r = String::new();
    crate::text::push_char(&mut r, '"');
    r.append(p);
    crate::text::push_char(&mut r, '"');
    assert(r@ =~= quoted(p@));
    r
}

impl Error {
    /// The user-facing text of the error.
    pub open spec fn message_spec(&self) -> Seq<char> {
        match self {
            Error::CurrentDir { message } => "failed to read current directory: "@ + message@,
            Error::NormalizePath { path, message } => "failed to normalize path "@ + quoted(path@)
                + ": "@ + message@,
            Error::NotGitWorktree => "not inside a Git worktree"@,
            Error::GitIo { command, message } => "failed to run "@ + command@ + ": "@ + message@,
            Error::GitFailed { command, stderr } => command@ + " failed: "@ + stderr@,
            Error::RootPathNotFound => "could not determine root checkout path"@,
            Error::ConfigNotFound(path) => "config file not found: "@ + quoted(path@),
            Error::ConfigIo { path, message } => "failed to read config "@ + quoted(path@) + ": "@
                + message@,
            Error::ConfigParse { path, message } => "invalid config "@ + quoted(path@) + ": "@
                + message@,
            Error::ConfigInvalid { path, message } => "invalid config "@ + quoted(path@) + ": "@
                + message@,
            Error::NoConfigDetectedStrict => "no config detected"@,
            Error::InvalidBooleanEnv { name, value } => "invalid boolean value for "@ + name@
                + ": "@ + quoted(value@),
            Error::FileOperationInvalid { operation, message } => "invalid "@ + operation@
                + " file operation: "@ + message@,
            Error::FileOperationConflict { operation, path, message } => operation@
                + " conflict at "@ + quoted(path@) + ": "@ + message@,
            Error::FileOperationIo { operation, path, message } => operation@ + " failed at "@
                + quoted(path@) + ": "@ + message@,
            Error::CommandIo { label, message } => "failed to run command "@ + label@ + ": "@
                + message@,
            Error::CommandFailed { label, status } => "command "@ + label@ + " failed with "@
                + status@,
            Error::Output { message } => "failed to write output: "@ + message@,
            Error::RootWorktreeStrict => "refusing to run from the root checkout in strict mode"@,
            Error::InitTargetExists(path) => "init target already exists: "@ + quoted(path@),
            Error::InitIo { path, message } => "failed to write init target "@ + quoted(path@)
                + ": "@ + message@,
        }
    }

    /// The user-facing text of the error.
    pub fn message(&self) -> (res: String)
        ensures
            res@ == self.message_spec(),
    {
        match self {
            Error::CurrentDir { message } => concat2(
                "failed to read current directory: ",
                message.as_str(),
            ),
            Error::NormalizePath { path, message } => {
                let q = quote(path.as_str());
                concat4("failed to normalize path ", q.as_str(), ": ", message.as_str())
            },
            Error::NotGitWorktree => owned("not inside a Git worktree"),
            Error::GitIo { command, message } => concat4(
                "failed to run ",
                command.as_str(),
                ": ",
                message.as_str(),
            ),
            Error::GitFailed { command, stderr } => concat3(
                command.as_str(),
                " failed: ",
                stderr.as_str(),
            ),
            Error::RootPathNotFound => owned("could not determine root checkout path"),
            Error::ConfigNotFound(path) => {
                let q = quote(path.as_str());
                concat2("config file not found: ", q.as_str())
            },
            Error::ConfigIo { path, message } => {
                let q = quote(path.as_str());
                concat4("failed to read config ", q.as_str(), ": ", message.as_str())
            },
            Error::ConfigParse { path, message } => {
                let q = quote(path.as_str());
                concat4("invalid config ", q.as_str(), ": ", message.as_str())
            },
            Error::ConfigInvalid { path, message } => {
                let q = quote(path.as_str());
                concat4("invalid config ", q.as_str(), ": ", message.as_str())
            },
            Error::NoConfigDetectedStrict => owned("no config detected"),
            Error::InvalidBooleanEnv { name, value } => {
                let q = quote(value.as_str());
                concat4("invalid boolean value for ", name.as_str(), ": ", q.as_str())
            },
            Error::FileOperationInvalid { operation, message } => concat4(
                "invalid ",
                operation.as_str(),
                " file operation: ",
                message.as_str(),
            ),
            Error::FileOperationConflict { operation, path, message } => {
                let q = quote(path.as_str());
                concat5(operation.as_str(), " conflict at ", q.as_str(), ": ", message.as_str())
            },
            Error::FileOperationIo { operation, path, message } => {
                let q = quote(path.as_str());
                concat5(operation.as_str(), " failed at ", q.as_str(), ": ", message.as_str())
            },
            Error::CommandIo { label, message } => concat4(
                "failed to run command ",
                label.as_str(),
                ": ",
                message.as_str(),
            ),
            Error::CommandFailed { label, status } => concat4(
                "command ",
                label.as_str(),
                " failed with ",
                status.as_str(),
            ),
            Error::Output { message } => concat2("failed to write output: ", message.as_str()),
            Error::RootWorktreeStrict => owned(
                "refusing to run from the root checkout in strict mode",
            ),
            Error::InitTargetExists(path) => {
                let q = quote(path.as_str());
                concat2("init target already exists: ", q.as_str())
            },
            Error::InitIo { path, message } => {
                let q = quote(path.as_str());
                concat4("failed to write init target ", q.as_str(), ": ", message.as_str())
            },
        }
    }

    /// Returns the CLI exit code associated with this error.
    pub fn exit_code(&self) -> (res: u8)
        ensures
            res == 1,
    {
        1
    }
}

} // verus!
