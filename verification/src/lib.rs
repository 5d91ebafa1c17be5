//! Core library for `treeboot`: worktree bootstrap planning and validation.

#![allow(unused_imports)]

use vstd::prelude::*;

pub mod runtime;
pub mod text;
pub mod paths;
pub mod glob;
pub mod glob_expand;
pub mod toml_doc;
pub mod error;
pub mod config;
pub mod config_schema;
pub mod context;
pub mod discovery;
pub mod output;
pub mod metadata;
pub mod file_actions;
pub mod action_plan;
pub mod commands;
pub mod completion;
pub mod check;
pub mod plan;
pub mod doctor;
pub mod status;
pub mod init;
pub mod teardown;
pub mod executor;
pub mod file_system;
pub mod manual;
pub mod git;
pub mod path_filter;
pub mod fs_snapshot;
pub mod file_planning;
pub mod file_execution;
pub mod file_operations;
pub mod apply_guard;

verus! {

} // verus!
