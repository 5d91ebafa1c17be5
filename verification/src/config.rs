//! The treeboot config model and its normalization.

use vstd::prelude::*;

use crate::config_schema::{
    decode_config, decode_config_spec, RawCommandEntry, RawCommandEntryView, RawCommandObject,
    RawCommandObjectView, RawConfig, RawConfigView, RawFileEntry, RawFileEntryView, RawFileObject,
    RawFileObjectView, empty_file_object, empty_command_object, opt_strings_view,
};
use crate::context::Worktree;
use crate::error::Error;
use crate::glob::{is_glob_source, is_glob_source_spec};
use crate::fs_snapshot::{FsSnapshot, normalize_maybe_existing, normalize_maybe_existing_spec};
use crate::paths::{
    file_name, file_name_spec, join, join_paths, normalize_lexical, normalize_lexical_spec, parent_or_dot, parent_spec,
    push_piece, push_piece_exec,
};
use crate::toml_doc::{parse_toml_document, toml_document, Span, TomlSyntaxError};
use crate::text::{concat2, concat4, owned, string_views, usize_to_decimal, decimal, copy_strings};

verus! {

/// File operation kind.
#[derive(Debug, Clone, Copy, PartialEq, Eq, Structural)]
pub enum FileOperationKind {
    /// Copy source content to the target.
    Copy,
    /// Create a target symlink to the source.
    Symlink,
    /// Reconcile target content with source content.
    Sync,
}

/// The stable lowercase name of an operation kind.
pub open spec fn kind_name(k: FileOperationKind) -> Seq<char> {
    match k {
        FileOperationKind::Copy => "copy"@,
        FileOperationKind::Symlink => "symlink"@,
        FileOperationKind::Sync => "sync"@,
    }
}

impl FileOperationKind {
    /// Returns the stable lowercase operation name.
    pub fn as_str(self) -> (res: &'static str)
        ensures
            res@ == kind_name(self),
    {
        match self {
            FileOperationKind::Copy => "copy",
            FileOperationKind::Symlink => "symlink",
            FileOperationKind::Sync => "sync",
        }
    }
}

/// Sync comparison mode.
#[derive(Debug, Clone, Copy, PartialEq, Eq, Structural)]
pub enum SyncCompare {
    /// Compare size and modified time.
    Metadata,
    /// Compare file contents.
    Checksum,
}

/// Copy or sync symlink handling.
#[derive(Debug, Clone, Copy, PartialEq, Eq, Structural)]
pub enum SymlinkMode {
    /// Recreate safe source symlinks as symlinks.
    Preserve,
}

/// Metadata field ignored by copy and sync operations.
#[derive(Debug, Clone, Copy, PartialEq, Eq, Structural)]
pub enum MetadataField {
    /// Ignore file and directory permissions.
    Permissions,
    /// Ignore file and directory owner.
    Owner,
    /// Ignore file and directory group.
    Group,
}

/// Metadata field as written in a config, where `ownership` stands for both
/// owner and group.
#[derive(Debug, Clone, Copy, PartialEq, Eq, Structural)]
pub enum RawMetadataField {
    /// `permissions`.
    Permissions,
    /// `owner`.
    Owner,
    /// `group`.
    Group,
    /// `ownership`: owner and group.
    Ownership,
}

/// The metadata fields a written field stands for.
pub open spec fn expanded_spec(f: RawMetadataField) -> Seq<MetadataField> {
    match f {
        RawMetadataField::Permissions => seq![MetadataField::Permissions],
        RawMetadataField::Owner => seq![MetadataField::Owner],
        RawMetadataField::Group => seq![MetadataField::Group],
        RawMetadataField::Ownership => seq![MetadataField::Owner, MetadataField::Group],
    }
}

impl RawMetadataField {
    /// The metadata fields this written field stands for.
    pub fn expanded(self) -> (res: Vec<MetadataField>)
        ensures
            res@ == expanded_spec(self),
    {
        match self {
            RawMetadataField::Permissions => vec![MetadataField::Permissions],
            RawMetadataField::Owner => vec![MetadataField::Owner],
            RawMetadataField::Group => vec![MetadataField::Group],
            RawMetadataField::Ownership => vec![MetadataField::Owner, MetadataField::Group],
        }
    }

    /// The written field for one metadata field.
    pub fn from_field(field: MetadataField) -> (res: RawMetadataField)
        ensures
            expanded_spec(res) == seq![field],
            res == (match field {
                MetadataField::Permissions => RawMetadataField::Permissions,
                MetadataField::Owner => RawMetadataField::Owner,
                MetadataField::Group => RawMetadataField::Group,
            }),
    {
        match field {
            MetadataField::Permissions => RawMetadataField::Permissions,
            MetadataField::Owner => RawMetadataField::Owner,
            MetadataField::Group => RawMetadataField::Group,
        }
    }
}

/// Byte and line location for a declaration in a config file.
#[derive(Debug, Clone, Copy, PartialEq, Eq, Structural)]
pub struct SourceSpan {
    /// Starting byte offset.
    pub start: usize,
    /// Ending byte offset.
    pub end: usize,
    /// One-based starting line.
    pub line: usize,
    /// One-based starting column.
    pub column: usize,
}

/// Runtime options declared by a config file.
#[derive(Debug, Clone, PartialEq, Eq)]
pub struct ConfigRuntimeOptions {
    /// Enables strict declarative validation and conflict handling.
    pub strict: bool,
    /// Default path ignore patterns prepended to copy and sync operations.
    pub default_ignore: Vec<String>,
    /// Allows file operation sources outside the root checkout.
    pub dangerously_allow_sources_outside_root: bool,
    /// Allows file operation targets outside the current worktree.
    pub dangerously_allow_targets_outside_worktree: bool,
}

/// Model of the runtime options.
pub struct RuntimeOptionsView {
    pub strict: bool,
    pub default_ignore: Seq<Seq<char>>,
    pub dangerously_allow_sources_outside_root: bool,
    pub dangerously_allow_targets_outside_worktree: bool,
}

impl View for ConfigRuntimeOptions {
    type V = RuntimeOptionsView;

    open spec fn view(&self) -> RuntimeOptionsView {
        RuntimeOptionsView {
            strict: self.strict,
            default_ignore: string_views(self.default_ignore@),
            dangerously_allow_sources_outside_root: self.dangerously_allow_sources_outside_root,
            dangerously_allow_targets_outside_worktree: self.dangerously_allow_targets_outside_worktree,
        }
    }
}

impl Default for ConfigRuntimeOptions {
    fn default() -> (res: Self)
        ensures
            res@ == (RuntimeOptionsView {
                strict: false,
                default_ignore: Seq::empty(),
                dangerously_allow_sources_outside_root: false,
                dangerously_allow_targets_outside_worktree: false,
            }),
    {
        ConfigRuntimeOptions::new()
    }
}

impl ConfigRuntimeOptions {
    /// The default runtime options: not strict, no default ignores, no
    /// boundary relaxations.
    pub fn new() -> (res: ConfigRuntimeOptions)
        ensures
            res@ == (RuntimeOptionsView {
                strict: false,
                default_ignore: Seq::empty(),
                dangerously_allow_sources_outside_root: false,
                dangerously_allow_targets_outside_worktree: false,
            }),
    {
        let res = ConfigRuntimeOptions {
            strict: false,
            default_ignore: Vec::new(),
            dangerously_allow_sources_outside_root: false,
            dangerously_allow_targets_outside_worktree: false,
        };
        assert(string_views(res.default_ignore@) =~= Seq::<Seq<char>>::empty());
        res
    }

    /// A copy with the same view.
    pub fn duplicate(&self) -> (res: ConfigRuntimeOptions)
        ensures
            res@ == self@,
    {
        ConfigRuntimeOptions {
            strict: self.strict,
            default_ignore: copy_strings(&self.default_ignore),
            dangerously_allow_sources_outside_root: self.dangerously_allow_sources_outside_root,
            dangerously_allow_targets_outside_worktree: self.dangerously_allow_targets_outside_worktree,
        }
    }
}

/// A normalized file operation.
#[derive(Debug, Clone, PartialEq, Eq)]
pub struct FileOperation {
    /// File operation kind.
    pub operation: FileOperationKind,
    /// Declared source path.
    pub source: String,
    /// Declared target path.
    pub target: String,
    /// Source path resolved from the root checkout.
    pub source_path: String,
    /// Target path resolved from the current worktree.
    pub target_path: String,
    /// Whether a missing source should fail validation.
    pub required: bool,
    /// Whether the source is treated as a glob pattern.
    pub glob: bool,
    /// Sync comparison mode.
    pub compare: Option<SyncCompare>,
    /// Whether sync should delete target-only files.
    pub delete: Option<bool>,
    /// How copy and sync should treat source symlinks.
    pub symlinks: Option<SymlinkMode>,
    /// Source-relative path patterns ignored by copy and sync.
    pub ignore: Vec<String>,
    /// Metadata fields ignored by copy and sync.
    pub ignore_metadata: Vec<MetadataField>,
    /// Pattern-base-relative prefix applied to operation-relative paths
    /// during ignore matching; empty unless expanded from a glob source.
    pub ignore_prefix: String,
    /// Source location for the operation declaration.
    pub declaration: SourceSpan,
}

/// Model of a file operation.
pub struct FileOperationView {
    pub operation: FileOperationKind,
    pub source: Seq<char>,
    pub target: Seq<char>,
    pub source_path: Seq<char>,
    pub target_path: Seq<char>,
    pub required: bool,
    pub glob: bool,
    pub compare: Option<SyncCompare>,
    pub delete: Option<bool>,
    pub symlinks: Option<SymlinkMode>,
    pub ignore: Seq<Seq<char>>,
    pub ignore_metadata: Seq<MetadataField>,
    pub ignore_prefix: Seq<char>,
    pub declaration: SourceSpan,
}

impl View for FileOperation {
    type V = FileOperationView;

    open spec fn view(&self) -> FileOperationView {
        FileOperationView {
            operation: self.operation,
            source: self.source@,
            target: self.target@,
            source_path: self.source_path@,
            target_path: self.target_path@,
            required: self.required,
            glob: self.glob,
            compare: self.compare,
            delete: self.delete,
            symlinks: self.symlinks,
            ignore: string_views(self.ignore@),
            ignore_metadata: self.ignore_metadata@,
            ignore_prefix: self.ignore_prefix@,
            declaration: self.declaration,
        }
    }
}

/// Command invocation kind.
#[derive(Debug, Clone, PartialEq, Eq)]
pub enum CommandKind {
    /// Shell command invocation.
    Shell {
        /// Shell command string.
        run: String,
    },
    /// Direct program invocation.
    Direct {
        /// Program executable.
        program: String,
        /// Program arguments.
        args: Vec<String>,
    },
}

/// Model of a command invocation.
pub enum CommandKindView {
    Shell { run: Seq<char> },
    Direct { program: Seq<char>, args: Seq<Seq<char>> },
}

impl View for CommandKind {
    type V = CommandKindView;

    open spec fn view(&self) -> CommandKindView {
        match self {
            CommandKind::Shell { run } => CommandKindView::Shell { run: run@ },
            CommandKind::Direct { program, args } => CommandKindView::Direct {
                program: program@,
                args: string_views(args@),
            },
        }
    }
}

/// A normalized command operation.
#[derive(Debug, Clone, PartialEq, Eq)]
pub struct CommandOperation {
    /// Optional display name.
    pub name: Option<String>,
    /// Command invocation.
    pub command: CommandKind,
    /// Declared working directory.
    pub cwd: Option<String>,
    /// Working directory resolved from the current worktree.
    pub cwd_path: Option<String>,
    /// Extra environment variables for this command, in key order.
    pub env: Vec<(String, String)>,
    /// Whether a non-zero exit status should be non-fatal.
    pub allow_failure: bool,
    /// Source location for the command declaration.
    pub declaration: SourceSpan,
}

/// The view of an optional string.
pub open spec fn opt_view(o: Option<String>) -> Option<Seq<char>> {
    match o {
        Some(s) => Some(s@),
        None => None,
    }
}

/// The views of key and value pairs.
pub open spec fn pair_views(v: Seq<(String, String)>) -> Seq<(Seq<char>, Seq<char>)> {
    v.map_values(|p: (String, String)| (p.0@, p.1@))
}

/// Model of a command operation.
pub struct CommandOperationView {
    pub name: Option<Seq<char>>,
    pub command: CommandKindView,
    pub cwd: Option<Seq<char>>,
    pub cwd_path: Option<Seq<char>>,
    pub env: Seq<(Seq<char>, Seq<char>)>,
    pub allow_failure: bool,
    pub declaration: SourceSpan,
}

impl View for CommandOperation {
    type V = CommandOperationView;

    open spec fn view(&self) -> CommandOperationView {
        CommandOperationView {
            name: opt_view(self.name),
            command: self.command@,
            cwd: opt_view(self.cwd),
            cwd_path: opt_view(self.cwd_path),
            env: pair_views(self.env@),
            allow_failure: self.allow_failure,
            declaration: self.declaration,
        }
    }
}

/// Parsed and normalized treeboot config.
#[derive(Debug, Clone, PartialEq, Eq)]
pub struct Config {
    /// Runtime options declared by the config.
    pub options: ConfigRuntimeOptions,
    /// Ordered file operations.
    pub files: Vec<FileOperation>,
    /// Ordered command operations.
    pub commands: Vec<CommandOperation>,
}

/// Model of a config.
pub struct ConfigView {
    pub options: RuntimeOptionsView,
    pub files: Seq<FileOperationView>,
    pub commands: Seq<CommandOperationView>,
}

impl View for Config {
    type V = ConfigView;

    open spec fn view(&self) -> ConfigView {
        ConfigView {
            options: self.options@,
            files: self.files@.map_values(|f: FileOperation| f@),
            commands: self.commands@.map_values(|c: CommandOperation| c@),
        }
    }
}

/// Settings of a file operation as declared.
pub struct FileOperationSettingsInput {
    pub compare: Option<SyncCompare>,
    pub delete: Option<bool>,
    pub symlinks: Option<SymlinkMode>,
    pub ignore: Vec<String>,
    pub ignore_metadata: Vec<RawMetadataField>,
}

/// Settings of a file operation after defaults and validation.
#[derive(Debug, Clone, PartialEq, Eq)]
pub struct FileOperationSettings {
    pub compare: Option<SyncCompare>,
    pub delete: Option<bool>,
    pub symlinks: Option<SymlinkMode>,
    pub ignore: Vec<String>,
    pub ignore_metadata: Vec<MetadataField>,
}

/// A setting declared for an operation kind that does not take it.
#[derive(Debug, Clone, Copy, PartialEq, Eq, Structural)]
pub enum InvalidFileOperationField {
    Compare,
    Delete,
    Symlinks,
    Ignore,
    IgnoreMetadata,
}

/// The config name of a setting.
pub open spec fn field_name(f: InvalidFileOperationField) -> Seq<char> {
    match f {
        InvalidFileOperationField::Compare => "compare"@,
        InvalidFileOperationField::Delete => "delete"@,
        InvalidFileOperationField::Symlinks => "symlinks"@,
        InvalidFileOperationField::Ignore => "ignore"@,
        InvalidFileOperationField::IgnoreMetadata => "ignore_metadata"@,
    }
}

/// The operation kinds that take a setting.
pub open spec fn field_allowed(f: InvalidFileOperationField) -> Seq<char> {
    match f {
        InvalidFileOperationField::Compare | InvalidFileOperationField::Delete => "sync"@,
        _ => "copy and sync"@,
    }
}

impl InvalidFileOperationField {
    /// The config name of the setting.
    pub fn name(self) -> (res: &'static str)
        ensures
            res@ == field_name(self),
    {
        match self {
            InvalidFileOperationField::Compare => "compare",
            InvalidFileOperationField::Delete => "delete",
            InvalidFileOperationField::Symlinks => "symlinks",
            InvalidFileOperationField::Ignore => "ignore",
            InvalidFileOperationField::IgnoreMetadata => "ignore_metadata",
        }
    }

    /// The operation kinds that take the setting.
    pub fn allowed_operations(self) -> (res: &'static str)
        ensures
            res@ == field_allowed(self),
    {
        match self {
            InvalidFileOperationField::Compare | InvalidFileOperationField::Delete => "sync",
            InvalidFileOperationField::Symlinks | InvalidFileOperationField::Ignore
            | InvalidFileOperationField::IgnoreMetadata => "copy and sync",
        }
    }
}

/// Adds the fields of `es` that `acc` does not hold yet, in order.
pub open spec fn add_unique(acc: Seq<MetadataField>, es: Seq<MetadataField>) -> Seq<MetadataField>
    decreases es.len(),
{
    if es.len() == 0 {
        acc
    } else {
        let prev = add_unique(acc, es.drop_last());
        if prev.contains(es.last()) {
            prev
        } else {
            prev.push(es.last())
        }
    }
}

/// Written metadata fields expanded and deduplicated, first occurrence first.
pub open spec fn normalize_metadata_spec(fields: Seq<RawMetadataField>) -> Seq<MetadataField>
    decreases fields.len(),
{
    if fields.len() == 0 {
        Seq::empty()
    } else {
        add_unique(normalize_metadata_spec(fields.drop_last()), expanded_spec(fields.last()))
    }
}

fn contains_field(v: &Vec<MetadataField>, f: MetadataField) -> (res: bool)
    ensures
        res == v@.contains(f),
{
    let mut i: usize = 0;
    while i < v.len()
        invariant
            i <= v.len(),
            forall|j: int| 0 <= j < i ==> v@[j] != f,
        decreases v.len() - i,
    {
        if v[i] == f {
            return true;
        }
        i = i + 1;
    }
    false
}

/// Expands written metadata fields, keeping each field once in order of
/// first occurrence.
pub fn normalize_ignored_metadata(fields: &Vec<RawMetadataField>) -> (res: Vec<MetadataField>)
    ensures
        res@ == normalize_metadata_spec(fields@),
{
    let mut normalized: Vec<MetadataField> = Vec::new();
    let mut i: usize = 0;
    while i < fields.len()
        invariant
            i <= fields.len(),
            normalized@ == normalize_metadata_spec(fields@.take(i as int)),
        decreases fields.len() - i,
    {
        proof {
            assert(fields@.take(i + 1).drop_last() =~= fields@.take(i as int));
            assert(fields@.take(i + 1).last() == fields@[i as int]);
        }
        let expanded = fields[i].expanded();
        let ghost start = normalized@;
        let mut j: usize = 0;
        while j < expanded.len()
            invariant
                j <= expanded.len(),
                normalized@ == add_unique(start, expanded@.take(j as int)),
            decreases expanded.len() - j,
        {
            proof {
                assert(expanded@.take(j + 1).drop_last() =~= expanded@.take(j as int));
                assert(expanded@.take(j + 1).last() == expanded@[j as int]);
            }
            if !contains_field(&normalized, expanded[j]) {
                normalized.push(expanded[j]);
            }
            j = j + 1;
        }
        assert(expanded@.take(expanded.len() as int) =~= expanded@);
        i = i + 1;
    }
    assert(fields@.take(fields.len() as int) =~= fields@);
    normalized
}

/// Model of validated file operation settings.
pub struct SettingsView {
    pub compare: Option<SyncCompare>,
    pub delete: Option<bool>,
    pub symlinks: Option<SymlinkMode>,
    pub ignore: Seq<Seq<char>>,
    pub ignore_metadata: Seq<MetadataField>,
}

/// Defaults and validation of file operation settings for an operation kind:
/// `compare` and `delete` belong to sync; `symlinks`, `ignore` and
/// `ignore_metadata` belong to copy and sync. The first misplaced setting,
/// in that order, is reported.
pub open spec fn settings_spec(
    operation: FileOperationKind,
    compare: Option<SyncCompare>,
    delete: Option<bool>,
    symlinks: Option<SymlinkMode>,
    ignore: Seq<Seq<char>>,
    ignore_metadata: Seq<RawMetadataField>,
) -> Result<SettingsView, InvalidFileOperationField> {
    let sync = operation == FileOperationKind::Sync;
    let symlink = operation == FileOperationKind::Symlink;
    if !sync && compare.is_some() {
        Err(InvalidFileOperationField::Compare)
    } else if !sync && delete.is_some() {
        Err(InvalidFileOperationField::Delete)
    } else if symlink && symlinks.is_some() {
        Err(InvalidFileOperationField::Symlinks)
    } else if symlink && ignore.len() > 0 {
        Err(InvalidFileOperationField::Ignore)
    } else if symlink && ignore_metadata.len() > 0 {
        Err(InvalidFileOperationField::IgnoreMetadata)
    } else {
        Ok(SettingsView {
            compare: if sync {
                Some(compare.unwrap_or(SyncCompare::Metadata))
            } else {
                None
            },
            delete: if sync {
                Some(delete.unwrap_or(false))
            } else {
                None
            },
            symlinks: if symlink {
                None
            } else {
                Some(symlinks.unwrap_or(SymlinkMode::Preserve))
            },
            ignore: ignore,
            ignore_metadata: normalize_metadata_spec(ignore_metadata),
        })
    }
}

/// Applies defaults to file operation settings and rejects settings that the
/// operation kind does not take.
pub fn normalize_file_operation_settings(
    operation: FileOperationKind,
    input: FileOperationSettingsInput,
) -> (res: Result<FileOperationSettings, InvalidFileOperationField>)
    ensures
        match (res, settings_spec(
            operation,
            input.compare,
            input.delete,
            input.symlinks,
            string_views(input.ignore@),
            input.ignore_metadata@,
        )) {
            (Ok(s), Ok(v)) => s.compare == v.compare && s.delete == v.delete && s.symlinks
                == v.symlinks && string_views(s.ignore@) == v.ignore && s.ignore_metadata@
                == v.ignore_metadata,
            (Err(e), Err(f)) => e == f,
            _ => false,
        },
{
    let compare = match operation {
        FileOperationKind::Sync => Some(
            match input.compare {
                Some(c) => c,
                None => SyncCompare::Metadata,
            },
        ),
        FileOperationKind::Copy | FileOperationKind::Symlink => {
            if input.compare.is_some() {
                return Err(InvalidFileOperationField::Compare);
            }
            None
        },
    };
    let delete = match operation {
        FileOperationKind::Sync => Some(
            match input.delete {
                Some(d) => d,
                None => false,
            },
        ),
        FileOperationKind::Copy | FileOperationKind::Symlink => {
            if input.delete.is_some() {
                return Err(InvalidFileOperationField::Delete);
            }
            None
        },
    };
    let symlinks = match operation {
        FileOperationKind::Copy | FileOperationKind::Sync => Some(
            match input.symlinks {
                Some(m) => m,
                None => SymlinkMode::Preserve,
            },
        ),
        FileOperationKind::Symlink => {
            if input.symlinks.is_some() {
                return Err(InvalidFileOperationField::Symlinks);
            }
            None
        },
    };
    let ignore_empty = input.ignore.len() == 0;
    let ignore = match operation {
        FileOperationKind::Copy | FileOperationKind::Sync => input.ignore,
        FileOperationKind::Symlink => {
            if !ignore_empty {
                return Err(InvalidFileOperationField::Ignore);
            }
            input.ignore
        },
    };
    let ignore_metadata = match operation {
        FileOperationKind::Copy | FileOperationKind::Sync => normalize_ignored_metadata(
            &input.ignore_metadata,
        ),
        FileOperationKind::Symlink => {
            if input.ignore_metadata.len() != 0 {
                return Err(InvalidFileOperationField::IgnoreMetadata);
            }
            Vec::new()
        },
    };
    proof {
        if operation == FileOperationKind::Symlink {
            assert(ignore_metadata@ =~= normalize_metadata_spec(input.ignore_metadata@));
        }
    }
    Ok(FileOperationSettings { compare, delete, symlinks, ignore, ignore_metadata })
}

/// The ignore patterns an operation uses: the config's default ignores, then
/// its own, for copy and sync; only its own for symlink.
pub open spec fn effective_ignore_spec(
    operation: FileOperationKind,
    default_ignore: Seq<Seq<char>>,
    ignore: Seq<Seq<char>>,
) -> Seq<Seq<char>> {
    match operation {
        FileOperationKind::Symlink => ignore,
        _ => default_ignore + ignore,
    }
}

/// The ignore patterns an operation uses: default ignores first for copy and
/// sync.
pub fn effective_ignore_patterns(
    operation: FileOperationKind,
    default_ignore: &Vec<String>,
    ignore: Vec<String>,
) -> (res: Vec<String>)
    ensures
        string_views(res@) == effective_ignore_spec(
            operation,
            string_views(default_ignore@),
            string_views(ignore@),
        ),
{
    match operation {
        FileOperationKind::Copy | FileOperationKind::Sync => {
            let mut effective = copy_strings(default_ignore);
            let mut i: usize = 0;
            let ghost base = string_views(effective@);
            while i < ignore.len()
                invariant
                    i <= ignore.len(),
                    base == string_views(default_ignore@),
                    string_views(effective@) == base + string_views(ignore@).take(i as int),
                decreases ignore.len() - i,
            {
                let ghost before = string_views(effective@);
                effective.push(ignore[i].clone());
                assert(string_views(effective@) =~= before.push(ignore@[i as int]@));
                assert(string_views(ignore@).take(i + 1) =~= string_views(ignore@).take(
                    i as int,
                ).push(ignore@[i as int]@));
                i = i + 1;
            }
            assert(string_views(ignore@).take(ignore.len() as int) =~= string_views(ignore@));
            effective
        },
        FileOperationKind::Symlink => ignore,
    }
}

/// UTF-8 encoded length of a character.
pub open spec fn utf8_len(c: char) -> int {
    if (c as u32) < 0x80 {
        1
    } else if (c as u32) < 0x800 {
        2
    } else if (c as u32) < 0x10000 {
        3
    } else {
        4
    }
}

/// Line and column reached after the characters that fit in `budget` bytes.
pub open spec fn line_column_scan(s: Seq<char>, budget: int, line: int, column: int) -> (
    int,
    int,
)
    decreases s.len(),
{
    if s.len() == 0 || utf8_len(s[0]) > budget {
        (line, column)
    } else if s[0] == '\n' {
        line_column_scan(s.drop_first(), budget - utf8_len(s[0]), line + 1, 1)
    } else {
        line_column_scan(s.drop_first(), budget - utf8_len(s[0]), line, column + 1)
    }
}

/// One-based line and column of a byte offset in `content`.
pub open spec fn line_column_spec(content: Seq<char>, offset: int) -> (int, int) {
    line_column_scan(content, offset, 1, 1)
}

fn char_utf8_len(c: char) -> (res: usize)
    ensures
        res == utf8_len(c),
{
    let v = c as u32;
    if v < 0x80 {
        1
    } else if v < 0x800 {
        2
    } else if v < 0x10000 {
        3
    } else {
        4
    }
}

proof fn lemma_line_column_bounds(s: Seq<char>, budget: int, line: int, column: int)
    requires
        line >= 1,
        column >= 1,
    ensures
        line <= line_column_scan(s, budget, line, column).0 <= line + s.len(),
        1 <= line_column_scan(s, budget, line, column).1 <= column + s.len(),
    decreases s.len(),
{
    if s.len() > 0 && utf8_len(s[0]) <= budget {
        if s[0] == '\n' {
            lemma_line_column_bounds(s.drop_first(), budget - utf8_len(s[0]), line + 1, 1);
        } else {
            lemma_line_column_bounds(s.drop_first(), budget - utf8_len(s[0]), line, column + 1);
        }
    }
}

/// One-based line and column of the byte offset `offset` in `content`.
pub fn line_column(content: &str, offset: usize) -> (res: (usize, usize))
    requires
        content@.len() < usize::MAX,
    ensures
        res.0 as int == line_column_spec(content@, offset as int).0,
        res.1 as int == line_column_spec(content@, offset as int).1,
{
    let chars = crate::text::chars_of(content);
    let mut line: usize = 1;
    let mut column: usize = 1;
    let mut budget: usize = offset;
    let mut i: usize = 0;
    assert(chars@.skip(0) =~= chars@);
    while i < chars.len()
        invariant
            i <= chars.len(),
            chars@ == content@,
            chars.len() < usize::MAX,
            1 <= line <= 1 + i,
            1 <= column <= 1 + i,
            line_column_scan(chars@.skip(i as int), budget as int, line as int, column as int)
                == line_column_spec(content@, offset as int),
        decreases chars.len() - i,
    {
        let c = chars[i];
        let len = char_utf8_len(c);
        proof {
            let rest = chars@.skip(i as int);
            assert(rest[0] == c);
            assert(rest.drop_first() =~= chars@.skip(i + 1));
        }
        if len > budget {
            return (line, column);
        }
        budget = budget - len;
        if c == '\n' {
            line = line + 1;
            column = 1;
        } else {
            column = column + 1;
        }
        i = i + 1;
    }
    (line, column)
}

/// Span of a declaration whose value runs from `start` to `end`.
pub open spec fn span_from_range(content: Seq<char>, start: usize, end: usize) -> SourceSpan {
    let lc = line_column_spec(content, start as int);
    SourceSpan { start, end, line: lc.0 as usize, column: lc.1 as usize }
}

impl SourceSpan {
    /// Span of a declaration at byte range `start..end` of `content`.
    pub fn from_range(content: &str, start: usize, end: usize) -> (res: SourceSpan)
        requires
            content@.len() < usize::MAX,
        ensures
            res == span_from_range(content@, start, end),
    {
        let (line, column) = line_column(content, start);
        SourceSpan { start, end, line, column }
    }
}

/// `at line L, column C` for a byte offset of `content`.
pub open spec fn location_suffix_spec(content: Seq<char>, offset: int) -> Seq<char> {
    let lc = line_column_spec(content, offset);
    "at line "@ + decimal(lc.0 as nat) + ", column "@ + decimal(lc.1 as nat)
}

/// The location text for a byte offset of `content`.
pub fn location_suffix(content: &str, offset: usize) -> (res: String)
    requires
        content@.len() < usize::MAX,
    ensures
        res@ == location_suffix_spec(content@, offset as int),
{
    let (line, column) = line_column(content, offset);
    let l = usize_to_decimal(line);
    let c = usize_to_decimal(column);
    concat4("at line ", l.as_str(), ", column ", c.as_str())
}

/// A message followed by the location of `offset` in `content`.
pub open spec fn located(message: Seq<char>, content: Seq<char>, offset: int) -> Seq<char> {
    message + " "@ + location_suffix_spec(content, offset)
}

/// The error for an invalid declaration at `span`.
pub fn invalid_config_error(path: &str, content: &str, span: SourceSpan, message: &str) -> (res:
    Error)
    requires
        content@.len() < usize::MAX,
    ensures
        res matches Error::ConfigInvalid { path: p, message: m } && p@ == path@ && m@ == located(
            message@,
            content@,
            span.start as int,
        ),
{
    let suffix = location_suffix(content, span.start);
    let mut m = owned(message);
    m.append(" ");
    m.append(suffix.as_str());
    Error::ConfigInvalid { path: owned(path), message: m }
}


// ---------------------------------------------------------------------------
// Normalization of declarations

/// The message of a declared path that could not be resolved on disk.
pub open spec fn normalize_failure(p: Seq<char>, m: Seq<char>) -> Seq<char> {
    "failed to normalize path `"@ + p + "`: "@ + m
}

/// A declared path joined to `base` and resolved as far as it exists: its
/// canonical form, or that of its nearest existing ancestor with the rest
/// appended.
pub open spec fn resolved_path_spec(s: FsSnapshot, base: Seq<char>, p: Seq<char>) -> Result<Seq<char>, Seq<char>> {
    match normalize_maybe_existing_spec(s, join(base, p)) {
        Ok(r) => Ok(r),
        Err(m) => Err(normalize_failure(p, m)),
    }
}

/// A declared target joined to `base`: its parent resolved as far as it
/// exists and its own name kept, so that a target symlink is not followed;
/// a path without a final name is resolved whole.
pub open spec fn resolved_target_spec(s: FsSnapshot, base: Seq<char>, p: Seq<char>) -> Result<Seq<char>, Seq<char>> {
    let resolved = join(base, p);
    match file_name_spec(resolved) {
        None => resolved_path_spec(s, base, p),
        Some(name) => {
            let parent = match parent_spec(resolved) {
                Some(q) => q,
                None => seq!['.'],
            };
            match normalize_maybe_existing_spec(s, parent) {
                Err(m) => Err(normalize_failure(p, m)),
                Ok(n) => Ok(normalize_lexical_spec(push_piece(n, name))),
            }
        },
    }
}

/// Resolves a declared path against `base` through the captured filesystem.
pub fn resolve_path(s: &FsSnapshot, base: &str, path: &str) -> (res: Result<String, String>)
    ensures
        match resolved_path_spec(*s, base@, path@) {
            Ok(r) => res matches Ok(x) && x@ == r,
            Err(m) => res matches Err(e) && e@ == m,
        },
{
    let joined = join_paths(base, path);
    match normalize_maybe_existing(s, joined.as_str()) {
        Ok(r) => Ok(r),
        Err(m) => Err(concat4("failed to normalize path `", path, "`: ", m.as_str())),
    }
}

/// Resolves a declared target against `base`: the parent through the
/// captured filesystem, the final name as written.
pub fn resolve_target_path(s: &FsSnapshot, base: &str, path: &str) -> (res: Result<String, String>)
    ensures
        match resolved_target_spec(*s, base@, path@) {
            Ok(r) => res matches Ok(x) && x@ == r,
            Err(m) => res matches Err(e) && e@ == m,
        },
{
    let resolved = join_paths(base, path);
    let name = match file_name(resolved.as_str()) {
        Some(n) => n,
        None => {
            return resolve_path(s, base, path);
        },
    };
    let parent = parent_or_dot(resolved.as_str());
    match normalize_maybe_existing(s, parent.as_str()) {
        Ok(n) => {
            let mut normalized = n;
            push_piece_exec(&mut normalized, name.as_str());
            Ok(normalize_lexical(normalized.as_str()))
        },
        Err(m) => Err(concat4("failed to normalize path `", path, "`: ", m.as_str())),
    }
}

/// The message for a setting declared for an operation kind that does not
/// take it.
pub open spec fn misplaced_setting_message(f: InvalidFileOperationField) -> Seq<char> {
    "`"@ + field_name(f) + "` is only valid for "@ + field_allowed(f) + " file operations"@
}

/// One file operation declaration normalized: the source is required, the
/// target defaults to the source, settings get their defaults, and paths are
/// resolved against the root checkout (source) and the worktree (target).
pub open spec fn file_object_spec(
    s: FsSnapshot,
    root: Seq<char>,
    worktree: Seq<char>,
    op: FileOperationKind,
    obj: RawFileObjectView,
    decl: SourceSpan,
    default_ignore: Seq<Seq<char>>,
) -> Result<FileOperationView, Seq<char>> {
    match obj.source {
        None => Err("file operation is missing required `source`"@),
        Some(source) => {
            let target = match obj.target {
                Some(t) => t,
                None => source,
            };
            match settings_spec(op, obj.compare, obj.delete, obj.symlinks, obj.ignore, obj.ignore_metadata) {
                Err(f) => Err(misplaced_setting_message(f)),
                Ok(st) => match resolved_path_spec(s, root, source) {
                    Err(m) => Err(m),
                    Ok(source_path) => match resolved_target_spec(s, worktree, target) {
                        Err(m) => Err(m),
                        Ok(target_path) => Ok(
                            FileOperationView {
                                operation: op,
                                source: source,
                                target: target,
                                source_path,
                                target_path,
                                required: obj.required,
                                glob: obj.glob.unwrap_or(true) && is_glob_source_spec(source),
                                compare: st.compare,
                                delete: st.delete,
                                symlinks: st.symlinks,
                                ignore: effective_ignore_spec(op, default_ignore, st.ignore),
                                ignore_metadata: st.ignore_metadata,
                                ignore_prefix: Seq::empty(),
                                declaration: decl,
                            },
                        ),
                    },
                },
            }
        },
    }
}

/// An entry of `copy`, `symlink` or `sync` normalized for that kind.
pub open spec fn file_entry_spec(
    s: FsSnapshot,
    root: Seq<char>,
    worktree: Seq<char>,
    op: FileOperationKind,
    entry: RawFileEntryView,
    decl: SourceSpan,
    default_ignore: Seq<Seq<char>>,
) -> Result<FileOperationView, Seq<char>> {
    match entry {
        RawFileEntryView::Path(source) => file_object_spec(
            s,
            root,
            worktree,
            op,
            RawFileObjectView { source: Some(source), ..empty_file_object() },
            decl,
            default_ignore,
        ),
        RawFileEntryView::Object(o) => if o.operation.is_some() {
            Err("`operation` is only valid in `files` and `[[file]]` entries"@)
        } else {
            file_object_spec(s, root, worktree, op, o, decl, default_ignore)
        },
    }
}

/// An entry of `files` or `[[file]]` normalized for its declared kind.
pub open spec fn mixed_entry_spec(
    s: FsSnapshot,
    root: Seq<char>,
    worktree: Seq<char>,
    obj: RawFileObjectView,
    decl: SourceSpan,
    default_ignore: Seq<Seq<char>>,
) -> Result<FileOperationView, Seq<char>> {
    match obj.operation {
        None => Err("file operation is missing required `operation`"@),
        Some(op) => file_object_spec(s, root, worktree, op, obj, decl, default_ignore),
    }
}

/// A command declaration normalized: exactly one of `run` and `program`,
/// `args` only with `program`, `cwd` resolved against the worktree.
pub open spec fn command_object_spec(
    s: FsSnapshot,
    worktree: Seq<char>,
    obj: RawCommandObjectView,
    decl: SourceSpan,
) -> Result<CommandOperationView, Seq<char>> {
    let command: Result<CommandKindView, Seq<char>> = match (obj.run, obj.program) {
        (Some(_), Some(_)) => Err("`run` and `program` are mutually exclusive"@),
        (Some(run), None) => if obj.args.is_some() {
            Err("`args` requires `program`"@)
        } else {
            Ok(CommandKindView::Shell { run })
        },
        (None, Some(program)) => Ok(
            CommandKindView::Direct {
                program,
                args: match obj.args {
                    Some(a) => a,
                    None => Seq::empty(),
                },
            },
        ),
        (None, None) => Err("command is missing required `run` or `program`"@),
    };
    match command {
        Err(m) => Err(m),
        Ok(command) => {
            let cwd_path: Result<Option<Seq<char>>, Seq<char>> = match obj.cwd {
                Some(c) => match resolved_path_spec(s, worktree, c) {
                    Ok(r) => Ok(Some(r)),
                    Err(m) => Err(m),
                },
                None => Ok(None),
            };
            match cwd_path {
                Err(m) => Err(m),
                Ok(cwd_path) => Ok(
                    CommandOperationView {
                        name: obj.name,
                        command,
                        cwd: obj.cwd,
                        cwd_path,
                        env: obj.env,
                        allow_failure: obj.allow_failure,
                        declaration: decl,
                    },
                ),
            }
        },
    }
}

/// A command entry normalized: a string is a shell command.
pub open spec fn command_entry_spec(
    s: FsSnapshot,
    worktree: Seq<char>,
    entry: RawCommandEntryView,
    decl: SourceSpan,
) -> Result<CommandOperationView, Seq<char>> {
    match entry {
        RawCommandEntryView::Run(r) => command_object_spec(
            s,
            worktree,
            RawCommandObjectView { run: Some(r), ..empty_command_object() },
            decl,
        ),
        RawCommandEntryView::Object(o) => command_object_spec(s, worktree, o, decl),
    }
}

/// A normalization failure: its message and the byte offset it points at.
pub type NormFailure = (Seq<char>, usize);

/// `copy`, `symlink` or `sync` entries of a prefix normalized in order.
pub open spec fn file_group_prefix(
    s: FsSnapshot,
    content: Seq<char>,
    root: Seq<char>,
    worktree: Seq<char>,
    op: FileOperationKind,
    es: Seq<(RawFileEntryView, Span)>,
    default_ignore: Seq<Seq<char>>,
) -> Result<Seq<FileOperationView>, NormFailure>
    decreases es.len(),
{
    if es.len() == 0 {
        Ok(Seq::empty())
    } else {
        match file_group_prefix(s, content, root, worktree, op, es.drop_last(), default_ignore) {
            Err(x) => Err(x),
            Ok(acc) => {
                let span = es.last().1;
                let decl = span_from_range(content, span.start, span.end);
                match file_entry_spec(s, root, worktree, op, es.last().0, decl, default_ignore) {
                    Ok(f) => Ok(acc.push(f)),
                    Err(m) => Err((m, span.start)),
                }
            },
        }
    }
}

/// `files` or `[[file]]` entries of a prefix normalized in order.
pub open spec fn mixed_group_prefix(
    s: FsSnapshot,
    content: Seq<char>,
    root: Seq<char>,
    worktree: Seq<char>,
    es: Seq<(RawFileObjectView, Span)>,
    default_ignore: Seq<Seq<char>>,
) -> Result<Seq<FileOperationView>, NormFailure>
    decreases es.len(),
{
    if es.len() == 0 {
        Ok(Seq::empty())
    } else {
        match mixed_group_prefix(s, content, root, worktree, es.drop_last(), default_ignore) {
            Err(x) => Err(x),
            Ok(acc) => {
                let span = es.last().1;
                let decl = span_from_range(content, span.start, span.end);
                match mixed_entry_spec(s, root, worktree, es.last().0, decl, default_ignore) {
                    Ok(f) => Ok(acc.push(f)),
                    Err(m) => Err((m, span.start)),
                }
            },
        }
    }
}

/// `commands` entries of a prefix normalized in order.
pub open spec fn command_entries_prefix(
    s: FsSnapshot,
    content: Seq<char>,
    worktree: Seq<char>,
    es: Seq<(RawCommandEntryView, Span)>,
) -> Result<Seq<CommandOperationView>, NormFailure>
    decreases es.len(),
{
    if es.len() == 0 {
        Ok(Seq::empty())
    } else {
        match command_entries_prefix(s, content, worktree, es.drop_last()) {
            Err(x) => Err(x),
            Ok(acc) => {
                let span = es.last().1;
                let decl = span_from_range(content, span.start, span.end);
                match command_entry_spec(s, worktree, es.last().0, decl) {
                    Ok(c) => Ok(acc.push(c)),
                    Err(m) => Err((m, span.start)),
                }
            },
        }
    }
}

/// `[[command]]` tables of a prefix normalized in order.
pub open spec fn command_objects_prefix(
    s: FsSnapshot,
    content: Seq<char>,
    worktree: Seq<char>,
    es: Seq<(RawCommandObjectView, Span)>,
) -> Result<Seq<CommandOperationView>, NormFailure>
    decreases es.len(),
{
    if es.len() == 0 {
        Ok(Seq::empty())
    } else {
        match command_objects_prefix(s, content, worktree, es.drop_last()) {
            Err(x) => Err(x),
            Ok(acc) => {
                let span = es.last().1;
                let decl = span_from_range(content, span.start, span.end);
                match command_object_spec(s, worktree, es.last().0, decl) {
                    Ok(c) => Ok(acc.push(c)),
                    Err(m) => Err((m, span.start)),
                }
            },
        }
    }
}

/// The normalized config of raw declarations: file operations in the order
/// `copy`, `symlink`, `sync`, `files`, `[[file]]`, each group in declaration
/// order; commands in the order `commands`, `[[command]]`.
pub open spec fn normalize_config_spec(
    s: FsSnapshot,
    content: Seq<char>,
    root: Seq<char>,
    worktree: Seq<char>,
    raw: RawConfigView,
) -> Result<ConfigView, NormFailure> {
    let di = raw.default_ignore;
    match file_group_prefix(s, content, root, worktree, FileOperationKind::Copy, raw.copy, di) {
        Err(x) => Err(x),
        Ok(a) => match file_group_prefix(s, content, root, worktree, FileOperationKind::Symlink, raw.symlink, di) {
            Err(x) => Err(x),
            Ok(b) => match file_group_prefix(s, content, root, worktree, FileOperationKind::Sync, raw.sync, di) {
                Err(x) => Err(x),
                Ok(c) => match mixed_group_prefix(s, content, root, worktree, raw.files, di) {
                    Err(x) => Err(x),
                    Ok(d) => match mixed_group_prefix(s, content, root, worktree, raw.file, di) {
                        Err(x) => Err(x),
                        Ok(f) => match command_entries_prefix(s, content, worktree, raw.commands) {
                            Err(x) => Err(x),
                            Ok(g) => match command_objects_prefix(s, content, worktree, raw.command) {
                                Err(x) => Err(x),
                                Ok(h) => Ok(
                                    ConfigView {
                                        options: RuntimeOptionsView {
                                            strict: raw.strict,
                                            default_ignore: di,
                                            dangerously_allow_sources_outside_root: raw.dangerously_allow_sources_outside_root,
                                            dangerously_allow_targets_outside_worktree: raw.dangerously_allow_targets_outside_worktree,
                                        },
                                        files: a + b + c + d + f,
                                        commands: g + h,
                                    },
                                ),
                            },
                        },
                    },
                },
            },
        },
    }
}

/// Why a config was rejected: unreadable as TOML or against the schema
/// (`Parse`), or declarations that do not normalize (`Invalid`).
pub enum ConfigFailure {
    Parse(Seq<char>),
    Invalid(Seq<char>),
}

/// The message of a TOML syntax error with its location, when known.
pub open spec fn syntax_message_spec(content: Seq<char>, e: TomlSyntaxError) -> Seq<char> {
    match e.span {
        Some(span) => located(e.message@, content, span.start as int),
        None => e.message@,
    }
}

/// The outcome of parsing `content` as a treeboot config for `context`: TOML
/// syntax, then the schema, then normalization, the first failure reported
/// with its location.
pub open spec fn parse_config_spec(
    s: FsSnapshot,
    content: Seq<char>,
    root: Seq<char>,
    worktree: Seq<char>,
) -> Result<ConfigView, ConfigFailure> {
    match toml_document(content) {
        Err(e) => Err(ConfigFailure::Parse(syntax_message_spec(content, e))),
        Ok(doc) => match decode_config_spec(doc) {
            Err(d) => Err(ConfigFailure::Parse(located(d.message, content, d.span.start as int))),
            Ok(raw) => match normalize_config_spec(s, content, root, worktree, raw) {
                Err(x) => Err(ConfigFailure::Invalid(located(x.0, content, x.1 as int))),
                Ok(c) => Ok(c),
            },
        },
    }
}

fn copy_opt_string(o: &Option<String>) -> (res: Option<String>)
    ensures
        opt_view(res) == opt_view(*o),
{
    match o {
        Some(s) => Some(s.clone()),
        None => None,
    }
}

fn misplaced_setting(f: InvalidFileOperationField) -> (res: String)
    ensures
        res@ == misplaced_setting_message(f),
{
    let mut r = owned("`");
    r.append(f.name());
    r.append("` is only valid for ");
    r.append(f.allowed_operations());
    r.append(" file operations");
    r
}

/// Normalizes one file operation declaration.
pub fn normalize_file_object(
    s: &FsSnapshot,
    root: &str,
    worktree: &str,
    op: FileOperationKind,
    obj: &RawFileObject,
    decl: SourceSpan,
    default_ignore: &Vec<String>,
) -> (res: Result<FileOperation, String>)
    ensures
        match res {
            Ok(f) => file_object_spec(*s, root@, worktree@, op, obj@, decl, string_views(default_ignore@))
                == Ok::<FileOperationView, Seq<char>>(f@),
            Err(m) => file_object_spec(*s, root@, worktree@, op, obj@, decl, string_views(default_ignore@))
                == Err::<FileOperationView, Seq<char>>(m@),
        },
{
    let source = match &obj.source {
        Some(v) => v.clone(),
        None => {
            return Err(owned("file operation is missing required `source`"));
        },
    };
    let target = match &obj.target {
        Some(t) => t.clone(),
        None => source.clone(),
    };
    let settings = match normalize_file_operation_settings(
        op,
        FileOperationSettingsInput {
            compare: obj.compare,
            delete: obj.delete,
            symlinks: obj.symlinks,
            ignore: copy_strings(&obj.ignore),
            ignore_metadata: obj.ignore_metadata.clone(),
        },
    ) {
        Ok(s) => s,
        Err(f) => {
            return Err(misplaced_setting(f));
        },
    };
    let glob = match obj.glob {
        Some(g) => g,
        None => true,
    } && is_glob_source(source.as_str());
    let source_path = match resolve_path(s, root, source.as_str()) {
        Ok(p) => p,
        Err(m) => {
            return Err(m);
        },
    };
    let target_path = match resolve_target_path(s, worktree, target.as_str()) {
        Ok(p) => p,
        Err(m) => {
            return Err(m);
        },
    };
    let ignore = effective_ignore_patterns(op, default_ignore, settings.ignore);
    let res = FileOperation {
        operation: op,
        source,
        target,
        source_path,
        target_path,
        required: obj.required,
        glob,
        compare: settings.compare,
        delete: settings.delete,
        symlinks: settings.symlinks,
        ignore,
        ignore_metadata: settings.ignore_metadata,
        ignore_prefix: String::new(),
        declaration: decl,
    };
    Ok(res)
}

fn path_entry_object(source: &String) -> (res: RawFileObject)
    ensures
        res@ == (RawFileObjectView { source: Some(source@), ..empty_file_object() }),
{
    let res = RawFileObject {
        operation: None,
        source: Some(source.clone()),
        target: None,
        required: false,
        glob: None,
        compare: None,
        delete: None,
        symlinks: None,
        ignore: Vec::new(),
        ignore_metadata: Vec::new(),
    };
    assert(string_views(res.ignore@) =~= Seq::<Seq<char>>::empty());
    assert(res.ignore_metadata@ =~= Seq::<RawMetadataField>::empty());
    res
}

/// Normalizes an entry of `copy`, `symlink` or `sync`.
pub fn normalize_file_entry(
    s: &FsSnapshot,
    root: &str,
    worktree: &str,
    op: FileOperationKind,
    entry: &RawFileEntry,
    decl: SourceSpan,
    default_ignore: &Vec<String>,
) -> (res: Result<FileOperation, String>)
    ensures
        match res {
            Ok(f) => file_entry_spec(*s, root@, worktree@, op, entry@, decl, string_views(default_ignore@))
                == Ok::<FileOperationView, Seq<char>>(f@),
            Err(m) => file_entry_spec(*s, root@, worktree@, op, entry@, decl, string_views(default_ignore@))
                == Err::<FileOperationView, Seq<char>>(m@),
        },
{
    match entry {
        RawFileEntry::Path(source) => {
            let obj = path_entry_object(source);
            normalize_file_object(s, root, worktree, op, &obj, decl, default_ignore)
        },
        RawFileEntry::Object(o) => {
            if o.operation.is_some() {
                return Err(owned("`operation` is only valid in `files` and `[[file]]` entries"));
            }
            normalize_file_object(s, root, worktree, op, o, decl, default_ignore)
        },
    }
}

/// The kind of an entry of `files` or `[[file]]`, which must declare one.
pub fn required_operation(op: Option<FileOperationKind>) -> (res: Result<FileOperationKind, String>)
    ensures
        match res {
            Ok(k) => op == Some(k),
            Err(m) => op.is_none() && m@ == "file operation is missing required `operation`"@,
        },
{
    match op {
        Some(k) => Ok(k),
        None => Err(owned("file operation is missing required `operation`")),
    }
}

/// Normalizes an entry of `files` or `[[file]]`.
pub fn normalize_mixed_entry(
    s: &FsSnapshot,
    root: &str,
    worktree: &str,
    obj: &RawFileObject,
    decl: SourceSpan,
    default_ignore: &Vec<String>,
) -> (res: Result<FileOperation, String>)
    ensures
        match res {
            Ok(f) => mixed_entry_spec(*s, root@, worktree@, obj@, decl, string_views(default_ignore@))
                == Ok::<FileOperationView, Seq<char>>(f@),
            Err(m) => mixed_entry_spec(*s, root@, worktree@, obj@, decl, string_views(default_ignore@))
                == Err::<FileOperationView, Seq<char>>(m@),
        },
{
    let op = required_operation(obj.operation)?;
    normalize_file_object(s, root, worktree, op, obj, decl, default_ignore)
}

fn copy_opt_strings(o: &Option<Vec<String>>) -> (res: Option<Vec<String>>)
    ensures
        opt_strings_view(res) == opt_strings_view(*o),
{
    match o {
        Some(v) => Some(copy_strings(v)),
        None => None,
    }
}

fn copy_pairs(v: &Vec<(String, String)>) -> (res: Vec<(String, String)>)
    ensures
        pair_views(res@) == pair_views(v@),
{
    let mut res: Vec<(String, String)> = Vec::new();
    let mut i: usize = 0;
    while i < v.len()
        invariant
            i <= v.len(),
            pair_views(res@) == pair_views(v@).take(i as int),
        decreases v.len() - i,
    {
        let ghost before = pair_views(res@);
        res.push((v[i].0.clone(), v[i].1.clone()));
        assert(pair_views(res@) =~= before.push((v@[i as int].0@, v@[i as int].1@)));
        assert(pair_views(v@).take(i + 1) =~= pair_views(v@).take(i as int).push(
            (v@[i as int].0@, v@[i as int].1@),
        ));
        i = i + 1;
    }
    assert(pair_views(v@).take(v.len() as int) =~= pair_views(v@));
    res
}

/// Normalizes a command declaration.
pub fn normalize_command_object(s: &FsSnapshot, worktree: &str, obj: &RawCommandObject, decl: SourceSpan) -> (res:
    Result<CommandOperation, String>)
    ensures
        match res {
            Ok(c) => command_object_spec(*s, worktree@, obj@, decl) == Ok::<CommandOperationView, Seq<char>>(c@),
            Err(m) => command_object_spec(*s, worktree@, obj@, decl) == Err::<CommandOperationView, Seq<char>>(m@),
        },
{
    let command = match (&obj.run, &obj.program) {
        (Some(_), Some(_)) => {
            return Err(owned("`run` and `program` are mutually exclusive"));
        },
        (Some(run), None) => {
            if obj.args.is_some() {
                return Err(owned("`args` requires `program`"));
            }
            CommandKind::Shell { run: run.clone() }
        },
        (None, Some(program)) => {
            let args = match &obj.args {
                Some(a) => copy_strings(a),
                None => {
                    let empty: Vec<String> = Vec::new();
                    assert(string_views(empty@) =~= Seq::<Seq<char>>::empty());
                    empty
                },
            };
            CommandKind::Direct { program: program.clone(), args }
        },
        (None, None) => {
            return Err(owned("command is missing required `run` or `program`"));
        },
    };
    let cwd_path = match &obj.cwd {
        Some(c) => match resolve_path(s, worktree, c.as_str()) {
            Ok(p) => Some(p),
            Err(m) => {
                return Err(m);
            },
        },
        None => None,
    };
    Ok(CommandOperation {
        name: copy_opt_string(&obj.name),
        command,
        cwd: copy_opt_string(&obj.cwd),
        cwd_path,
        env: copy_pairs(&obj.env),
        allow_failure: obj.allow_failure,
        declaration: decl,
    })
}

fn run_entry_object(run: &String) -> (res: RawCommandObject)
    ensures
        res@ == (RawCommandObjectView { run: Some(run@), ..empty_command_object() }),
{
    let res = RawCommandObject {
        name: None,
        run: Some(run.clone()),
        program: None,
        args: None,
        cwd: None,
        env: Vec::new(),
        allow_failure: false,
    };
    assert(pair_views(res.env@) =~= Seq::<(Seq<char>, Seq<char>)>::empty());
    res
}

/// Normalizes a `commands` entry.
pub fn normalize_command_entry(s: &FsSnapshot, worktree: &str, entry: &RawCommandEntry, decl: SourceSpan) -> (res:
    Result<CommandOperation, String>)
    ensures
        match res {
            Ok(c) => command_entry_spec(*s, worktree@, entry@, decl) == Ok::<CommandOperationView, Seq<char>>(c@),
            Err(m) => command_entry_spec(*s, worktree@, entry@, decl) == Err::<CommandOperationView, Seq<char>>(m@),
        },
{
    match entry {
        RawCommandEntry::Run(r) => {
            let obj = run_entry_object(r);
            normalize_command_object(s, worktree, &obj, decl)
        },
        RawCommandEntry::Object(o) => normalize_command_object(s, worktree, o, decl),
    }
}


proof fn lemma_normalize_file_group_error_extends(s: FsSnapshot, content: Seq<char>, root: Seq<char>, worktree: Seq<char>, op: FileOperationKind, di: Seq<Seq<char>>, es: Seq<(RawFileEntryView, Span)>, n: int, e: NormFailure)
    requires
        0 <= n <= es.len(),
        file_group_prefix(s, content, root, worktree, op, es.take(n), di) == Err::<Seq<FileOperationView>, NormFailure>(e),
    ensures
        file_group_prefix(s, content, root, worktree, op, es, di) == Err::<Seq<FileOperationView>, NormFailure>(e),
    decreases es.len() - n,
{
    if n < es.len() {
        assert(es.take(n + 1).drop_last() =~= es.take(n));
        lemma_normalize_file_group_error_extends(s, content, root, worktree, op, di, es, n + 1, e);
    } else {
        assert(es.take(n) =~= es);
    }
}

/// Normalizes the entries of `copy`, `symlink` or `sync` in declaration order; the first failure is reported with the offset of its entry.
pub fn normalize_file_group(s: &FsSnapshot, content: &str, root: &str, worktree: &str, op: FileOperationKind, default_ignore: &Vec<String>, es: &Vec<(RawFileEntry, Span)>) -> (res: Result<Vec<FileOperation>, (String, usize)>)
    requires
        content@.len() < usize::MAX,
    ensures
        match res {
            Ok(v) => file_group_prefix(*s, content@, root@, worktree@, op, crate::config_schema::decode_file_entries_views(es@), string_views(default_ignore@)) == Ok::<Seq<FileOperationView>, NormFailure>(
                v@.map_values(|x: FileOperation| x@),
            ),
            Err(x) => file_group_prefix(*s, content@, root@, worktree@, op, crate::config_schema::decode_file_entries_views(es@), string_views(default_ignore@)) == Err::<Seq<FileOperationView>, NormFailure>((x.0@, x.1)),
        },
{
    let ghost views = crate::config_schema::decode_file_entries_views(es@);
    let mut out: Vec<FileOperation> = Vec::new();
    proof {
        assert(views.take(0) =~= Seq::<(RawFileEntryView, Span)>::empty());
        assert(out@.map_values(|x: FileOperation| x@) =~= Seq::<FileOperationView>::empty());
    }
    let mut i: usize = 0;
    while i < es.len()
        invariant
            i <= es.len(),
            content@.len() < usize::MAX,
            views == crate::config_schema::decode_file_entries_views(es@),
            file_group_prefix(*s, content@, root@, worktree@, op, views.take(i as int), string_views(default_ignore@)) == Ok::<Seq<FileOperationView>, NormFailure>(
                out@.map_values(|x: FileOperation| x@),
            ),
        decreases es.len() - i,
    {
        proof {
            assert(views.take(i + 1).drop_last() =~= views.take(i as int));
            assert(views.take(i + 1).last() == views[i as int]);
        }
        let span = es[i].1;
        let decl = SourceSpan::from_range(content, span.start, span.end);
        match normalize_file_entry(s, root, worktree, op, &es[i].0, decl, default_ignore) {
            Ok(f) => {
                let ghost before = out@.map_values(|x: FileOperation| x@);
                let ghost fv = f@;
                out.push(f);
                assert(out@.map_values(|x: FileOperation| x@) =~= before.push(fv));
            },
            Err(m) => {
                proof {
                    lemma_normalize_file_group_error_extends(*s, content@, root@, worktree@, op, string_views(default_ignore@), views, i + 1, (m@, span.start));
                }
                return Err((m, span.start));
            },
        }
        i = i + 1;
    }
    assert(views.take(es.len() as int) =~= views);
    Ok(out)
}

proof fn lemma_normalize_mixed_group_error_extends(s: FsSnapshot, content: Seq<char>, root: Seq<char>, worktree: Seq<char>, di: Seq<Seq<char>>, es: Seq<(RawFileObjectView, Span)>, n: int, e: NormFailure)
    requires
        0 <= n <= es.len(),
        mixed_group_prefix(s, content, root, worktree, es.take(n), di) == Err::<Seq<FileOperationView>, NormFailure>(e),
    ensures
        mixed_group_prefix(s, content, root, worktree, es, di) == Err::<Seq<FileOperationView>, NormFailure>(e),
    decreases es.len() - n,
{
    if n < es.len() {
        assert(es.take(n + 1).drop_last() =~= es.take(n));
        lemma_normalize_mixed_group_error_extends(s, content, root, worktree, di, es, n + 1, e);
    } else {
        assert(es.take(n) =~= es);
    }
}

/// Normalizes the entries of `files` or `[[file]]` in declaration order.
pub fn normalize_mixed_group(s: &FsSnapshot, content: &str, root: &str, worktree: &str, default_ignore: &Vec<String>, es: &Vec<(RawFileObject, Span)>) -> (res: Result<Vec<FileOperation>, (String, usize)>)
    requires
        content@.len() < usize::MAX,
    ensures
        match res {
            Ok(v) => mixed_group_prefix(*s, content@, root@, worktree@, crate::config_schema::decode_file_objects_views(es@), string_views(default_ignore@)) == Ok::<Seq<FileOperationView>, NormFailure>(
                v@.map_values(|x: FileOperation| x@),
            ),
            Err(x) => mixed_group_prefix(*s, content@, root@, worktree@, crate::config_schema::decode_file_objects_views(es@), string_views(default_ignore@)) == Err::<Seq<FileOperationView>, NormFailure>((x.0@, x.1)),
        },
{
    let ghost views = crate::config_schema::decode_file_objects_views(es@);
    let mut out: Vec<FileOperation> = Vec::new();
    proof {
        assert(views.take(0) =~= Seq::<(RawFileObjectView, Span)>::empty());
        assert(out@.map_values(|x: FileOperation| x@) =~= Seq::<FileOperationView>::empty());
    }
    let mut i: usize = 0;
    while i < es.len()
        invariant
            i <= es.len(),
            content@.len() < usize::MAX,
            views == crate::config_schema::decode_file_objects_views(es@),
            mixed_group_prefix(*s, content@, root@, worktree@, views.take(i as int), string_views(default_ignore@)) == Ok::<Seq<FileOperationView>, NormFailure>(
                out@.map_values(|x: FileOperation| x@),
            ),
        decreases es.len() - i,
    {
        proof {
            assert(views.take(i + 1).drop_last() =~= views.take(i as int));
            assert(views.take(i + 1).last() == views[i as int]);
        }
        let span = es[i].1;
        let decl = SourceSpan::from_range(content, span.start, span.end);
        match normalize_mixed_entry(s, root, worktree, &es[i].0, decl, default_ignore) {
            Ok(f) => {
                let ghost before = out@.map_values(|x: FileOperation| x@);
                let ghost fv = f@;
                out.push(f);
                assert(out@.map_values(|x: FileOperation| x@) =~= before.push(fv));
            },
            Err(m) => {
                proof {
                    lemma_normalize_mixed_group_error_extends(*s, content@, root@, worktree@, string_views(default_ignore@), views, i + 1, (m@, span.start));
                }
                return Err((m, span.start));
            },
        }
        i = i + 1;
    }
    assert(views.take(es.len() as int) =~= views);
    Ok(out)
}

proof fn lemma_normalize_command_entries_error_extends(s: FsSnapshot, content: Seq<char>, worktree: Seq<char>, es: Seq<(RawCommandEntryView, Span)>, n: int, e: NormFailure)
    requires
        0 <= n <= es.len(),
        command_entries_prefix(s, content, worktree, es.take(n)) == Err::<Seq<CommandOperationView>, NormFailure>(e),
    ensures
        command_entries_prefix(s, content, worktree, es) == Err::<Seq<CommandOperationView>, NormFailure>(e),
    decreases es.len() - n,
{
    if n < es.len() {
        assert(es.take(n + 1).drop_last() =~= es.take(n));
        lemma_normalize_command_entries_error_extends(s, content, worktree, es, n + 1, e);
    } else {
        assert(es.take(n) =~= es);
    }
}

/// Normalizes the entries of `commands` in declaration order.
pub fn normalize_command_entries(s: &FsSnapshot, content: &str, worktree: &str, es: &Vec<(RawCommandEntry, Span)>) -> (res: Result<Vec<CommandOperation>, (String, usize)>)
    requires
        content@.len() < usize::MAX,
    ensures
        match res {
            Ok(v) => command_entries_prefix(*s, content@, worktree@, crate::config_schema::decode_command_entries_views(es@)) == Ok::<Seq<CommandOperationView>, NormFailure>(
                v@.map_values(|x: CommandOperation| x@),
            ),
            Err(x) => command_entries_prefix(*s, content@, worktree@, crate::config_schema::decode_command_entries_views(es@)) == Err::<Seq<CommandOperationView>, NormFailure>((x.0@, x.1)),
        },
{
    let ghost views = crate::config_schema::decode_command_entries_views(es@);
    let mut out: Vec<CommandOperation> = Vec::new();
    proof {
        assert(views.take(0) =~= Seq::<(RawCommandEntryView, Span)>::empty());
        assert(out@.map_values(|x: CommandOperation| x@) =~= Seq::<CommandOperationView>::empty());
    }
    let mut i: usize = 0;
    while i < es.len()
        invariant
            i <= es.len(),
            content@.len() < usize::MAX,
            views == crate::config_schema::decode_command_entries_views(es@),
            command_entries_prefix(*s, content@, worktree@, views.take(i as int)) == Ok::<Seq<CommandOperationView>, NormFailure>(
                out@.map_values(|x: CommandOperation| x@),
            ),
        decreases es.len() - i,
    {
        proof {
            assert(views.take(i + 1).drop_last() =~= views.take(i as int));
            assert(views.take(i + 1).last() == views[i as int]);
        }
        let span = es[i].1;
        let decl = SourceSpan::from_range(content, span.start, span.end);
        match normalize_command_entry(s, worktree, &es[i].0, decl) {
            Ok(f) => {
                let ghost before = out@.map_values(|x: CommandOperation| x@);
                let ghost fv = f@;
                out.push(f);
                assert(out@.map_values(|x: CommandOperation| x@) =~= before.push(fv));
            },
            Err(m) => {
                proof {
                    lemma_normalize_command_entries_error_extends(*s, content@, worktree@, views, i + 1, (m@, span.start));
                }
                return Err((m, span.start));
            },
        }
        i = i + 1;
    }
    assert(views.take(es.len() as int) =~= views);
    Ok(out)
}

proof fn lemma_normalize_command_tables_error_extends(s: FsSnapshot, content: Seq<char>, worktree: Seq<char>, es: Seq<(RawCommandObjectView, Span)>, n: int, e: NormFailure)
    requires
        0 <= n <= es.len(),
        command_objects_prefix(s, content, worktree, es.take(n)) == Err::<Seq<CommandOperationView>, NormFailure>(e),
    ensures
        command_objects_prefix(s, content, worktree, es) == Err::<Seq<CommandOperationView>, NormFailure>(e),
    decreases es.len() - n,
{
    if n < es.len() {
        assert(es.take(n + 1).drop_last() =~= es.take(n));
        lemma_normalize_command_tables_error_extends(s, content, worktree, es, n + 1, e);
    } else {
        assert(es.take(n) =~= es);
    }
}

/// Normalizes the `[[command]]` tables in declaration order.
pub fn normalize_command_tables(s: &FsSnapshot, content: &str, worktree: &str, es: &Vec<(RawCommandObject, Span)>) -> (res: Result<Vec<CommandOperation>, (String, usize)>)
    requires
        content@.len() < usize::MAX,
    ensures
        match res {
            Ok(v) => command_objects_prefix(*s, content@, worktree@, crate::config_schema::decode_command_objects_views(es@)) == Ok::<Seq<CommandOperationView>, NormFailure>(
                v@.map_values(|x: CommandOperation| x@),
            ),
            Err(x) => command_objects_prefix(*s, content@, worktree@, crate::config_schema::decode_command_objects_views(es@)) == Err::<Seq<CommandOperationView>, NormFailure>((x.0@, x.1)),
        },
{
    let ghost views = crate::config_schema::decode_command_objects_views(es@);
    let mut out: Vec<CommandOperation> = Vec::new();
    proof {
        assert(views.take(0) =~= Seq::<(RawCommandObjectView, Span)>::empty());
        assert(out@.map_values(|x: CommandOperation| x@) =~= Seq::<CommandOperationView>::empty());
    }
    let mut i: usize = 0;
    while i < es.len()
        invariant
            i <= es.len(),
            content@.len() < usize::MAX,
            views == crate::config_schema::decode_command_objects_views(es@),
            command_objects_prefix(*s, content@, worktree@, views.take(i as int)) == Ok::<Seq<CommandOperationView>, NormFailure>(
                out@.map_values(|x: CommandOperation| x@),
            ),
        decreases es.len() - i,
    {
        proof {
            assert(views.take(i + 1).drop_last() =~= views.take(i as int));
            assert(views.take(i + 1).last() == views[i as int]);
        }
        let span = es[i].1;
        let decl = SourceSpan::from_range(content, span.start, span.end);
        match normalize_command_object(s, worktree, &es[i].0, decl) {
            Ok(f) => {
                let ghost before = out@.map_values(|x: CommandOperation| x@);
                let ghost fv = f@;
                out.push(f);
                assert(out@.map_values(|x: CommandOperation| x@) =~= before.push(fv));
            },
            Err(m) => {
                proof {
                    lemma_normalize_command_tables_error_extends(*s, content@, worktree@, views, i + 1, (m@, span.start));
                }
                return Err((m, span.start));
            },
        }
        i = i + 1;
    }
    assert(views.take(es.len() as int) =~= views);
    Ok(out)
}

fn append_ops<T>(dst: &mut Vec<T>, src: Vec<T>)
    ensures
        final(dst)@ == old(dst)@ + src@,
{
    let mut src = src;
    dst.append(&mut src);
}

fn syntax_error_message(content: &str, e: &TomlSyntaxError) -> (res: String)
    requires
        content@.len() < usize::MAX,
    ensures
        res@ == syntax_message_spec(content@, *e),
{
    match e.span {
        Some(span) => {
            let mut m = e.message.clone();
            m.append(" ");
            let suffix = location_suffix(content, span.start);
            m.append(suffix.as_str());
            m
        },
        None => e.message.clone(),
    }
}

fn located_message(message: &str, content: &str, offset: usize) -> (res: String)
    requires
        content@.len() < usize::MAX,
    ensures
        res@ == located(message@, content@, offset as int),
{
    let mut m = owned(message);
    m.append(" ");
    let suffix = location_suffix(content, offset);
    m.append(suffix.as_str());
    m
}

/// Normalizes raw declarations into a config.
pub fn normalize_config(s: &FsSnapshot, content: &str, context: &Worktree, raw: &RawConfig) -> (res: Result<Config, (String, usize)>)
    requires
        content@.len() < usize::MAX,
    ensures
        match res {
            Ok(c) => normalize_config_spec(*s, content@, context.root_path@, context.worktree_path@, raw@)
                == Ok::<ConfigView, NormFailure>(c@),
            Err(x) => normalize_config_spec(*s, content@, context.root_path@, context.worktree_path@, raw@)
                == Err::<ConfigView, NormFailure>((x.0@, x.1)),
        },
{
    let root = context.root_path.as_str();
    let worktree = context.worktree_path.as_str();
    let di = &raw.default_ignore;
    let a = normalize_file_group(s, content, root, worktree, FileOperationKind::Copy, di, &raw.copy)?;
    let b = normalize_file_group(s, content, root, worktree, FileOperationKind::Symlink, di, &raw.symlink)?;
    let c = normalize_file_group(s, content, root, worktree, FileOperationKind::Sync, di, &raw.sync)?;
    let d = normalize_mixed_group(s, content, root, worktree, di, &raw.files)?;
    let f = normalize_mixed_group(s, content, root, worktree, di, &raw.file)?;
    let g = normalize_command_entries(s, content, worktree, &raw.commands)?;
    let h = normalize_command_tables(s, content, worktree, &raw.command)?;
    let ghost (av, bv, cv, dv, fv, gv, hv) = (
        a@.map_values(|x: FileOperation| x@),
        b@.map_values(|x: FileOperation| x@),
        c@.map_values(|x: FileOperation| x@),
        d@.map_values(|x: FileOperation| x@),
        f@.map_values(|x: FileOperation| x@),
        g@.map_values(|x: CommandOperation| x@),
        h@.map_values(|x: CommandOperation| x@),
    );
    let mut files = a;
    append_ops(&mut files, b);
    append_ops(&mut files, c);
    append_ops(&mut files, d);
    append_ops(&mut files, f);
    let mut commands = g;
    append_ops(&mut commands, h);
    let res = Config {
        options: ConfigRuntimeOptions {
            strict: raw.strict,
            default_ignore: copy_strings(&raw.default_ignore),
            dangerously_allow_sources_outside_root: raw.dangerously_allow_sources_outside_root,
            dangerously_allow_targets_outside_worktree: raw.dangerously_allow_targets_outside_worktree,
        },
        files,
        commands,
    };
    assert(res@.files =~= av + bv + cv + dv + fv);
    assert(res@.commands =~= gv + hv);
    Ok(res)
}

/// The paths that resolving a file declaration looks up: the source joined
/// to the root, the target (the source when none is given) joined to the
/// worktree, and that target's parent.
pub open spec fn file_paths(
    root: Seq<char>,
    worktree: Seq<char>,
    source: Option<Seq<char>>,
    target: Option<Seq<char>>,
) -> Seq<Seq<char>> {
    match source {
        None => Seq::empty(),
        Some(src) => {
            let t = join(
                worktree,
                match target {
                    Some(t) => t,
                    None => src,
                },
            );
            seq![
                join(root, src),
                t,
                match parent_spec(t) {
                    Some(q) => q,
                    None => seq!['.'],
                },
            ]
        },
    }
}

/// The paths that resolving an entry of `copy`, `symlink` or `sync` looks up.
pub open spec fn file_entry_paths(root: Seq<char>, worktree: Seq<char>, e: RawFileEntryView) -> Seq<Seq<char>> {
    match e {
        RawFileEntryView::Path(src) => file_paths(root, worktree, Some(src), None),
        RawFileEntryView::Object(o) => file_paths(root, worktree, o.source, o.target),
    }
}

/// The paths that resolving a command looks up: its working directory
/// joined to the worktree.
pub open spec fn command_paths(worktree: Seq<char>, cwd: Option<Seq<char>>) -> Seq<Seq<char>> {
    match cwd {
        Some(c) => seq![join(worktree, c)],
        None => Seq::empty(),
    }
}

/// The paths that resolving a `commands` entry looks up.
pub open spec fn command_entry_paths(worktree: Seq<char>, e: RawCommandEntryView) -> Seq<Seq<char>> {
    match e {
        RawCommandEntryView::Run(_) => Seq::empty(),
        RawCommandEntryView::Object(o) => command_paths(worktree, o.cwd),
    }
}

/// The paths of `copy`, `symlink` or `sync` entries, in order.
pub open spec fn file_entries_paths(root: Seq<char>, worktree: Seq<char>, es: Seq<(RawFileEntryView, Span)>) -> Seq<
    Seq<char>,
>
    decreases es.len(),
{
    if es.len() == 0 {
        Seq::empty()
    } else {
        file_entries_paths(root, worktree, es.drop_last()) + file_entry_paths(root, worktree, es.last().0)
    }
}

/// The paths of `files` or `[[file]]` entries, in order.
pub open spec fn file_objects_paths(root: Seq<char>, worktree: Seq<char>, es: Seq<(RawFileObjectView, Span)>) -> Seq<
    Seq<char>,
>
    decreases es.len(),
{
    if es.len() == 0 {
        Seq::empty()
    } else {
        file_objects_paths(root, worktree, es.drop_last()) + file_paths(
            root,
            worktree,
            es.last().0.source,
            es.last().0.target,
        )
    }
}

/// The paths of `commands` entries, in order.
pub open spec fn command_entries_paths(worktree: Seq<char>, es: Seq<(RawCommandEntryView, Span)>) -> Seq<Seq<char>>
    decreases es.len(),
{
    if es.len() == 0 {
        Seq::empty()
    } else {
        command_entries_paths(worktree, es.drop_last()) + command_entry_paths(worktree, es.last().0)
    }
}

/// The paths of `[[command]]` tables, in order.
pub open spec fn command_objects_paths(worktree: Seq<char>, es: Seq<(RawCommandObjectView, Span)>) -> Seq<Seq<char>>
    decreases es.len(),
{
    if es.len() == 0 {
        Seq::empty()
    } else {
        command_objects_paths(worktree, es.drop_last()) + command_paths(worktree, es.last().0.cwd)
    }
}

/// Every path that normalizing the declarations of a config looks up on
/// disk, group by group in normalization order.
pub open spec fn config_paths_spec(root: Seq<char>, worktree: Seq<char>, raw: RawConfigView) -> Seq<Seq<char>> {
    file_entries_paths(root, worktree, raw.copy) + file_entries_paths(root, worktree, raw.symlink)
        + file_entries_paths(root, worktree, raw.sync) + file_objects_paths(root, worktree, raw.files)
        + file_objects_paths(root, worktree, raw.file) + command_entries_paths(worktree, raw.commands)
        + command_objects_paths(worktree, raw.command)
}

fn push_file_paths(out: &mut Vec<String>, root: &str, worktree: &str, source: &Option<String>, target: &Option<String>)
    ensures
        string_views(final(out)@) == string_views(old(out)@) + file_paths(
            root@,
            worktree@,
            opt_view(*source),
            opt_view(*target),
        ),
{
    let ghost before = string_views(out@);
    match source {
        None => {
            assert(string_views(out@) =~= before + Seq::<Seq<char>>::empty());
        },
        Some(src) => {
            let t = match target {
                Some(t) => join_paths(worktree, t.as_str()),
                None => join_paths(worktree, src.as_str()),
            };
            let parent = parent_or_dot(t.as_str());
            out.push(join_paths(root, src.as_str()));
            out.push(t);
            out.push(parent);
            assert(string_views(out@) =~= before + file_paths(root@, worktree@, opt_view(*source), opt_view(*target)));
        },
    }
}

fn push_cwd_path(out: &mut Vec<String>, worktree: &str, cwd: &Option<String>)
    ensures
        string_views(final(out)@) == string_views(old(out)@) + command_paths(worktree@, opt_view(*cwd)),
{
    let ghost before = string_views(out@);
    match cwd {
        None => {
            assert(string_views(out@) =~= before + Seq::<Seq<char>>::empty());
        },
        Some(c) => {
            out.push(join_paths(worktree, c.as_str()));
            assert(string_views(out@) =~= before + command_paths(worktree@, opt_view(*cwd)));
        },
    }
}

fn push_file_entries_paths(out: &mut Vec<String>, root: &str, worktree: &str, es: &Vec<(RawFileEntry, Span)>)
    ensures
        string_views(final(out)@) == string_views(old(out)@) + file_entries_paths(
            root@,
            worktree@,
            crate::config_schema::decode_file_entries_views(es@),
        ),
{
    let ghost start = string_views(out@);
    let ghost views = crate::config_schema::decode_file_entries_views(es@);
    let mut i: usize = 0;
    assert(views.take(0) =~= Seq::<(RawFileEntryView, Span)>::empty());
    assert(string_views(out@) =~= start + file_entries_paths(root@, worktree@, views.take(0)));
    while i < es.len()
        invariant
            i <= es.len(),
            views == crate::config_schema::decode_file_entries_views(es@),
            string_views(out@) == start + file_entries_paths(root@, worktree@, views.take(i as int)),
        decreases es.len() - i,
    {
        proof {
            assert(views.take(i + 1).drop_last() =~= views.take(i as int));
            assert(views.take(i + 1).last() == views[i as int]);
        }
        let ghost mid = string_views(out@);
        match &es[i].0 {
            RawFileEntry::Path(src) => {
                let none: Option<String> = None;
                push_file_paths(out, root, worktree, &Some(src.clone()), &none);
            },
            RawFileEntry::Object(o) => {
                push_file_paths(out, root, worktree, &o.source, &o.target);
            },
        }
        assert(string_views(out@) =~= mid + file_entry_paths(root@, worktree@, views[i as int].0));
        i = i + 1;
    }
    assert(views.take(es.len() as int) =~= views);
}

fn push_file_objects_paths(out: &mut Vec<String>, root: &str, worktree: &str, es: &Vec<(RawFileObject, Span)>)
    ensures
        string_views(final(out)@) == string_views(old(out)@) + file_objects_paths(
            root@,
            worktree@,
            crate::config_schema::decode_file_objects_views(es@),
        ),
{
    let ghost start = string_views(out@);
    let ghost views = crate::config_schema::decode_file_objects_views(es@);
    let mut i: usize = 0;
    assert(views.take(0) =~= Seq::<(RawFileObjectView, Span)>::empty());
    assert(string_views(out@) =~= start + file_objects_paths(root@, worktree@, views.take(0)));
    while i < es.len()
        invariant
            i <= es.len(),
            views == crate::config_schema::decode_file_objects_views(es@),
            string_views(out@) == start + file_objects_paths(root@, worktree@, views.take(i as int)),
        decreases es.len() - i,
    {
        proof {
            assert(views.take(i + 1).drop_last() =~= views.take(i as int));
            assert(views.take(i + 1).last() == views[i as int]);
        }
        let ghost mid = string_views(out@);
        push_file_paths(out, root, worktree, &es[i].0.source, &es[i].0.target);
        assert(string_views(out@) =~= mid + file_paths(root@, worktree@, views[i as int].0.source, views[i as int].0.target));
        i = i + 1;
    }
    assert(views.take(es.len() as int) =~= views);
}

fn push_command_entries_paths(out: &mut Vec<String>, worktree: &str, es: &Vec<(RawCommandEntry, Span)>)
    ensures
        string_views(final(out)@) == string_views(old(out)@) + command_entries_paths(
            worktree@,
            crate::config_schema::decode_command_entries_views(es@),
        ),
{
    let ghost start = string_views(out@);
    let ghost views = crate::config_schema::decode_command_entries_views(es@);
    let mut i: usize = 0;
    assert(views.take(0) =~= Seq::<(RawCommandEntryView, Span)>::empty());
    assert(string_views(out@) =~= start + command_entries_paths(worktree@, views.take(0)));
    while i < es.len()
        invariant
            i <= es.len(),
            views == crate::config_schema::decode_command_entries_views(es@),
            string_views(out@) == start + command_entries_paths(worktree@, views.take(i as int)),
        decreases es.len() - i,
    {
        proof {
            assert(views.take(i + 1).drop_last() =~= views.take(i as int));
            assert(views.take(i + 1).last() == views[i as int]);
        }
        let ghost mid = string_views(out@);
        match &es[i].0 {
            RawCommandEntry::Run(_) => {
                assert(string_views(out@) =~= mid + Seq::<Seq<char>>::empty());
            },
            RawCommandEntry::Object(o) => {
                push_cwd_path(out, worktree, &o.cwd);
            },
        }
        assert(string_views(out@) =~= mid + command_entry_paths(worktree@, views[i as int].0));
        i = i + 1;
    }
    assert(views.take(es.len() as int) =~= views);
}

fn push_command_objects_paths(out: &mut Vec<String>, worktree: &str, es: &Vec<(RawCommandObject, Span)>)
    ensures
        string_views(final(out)@) == string_views(old(out)@) + command_objects_paths(
            worktree@,
            crate::config_schema::decode_command_objects_views(es@),
        ),
{
    let ghost start = string_views(out@);
    let ghost views = crate::config_schema::decode_command_objects_views(es@);
    let mut i: usize = 0;
    assert(views.take(0) =~= Seq::<(RawCommandObjectView, Span)>::empty());
    assert(string_views(out@) =~= start + command_objects_paths(worktree@, views.take(0)));
    while i < es.len()
        invariant
            i <= es.len(),
            views == crate::config_schema::decode_command_objects_views(es@),
            string_views(out@) == start + command_objects_paths(worktree@, views.take(i as int)),
        decreases es.len() - i,
    {
        proof {
            assert(views.take(i + 1).drop_last() =~= views.take(i as int));
            assert(views.take(i + 1).last() == views[i as int]);
        }
        let ghost mid = string_views(out@);
        push_cwd_path(out, worktree, &es[i].0.cwd);
        assert(string_views(out@) =~= mid + command_paths(worktree@, views[i as int].0.cwd));
        i = i + 1;
    }
    assert(views.take(es.len() as int) =~= views);
}

/// Every path that normalizing the declarations of `raw` looks up on disk,
/// so that they can be captured before the config is parsed against a
/// snapshot.
pub fn declared_paths(context: &Worktree, raw: &RawConfig) -> (res: Vec<String>)
    ensures
        string_views(res@) == config_paths_spec(context.root_path@, context.worktree_path@, raw@),
{
    let root = context.root_path.as_str();
    let worktree = context.worktree_path.as_str();
    let mut out: Vec<String> = Vec::new();
    assert(string_views(out@) =~= Seq::<Seq<char>>::empty());
    push_file_entries_paths(&mut out, root, worktree, &raw.copy);
    push_file_entries_paths(&mut out, root, worktree, &raw.symlink);
    push_file_entries_paths(&mut out, root, worktree, &raw.sync);
    push_file_objects_paths(&mut out, root, worktree, &raw.files);
    push_file_objects_paths(&mut out, root, worktree, &raw.file);
    push_command_entries_paths(&mut out, worktree, &raw.commands);
    push_command_objects_paths(&mut out, worktree, &raw.command);
    out
}

/// The paths that parsing `content` as a config for `context` looks up on
/// disk, or `None` when the text is not a config that reaches normalization
/// (a TOML or schema error, which parsing reports without looking anything
/// up).
pub fn config_declared_paths(content: &str, context: &Worktree) -> (res: Option<Vec<String>>)
    ensures
        match toml_document(content@) {
            Err(_) => res.is_none(),
            Ok(doc) => match decode_config_spec(doc) {
                Err(_) => res.is_none(),
                Ok(raw) => res matches Some(v) && string_views(v@) == config_paths_spec(
                    context.root_path@,
                    context.worktree_path@,
                    raw,
                ),
            },
        },
{
    let doc = match parse_toml_document(content) {
        Ok(doc) => doc,
        Err(_) => {
            return None;
        },
    };
    match decode_config(&doc) {
        Ok(raw) => Some(declared_paths(context, &raw)),
        Err(_) => None,
    }
}

/// Parses a treeboot config string.
///
/// The path is used for diagnostics. Sources are resolved against the root
/// checkout, targets and command working directories against the worktree,
/// each through what the snapshot records of the filesystem.
pub fn parse_config(s: &FsSnapshot, path: &str, content: &str, context: &Worktree) -> (res: Result<Config, Error>)
    requires
        content@.len() < usize::MAX,
    ensures
        match res {
            Ok(c) => parse_config_spec(*s, content@, context.root_path@, context.worktree_path@) == Ok::<ConfigView, ConfigFailure>(c@),
            Err(Error::ConfigParse { path: p, message: m }) => p@ == path@
                && parse_config_spec(*s, content@, context.root_path@, context.worktree_path@) == Err::<ConfigView, ConfigFailure>(ConfigFailure::Parse(m@)),
            Err(Error::ConfigInvalid { path: p, message: m }) => p@ == path@
                && parse_config_spec(*s, content@, context.root_path@, context.worktree_path@) == Err::<ConfigView, ConfigFailure>(ConfigFailure::Invalid(m@)),
            Err(_) => false,
        },
{
    let doc = match parse_toml_document(content) {
        Ok(doc) => doc,
        Err(e) => {
            return Err(Error::ConfigParse { path: owned(path), message: syntax_error_message(content, &e) });
        },
    };
    let raw = match decode_config(&doc) {
        Ok(raw) => raw,
        Err(d) => {
            return Err(Error::ConfigParse {
                path: owned(path),
                message: located_message(d.message.as_str(), content, d.span.start),
            });
        },
    };
    match normalize_config(s, content, context, &raw) {
        Ok(c) => Ok(c),
        Err(x) => Err(Error::ConfigInvalid {
            path: owned(path),
            message: located_message(x.0.as_str(), content, x.1),
        }),
    }
}

} // verus!
