//! Manual `copy`, `symlink` and `sync` operations: their options, their
//! validation, and the file operations they stand for.

use vstd::prelude::*;
use crate::config::{
    FileOperation, FileOperationView, SettingsView, SourceSpan,
    FileOperationKind, FileOperationSettings, FileOperationSettingsInput, InvalidFileOperationField,
    MetadataField, RawMetadataField, SymlinkMode, SyncCompare, expanded_spec, field_allowed,
    field_name, kind_name, normalize_file_operation_settings, settings_spec,
};
use crate::commands::report;
use crate::config::{effective_ignore_patterns, effective_ignore_spec};
use crate::context::Worktree;
use crate::error::Error;
use crate::output::{OutputEvent, ReportLog, Reporter};
use crate::runtime::ResolvedRuntimePolicy;
use crate::fs_snapshot::{FsSnapshot, normalize_maybe_existing, normalize_maybe_existing_spec};
use crate::glob::{GlobSourceError, is_glob_source, is_glob_source_spec, split_glob_source, split_glob_source_spec};
use crate::glob_expand::{
    GlobSourceErrorView, MatchView, expand_glob_source, expand_spec, is_expand_error, lists_matches, rel_path,
    sort_dedup,
};
use crate::path_filter::{PathIgnoreRules, RulesView, ignore_match, rules_result};
use crate::paths::{
    file_name, file_name_spec, is_absolute, join, join_paths, path_is_absolute, paths_equal, same_path, strip_prefix,
    strip_prefix_spec,
};
use crate::text::{concat2, concat3, concat4, copy_string, copy_strings, owned, string_views};

verus! {

/// Options for building manual file operation specs.
#[derive(Debug, Clone, PartialEq, Eq)]
pub struct ManualFileOperationOptions {
    /// File operation kind to build.
    pub operation: FileOperationKind,
    /// Source paths resolved from the root checkout.
    pub sources: Vec<String>,
    /// Optional target path resolved from the current worktree.
    pub target: Option<String>,
    /// Fails when a source is missing.
    pub required: bool,
    /// Expands glob source patterns into matched sources.
    pub glob: bool,
    /// Allows glob source pattern bases outside the root checkout.
    pub dangerously_allow_sources_outside_root: bool,
    /// How copy and sync should treat source symlinks.
    pub symlinks: Option<SymlinkMode>,
    /// Sync comparison mode.
    pub compare: Option<SyncCompare>,
    /// Whether sync should delete target-only files.
    pub delete: Option<bool>,
    /// Source-relative path patterns ignored by copy and sync.
    pub ignore: Vec<String>,
    /// Metadata fields ignored by copy and sync.
    pub ignore_metadata: Vec<MetadataField>,
}

/// Whether `o` holds the defaults for `operation` with these sources: no
/// target, optional, glob expansion on, no boundary relaxation and no
/// settings.
pub open spec fn default_manual_options(o: ManualFileOperationOptions, operation: FileOperationKind, sources: Vec<String>) -> bool {
    &&& o.operation == operation
    &&& o.sources == sources
    &&& o.target.is_none()
    &&& !o.required
    &&& o.glob
    &&& !o.dangerously_allow_sources_outside_root
    &&& o.symlinks.is_none()
    &&& o.compare.is_none()
    &&& o.delete.is_none()
    &&& o.ignore@.len() == 0
    &&& o.ignore_metadata@.len() == 0
}

impl Default for ManualFileOperationOptions {
    fn default() -> (res: Self)
        ensures
            default_manual_options(res, FileOperationKind::Copy, res.sources),
            res.sources@.len() == 0,
    {
        ManualFileOperationOptions::new(FileOperationKind::Copy, Vec::new())
    }
}

impl ManualFileOperationOptions {
    /// Creates manual copy operation options for the given sources.
    pub fn copy(sources: Vec<String>) -> (res: Self)
        ensures
            default_manual_options(res, FileOperationKind::Copy, sources),
    {
        Self::new(FileOperationKind::Copy, sources)
    }

    /// Creates manual symlink operation options for the given sources.
    pub fn symlink(sources: Vec<String>) -> (res: Self)
        ensures
            default_manual_options(res, FileOperationKind::Symlink, sources),
    {
        Self::new(FileOperationKind::Symlink, sources)
    }

    /// Creates manual sync operation options for the given sources.
    pub fn sync(sources: Vec<String>) -> (res: Self)
        ensures
            default_manual_options(res, FileOperationKind::Sync, sources),
    {
        Self::new(FileOperationKind::Sync, sources)
    }

    /// Creates manual operation options with defaults.
    pub fn new(operation: FileOperationKind, sources: Vec<String>) -> (res: Self)
        ensures
            default_manual_options(res, operation, sources),
    {
        ManualFileOperationOptions {
            operation,
            sources,
            target: None,
            required: false,
            glob: true,
            dangerously_allow_sources_outside_root: false,
            symlinks: None,
            compare: None,
            delete: None,
            ignore: Vec::new(),
            ignore_metadata: Vec::new(),
        }
    }
}

/// Completed action for a manual file operation invocation.
#[derive(Debug, Clone, Copy, PartialEq, Eq, Structural)]
pub enum FileOperationAction {
    /// The command started from the root checkout and had no work to do.
    RootWorktreeSkipped,
    /// File operations were planned and applied.
    Applied,
}

/// Whether `e` is the manual-operation error for `operation` with `message`.
pub open spec fn is_manual_error(e: Error, operation: FileOperationKind, message: Seq<char>) -> bool {
    e matches Error::FileOperationInvalid { operation: o, message: m } && o@ == kind_name(operation)
        && m@ == message
}

/// A manual-operation error.
pub fn manual_error(operation: FileOperationKind, message: String) -> (res: Error)
    ensures
        is_manual_error(res, operation, message@),
{
    Error::FileOperationInvalid { operation: owned(operation.as_str()), message }
}

/// The written form of each metadata field.
pub open spec fn raw_fields(fields: Seq<MetadataField>) -> Seq<RawMetadataField> {
    fields.map_values(
        |f: MetadataField|
            match f {
                MetadataField::Permissions => RawMetadataField::Permissions,
                MetadataField::Owner => RawMetadataField::Owner,
                MetadataField::Group => RawMetadataField::Group,
            },
    )
}

/// The outcome of validating manual options: at least one source, then the
/// settings the operation kind accepts.
pub open spec fn manual_validation(
    operation: FileOperationKind,
    sources_len: nat,
    symlinks: Option<SymlinkMode>,
    compare: Option<SyncCompare>,
    delete: Option<bool>,
    ignore: Seq<Seq<char>>,
    ignore_metadata: Seq<MetadataField>,
    res: Result<FileOperationSettings, Error>,
) -> bool {
    if sources_len == 0 {
        res matches Err(e) && is_manual_error(e, operation, "at least one source is required"@)
    } else {
        match settings_spec(operation, compare, delete, symlinks, ignore, raw_fields(ignore_metadata)) {
            Err(f) => res matches Err(e) && is_manual_error(
                e,
                operation,
                "`"@ + field_name(f) + "` is only valid for "@ + field_allowed(f),
            ),
            Ok(v) => res matches Ok(s) && s.compare == v.compare && s.delete == v.delete
                && s.symlinks == v.symlinks && string_views(s.ignore@) == v.ignore
                && s.ignore_metadata@ == v.ignore_metadata,
        }
    }
}

/// Validates manual options and normalizes their settings.
pub fn validate_manual_options(
    operation: FileOperationKind,
    sources: &Vec<String>,
    symlinks: Option<SymlinkMode>,
    compare: Option<SyncCompare>,
    delete: Option<bool>,
    ignore: &Vec<String>,
    ignore_metadata: &Vec<MetadataField>,
) -> (res: Result<FileOperationSettings, Error>)
    ensures
        manual_validation(
            operation,
            sources@.len(),
            symlinks,
            compare,
            delete,
            string_views(ignore@),
            ignore_metadata@,
            res,
        ),
{
    if sources.len() == 0 {
        return Err(manual_error(operation, owned("at least one source is required")));
    }
    let mut raw: Vec<RawMetadataField> = Vec::new();
    let mut i: usize = 0;
    while i < ignore_metadata.len()
        invariant
            i <= ignore_metadata.len(),
            raw@ == raw_fields(ignore_metadata@.take(i as int)),
        decreases ignore_metadata.len() - i,
    {
        raw.push(RawMetadataField::from_field(ignore_metadata[i]));
        proof {
            assert(raw_fields(ignore_metadata@.take(i + 1)) =~= raw_fields(ignore_metadata@.take(i as int)).push(
                raw@.last(),
            ));
        }
        i = i + 1;
    }
    assert(ignore_metadata@.take(ignore_metadata.len() as int) =~= ignore_metadata@);
    let input = FileOperationSettingsInput {
        compare,
        delete,
        symlinks,
        ignore: copy_strings(ignore),
        ignore_metadata: raw,
    };
    match normalize_file_operation_settings(operation, input) {
        Ok(s) => Ok(s),
        Err(field) => Err(
            manual_error(
                operation,
                concat4("`", field.name(), "` is only valid for ", field.allowed_operations()),
            ),
        ),
    }
}

/// The target of one source of a manual operation: the source itself when
/// no target is given, the target when there is one source, and otherwise
/// the source under the target (an absolute source by its file name).
pub open spec fn manual_target_spec(
    operation: FileOperationKind,
    source: Seq<char>,
    target: Option<Seq<char>>,
    multiple_sources: bool,
) -> Result<Seq<char>, Seq<char>> {
    match target {
        None => Ok(source),
        Some(t) => if !multiple_sources {
            Ok(t)
        } else if is_absolute(source) {
            match file_name_spec(source) {
                Some(name) => Ok(join(t, name)),
                None => Err("cannot derive target for source "@ + source),
            }
        } else {
            Ok(join(t, source))
        },
    }
}

/// The target of one source of a manual operation.
pub fn manual_target(operation: FileOperationKind, source: &str, target: &Option<String>, multiple_sources: bool) -> (res: Result<
    String,
    Error,
>)
    ensures
        match manual_target_spec(
            operation,
            source@,
            match target {
                Some(t) => Some(t@),
                None => None,
            },
            multiple_sources,
        ) {
            Ok(t) => res matches Ok(r) && r@ == t,
            Err(m) => res matches Err(e) && is_manual_error(e, operation, m),
        },
{
    match target {
        None => Ok(owned(source)),
        Some(t) => {
            if !multiple_sources {
                Ok(copy_string(t))
            } else if path_is_absolute(source) {
                match file_name(source) {
                    Some(name) => Ok(join_paths(t.as_str(), name.as_str())),
                    None => Err(manual_error(operation, concat2("cannot derive target for source ", source))),
                }
            } else {
                Ok(join_paths(t.as_str(), source))
            }
        },
    }
}

/// Which side of a manual operation a path belongs to.
#[derive(Debug, Clone, Copy, PartialEq, Eq, Structural)]
pub enum ManualPathRole {
    Source,
    Target,
}

impl ManualPathRole {
    /// The word used for this side in messages.
    pub fn label(self) -> (res: &'static str)
        ensures
            res@ == (match self {
                ManualPathRole::Source => "source"@,
                ManualPathRole::Target => "target"@,
            }),
    {
        match self {
            ManualPathRole::Source => "source",
            ManualPathRole::Target => "target",
        }
    }
}

/// Whether a completion value ends with a path separator.
pub fn has_trailing_separator(path: &str) -> (res: bool)
    ensures
        res == (path@.len() > 0 && (path@.last() == '/' || path@.last() == '\\')),
{
    let chars = crate::text::chars_of(path);
    chars.len() > 0 && (chars[chars.len() - 1] == '/' || chars[chars.len() - 1] == '\\')
}

/// How glob sources of a manual operation are expanded.
#[derive(Debug, Clone, Copy, PartialEq, Eq, Structural)]
pub struct ManualGlobPolicy {
    /// Fails when a pattern matches nothing.
    pub required: bool,
    /// Expands glob sources at all.
    pub glob: bool,
    /// Allows pattern bases outside the root checkout.
    pub dangerously_allow_sources_outside_root: bool,
}

/// The text of an expansion failure.
pub open spec fn glob_error_text(v: GlobSourceErrorView) -> Seq<char> {
    match v {
        GlobSourceErrorView::InvalidPattern(m) => "invalid glob pattern: "@ + m,
        GlobSourceErrorView::Io(w) => "failed to inspect glob source directory "@ + w.path + ": "@ + w.message,
    }
}

/// Whether a pattern base lies within the root checkout, unless that is not
/// asked for.
pub open spec fn base_check_spec(
    s: FsSnapshot,
    root: Seq<char>,
    policy: ManualGlobPolicy,
    source: Seq<char>,
    base: Seq<char>,
) -> Result<(), Seq<char>> {
    if policy.dangerously_allow_sources_outside_root {
        Ok(())
    } else {
        match normalize_maybe_existing_spec(s, root) {
            Err(m) => Err("failed to resolve root path: "@ + m),
            Ok(r) => if !same_path(base, r) && strip_prefix_spec(base, r).is_none() {
                Err("source resolves outside root for glob source pattern `"@ + source + "`"@)
            } else {
                Ok(())
            },
        }
    }
}

/// The ignore rules applied to the matches of a pattern: those of copy and
/// sync over the pattern base, when there are patterns.
pub open spec fn glob_rules_spec(
    operation: FileOperationKind,
    base: Seq<char>,
    ignore: Seq<Seq<char>>,
    source: Seq<char>,
) -> Result<Option<RulesView>, Seq<char>> {
    if operation == FileOperationKind::Symlink || ignore.len() == 0 {
        Ok(None)
    } else {
        match rules_result(base, ignore) {
            Ok(v) => Ok(Some(v)),
            Err(m) => Err("invalid ignore pattern for glob source pattern `"@ + source + "`: "@ + m),
        }
    }
}

/// Whether rules ignore a match.
pub open spec fn match_ignored(rules: Option<RulesView>, m: MatchView) -> bool {
    match rules {
        None => false,
        Some(r) => ignore_match(r.root, r.lines, rel_path(m.names), m.is_dir),
    }
}

/// The matches the rules keep, in order.
pub open spec fn kept_matches(v: Seq<MatchView>, rules: Option<RulesView>) -> Seq<MatchView>
    decreases v.len(),
{
    if v.len() == 0 {
        Seq::empty()
    } else if match_ignored(rules, v.last()) {
        kept_matches(v.drop_last(), rules)
    } else {
        kept_matches(v.drop_last(), rules).push(v.last())
    }
}

/// Each kept match as a source (under the declared base) and its ignore
/// prefix (its path below the base).
pub open spec fn match_sources(base: Seq<char>, v: Seq<MatchView>) -> Seq<(Seq<char>, Seq<char>)> {
    v.map_values(|m: MatchView| (join(base, rel_path(m.names)), rel_path(m.names)))
}

/// The sources one declared source stands for, each with its ignore prefix:
/// itself when globbing is off or it holds no glob syntax; otherwise the
/// sorted matches of the pattern that the ignore rules keep, or the pattern
/// itself when nothing matches and matches are optional.
pub open spec fn source_expansion_spec(
    s: FsSnapshot,
    operation: FileOperationKind,
    root: Seq<char>,
    policy: ManualGlobPolicy,
    ignore: Seq<Seq<char>>,
    source: Seq<char>,
) -> Result<Seq<(Seq<char>, Seq<char>)>, Seq<char>> {
    if !policy.glob || !is_glob_source_spec(source) {
        Ok(seq![(source, Seq::<char>::empty())])
    } else {
        match split_glob_source_spec(source) {
            None => Err("invalid glob source pattern `"@ + source + "`: "@ + "`..` components are not supported after glob pattern components"@),
            Some(split) => match normalize_maybe_existing_spec(s, join(root, split.base)) {
                Err(m) => Err("failed to resolve glob source pattern `"@ + source + "`: "@ + m),
                Ok(base) => match base_check_spec(s, root, policy, source, base) {
                    Err(m) => Err(m),
                    Ok(()) => match glob_rules_spec(operation, base, ignore, source) {
                        Err(m) => Err(m),
                        Ok(rules) => match expand_spec(s, base, split.patterns) {
                            Err(v) => Err("failed to expand glob source pattern `"@ + source + "`: "@ + glob_error_text(v)),
                            Ok(ms) => {
                                let kept = kept_matches(sort_dedup(ms), rules);
                                if kept.len() == 0 {
                                    if policy.required {
                                        Err("no sources match required glob source pattern `"@ + source + "`"@)
                                    } else {
                                        Ok(seq![(source, Seq::<char>::empty())])
                                    }
                                } else {
                                    Ok(match_sources(split.base, kept))
                                }
                            },
                        },
                    },
                },
            },
        }
    }
}

/// The expansions of all declared sources in order, or the first failure.
pub open spec fn sources_expansion_spec(
    s: FsSnapshot,
    operation: FileOperationKind,
    root: Seq<char>,
    policy: ManualGlobPolicy,
    ignore: Seq<Seq<char>>,
    sources: Seq<Seq<char>>,
) -> Result<Seq<(Seq<char>, Seq<char>)>, Seq<char>>
    decreases sources.len(),
{
    if sources.len() == 0 {
        Ok(Seq::empty())
    } else {
        match sources_expansion_spec(s, operation, root, policy, ignore, sources.drop_last()) {
            Err(m) => Err(m),
            Ok(a) => match source_expansion_spec(s, operation, root, policy, ignore, sources.last()) {
                Err(m) => Err(m),
                Ok(b) => Ok(a + b),
            },
        }
    }
}

/// Without the override for sources outside the root, a glob pattern whose
/// base resolves outside the root checkout is refused before anything under
/// the base is read: the refusal does not depend on what the base holds.
pub proof fn lemma_outside_glob_base_is_refused(
    s: FsSnapshot,
    other: FsSnapshot,
    operation: FileOperationKind,
    root: Seq<char>,
    policy: ManualGlobPolicy,
    ignore: Seq<Seq<char>>,
    source: Seq<char>,
    base: Seq<char>,
    resolved_root: Seq<char>,
)
    requires
        policy.glob,
        !policy.dangerously_allow_sources_outside_root,
        is_glob_source_spec(source),
        split_glob_source_spec(source) is Some,
        normalize_maybe_existing_spec(s, join(root, split_glob_source_spec(source).unwrap().base)) == Ok::<
            Seq<char>,
            Seq<char>,
        >(base),
        normalize_maybe_existing_spec(s, root) == Ok::<Seq<char>, Seq<char>>(resolved_root),
        !same_path(base, resolved_root),
        strip_prefix_spec(base, resolved_root).is_none(),
        normalize_maybe_existing_spec(other, join(root, split_glob_source_spec(source).unwrap().base))
            == normalize_maybe_existing_spec(s, join(root, split_glob_source_spec(source).unwrap().base)),
        normalize_maybe_existing_spec(other, root) == normalize_maybe_existing_spec(s, root),
    ensures
        source_expansion_spec(s, operation, root, policy, ignore, source) == Err::<
            Seq<(Seq<char>, Seq<char>)>,
            Seq<char>,
        >("source resolves outside root for glob source pattern `"@ + source + "`"@),
        source_expansion_spec(other, operation, root, policy, ignore, source) == source_expansion_spec(
            s,
            operation,
            root,
            policy,
            ignore,
            source,
        ),
{
}

/// The plain values of source pairs.
pub open spec fn pair_views(v: Seq<(String, String)>) -> Seq<(Seq<char>, Seq<char>)> {
    v.map_values(|p: (String, String)| (p.0@, p.1@))
}

/// Adds the text of a failure after a quoted source.
fn quoted_error(operation: FileOperationKind, lead: &str, source: &str, rest: &str) -> (res: Error)
    ensures
        is_manual_error(res, operation, lead@ + source@ + "`: "@ + rest@),
{
    proof {
        reveal_strlit("`: ");
    }
    manual_error(operation, concat4(lead, source, "`: ", rest))
}

/// The text of an expansion failure.
fn glob_error_message(e: &GlobSourceError) -> (res: String)
    requires
        !(e is UnsupportedComponent),
    ensures
        forall|v: GlobSourceErrorView| is_expand_error(*e, v) ==> res@ == glob_error_text(v),
{
    e.message()
}

/// The sources of one declared source.
pub fn expand_source(
    s: &FsSnapshot,
    operation: FileOperationKind,
    root: &str,
    policy: ManualGlobPolicy,
    ignore: &Vec<String>,
    source: &String,
) -> (res: Result<Vec<(String, String)>, Error>)
    ensures
        match source_expansion_spec(*s, operation, root@, policy, string_views(ignore@), source@) {
            Ok(ps) => res matches Ok(v) && pair_views(v@) == ps,
            Err(m) => res matches Err(e) && is_manual_error(e, operation, m),
        },
{
    if !policy.glob || !is_glob_source(source.as_str()) {
        let out = vec![(copy_string(source), String::new())];
        assert(pair_views(out@) =~= seq![(source@, Seq::<char>::empty())]);
        return Ok(out);
    }
    let split = match split_glob_source(source.as_str()) {
        Ok(x) => x,
        Err(e) => {
            let text = e.message();
            proof {
                reveal_strlit("`..` components are not supported after glob pattern components");
                reveal_strlit("`");
                reveal_strlit("` components are not supported after glob pattern components");
                assert(text@ =~= "`..` components are not supported after glob pattern components"@);
            }
            return Err(quoted_error(operation, "invalid glob source pattern `", source.as_str(), text.as_str()));
        },
    };
    let ghost sv = split_glob_source_spec(source@).unwrap();
    assert(sv.patterns == string_views(split.components@));
    let resolved = join_paths(root, split.base.as_str());
    let base = match normalize_maybe_existing(s, resolved.as_str()) {
        Ok(b) => b,
        Err(m) => return Err(quoted_error(operation, "failed to resolve glob source pattern `", source.as_str(), m.as_str())),
    };
    if !policy.dangerously_allow_sources_outside_root {
        let root_path = match normalize_maybe_existing(s, root) {
            Ok(r) => r,
            Err(m) => return Err(manual_error(operation, concat2("failed to resolve root path: ", m.as_str()))),
        };
        if !paths_equal(base.as_str(), root_path.as_str()) && strip_prefix(base.as_str(), root_path.as_str()).is_none() {
            return Err(manual_error(operation, concat3("source resolves outside root for glob source pattern `", source.as_str(), "`")));
        }
    }
    let rules = if operation == FileOperationKind::Symlink || ignore.len() == 0 {
        None
    } else {
        match PathIgnoreRules::new(base.as_str(), ignore) {
            Ok(r) => Some(r),
            Err(m) => return Err(quoted_error(operation, "invalid ignore pattern for glob source pattern `", source.as_str(), m.as_str())),
        }
    };
    let ghost rules_view: Option<RulesView> = match &rules {
        Some(r) => Some(r.spec_view()),
        None => None,
    };
    let matches = match expand_glob_source(s, base.as_str(), &split) {
        Ok(m) => m,
        Err(e) => {
            proof {
                assert(!(e is UnsupportedComponent));
            }
            return Err(quoted_error(operation, "failed to expand glob source pattern `", source.as_str(), glob_error_message(&e).as_str()));
        },
    };
    let ghost ms = match expand_spec(*s, base@, sv.patterns) {
        Ok(ms) => ms,
        Err(_) => Seq::empty(),
    };
    let ghost v = sort_dedup(ms);
    let mut out: Vec<(String, String)> = Vec::new();
    let ghost mut kept: Seq<MatchView> = Seq::empty();
    let mut i: usize = 0;
    while i < matches.len()
        invariant
            i <= matches.len(),
            lists_matches(matches@, v),
            kept == kept_matches(v.take(i as int), rules_view),
            pair_views(out@) == match_sources(sv.base, kept),
            sv.base == split.base@,
            rules_view == (match &rules {
                Some(r) => Some(r.spec_view()),
                None => None::<RulesView>,
            }),
        decreases matches.len() - i,
    {
        let m = &matches[i];
        assert(m.relative@ == rel_path(v[i as int].names) && m.is_dir == v[i as int].is_dir);
        assert(v.take(i + 1).drop_last() =~= v.take(i as int));
        assert(v.take(i + 1).last() == v[i as int]);
        let ignored = match &rules {
            Some(r) => r.is_ignored(m.relative.as_str(), m.is_dir),
            None => false,
        };
        if !ignored {
            let ghost before = out@;
            let pair = (join_paths(split.base.as_str(), m.relative.as_str()), copy_string(&m.relative));
            assert((pair.0@, pair.1@) == (join(sv.base, rel_path(v[i as int].names)), rel_path(v[i as int].names)));
            out.push(pair);
            proof {
                let k2 = kept.push(v[i as int]);
                assert(pair_views(out@) =~= pair_views(before).push((pair.0@, pair.1@)));
                assert(match_sources(sv.base, k2) =~= match_sources(sv.base, kept).push(
                    (join(sv.base, rel_path(v[i as int].names)), rel_path(v[i as int].names)),
                ));
                kept = k2;
            }
        }
        i = i + 1;
    }
    assert(v.take(matches.len() as int) =~= v);
    if out.len() == 0 {
        if policy.required {
            return Err(manual_error(operation, concat3("no sources match required glob source pattern `", source.as_str(), "`")));
        }
        let lit = vec![(copy_string(source), String::new())];
        assert(pair_views(lit@) =~= seq![(source@, Seq::<char>::empty())]);
        return Ok(lit);
    }
    Ok(out)
}

/// The sources of all declared sources, in order.
pub fn expand_manual_sources(
    s: &FsSnapshot,
    operation: FileOperationKind,
    sources: &Vec<String>,
    root: &str,
    policy: ManualGlobPolicy,
    ignore: &Vec<String>,
) -> (res: Result<Vec<(String, String)>, Error>)
    ensures
        match sources_expansion_spec(*s, operation, root@, policy, string_views(ignore@), string_views(sources@)) {
            Ok(ps) => res matches Ok(v) && pair_views(v@) == ps,
            Err(m) => res matches Err(e) && is_manual_error(e, operation, m),
        },
{
    let ghost sv = string_views(sources@);
    let ghost iv = string_views(ignore@);
    let mut expanded: Vec<(String, String)> = Vec::new();
    let mut i: usize = 0;
    assert(sv.take(0) =~= Seq::<Seq<char>>::empty());
    assert(pair_views(expanded@) =~= Seq::<(Seq<char>, Seq<char>)>::empty());
    while i < sources.len()
        invariant
            i <= sources.len(),
            sv == string_views(sources@),
            iv == string_views(ignore@),
            sources_expansion_spec(*s, operation, root@, policy, iv, sv.take(i as int)) == Ok::<
                Seq<(Seq<char>, Seq<char>)>,
                Seq<char>,
            >(pair_views(expanded@)),
        decreases sources.len() - i,
    {
        proof {
            assert(sv.take(i + 1).drop_last() =~= sv.take(i as int));
            assert(sv.take(i + 1).last() == sources@[i as int]@);
        }
        let mut more = match expand_source(s, operation, root, policy, ignore, &sources[i]) {
            Ok(v) => v,
            Err(e) => {
                proof {
                    lemma_sources_err_prefix(*s, operation, root@, policy, iv, sv, i + 1);
                    assert(sv.take(sources.len() as int) =~= sv);
                }
                return Err(e);
            },
        };
        let ghost a = pair_views(expanded@);
        let ghost b = pair_views(more@);
        expanded.append(&mut more);
        proof {
            assert(pair_views(expanded@) =~= a + b);
        }
        i = i + 1;
    }
    assert(sv.take(sources.len() as int) =~= sv);
    Ok(expanded)
}

proof fn lemma_sources_err_prefix(
    s: FsSnapshot,
    operation: FileOperationKind,
    root: Seq<char>,
    policy: ManualGlobPolicy,
    ignore: Seq<Seq<char>>,
    sources: Seq<Seq<char>>,
    n: int,
)
    requires
        0 <= n <= sources.len(),
        sources_expansion_spec(s, operation, root, policy, ignore, sources.take(n)) is Err,
    ensures
        sources_expansion_spec(s, operation, root, policy, ignore, sources) == sources_expansion_spec(
            s,
            operation,
            root,
            policy,
            ignore,
            sources.take(n),
        ),
    decreases sources.len() - n,
{
    if n < sources.len() {
        assert(sources.take(n + 1).drop_last() =~= sources.take(n));
        lemma_sources_err_prefix(s, operation, root, policy, ignore, sources, n + 1);
    } else {
        assert(sources.take(n) =~= sources);
    }
}

/// The span of a manual operation: it has no declaration.
pub open spec fn manual_span_spec() -> SourceSpan {
    SourceSpan { start: 0, end: 0, line: 0, column: 0 }
}

/// The file operation of one source and its ignore prefix: its target
/// derived from the given one, its paths resolved from the root checkout and
/// the worktree.
pub open spec fn manual_operation_spec(
    operation: FileOperationKind,
    root: Seq<char>,
    worktree: Seq<char>,
    pair: (Seq<char>, Seq<char>),
    target: Option<Seq<char>>,
    multiple_sources: bool,
    required: bool,
    settings: SettingsView,
    ignore: Seq<Seq<char>>,
) -> Result<FileOperationView, Seq<char>> {
    match manual_target_spec(operation, pair.0, target, multiple_sources) {
        Err(m) => Err(m),
        Ok(t) => Ok(
            FileOperationView {
                operation,
                source: pair.0,
                target: t,
                source_path: join(root, pair.0),
                target_path: join(worktree, t),
                required,
                glob: false,
                compare: settings.compare,
                delete: settings.delete,
                symlinks: settings.symlinks,
                ignore,
                ignore_metadata: settings.ignore_metadata,
                ignore_prefix: pair.1,
                declaration: manual_span_spec(),
            },
        ),
    }
}

/// The file operations of all sources, or the first failure.
pub open spec fn manual_operations_spec(
    operation: FileOperationKind,
    root: Seq<char>,
    worktree: Seq<char>,
    pairs: Seq<(Seq<char>, Seq<char>)>,
    target: Option<Seq<char>>,
    multiple_sources: bool,
    required: bool,
    settings: SettingsView,
    ignore: Seq<Seq<char>>,
) -> Result<Seq<FileOperationView>, Seq<char>>
    decreases pairs.len(),
{
    if pairs.len() == 0 {
        Ok(Seq::empty())
    } else {
        match manual_operations_spec(
            operation,
            root,
            worktree,
            pairs.drop_last(),
            target,
            multiple_sources,
            required,
            settings,
            ignore,
        ) {
            Err(m) => Err(m),
            Ok(a) => match manual_operation_spec(
                operation,
                root,
                worktree,
                pairs.last(),
                target,
                multiple_sources,
                required,
                settings,
                ignore,
            ) {
                Err(m) => Err(m),
                Ok(o) => Ok(a.push(o)),
            },
        }
    }
}

/// The views of file operations.
pub open spec fn operation_views(v: Seq<FileOperation>) -> Seq<FileOperationView> {
    v.map_values(|o: FileOperation| o@)
}

/// The optional target as plain values.
pub open spec fn target_view(target: Option<String>) -> Option<Seq<char>> {
    match target {
        Some(t) => Some(t@),
        None => None,
    }
}

/// The settings as plain values.
pub open spec fn settings_view(s: FileOperationSettings) -> SettingsView {
    SettingsView {
        compare: s.compare,
        delete: s.delete,
        symlinks: s.symlinks,
        ignore: string_views(s.ignore@),
        ignore_metadata: s.ignore_metadata@,
    }
}

/// Whether the options of a manual operation stand for `ops`: validated
/// settings, expanded sources, and one operation per source.
pub open spec fn manual_options_spec(
    s: FsSnapshot,
    context: Worktree,
    o: ManualFileOperationOptions,
) -> Result<Seq<FileOperationView>, Seq<char>> {
    if o.sources@.len() == 0 {
        Err("at least one source is required"@)
    } else {
        match settings_spec(
            o.operation,
            o.compare,
            o.delete,
            o.symlinks,
            string_views(o.ignore@),
            raw_fields(o.ignore_metadata@),
        ) {
            Err(f) => Err("`"@ + field_name(f) + "` is only valid for "@ + field_allowed(f)),
            Ok(v) => match sources_expansion_spec(
                s,
                o.operation,
                context.root_path@,
                ManualGlobPolicy {
                    required: o.required,
                    glob: o.glob,
                    dangerously_allow_sources_outside_root: o.dangerously_allow_sources_outside_root,
                },
                string_views(o.ignore@),
                string_views(o.sources@),
            ) {
                Err(m) => Err(m),
                Ok(pairs) => manual_operations_spec(
                    o.operation,
                    context.root_path@,
                    context.worktree_path@,
                    pairs,
                    target_view(o.target),
                    pairs.len() > 1,
                    o.required,
                    v,
                    string_views(o.ignore@),
                ),
            },
        }
    }
}

/// The file operations of expanded sources.
pub fn manual_operations(
    s: &FsSnapshot,
    options: &ManualFileOperationOptions,
    context: &Worktree,
    settings: &FileOperationSettings,
) -> (res: Result<Vec<FileOperation>, Error>)
    ensures
        match sources_expansion_spec(
            *s,
            options.operation,
            context.root_path@,
            ManualGlobPolicy {
                required: options.required,
                glob: options.glob,
                dangerously_allow_sources_outside_root: options.dangerously_allow_sources_outside_root,
            },
            string_views(options.ignore@),
            string_views(options.sources@),
        ) {
            Err(m) => res matches Err(e) && is_manual_error(e, options.operation, m),
            Ok(pairs) => match manual_operations_spec(
                options.operation,
                context.root_path@,
                context.worktree_path@,
                pairs,
                target_view(options.target),
                pairs.len() > 1,
                options.required,
                settings_view(*settings),
                string_views(options.ignore@),
            ) {
                Ok(ops) => res matches Ok(v) && operation_views(v@) == ops,
                Err(m) => res matches Err(e) && is_manual_error(e, options.operation, m),
            },
        },
{
    let operation = options.operation;
    let policy = ManualGlobPolicy {
        required: options.required,
        glob: options.glob,
        dangerously_allow_sources_outside_root: options.dangerously_allow_sources_outside_root,
    };
    let sources = match expand_manual_sources(
        s,
        operation,
        &options.sources,
        context.root_path.as_str(),
        policy,
        &options.ignore,
    ) {
        Ok(v) => v,
        Err(e) => return Err(e),
    };
    let ghost pairs = pair_views(sources@);
    let multiple_sources = sources.len() > 1;
    let mut ops: Vec<FileOperation> = Vec::new();
    let mut i: usize = 0;
    let ghost sv = settings_view(*settings);
    let ghost tv = target_view(options.target);
    let ghost iv = string_views(options.ignore@);
    assert(pairs.take(0) =~= Seq::<(Seq<char>, Seq<char>)>::empty());
    assert(operation_views(ops@) =~= Seq::<FileOperationView>::empty());
    while i < sources.len()
        invariant
            i <= sources.len(),
            pairs == pair_views(sources@),
            multiple_sources == (pairs.len() > 1),
            sv == settings_view(*settings),
            tv == target_view(options.target),
            iv == string_views(options.ignore@),
            operation == options.operation,
            sources_expansion_spec(
                *s,
                options.operation,
                context.root_path@,
                ManualGlobPolicy {
                    required: options.required,
                    glob: options.glob,
                    dangerously_allow_sources_outside_root: options.dangerously_allow_sources_outside_root,
                },
                iv,
                string_views(options.sources@),
            ) == Ok::<Seq<(Seq<char>, Seq<char>)>, Seq<char>>(pairs),
            manual_operations_spec(operation, context.root_path@, context.worktree_path@, pairs.take(i as int), tv, multiple_sources, options.required, sv, iv)
                == Ok::<Seq<FileOperationView>, Seq<char>>(operation_views(ops@)),
        decreases sources.len() - i,
    {
        proof {
            assert(pairs.take(i + 1).drop_last() =~= pairs.take(i as int));
            assert(pairs.take(i + 1).last() == pairs[i as int]);
        }
        let (source, ignore_prefix) = &sources[i];
        let target = match manual_target(operation, source.as_str(), &options.target, multiple_sources) {
            Ok(t) => t,
            Err(e) => {
                proof {
                    assert(tv == (match options.target {
                        Some(t) => Some(t@),
                        None => None::<Seq<char>>,
                    }));
                    assert(pairs[i as int] == (source@, ignore_prefix@));
                    assert(manual_operation_spec(operation, context.root_path@, context.worktree_path@, pairs[i as int], tv, multiple_sources, options.required, sv, iv) is Err);
                    assert(manual_operations_spec(operation, context.root_path@, context.worktree_path@, pairs.take(i + 1), tv, multiple_sources, options.required, sv, iv) is Err);
                    lemma_operations_err_prefix(operation, context.root_path@, context.worktree_path@, pairs, tv, multiple_sources, options.required, sv, iv, i + 1);
                    assert(pairs.take(sources.len() as int) =~= pairs);
                }
                return Err(e);
            },
        };
        let source_path = join_paths(context.root_path.as_str(), source.as_str());
        let target_path = join_paths(context.worktree_path.as_str(), target.as_str());
        let op = FileOperation {
            operation,
            source: copy_string(source),
            target,
            source_path,
            target_path,
            required: options.required,
            glob: false,
            compare: settings.compare,
            delete: settings.delete,
            symlinks: settings.symlinks,
            ignore: copy_strings(&options.ignore),
            ignore_metadata: settings.ignore_metadata.clone(),
            ignore_prefix: copy_string(ignore_prefix),
            declaration: SourceSpan { start: 0, end: 0, line: 0, column: 0 },
        };
        let ghost before = ops@;
        let ghost ov = op@;
        ops.push(op);
        proof {
            assert(operation_views(ops@) =~= operation_views(before).push(ov));
        }
        i = i + 1;
    }
    assert(pairs.take(sources.len() as int) =~= pairs);
    Ok(ops)
}

proof fn lemma_operations_err_prefix(
    operation: FileOperationKind,
    root: Seq<char>,
    worktree: Seq<char>,
    pairs: Seq<(Seq<char>, Seq<char>)>,
    target: Option<Seq<char>>,
    multiple_sources: bool,
    required: bool,
    settings: SettingsView,
    ignore: Seq<Seq<char>>,
    n: int,
)
    requires
        0 <= n <= pairs.len(),
        manual_operations_spec(operation, root, worktree, pairs.take(n), target, multiple_sources, required, settings, ignore) is Err,
    ensures
        manual_operations_spec(operation, root, worktree, pairs, target, multiple_sources, required, settings, ignore)
            == manual_operations_spec(operation, root, worktree, pairs.take(n), target, multiple_sources, required, settings, ignore),
    decreases pairs.len() - n,
{
    if n < pairs.len() {
        assert(pairs.take(n + 1).drop_last() =~= pairs.take(n));
        lemma_operations_err_prefix(operation, root, worktree, pairs, target, multiple_sources, required, settings, ignore, n + 1);
    } else {
        assert(pairs.take(n) =~= pairs);
    }
}

impl FileOperation {
    /// Builds the file operations of a manual `copy`, `symlink` or `sync`:
    /// the options are validated, glob sources expanded against the
    /// captured filesystem, and each source gets its own operation.
    pub fn from_manual_options(
        s: &FsSnapshot,
        context: &Worktree,
        options: ManualFileOperationOptions,
    ) -> (res: Result<Vec<FileOperation>, Error>)
        ensures
            match manual_options_spec(*s, *context, options) {
                Ok(ops) => res matches Ok(v) && operation_views(v@) == ops,
                Err(m) => res matches Err(e) && is_manual_error(e, options.operation, m),
            },
    {
        let settings = match validate_manual_options(
            options.operation,
            &options.sources,
            options.symlinks,
            options.compare,
            options.delete,
            &options.ignore,
            &options.ignore_metadata,
        ) {
            Ok(s) => s,
            Err(e) => return Err(e),
        };
        manual_operations(s, &options, context, &settings)
    }
}


/// What a manual file operation invocation did.
#[derive(Debug)]
pub struct FileOperationReport {
    /// Resolved worktree context.
    pub context: Worktree,
    /// Requested operation.
    pub operation: FileOperationKind,
    /// Completed action.
    pub action: FileOperationAction,
    /// Number of file actions that were applied or reported.
    pub action_count: usize,
}

/// How a manual file operation starts: from the root checkout it reports
/// the root and stops with nothing done (an error in strict mode); from any
/// other worktree it goes on (`None`).
pub fn start_file_operation<R: Reporter>(
    context: &Worktree,
    operation: FileOperationKind,
    pre_config_strict: bool,
    reporter: &mut ReportLog<R>,
) -> (res: Result<Option<FileOperationReport>, Error>)
    ensures
        context.root_path@ == context.worktree_path@ ==> match res {
            Ok(Some(r)) => {
                &&& !pre_config_strict
                &&& r.action == FileOperationAction::RootWorktreeSkipped
                &&& r.action_count == 0
                &&& r.operation == operation
                &&& r.context.root_path == context.root_path
                &&& r.context.worktree_path == context.worktree_path
                &&& r.context.default_branch == context.default_branch
                &&& r.context.environment@ == context.environment@
            },
            Ok(None) => false,
            Err(e) => e is Output || (pre_config_strict && e is RootWorktreeStrict),
        },
        context.root_path@ != context.worktree_path@ ==> (res matches Ok(None)) && *final(reporter) == *old(reporter),
        context.root_path@ == context.worktree_path@ ==> {
            &&& final(reporter).handed@.len() == old(reporter).handed@.len() + 1
            &&& final(reporter).handed@.drop_last() == old(reporter).handed@
            &&& final(reporter).handed@.last().0 == OutputEvent::RootWorktreeDetected
            &&& (final(reporter).handed@.last().1 is Err <==> (res matches Err(e) && e is Output))
        },
{
    if !context.is_root() {
        return Ok(None);
    }
    let reported = report(reporter, OutputEvent::RootWorktreeDetected);
    proof {
        assert(reporter.handed@.drop_last() =~= old(reporter).handed@);
    }
    match reported {
        Ok(()) => {},
        Err(e) => return Err(e),
    }
    if pre_config_strict {
        return Err(Error::RootWorktreeStrict);
    }
    Ok(Some(FileOperationReport {
        context: context.duplicate(),
        operation,
        action: FileOperationAction::RootWorktreeSkipped,
        action_count: 0,
    }))
}

/// The report of a manual file operation whose actions were applied.
pub fn applied_file_operation(context: Worktree, operation: FileOperationKind, action_count: usize) -> (res:
    FileOperationReport)
    ensures
        res.context == context,
        res.operation == operation,
        res.action == FileOperationAction::Applied,
        res.action_count == action_count,
{
    FileOperationReport { context, operation, action: FileOperationAction::Applied, action_count }
}

impl ManualFileOperationOptions {
    /// These options under a resolved runtime policy: copy and sync ignore the
    /// config's default patterns before their own, symlink only its own, and
    /// sources outside the root are allowed exactly when the policy allows
    /// them.
    pub fn with_policy(self, policy: &ResolvedRuntimePolicy) -> (res: Self)
        ensures
            res.operation == self.operation,
            res.sources == self.sources,
            res.target == self.target,
            res.required == self.required,
            res.glob == self.glob,
            res.symlinks == self.symlinks,
            res.compare == self.compare,
            res.delete == self.delete,
            res.ignore_metadata == self.ignore_metadata,
            string_views(res.ignore@) == effective_ignore_spec(
                self.operation,
                policy@.default_ignore,
                string_views(self.ignore@),
            ),
            res.dangerously_allow_sources_outside_root == policy@.dangerously_allow_sources_outside_root,
    {
        let allow = policy.action_plan_options().dangerously_allow_sources_outside_root;
        let ignore = effective_ignore_patterns(self.operation, &policy.options().default_ignore, self.ignore);
        ManualFileOperationOptions {
            operation: self.operation,
            sources: self.sources,
            target: self.target,
            required: self.required,
            glob: self.glob,
            dangerously_allow_sources_outside_root: allow,
            symlinks: self.symlinks,
            compare: self.compare,
            delete: self.delete,
            ignore,
            ignore_metadata: self.ignore_metadata,
        }
    }
}

} // verus!
