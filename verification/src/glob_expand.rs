//! Expanding a split glob source against the filesystem: each pattern
//! component is a literal name, a `globset` pattern or a recursive `**`,
//! walked through the directories captured in a snapshot. Matches come out
//! sorted by path and without repeats.

use vstd::prelude::*;
use crate::file_system::EntryKind;
use crate::file_planning::snapshot_fuel;
use crate::fs_snapshot::{FsSnapshot, Listing, Lookup, find_entry, find_listing};
use crate::glob::{GlobSourceError, SplitGlobSource, component_has_unescaped_metacharacters, has_unescaped_meta};
use crate::paths::{join, join_paths};
use crate::text::{chars_of, copy_string, owned, push_char, str_eq, string_views};

verus! {

#[verifier::external_type_specification]
#[verifier::external_body]
pub struct ExGlobSet(globset::GlobSet);

/// Why `GlobBuilder::new(pattern)` with a literal separator and backslash
/// escapes fails to build, or why the set of that one glob fails to
/// compile (a compiled pattern over the size limit), as the error's text,
/// if either fails.
pub uninterp spec fn glob_error(pattern: Seq<char>) -> Option<Seq<char>>;

/// The pattern the one glob of a compiled set was built from.
pub uninterp spec fn set_glob(m: globset::GlobSet) -> Seq<char>;

/// Whether the compiled set of the one glob `pattern` matches `name`.
pub uninterp spec fn glob_matches(pattern: Seq<char>, name: Seq<char>) -> bool;

/// Compiles one pattern component.
///
/// Trusted: `GlobBuilder::new(pattern).literal_separator(true)
/// .backslash_escape(true).build()` followed by `GlobSetBuilder::build` of
/// that one glob either fails with an error whose text depends on the
/// pattern alone, or yields a set that matches by that pattern. Both steps
/// return their errors; neither panics on a pattern too large to compile.
#[verifier::external_body]
fn compile_glob(pattern: &str) -> (res: Result<globset::GlobSet, String>)
    ensures
        match glob_error(pattern@) {
            None => res matches Ok(m) && set_glob(m) == pattern@,
            Some(e) => res matches Err(x) && x@ == e,
        },
{
    match globset::GlobBuilder::new(pattern).literal_separator(true).backslash_escape(true).build() {
        Ok(glob) => globset::GlobSetBuilder::new().add(glob).build().map_err(|error| error.to_string()),
        Err(error) => Err(error.to_string()),
    }
}

/// Whether a compiled pattern matches a file name.
///
/// Trusted: `GlobSet::is_match` depends on the set's one pattern and the
/// name alone.
#[verifier::external_body]
fn glob_is_match(m: &globset::GlobSet, name: &str) -> (res: bool)
    ensures
        res == glob_matches(set_glob(*m), name@),
{
    m.is_match(name)
}

/// One pattern component, as plain values.
pub enum SegmentKind {
    /// `**`: any number of directories.
    Recursive,
    /// A name matched exactly.
    Literal(Seq<char>),
    /// A compiled pattern, with braces taken literally.
    Pattern(Seq<char>),
}

/// `s` with each brace wrapped in a character class, so that it matches
/// literally.
pub open spec fn escape_braces(s: Seq<char>) -> Seq<char>
    decreases s.len(),
{
    if s.len() == 0 {
        Seq::empty()
    } else {
        let rest = escape_braces(s.drop_last());
        if s.last() == '{' {
            rest + "[{]"@
        } else if s.last() == '}' {
            rest + "[}]"@
        } else {
            rest.push(s.last())
        }
    }
}

/// Whether `s` holds a backslash.
pub open spec fn has_backslash(s: Seq<char>) -> bool {
    exists|i: int| 0 <= i < s.len() && s[i] == '\\'
}

/// The segment a pattern component stands for, or the text of the error
/// compiling it.
pub open spec fn segment_spec(c: Seq<char>) -> Result<SegmentKind, Seq<char>> {
    if c == "**"@ {
        Ok(SegmentKind::Recursive)
    } else if !has_backslash(c) && !has_unescaped_meta(c) {
        Ok(SegmentKind::Literal(c))
    } else {
        match glob_error(escape_braces(c)) {
            None => Ok(SegmentKind::Pattern(escape_braces(c))),
            Some(e) => Err(e),
        }
    }
}

/// The segments of all components, or the first compile error.
pub open spec fn segments_spec(cs: Seq<Seq<char>>) -> Result<Seq<SegmentKind>, Seq<char>>
    decreases cs.len(),
{
    if cs.len() == 0 {
        Ok(Seq::empty())
    } else {
        match segments_spec(cs.drop_last()) {
            Err(e) => Err(e),
            Ok(segs) => match segment_spec(cs.last()) {
                Err(e) => Err(e),
                Ok(k) => Ok(segs.push(k)),
            },
        }
    }
}

/// Whether a segment matches a file name.
pub open spec fn segment_matches(k: SegmentKind, name: Seq<char>) -> bool {
    match k {
        SegmentKind::Recursive => true,
        SegmentKind::Literal(l) => name == l,
        SegmentKind::Pattern(p) => glob_matches(p, name),
    }
}

/// A walk failure: the path being inspected and the error's text.
pub struct WalkError {
    pub path: Seq<char>,
    pub message: Seq<char>,
}

/// A match of the walk: its names below the base, and whether it is a
/// directory (symlinks are not).
pub struct MatchView {
    pub names: Seq<Seq<char>>,
    pub is_dir: bool,
}

pub type WalkResult = Result<Seq<MatchView>, WalkError>;

/// The text for a path whose listing or lookup the snapshot lacks.
pub open spec fn not_captured() -> Seq<char> {
    "path was not captured"@
}

/// The text for a walk deeper than the snapshot's listings.
pub open spec fn too_deep() -> Seq<char> {
    "directory nesting exceeds the captured tree"@
}

/// Reading a directory: its entry names, nothing when it does not exist, or
/// the failure.
pub open spec fn dir_read(s: FsSnapshot, dir: Seq<char>) -> Result<Option<Seq<Seq<char>>>, WalkError> {
    match find_listing(s.listings@, dir) {
        Some(Listing::Names(names)) => Ok(Some(string_views(names@))),
        Some(Listing::Failed(m)) => Err(WalkError { path: dir, message: m@ }),
        None => match find_entry(s.entries@, dir) {
            Some(Lookup::Missing(_)) => Ok(None),
            _ => Err(WalkError { path: dir, message: not_captured() }),
        },
    }
}

/// Whether an entry is a directory (not following symlinks), or the failure
/// to look it up.
pub open spec fn entry_is_dir(s: FsSnapshot, p: Seq<char>) -> Result<bool, WalkError> {
    match find_entry(s.entries@, p) {
        Some(Lookup::Found(m)) => Ok(m.kind == EntryKind::Directory),
        Some(Lookup::Missing(m)) => Err(WalkError { path: p, message: m@ }),
        Some(Lookup::Failed(m)) => Err(WalkError { path: p, message: m@ }),
        None => Err(WalkError { path: p, message: not_captured() }),
    }
}

/// `a` followed by the matches of `r`, or the failure of `r`.
pub open spec fn after(a: Seq<MatchView>, r: WalkResult) -> WalkResult {
    match r {
        Ok(b) => Ok(a + b),
        Err(e) => Err(e),
    }
}

/// The matches of segments `idx..` under `dir`, whose path below the base
/// is `rel`, in walk order.
pub open spec fn walk_spec(
    s: FsSnapshot,
    segs: Seq<SegmentKind>,
    dir: Seq<char>,
    rel: Seq<Seq<char>>,
    idx: nat,
    fuel: nat,
) -> WalkResult
    decreases fuel, segs.len() - idx, 2nat, 0nat,
{
    if idx >= segs.len() {
        Ok(Seq::empty())
    } else if segs[idx as int] is Recursive {
        recursive_spec(s, segs, dir, rel, idx, fuel)
    } else {
        match dir_read(s, dir) {
            Err(e) => Err(e),
            Ok(None) => Ok(Seq::empty()),
            Ok(Some(names)) => entries_spec(s, segs, dir, rel, idx, names, 0, fuel),
        }
    }
}

/// `walk_spec` over the entries of `dir` from index `k` on.
pub open spec fn entries_spec(
    s: FsSnapshot,
    segs: Seq<SegmentKind>,
    dir: Seq<char>,
    rel: Seq<Seq<char>>,
    idx: nat,
    names: Seq<Seq<char>>,
    k: nat,
    fuel: nat,
) -> WalkResult
    decreases fuel, segs.len() - idx, 0nat, names.len() - k,
{
    if k >= names.len() || idx >= segs.len() {
        Ok(Seq::empty())
    } else {
        let name = names[k as int];
        let p = join(dir, name);
        match entry_is_dir(s, p) {
            Err(e) => Err(e),
            Ok(is_dir) => {
                let here = if !segment_matches(segs[idx as int], name) {
                    Ok(Seq::empty())
                } else if idx + 1 == segs.len() {
                    Ok(seq![MatchView { names: rel.push(name), is_dir }])
                } else if !is_dir {
                    Ok(Seq::empty())
                } else if fuel == 0 {
                    Err(WalkError { path: p, message: too_deep() })
                } else {
                    walk_spec(s, segs, p, rel.push(name), idx + 1, (fuel - 1) as nat)
                };
                match here {
                    Err(e) => Err(e),
                    Ok(a) => after(a, entries_spec(s, segs, dir, rel, idx, names, k + 1, fuel)),
                }
            },
        }
    }
}

/// The matches of a recursive segment at `idx`: the rest of the pattern
/// right here, then each entry.
pub open spec fn recursive_spec(
    s: FsSnapshot,
    segs: Seq<SegmentKind>,
    dir: Seq<char>,
    rel: Seq<Seq<char>>,
    idx: nat,
    fuel: nat,
) -> WalkResult
    decreases fuel, segs.len() - idx, 1nat, 0nat,
{
    if idx >= segs.len() {
        Ok(Seq::empty())
    } else {
        let first = if idx + 1 < segs.len() {
            walk_spec(s, segs, dir, rel, idx + 1, fuel)
        } else {
            Ok(Seq::empty())
        };
        match first {
            Err(e) => Err(e),
            Ok(a) => match dir_read(s, dir) {
                Err(e) => Err(e),
                Ok(None) => Ok(a),
                Ok(Some(names)) => after(a, recursive_entries_spec(s, segs, dir, rel, idx, names, 0, fuel)),
            },
        }
    }
}

/// `recursive_spec` over the entries of `dir` from index `k` on.
pub open spec fn recursive_entries_spec(
    s: FsSnapshot,
    segs: Seq<SegmentKind>,
    dir: Seq<char>,
    rel: Seq<Seq<char>>,
    idx: nat,
    names: Seq<Seq<char>>,
    k: nat,
    fuel: nat,
) -> WalkResult
    decreases fuel, segs.len() - idx, 0nat, names.len() - k,
{
    if k >= names.len() || idx >= segs.len() {
        Ok(Seq::empty())
    } else {
        let name = names[k as int];
        let p = join(dir, name);
        match entry_is_dir(s, p) {
            Err(e) => Err(e),
            Ok(is_dir) => {
                let here = if idx + 1 == segs.len() {
                    Ok(seq![MatchView { names: rel.push(name), is_dir }])
                } else if !is_dir {
                    Ok(Seq::empty())
                } else if fuel == 0 {
                    Err(WalkError { path: p, message: too_deep() })
                } else {
                    recursive_spec(s, segs, p, rel.push(name), idx, (fuel - 1) as nat)
                };
                match here {
                    Err(e) => Err(e),
                    Ok(a) => after(a, recursive_entries_spec(s, segs, dir, rel, idx, names, k + 1, fuel)),
                }
            },
        }
    }
}

/// One compiled pattern component.
#[derive(Debug)]
pub enum GlobSegment {
    Recursive,
    Literal(String),
    Pattern(globset::GlobSet),
}

impl GlobSegment {
    /// The segment as plain values.
    pub open spec fn kind(&self) -> SegmentKind {
        match self {
            GlobSegment::Recursive => SegmentKind::Recursive,
            GlobSegment::Literal(l) => SegmentKind::Literal(l@),
            GlobSegment::Pattern(m) => SegmentKind::Pattern(set_glob(*m)),
        }
    }
}

/// The kinds of compiled segments.
pub open spec fn kinds(v: Seq<GlobSegment>) -> Seq<SegmentKind> {
    v.map_values(|g: GlobSegment| g.kind())
}

/// A match found by the walk: its names below the base and whether it is a
/// directory.
pub struct WalkMatch {
    pub names: Vec<String>,
    pub is_dir: bool,
}

impl WalkMatch {
    pub open spec fn view_match(&self) -> MatchView {
        MatchView { names: string_views(self.names@), is_dir: self.is_dir }
    }
}

/// The plain values of walk matches.
pub open spec fn match_views(v: Seq<WalkMatch>) -> Seq<MatchView> {
    v.map_values(|m: WalkMatch| m.view_match())
}

/// Whether `e` is the error for walk failure `w`.
pub open spec fn is_walk_error(e: GlobSourceError, w: WalkError) -> bool {
    e matches GlobSourceError::Io { path, message } && path@ == w.path && message@ == w.message
}

/// `component` with each brace wrapped in a character class.
pub fn escape_braces_exec(component: &str) -> (res: String)
    ensures
        res@ == escape_braces(component@),
{
    let chars = chars_of(component);
    let mut out = String::new();
    let mut i: usize = 0;
    while i < chars.len()
        invariant
            i <= chars.len(),
            chars@ == component@,
            out@ == escape_braces(chars@.take(i as int)),
        decreases chars.len() - i,
    {
        proof {
            assert(chars@.take(i + 1).drop_last() =~= chars@.take(i as int));
        }
        let c = chars[i];
        if c == '{' {
            out.append("[{]");
        } else if c == '}' {
            out.append("[}]");
        } else {
            push_char(&mut out, c);
        }
        i = i + 1;
    }
    assert(chars@.take(chars.len() as int) =~= chars@);
    out
}

/// Whether `component` holds a backslash.
fn has_backslash_exec(component: &str) -> (res: bool)
    ensures
        res == has_backslash(component@),
{
    let chars = chars_of(component);
    let mut i: usize = 0;
    while i < chars.len()
        invariant
            i <= chars.len(),
            chars@ == component@,
            forall|j: int| 0 <= j < i ==> chars@[j] != '\\',
        decreases chars.len() - i,
    {
        if chars[i] == '\\' {
            return true;
        }
        i = i + 1;
    }
    false
}

/// Compiles one pattern component: `**` is recursive, a component without
/// glob syntax or backslashes is a literal name, anything else a pattern
/// whose braces match literally.
pub fn build_segment(component: &str) -> (res: Result<GlobSegment, GlobSourceError>)
    ensures
        match segment_spec(component@) {
            Ok(k) => res matches Ok(g) && g.kind() == k,
            Err(e) => res matches Err(GlobSourceError::InvalidPattern(m)) && m@ == e,
        },
{
    proof {
        reveal_strlit("**");
    }
    if str_eq(component, "**") {
        return Ok(GlobSegment::Recursive);
    }
    if !has_backslash_exec(component) && !component_has_unescaped_metacharacters(component) {
        return Ok(GlobSegment::Literal(owned(component)));
    }
    let pattern = escape_braces_exec(component);
    match compile_glob(pattern.as_str()) {
        Ok(m) => Ok(GlobSegment::Pattern(m)),
        Err(e) => Err(GlobSourceError::InvalidPattern(e)),
    }
}

/// Compiles every pattern component, stopping at the first failure.
pub fn build_segments(components: &Vec<String>) -> (res: Result<Vec<GlobSegment>, GlobSourceError>)
    ensures
        match segments_spec(string_views(components@)) {
            Ok(ks) => res matches Ok(v) && kinds(v@) == ks,
            Err(e) => res matches Err(GlobSourceError::InvalidPattern(m)) && m@ == e,
        },
{
    let ghost cs = string_views(components@);
    let mut segs: Vec<GlobSegment> = Vec::new();
    let mut i: usize = 0;
    assert(cs.take(0) =~= Seq::<Seq<char>>::empty());
    assert(kinds(segs@) =~= Seq::<SegmentKind>::empty());
    while i < components.len()
        invariant
            i <= components.len(),
            cs == string_views(components@),
            segments_spec(cs.take(i as int)) == Ok::<Seq<SegmentKind>, Seq<char>>(kinds(segs@)),
        decreases components.len() - i,
    {
        proof {
            assert(cs.take(i + 1).drop_last() =~= cs.take(i as int));
            assert(cs.take(i + 1).last() == components@[i as int]@);
        }
        let seg = match build_segment(components[i].as_str()) {
            Ok(g) => g,
            Err(e) => {
                proof {
                    assert(segments_spec(cs.take(i + 1)) is Err);
                    lemma_segments_err_prefix(cs, i + 1);
                    assert(cs.take(components.len() as int) =~= cs);
                }
                return Err(e);
            },
        };
        let ghost before = segs@;
        let ghost k = seg.kind();
        segs.push(seg);
        proof {
            assert(kinds(segs@) =~= kinds(before).push(k));
        }
        i = i + 1;
    }
    proof {
        assert(cs.take(components.len() as int) =~= cs);
    }
    Ok(segs)
}

/// Once a prefix of the components fails to compile, every longer prefix
/// fails with the same error.
proof fn lemma_segments_err_prefix(cs: Seq<Seq<char>>, n: int)
    requires
        0 <= n <= cs.len(),
        segments_spec(cs.take(n)) is Err,
    ensures
        segments_spec(cs) == segments_spec(cs.take(n)),
    decreases cs.len() - n,
{
    if n < cs.len() {
        assert(cs.take(n + 1).drop_last() =~= cs.take(n));
        lemma_segments_err_prefix(cs, n + 1);
    } else {
        assert(cs.take(n) =~= cs);
    }
}

/// Appending in two steps is appending once.
proof fn lemma_after_assoc(acc: Seq<MatchView>, a: Seq<MatchView>, r: WalkResult)
    ensures
        after(acc, after(a, r)) == after(acc + a, r),
{
    match r {
        Ok(b) => assert(acc + (a + b) =~= (acc + a) + b),
        Err(_) => {},
    }
}

fn io_error(path: &str, message: &str) -> (res: GlobSourceError)
    ensures
        is_walk_error(res, WalkError { path: path@, message: message@ }),
{
    GlobSourceError::Io { path: owned(path), message: owned(message) }
}

/// The entry names of a directory, nothing when it does not exist, or the
/// failure to read it.
fn read_dir_names<'a>(s: &'a FsSnapshot, dir: &str) -> (res: Result<Option<&'a Vec<String>>, GlobSourceError>)
    ensures
        match dir_read(*s, dir@) {
            Ok(None) => res matches Ok(None),
            Ok(Some(names)) => res matches Ok(Some(v)) && string_views(v@) == names,
            Err(w) => res matches Err(e) && is_walk_error(e, w),
        },
{
    match s.listing(dir) {
        Some(Listing::Names(names)) => Ok(Some(names)),
        Some(Listing::Failed(m)) => Err(io_error(dir, m.as_str())),
        None => match s.entry(dir) {
            Some(Lookup::Missing(_)) => Ok(None),
            _ => {
                proof {
                    reveal_strlit("path was not captured");
                }
                Err(io_error(dir, "path was not captured"))
            },
        },
    }
}

/// Whether an entry is a directory, or the failure to look it up.
fn lookup_is_dir(s: &FsSnapshot, p: &str) -> (res: Result<bool, GlobSourceError>)
    ensures
        match entry_is_dir(*s, p@) {
            Ok(b) => res == Ok::<bool, GlobSourceError>(b),
            Err(w) => res matches Err(e) && is_walk_error(e, w),
        },
{
    match s.entry(p) {
        Some(Lookup::Found(m)) => Ok(m.kind == EntryKind::Directory),
        Some(Lookup::Missing(m)) => Err(io_error(p, m.as_str())),
        Some(Lookup::Failed(m)) => Err(io_error(p, m.as_str())),
        None => {
            proof {
                reveal_strlit("path was not captured");
            }
            Err(io_error(p, "path was not captured"))
        },
    }
}

/// Whether a segment matches a file name.
fn segment_is_match(seg: &GlobSegment, name: &str) -> (res: bool)
    ensures
        res == segment_matches(seg.kind(), name@),
{
    match seg {
        GlobSegment::Recursive => true,
        GlobSegment::Literal(l) => str_eq(name, l.as_str()),
        GlobSegment::Pattern(m) => glob_is_match(m, name),
    }
}

/// `rel` with `name` appended.
fn extend_names(rel: &Vec<String>, name: &String) -> (res: Vec<String>)
    ensures
        string_views(res@) == string_views(rel@).push(name@),
{
    let mut res: Vec<String> = Vec::new();
    let mut i: usize = 0;
    while i < rel.len()
        invariant
            i <= rel.len(),
            string_views(res@) == string_views(rel@).take(i as int),
        decreases rel.len() - i,
    {
        let ghost before = res@;
        res.push(copy_string(&rel[i]));
        proof {
            assert(string_views(res@) =~= string_views(before).push(rel@[i as int]@));
            assert(string_views(rel@).take(i + 1) =~= string_views(rel@).take(i as int).push(rel@[i as int]@));
        }
        i = i + 1;
    }
    let ghost before = res@;
    res.push(copy_string(name));
    proof {
        assert(string_views(rel@).take(rel.len() as int) =~= string_views(rel@));
        assert(string_views(res@) =~= string_views(before).push(name@));
    }
    res
}

/// Appends to `out` the matches of segments `idx..` under `dir`.
fn walk(
    s: &FsSnapshot,
    segs: &Vec<GlobSegment>,
    dir: &str,
    rel: &Vec<String>,
    idx: usize,
    fuel: usize,
    out: &mut Vec<WalkMatch>,
) -> (res: Result<(), GlobSourceError>)
    ensures
        match walk_spec(*s, kinds(segs@), dir@, string_views(rel@), idx as nat, fuel as nat) {
            Ok(ms) => res is Ok && match_views(final(out)@) == match_views(old(out)@) + ms,
            Err(w) => res matches Err(e) && is_walk_error(e, w),
        },
    decreases fuel, segs.len() - idx, 2nat, 0nat,
{
    let ghost ks = kinds(segs@);
    let ghost r = string_views(rel@);
    if idx >= segs.len() {
        assert(match_views(out@) =~= match_views(out@) + Seq::<MatchView>::empty());
        return Ok(());
    }
    assert(ks[idx as int] == segs@[idx as int].kind());
    if let GlobSegment::Recursive = &segs[idx] {
        return walk_recursive(s, segs, dir, rel, idx, fuel, out);
    }
    let names = match read_dir_names(s, dir) {
        Err(e) => return Err(e),
        Ok(None) => {
            assert(match_views(out@) =~= match_views(out@) + Seq::<MatchView>::empty());
            return Ok(());
        },
        Ok(Some(n)) => n,
    };
    let ghost ns = string_views(names@);
    let ghost start = match_views(out@);
    let ghost mut acc: Seq<MatchView> = Seq::empty();
    let mut k: usize = 0;
    assert(after(acc, entries_spec(*s, ks, dir@, r, idx as nat, ns, 0, fuel as nat)) == entries_spec(
        *s,
        ks,
        dir@,
        r,
        idx as nat,
        ns,
        0,
        fuel as nat,
    )) by {
        match entries_spec(*s, ks, dir@, r, idx as nat, ns, 0, fuel as nat) {
            Ok(b) => assert(acc + b =~= b),
            Err(_) => {},
        }
    }
    assert(start + acc =~= start);
    while k < names.len()
        invariant
            k <= names.len(),
            idx < segs.len(),
            ks == kinds(segs@),
            r == string_views(rel@),
            ns == string_views(names@),
            match_views(out@) == start + acc,
            walk_spec(*s, ks, dir@, r, idx as nat, fuel as nat) == after(
                acc,
                entries_spec(*s, ks, dir@, r, idx as nat, ns, k as nat, fuel as nat),
            ),
        decreases names.len() - k,
    {
        let name = &names[k];
        assert(ns[k as int] == name@);
        let p = join_paths(dir, name.as_str());
        let is_dir = match lookup_is_dir(s, p.as_str()) {
            Ok(b) => b,
            Err(e) => return Err(e),
        };
        let ghost rest = entries_spec(*s, ks, dir@, r, idx as nat, ns, (k + 1) as nat, fuel as nat);
        assert(ks[idx as int] == segs@[idx as int].kind());
        if segment_is_match(&segs[idx], name.as_str()) {
            if idx + 1 == segs.len() {
                let m = WalkMatch { names: extend_names(rel, name), is_dir };
                let ghost mv = m.view_match();
                let ghost before = out@;
                out.push(m);
                proof {
                    assert(match_views(out@) =~= match_views(before).push(mv));
                    assert(mv == (MatchView { names: r.push(name@), is_dir }));
                    assert(entries_spec(*s, ks, dir@, r, idx as nat, ns, k as nat, fuel as nat) == after(seq![mv], rest));
                    lemma_after_assoc(acc, seq![mv], rest);
                    acc = acc + seq![mv];
                }
            } else if is_dir {
                if fuel == 0 {
                    proof {
                        reveal_strlit("directory nesting exceeds the captured tree");
                    }
                    return Err(io_error(p.as_str(), "directory nesting exceeds the captured tree"));
                }
                let child = extend_names(rel, name);
                let ghost before = match_views(out@);
                let ghost wr = walk_spec(*s, ks, p@, r.push(name@), (idx + 1) as nat, (fuel - 1) as nat);
                match walk(s, segs, p.as_str(), &child, idx + 1, fuel - 1, out) {
                    Ok(()) => {},
                    Err(e) => return Err(e),
                }
                proof {
                    let cm = match_views(out@).skip(before.len() as int);
                    assert(wr matches Ok(ms) && ms =~= cm);
                    assert(match_views(out@) =~= before + cm);
                    assert(entries_spec(*s, ks, dir@, r, idx as nat, ns, k as nat, fuel as nat) == after(cm, rest));
                    lemma_after_assoc(acc, cm, rest);
                    acc = acc + cm;
                }
            } else {
                proof {
                    assert(entries_spec(*s, ks, dir@, r, idx as nat, ns, k as nat, fuel as nat) == after(Seq::empty(), rest));
                    lemma_after_assoc(acc, Seq::empty(), rest);
                    assert(acc + Seq::<MatchView>::empty() =~= acc);
                }
            }
        } else {
            proof {
                assert(entries_spec(*s, ks, dir@, r, idx as nat, ns, k as nat, fuel as nat) == after(Seq::empty(), rest));
                lemma_after_assoc(acc, Seq::empty(), rest);
                assert(acc + Seq::<MatchView>::empty() =~= acc);
            }
        }
        k = k + 1;
    }
    proof {
        assert(acc + Seq::<MatchView>::empty() =~= acc);
    }
    Ok(())
}

/// Appends to `out` the matches of the recursive segment at `idx` under
/// `dir`.
fn walk_recursive(
    s: &FsSnapshot,
    segs: &Vec<GlobSegment>,
    dir: &str,
    rel: &Vec<String>,
    idx: usize,
    fuel: usize,
    out: &mut Vec<WalkMatch>,
) -> (res: Result<(), GlobSourceError>)
    ensures
        match recursive_spec(*s, kinds(segs@), dir@, string_views(rel@), idx as nat, fuel as nat) {
            Ok(ms) => res is Ok && match_views(final(out)@) == match_views(old(out)@) + ms,
            Err(w) => res matches Err(e) && is_walk_error(e, w),
        },
    decreases fuel, segs.len() - idx, 1nat, 0nat,
{
    let ghost ks = kinds(segs@);
    let ghost r = string_views(rel@);
    let ghost start = match_views(out@);
    if idx >= segs.len() {
        assert(start =~= start + Seq::<MatchView>::empty());
        return Ok(());
    }
    let ghost fr = if idx + 1 < segs.len() {
        walk_spec(*s, ks, dir@, r, (idx + 1) as nat, fuel as nat)
    } else {
        Ok(Seq::empty())
    };
    if idx + 1 < segs.len() {
        match walk(s, segs, dir, rel, idx + 1, fuel, out) {
            Ok(()) => {},
            Err(e) => return Err(e),
        }
    } else {
        assert(match_views(out@) =~= start + Seq::<MatchView>::empty());
    }
    let ghost first = match_views(out@).skip(start.len() as int);
    assert(match_views(out@) =~= start + first);
    assert(fr matches Ok(ms) && ms =~= first);
    let names = match read_dir_names(s, dir) {
        Err(e) => return Err(e),
        Ok(None) => return Ok(()),
        Ok(Some(n)) => n,
    };
    let ghost ns = string_views(names@);
    let ghost mut acc: Seq<MatchView> = first;
    assert(recursive_spec(*s, ks, dir@, r, idx as nat, fuel as nat) == after(
        first,
        recursive_entries_spec(*s, ks, dir@, r, idx as nat, ns, 0, fuel as nat),
    ));
    let mut k: usize = 0;
    while k < names.len()
        invariant
            k <= names.len(),
            idx < segs.len(),
            ks == kinds(segs@),
            r == string_views(rel@),
            ns == string_views(names@),
            match_views(out@) == start + acc,
            recursive_spec(*s, ks, dir@, r, idx as nat, fuel as nat) == after(
                acc,
                recursive_entries_spec(*s, ks, dir@, r, idx as nat, ns, k as nat, fuel as nat),
            ),
        decreases names.len() - k,
    {
        let name = &names[k];
        assert(ns[k as int] == name@);
        let p = join_paths(dir, name.as_str());
        let is_dir = match lookup_is_dir(s, p.as_str()) {
            Ok(b) => b,
            Err(e) => return Err(e),
        };
        let ghost rest = recursive_entries_spec(*s, ks, dir@, r, idx as nat, ns, (k + 1) as nat, fuel as nat);
        if idx + 1 == segs.len() {
            let m = WalkMatch { names: extend_names(rel, name), is_dir };
            let ghost mv = m.view_match();
            let ghost before = out@;
            out.push(m);
            proof {
                assert(match_views(out@) =~= match_views(before).push(mv));
                assert(mv == (MatchView { names: r.push(name@), is_dir }));
                assert(recursive_entries_spec(*s, ks, dir@, r, idx as nat, ns, k as nat, fuel as nat) == after(seq![mv], rest));
                lemma_after_assoc(acc, seq![mv], rest);
                acc = acc + seq![mv];
            }
        } else if is_dir {
            if fuel == 0 {
                proof {
                    reveal_strlit("directory nesting exceeds the captured tree");
                }
                return Err(io_error(p.as_str(), "directory nesting exceeds the captured tree"));
            }
            let child = extend_names(rel, name);
            let ghost before = match_views(out@);
            let ghost wr = recursive_spec(*s, ks, p@, r.push(name@), idx as nat, (fuel - 1) as nat);
            match walk_recursive(s, segs, p.as_str(), &child, idx, fuel - 1, out) {
                Ok(()) => {},
                Err(e) => return Err(e),
            }
            proof {
                let cm = match_views(out@).skip(before.len() as int);
                assert(wr matches Ok(ms) && ms =~= cm);
                assert(match_views(out@) =~= before + cm);
                assert(recursive_entries_spec(*s, ks, dir@, r, idx as nat, ns, k as nat, fuel as nat) == after(cm, rest));
                lemma_after_assoc(acc, cm, rest);
                acc = acc + cm;
            }
        } else {
            proof {
                assert(recursive_entries_spec(*s, ks, dir@, r, idx as nat, ns, k as nat, fuel as nat) == after(Seq::empty(), rest));
                lemma_after_assoc(acc, Seq::empty(), rest);
                assert(acc + Seq::<MatchView>::empty() =~= acc);
            }
        }
        k = k + 1;
    }
    proof {
        assert(acc + Seq::<MatchView>::empty() =~= acc);
    }
    Ok(())
}

/// Lexicographic order of names by character (code point) order, a prefix
/// first.
pub open spec fn chars_lt(a: Seq<char>, b: Seq<char>) -> bool
    decreases a.len(),
{
    if b.len() == 0 {
        false
    } else if a.len() == 0 {
        true
    } else if a[0] != b[0] {
        a[0] < b[0]
    } else {
        chars_lt(a.drop_first(), b.drop_first())
    }
}

/// Order of relative paths: component by component, a prefix first.
pub open spec fn names_lt(a: Seq<Seq<char>>, b: Seq<Seq<char>>) -> bool
    decreases a.len(),
{
    if b.len() == 0 {
        false
    } else if a.len() == 0 {
        true
    } else if a[0] != b[0] {
        chars_lt(a[0], b[0])
    } else {
        names_lt(a.drop_first(), b.drop_first())
    }
}

proof fn lemma_chars_lt_irreflexive(a: Seq<char>)
    ensures
        !chars_lt(a, a),
    decreases a.len(),
{
    if a.len() > 0 {
        lemma_chars_lt_irreflexive(a.drop_first());
    }
}

proof fn lemma_chars_lt_transitive(a: Seq<char>, b: Seq<char>, c: Seq<char>)
    requires
        chars_lt(a, b),
        chars_lt(b, c),
    ensures
        chars_lt(a, c),
    decreases a.len(),
{
    if a.len() > 0 && b.len() > 0 && c.len() > 0 && a[0] == b[0] && b[0] == c[0] {
        lemma_chars_lt_transitive(a.drop_first(), b.drop_first(), c.drop_first());
    }
}

proof fn lemma_chars_lt_total(a: Seq<char>, b: Seq<char>)
    requires
        a != b,
    ensures
        chars_lt(a, b) || chars_lt(b, a),
    decreases a.len(),
{
    if a.len() > 0 && b.len() > 0 && a[0] == b[0] {
        if a.drop_first() == b.drop_first() {
            assert(a =~= seq![a[0]] + a.drop_first());
            assert(b =~= seq![b[0]] + b.drop_first());
        }
        lemma_chars_lt_total(a.drop_first(), b.drop_first());
    } else if a.len() == 0 && b.len() == 0 {
        assert(a =~= b);
    }
}

proof fn lemma_names_lt_irreflexive(a: Seq<Seq<char>>)
    ensures
        !names_lt(a, a),
    decreases a.len(),
{
    if a.len() > 0 {
        lemma_names_lt_irreflexive(a.drop_first());
    }
}

proof fn lemma_names_lt_transitive(a: Seq<Seq<char>>, b: Seq<Seq<char>>, c: Seq<Seq<char>>)
    requires
        names_lt(a, b),
        names_lt(b, c),
    ensures
        names_lt(a, c),
    decreases a.len(),
{
    if a.len() > 0 && b.len() > 0 && c.len() > 0 {
        if a[0] == b[0] && b[0] == c[0] {
            lemma_names_lt_transitive(a.drop_first(), b.drop_first(), c.drop_first());
        } else if a[0] != b[0] && b[0] != c[0] {
            lemma_chars_lt_transitive(a[0], b[0], c[0]);
            if a[0] == c[0] {
                lemma_chars_lt_irreflexive(a[0]);
            }
        } else if a[0] != b[0] && a[0] == c[0] {
            lemma_chars_lt_irreflexive(a[0]);
        }
    }
}

proof fn lemma_names_lt_total(a: Seq<Seq<char>>, b: Seq<Seq<char>>)
    requires
        a != b,
    ensures
        names_lt(a, b) || names_lt(b, a),
    decreases a.len(),
{
    if a.len() > 0 && b.len() > 0 && a[0] == b[0] {
        if a.drop_first() == b.drop_first() {
            assert(a =~= seq![a[0]] + a.drop_first());
            assert(b =~= seq![b[0]] + b.drop_first());
        }
        lemma_names_lt_total(a.drop_first(), b.drop_first());
    } else if a.len() > 0 && b.len() > 0 {
        lemma_chars_lt_total(a[0], b[0]);
    } else if a.len() == 0 && b.len() == 0 {
        assert(a =~= b);
    }
}

proof fn lemma_names_lt_asymmetric(a: Seq<Seq<char>>, b: Seq<Seq<char>>)
    requires
        names_lt(a, b),
    ensures
        !names_lt(b, a),
{
    if names_lt(b, a) {
        lemma_names_lt_transitive(a, b, a);
        lemma_names_lt_irreflexive(a);
    }
}

/// Whether `a` sorts before `b` by characters.
pub fn chars_less(a: &str, b: &str) -> (res: bool)
    ensures
        res == chars_lt(a@, b@),
{
    let x = chars_of(a);
    let y = chars_of(b);
    let mut i: usize = 0;
    assert(x@.skip(0) =~= x@);
    assert(y@.skip(0) =~= y@);
    while i < x.len() && i < y.len()
        invariant
            i <= x.len(),
            i <= y.len(),
            x@ == a@,
            y@ == b@,
            chars_lt(a@, b@) == chars_lt(x@.skip(i as int), y@.skip(i as int)),
        decreases x.len() - i,
    {
        assert(x@.skip(i as int)[0] == x@[i as int]);
        assert(y@.skip(i as int)[0] == y@[i as int]);
        if x[i] != y[i] {
            return x[i] < y[i];
        }
        assert(x@.skip(i as int).drop_first() =~= x@.skip(i + 1));
        assert(y@.skip(i as int).drop_first() =~= y@.skip(i + 1));
        i = i + 1;
    }
    i < y.len()
}

/// Whether relative path `a` sorts before `b`.
fn names_less(a: &Vec<String>, b: &Vec<String>) -> (res: bool)
    ensures
        res == names_lt(string_views(a@), string_views(b@)),
{
    let ghost x = string_views(a@);
    let ghost y = string_views(b@);
    let mut i: usize = 0;
    assert(x.skip(0) =~= x);
    assert(y.skip(0) =~= y);
    while i < a.len() && i < b.len()
        invariant
            i <= a.len(),
            i <= b.len(),
            x == string_views(a@),
            y == string_views(b@),
            names_lt(x, y) == names_lt(x.skip(i as int), y.skip(i as int)),
        decreases a.len() - i,
    {
        assert(x.skip(i as int)[0] == a@[i as int]@);
        assert(y.skip(i as int)[0] == b@[i as int]@);
        if !str_eq(a[i].as_str(), b[i].as_str()) {
            return chars_less(a[i].as_str(), b[i].as_str());
        }
        assert(x.skip(i as int).drop_first() =~= x.skip(i + 1));
        assert(y.skip(i as int).drop_first() =~= y.skip(i + 1));
        i = i + 1;
    }
    i < b.len()
}

/// Whether two relative paths are equal.
fn names_equal(a: &Vec<String>, b: &Vec<String>) -> (res: bool)
    ensures
        res == (string_views(a@) == string_views(b@)),
{
    if a.len() != b.len() {
        assert(string_views(a@).len() != string_views(b@).len());
        return false;
    }
    let mut i: usize = 0;
    while i < a.len()
        invariant
            i <= a.len(),
            a.len() == b.len(),
            forall|j: int| 0 <= j < i ==> a@[j]@ == b@[j]@,
        decreases a.len() - i,
    {
        if !str_eq(a[i].as_str(), b[i].as_str()) {
            assert(string_views(a@)[i as int] != string_views(b@)[i as int]);
            return false;
        }
        i = i + 1;
    }
    assert(string_views(a@) =~= string_views(b@));
    true
}

/// The first match of `ms` at relative path `n`, if any.
pub open spec fn first_with(ms: Seq<MatchView>, n: Seq<Seq<char>>) -> Option<MatchView>
    decreases ms.len(),
{
    if ms.len() == 0 {
        None
    } else {
        match first_with(ms.drop_last(), n) {
            Some(x) => Some(x),
            None => if ms.last().names == n {
                Some(ms.last())
            } else {
                None
            },
        }
    }
}

/// Whether `out` holds one match per relative path of `ms`, the first one
/// found, sorted by path.
pub open spec fn sorted_unique(out: Seq<MatchView>, ms: Seq<MatchView>) -> bool {
    &&& forall|i: int, j: int| 0 <= i < j < out.len() ==> names_lt(#[trigger] out[i].names, #[trigger] out[j].names)
    &&& forall|i: int| 0 <= i < out.len() ==> first_with(ms, #[trigger] out[i].names) == Some(out[i])
    &&& forall|j: int| 0 <= j < ms.len() ==> exists|i: int| 0 <= i < out.len() && #[trigger] out[i].names == (#[trigger] ms[j]).names
}

proof fn lemma_first_with_none(ms: Seq<MatchView>, n: Seq<Seq<char>>)
    requires
        forall|j: int| 0 <= j < ms.len() ==> (#[trigger] ms[j]).names != n,
    ensures
        first_with(ms, n).is_none(),
    decreases ms.len(),
{
    if ms.len() > 0 {
        assert forall|j: int| 0 <= j < ms.drop_last().len() implies (#[trigger] ms.drop_last()[j]).names != n by {
            assert(ms.drop_last()[j] == ms[j]);
        }
        lemma_first_with_none(ms.drop_last(), n);
        assert(ms.last() == ms[ms.len() - 1]);
    }
}

/// `m` added to the sorted list `v` before the first match that does not
/// sort before it, unless that match has the same path.
pub open spec fn sorted_insert(v: Seq<MatchView>, m: MatchView) -> Seq<MatchView>
    decreases v.len(),
{
    if v.len() == 0 {
        seq![m]
    } else if names_lt(v[0].names, m.names) {
        seq![v[0]] + sorted_insert(v.drop_first(), m)
    } else if v[0].names == m.names {
        v
    } else {
        seq![m] + v
    }
}

/// The matches sorted by path, keeping the first match of each path.
pub open spec fn sort_dedup(ms: Seq<MatchView>) -> Seq<MatchView>
    decreases ms.len(),
{
    if ms.len() == 0 {
        Seq::empty()
    } else {
        sorted_insert(sort_dedup(ms.drop_last()), ms.last())
    }
}

/// Inserting after a prefix that sorts before `m` keeps the prefix.
proof fn lemma_sorted_insert_skip(v: Seq<MatchView>, m: MatchView, p: int)
    requires
        0 <= p <= v.len(),
        forall|i: int| 0 <= i < p ==> names_lt(#[trigger] v[i].names, m.names),
    ensures
        sorted_insert(v, m) == v.take(p) + sorted_insert(v.skip(p), m),
    decreases p,
{
    if p == 0 {
        assert(v.take(0) + sorted_insert(v.skip(0), m) =~= sorted_insert(v, m)) by {
            assert(v.skip(0) =~= v);
        }
    } else {
        let w = v.drop_first();
        assert forall|i: int| 0 <= i < p - 1 implies names_lt(#[trigger] w[i].names, m.names) by {
            assert(w[i] == v[i + 1]);
        }
        lemma_sorted_insert_skip(w, m, p - 1);
        assert(names_lt(v[0].names, m.names));
        assert(w.skip(p - 1) =~= v.skip(p));
        assert(seq![v[0]] + w.take(p - 1) =~= v.take(p));
        assert(seq![v[0]] + (w.take(p - 1) + sorted_insert(w.skip(p - 1), m)) =~= v.take(p) + sorted_insert(v.skip(p), m));
    }
}

/// Adds a match to a sorted, repeat-free list, unless its path is there.
fn insert_match(out: &mut Vec<WalkMatch>, m: WalkMatch, Ghost(ms): Ghost<Seq<MatchView>>)
    requires
        sorted_unique(match_views(old(out)@), ms),
    ensures
        sorted_unique(match_views(final(out)@), ms.push(m.view_match())),
        match_views(final(out)@) == sorted_insert(match_views(old(out)@), m.view_match()),
{
    let ghost mv = m.view_match();
    let ghost ov = match_views(out@);
    let ghost ms2 = ms.push(mv);
    assert(ms2.drop_last() =~= ms);
    assert(ms2.last() == mv);
    let mut p: usize = 0;
    loop
        invariant
            p <= out.len(),
            ov == match_views(out@),
            mv == m.view_match(),
            forall|i: int| 0 <= i < p ==> names_lt(#[trigger] ov[i].names, mv.names),
        ensures
            p <= out.len(),
            forall|i: int| 0 <= i < p ==> names_lt(#[trigger] ov[i].names, mv.names),
            p < out.len() ==> !names_lt(ov[p as int].names, mv.names),
        decreases out.len() - p,
    {
        if p >= out.len() {
            break;
        }
        assert(ov[p as int].names == string_views(out@[p as int].names@));
        if !names_less(&out[p].names, &m.names) {
            break;
        }
        p = p + 1;
    }
    if p < out.len() && names_equal(&out[p].names, &m.names) {
        proof {
            lemma_sorted_insert_skip(ov, mv, p as int);
            assert(ov.skip(p as int)[0] == ov[p as int]);
            assert(ov.take(p as int) + ov.skip(p as int) =~= ov);
            assert forall|i: int| 0 <= i < ov.len() implies first_with(ms2, #[trigger] ov[i].names) == Some(ov[i]) by {
                assert(first_with(ms, ov[i].names) == Some(ov[i]));
            }
            assert forall|j: int| 0 <= j < ms2.len() implies exists|i: int| 0 <= i < ov.len() && #[trigger] ov[i].names == (#[trigger] ms2[j]).names by {
                if j < ms.len() {
                    assert(ms2[j] == ms[j]);
                } else {
                    assert(ov[p as int].names == ms2[j].names);
                }
            }
        }
        return;
    }
    proof {
        if p < out.len() {
            assert(ov[p as int].names != mv.names);
            lemma_names_lt_total(ov[p as int].names, mv.names);
        }
        assert forall|i: int| 0 <= i < ov.len() implies (#[trigger] ov[i]).names != mv.names by {
            if i < p {
                lemma_names_lt_irreflexive(mv.names);
            } else {
                if i > p {
                    lemma_names_lt_transitive(mv.names, ov[p as int].names, ov[i].names);
                }
                lemma_names_lt_irreflexive(mv.names);
            }
        }
        assert forall|j: int| 0 <= j < ms.len() implies (#[trigger] ms[j]).names != mv.names by {
            let i = choose|i: int| 0 <= i < ov.len() && #[trigger] ov[i].names == ms[j].names;
            assert(ov[i].names != mv.names);
        }
        lemma_first_with_none(ms, mv.names);
    }
    out.insert(p, m);
    proof {
        let nv = match_views(out@);
        assert(nv =~= ov.insert(p as int, mv));
        lemma_sorted_insert_skip(ov, mv, p as int);
        if p < ov.len() {
            assert(ov.skip(p as int)[0] == ov[p as int]);
            lemma_names_lt_asymmetric(mv.names, ov[p as int].names);
            assert(!names_lt(ov[p as int].names, mv.names));
        } else {
            assert(ov.skip(p as int) =~= Seq::<MatchView>::empty());
        }
        assert(nv =~= ov.take(p as int) + sorted_insert(ov.skip(p as int), mv));
        assert forall|i: int, j: int| 0 <= i < j < nv.len() implies names_lt(#[trigger] nv[i].names, #[trigger] nv[j].names) by {
            if j < p {
            } else if j == p {
            } else if i < p {
                assert(nv[j] == ov[j - 1]);
                if j - 1 > p {
                    lemma_names_lt_transitive(mv.names, ov[p as int].names, ov[j - 1].names);
                }
                lemma_names_lt_transitive(ov[i].names, mv.names, ov[j - 1].names);
            } else if i == p {
                assert(nv[j] == ov[j - 1]);
                if j - 1 > p {
                    lemma_names_lt_transitive(mv.names, ov[p as int].names, ov[j - 1].names);
                }
            } else {
                assert(nv[i] == ov[i - 1]);
                assert(nv[j] == ov[j - 1]);
            }
        }
        assert forall|i: int| 0 <= i < nv.len() implies first_with(ms2, #[trigger] nv[i].names) == Some(nv[i]) by {
            if i < p {
                assert(nv[i] == ov[i]);
                assert(first_with(ms, ov[i].names) == Some(ov[i]));
            } else if i > p {
                assert(nv[i] == ov[i - 1]);
                assert(first_with(ms, ov[i - 1].names) == Some(ov[i - 1]));
            }
        }
        assert forall|j: int| 0 <= j < ms2.len() implies exists|i: int| 0 <= i < nv.len() && #[trigger] nv[i].names == (#[trigger] ms2[j]).names by {
            if j < ms.len() {
                assert(ms2[j] == ms[j]);
                let i = choose|i: int| 0 <= i < ov.len() && #[trigger] ov[i].names == ms[j].names;
                if i < p {
                    assert(nv[i] == ov[i]);
                } else {
                    assert(nv[i + 1] == ov[i]);
                }
            } else {
                assert(nv[p as int] == mv);
            }
        }
    }
}

/// The relative path of names below the base, joined in order.
pub open spec fn rel_path(names: Seq<Seq<char>>) -> Seq<char>
    decreases names.len(),
{
    if names.len() == 0 {
        Seq::empty()
    } else {
        join(rel_path(names.drop_last()), names.last())
    }
}

/// A path matched by glob source expansion.
#[derive(Debug, Clone, PartialEq, Eq)]
pub struct GlobSourceMatch {
    /// Path of the match relative to the pattern base.
    pub relative: String,
    /// Whether the match is a directory. Directory symlinks are not directories.
    pub is_dir: bool,
}

/// Whether `out` lists the matches `v` with their relative paths joined.
pub open spec fn lists_matches(out: Seq<GlobSourceMatch>, v: Seq<MatchView>) -> bool {
    &&& out.len() == v.len()
    &&& forall|i: int|
        0 <= i < out.len() ==> (#[trigger] out[i]).relative@ == rel_path(v[i].names) && out[i].is_dir == v[i].is_dir
}

/// What expanding a split source yields: the compile error of a component,
/// the walk failure, or the walk's matches in walk order.
pub open spec fn expand_spec(s: FsSnapshot, base: Seq<char>, components: Seq<Seq<char>>) -> Result<Seq<MatchView>, GlobSourceErrorView> {
    match segments_spec(components) {
        Err(e) => Err(GlobSourceErrorView::InvalidPattern(e)),
        Ok(ks) => match walk_spec(s, ks, base, Seq::empty(), 0, snapshot_fuel(s)) {
            Err(w) => Err(GlobSourceErrorView::Io(w)),
            Ok(ms) => Ok(ms),
        },
    }
}

/// An expansion failure as plain values.
pub enum GlobSourceErrorView {
    InvalidPattern(Seq<char>),
    Io(WalkError),
}

/// Whether `e` is the expansion failure `v`.
pub open spec fn is_expand_error(e: GlobSourceError, v: GlobSourceErrorView) -> bool {
    match v {
        GlobSourceErrorView::InvalidPattern(m) => e matches GlobSourceError::InvalidPattern(x) && x@ == m,
        GlobSourceErrorView::Io(w) => is_walk_error(e, w),
    }
}

fn relative_of(names: &Vec<String>) -> (res: String)
    ensures
        res@ == rel_path(string_views(names@)),
{
    let ghost ns = string_views(names@);
    let mut rel = String::new();
    let mut i: usize = 0;
    while i < names.len()
        invariant
            i <= names.len(),
            ns == string_views(names@),
            rel@ == rel_path(ns.take(i as int)),
        decreases names.len() - i,
    {
        proof {
            assert(ns.take(i + 1).drop_last() =~= ns.take(i as int));
            assert(ns.take(i + 1).last() == names@[i as int]@);
        }
        rel = join_paths(rel.as_str(), names[i].as_str());
        i = i + 1;
    }
    assert(ns.take(names.len() as int) =~= ns);
    rel
}

/// Expands a split glob source against the captured filesystem under
/// `base_path`: the matches sorted by path, each path once.
pub fn expand_glob_source(s: &FsSnapshot, base_path: &str, split: &SplitGlobSource) -> (res: Result<
    Vec<GlobSourceMatch>,
    GlobSourceError,
>)
    ensures
        match expand_spec(*s, base_path@, string_views(split.components@)) {
            Ok(ms) => res matches Ok(out) && lists_matches(out@, sort_dedup(ms)) && sorted_unique(sort_dedup(ms), ms),
            Err(v) => res matches Err(e) && is_expand_error(e, v),
        },
{
    let segs = match build_segments(&split.components) {
        Ok(v) => v,
        Err(e) => return Err(e),
    };
    let fuel = if s.listings.len() < usize::MAX {
        s.listings.len() + 1
    } else {
        usize::MAX
    };
    let mut found: Vec<WalkMatch> = Vec::new();
    let empty: Vec<String> = Vec::new();
    assert(string_views(empty@) =~= Seq::<Seq<char>>::empty());
    match walk(s, &segs, base_path, &empty, 0, fuel, &mut found) {
        Ok(()) => {},
        Err(e) => return Err(e),
    }
    let ghost ms = match_views(found@);
    assert(Seq::<MatchView>::empty() + ms =~= ms);
    let mut sorted: Vec<WalkMatch> = Vec::new();
    let mut k: usize = 0;
    proof {
        assert(ms.take(0) =~= Seq::<MatchView>::empty());
        assert(match_views(sorted@) =~= Seq::<MatchView>::empty());
    }
    while k < found.len()
        invariant
            k <= found.len(),
            ms == match_views(found@),
            sorted_unique(match_views(sorted@), ms.take(k as int)),
            match_views(sorted@) == sort_dedup(ms.take(k as int)),
        decreases found.len() - k,
    {
        let m = WalkMatch { names: extend_names_all(&found[k].names), is_dir: found[k].is_dir };
        assert(m.view_match() == ms[k as int]);
        assert(ms.take(k + 1) =~= ms.take(k as int).push(ms[k as int]));
        assert(ms.take(k + 1).drop_last() =~= ms.take(k as int));
        insert_match(&mut sorted, m, Ghost(ms.take(k as int)));
        k = k + 1;
    }
    assert(ms.take(found.len() as int) =~= ms);
    let ghost v = match_views(sorted@);
    let mut out: Vec<GlobSourceMatch> = Vec::new();
    let mut i: usize = 0;
    while i < sorted.len()
        invariant
            i <= sorted.len(),
            v == match_views(sorted@),
            out.len() == i,
            forall|j: int| 0 <= j < i ==> (#[trigger] out@[j]).relative@ == rel_path(v[j].names) && out@[j].is_dir == v[j].is_dir,
        decreases sorted.len() - i,
    {
        out.push(GlobSourceMatch { relative: relative_of(&sorted[i].names), is_dir: sorted[i].is_dir });
        i = i + 1;
    }
    assert(sorted_unique(v, ms));
    assert(v == sort_dedup(ms));
    Ok(out)
}

/// A copy of a list of names.
fn extend_names_all(names: &Vec<String>) -> (res: Vec<String>)
    ensures
        string_views(res@) == string_views(names@),
{
    let mut res: Vec<String> = Vec::new();
    let mut i: usize = 0;
    while i < names.len()
        invariant
            i <= names.len(),
            string_views(res@) == string_views(names@).take(i as int),
        decreases names.len() - i,
    {
        let ghost before = res@;
        res.push(copy_string(&names[i]));
        proof {
            assert(string_views(res@) =~= string_views(before).push(names@[i as int]@));
            assert(string_views(names@).take(i + 1) =~= string_views(names@).take(i as int).push(names@[i as int]@));
        }
        i = i + 1;
    }
    assert(string_views(names@).take(names.len() as int) =~= string_views(names@));
    res
}

/// Among the entries of a directory from index `k` on, one whose name
/// matches the last segment is a match, whether it is a file or a directory.
pub proof fn lemma_last_segment_matches_any_kind(
    s: FsSnapshot,
    segs: Seq<SegmentKind>,
    dir: Seq<char>,
    rel: Seq<Seq<char>>,
    idx: nat,
    names: Seq<Seq<char>>,
    k: nat,
    fuel: nat,
    j: int,
    is_dir: bool,
)
    requires
        idx + 1 == segs.len(),
        k <= j < names.len(),
        segment_matches(segs[idx as int], names[j]),
        entry_is_dir(s, join(dir, names[j])) == Ok::<bool, WalkError>(is_dir),
    ensures
        entries_spec(s, segs, dir, rel, idx, names, k, fuel) matches Ok(ms) ==> ms.contains(
            MatchView { names: rel.push(names[j]), is_dir },
        ),
    decreases names.len() - k,
{
    let m = MatchView { names: rel.push(names[j]), is_dir };
    if j > k {
        lemma_last_segment_matches_any_kind(s, segs, dir, rel, idx, names, k + 1, fuel, j, is_dir);
    }
    match entries_spec(s, segs, dir, rel, idx, names, k, fuel) {
        Err(_) => {},
        Ok(ms) => {
            let name = names[k as int];
            let d = entry_is_dir(s, join(dir, name))->Ok_0;
            let here = if !segment_matches(segs[idx as int], name) {
                Seq::<MatchView>::empty()
            } else {
                seq![MatchView { names: rel.push(name), is_dir: d }]
            };
            let rest = entries_spec(s, segs, dir, rel, idx, names, k + 1, fuel)->Ok_0;
            assert(ms == here + rest);
            if j == k {
                assert(ms[0] == m);
            } else {
                let w = choose|w: int| 0 <= w < rest.len() && rest[w] == m;
                assert(ms[here.len() + w] == m);
            }
        },
    }
}

/// An entry whose name matches the last segment of a pattern is a match
/// whether it is a file or a directory: walking the directory that holds it
/// yields it, with its kind.
pub proof fn lemma_walk_yields_last_segment_match(
    s: FsSnapshot,
    segs: Seq<SegmentKind>,
    dir: Seq<char>,
    rel: Seq<Seq<char>>,
    idx: nat,
    fuel: nat,
    names: Seq<Seq<char>>,
    j: int,
    is_dir: bool,
)
    requires
        idx + 1 == segs.len(),
        !(segs[idx as int] is Recursive),
        dir_read(s, dir) == Ok::<Option<Seq<Seq<char>>>, WalkError>(Some(names)),
        0 <= j < names.len(),
        segment_matches(segs[idx as int], names[j]),
        entry_is_dir(s, join(dir, names[j])) == Ok::<bool, WalkError>(is_dir),
    ensures
        walk_spec(s, segs, dir, rel, idx, fuel) matches Ok(ms) ==> ms.contains(
            MatchView { names: rel.push(names[j]), is_dir },
        ),
{
    lemma_last_segment_matches_any_kind(s, segs, dir, rel, idx, names, 0, fuel, j, is_dir);
}

} // verus!
