//! Ignore and include rules of copy and sync operations, matched with the
//! `ignore` crate's gitignore matcher.

use vstd::prelude::*;
use crate::paths::{Comp, PathComponent, components, components_of};
use crate::text::{chars_of, concat3, owned, str_eq, copy_string, string_views};

verus! {

#[verifier::external_type_specification]
#[verifier::external_body]
pub struct ExGitignoreBuilder(ignore::gitignore::GitignoreBuilder);

#[verifier::external_type_specification]
#[verifier::external_body]
pub struct ExGitignore(ignore::gitignore::Gitignore);

/// The lines a gitignore builder has accepted, in order.
pub uninterp spec fn builder_lines(b: ignore::gitignore::GitignoreBuilder) -> Seq<Seq<char>>;

/// The root a gitignore builder was made with.
pub uninterp spec fn builder_root(b: ignore::gitignore::GitignoreBuilder) -> Seq<char>;

/// The lines a gitignore matcher was built from.
pub uninterp spec fn matcher_lines(g: ignore::gitignore::Gitignore) -> Seq<Seq<char>>;

/// The root a gitignore matcher was built with.
pub uninterp spec fn matcher_root(g: ignore::gitignore::Gitignore) -> Seq<char>;

/// Why `GitignoreBuilder::add_line` rejects a line, if it does.
pub uninterp spec fn line_error(line: Seq<char>) -> Option<Seq<char>>;

/// Why `GitignoreBuilder::build` fails for these lines, if it does.
pub uninterp spec fn build_error(root: Seq<char>, lines: Seq<Seq<char>>) -> Option<Seq<char>>;

/// `Gitignore::num_whitelists` of a matcher built from these lines.
pub uninterp spec fn whitelist_count(lines: Seq<Seq<char>>) -> nat;

/// Whether `Gitignore::matched` reports an ignore match for `path`.
pub uninterp spec fn ignore_match(root: Seq<char>, lines: Seq<Seq<char>>, path: Seq<char>, is_dir: bool) -> bool;

/// A new gitignore builder rooted at `root`.
///
/// Trusted: `GitignoreBuilder::new` keeps the root and starts with no lines.
#[verifier::external_body]
fn gitignore_builder(root: &str) -> (res: ignore::gitignore::GitignoreBuilder)
    ensures
        builder_lines(res) == Seq::<Seq<char>>::empty(),
        builder_root(res) == root@,
{
    ignore::gitignore::GitignoreBuilder::new(root)
}

/// Adds one line to a gitignore builder.
///
/// Trusted: `GitignoreBuilder::add_line` either accepts the line, which then
/// takes part in matching, or rejects it with the error's text, leaving the
/// builder as it was. Whether it rejects depends on the line alone.
#[verifier::external_body]
fn builder_add_line(builder: &mut ignore::gitignore::GitignoreBuilder, line: &str) -> (res: Result<(), String>)
    ensures
        builder_root(*final(builder)) == builder_root(*old(builder)),
        match line_error(line@) {
            None => res is Ok && builder_lines(*final(builder)) == builder_lines(*old(builder)).push(line@),
            Some(m) => res matches Err(e) && e@ == m && builder_lines(*final(builder)) == builder_lines(*old(builder)),
        },
{
    match builder.add_line(None, line) {
        Ok(_) => Ok(()),
        Err(error) => Err(error.to_string()),
    }
}

/// Builds the matcher of a gitignore builder.
///
/// Trusted: `GitignoreBuilder::build` either yields a matcher over the
/// builder's root and lines, or fails with the error's text; which depends on
/// those alone.
#[verifier::external_body]
fn builder_build(builder: &ignore::gitignore::GitignoreBuilder) -> (res: Result<ignore::gitignore::Gitignore, String>)
    ensures
        match build_error(builder_root(*builder), builder_lines(*builder)) {
            None => res matches Ok(g) && matcher_lines(g) == builder_lines(*builder) && matcher_root(g) == builder_root(*builder),
            Some(m) => res matches Err(e) && e@ == m,
        },
{
    match builder.build() {
        Ok(matcher) => Ok(matcher),
        Err(error) => Err(error.to_string()),
    }
}

/// The number of negated (whitelist) lines of a matcher.
///
/// Trusted: `Gitignore::num_whitelists` depends on the matcher's lines.
#[verifier::external_body]
fn matcher_whitelists(matcher: &ignore::gitignore::Gitignore) -> (res: u64)
    ensures
        res == whitelist_count(matcher_lines(*matcher)),
{
    matcher.num_whitelists()
}

/// Whether a path matches a gitignore matcher as ignored.
///
/// Trusted: `Gitignore::matched(..).is_ignore()` depends on the matcher's
/// root and lines, the path and whether it is a directory.
#[verifier::external_body]
fn matcher_ignores(matcher: &ignore::gitignore::Gitignore, path: &str, is_dir: bool) -> (res: bool)
    ensures
        res == ignore_match(matcher_root(*matcher), matcher_lines(*matcher), path@, is_dir),
{
    matcher.matched(path, is_dir).is_ignore()
}

/// Gitignore rules over a root, as plain values: the root and the lines.
pub struct RulesView {
    pub root: Seq<char>,
    pub lines: Seq<Seq<char>>,
}

/// The outcome of building rules from `patterns`: the first rejected line,
/// then a failed build, or the rules.
pub open spec fn rules_result(root: Seq<char>, patterns: Seq<Seq<char>>) -> Result<RulesView, Seq<char>> {
    match first_line_error(patterns) {
        Some(m) => Err(m),
        None => match build_error(root, patterns) {
            None => Ok(RulesView { root, lines: patterns }),
            Some(m) => Err(m),
        },
    }
}

/// The error of the first rejected line, if any.
pub open spec fn first_line_error(patterns: Seq<Seq<char>>) -> Option<Seq<char>>
    decreases patterns.len(),
{
    if patterns.len() == 0 {
        None
    } else {
        match first_line_error(patterns.drop_last()) {
            Some(m) => Some(m),
            None => line_error(patterns.last()),
        }
    }
}

fn build_matcher(root: &str, patterns: &Vec<String>) -> (res: Result<ignore::gitignore::Gitignore, String>)
    ensures
        match rules_result(root@, string_views(patterns@)) {
            Ok(v) => res matches Ok(g) && matcher_root(g) == v.root && matcher_lines(g) == v.lines,
            Err(m) => res matches Err(e) && e@ == m,
        },
{
    let ghost views = string_views(patterns@);
    let mut builder = gitignore_builder(root);
    let mut i: usize = 0;
    while i < patterns.len()
        invariant
            i <= patterns.len(),
            views == string_views(patterns@),
            builder_root(builder) == root@,
            builder_lines(builder) == views.take(i as int),
            first_line_error(views.take(i as int)).is_none(),
        decreases patterns.len() - i,
    {
        proof {
            assert(views.take(i + 1).drop_last() =~= views.take(i as int));
        }
        match builder_add_line(&mut builder, patterns[i].as_str()) {
            Ok(()) => {},
            Err(e) => {
                proof {
                    assert(first_line_error(views.take(i + 1)).is_some());
                    lemma_first_error_prefix(views, i + 1);
                }
                return Err(e);
            },
        }
        proof {
            assert(views.take(i + 1) =~= views.take(i as int).push(views[i as int]));
        }
        i = i + 1;
    }
    proof {
        assert(views.take(patterns.len() as int) =~= views);
    }
    builder_build(&builder)
}

proof fn lemma_first_error_prefix(views: Seq<Seq<char>>, k: int)
    requires
        0 < k <= views.len(),
        first_line_error(views.take(k)).is_some(),
        first_line_error(views.take(k - 1)).is_none(),
    ensures
        first_line_error(views) == first_line_error(views.take(k)),
    decreases views.len() - k,
{
    if k < views.len() {
        assert(views.take(k + 1).drop_last() =~= views.take(k));
        lemma_first_error_prefix_step(views, k);
    } else {
        assert(views.take(k) =~= views);
    }
}

proof fn lemma_first_error_prefix_step(views: Seq<Seq<char>>, k: int)
    requires
        0 < k <= views.len(),
        first_line_error(views.take(k)).is_some(),
    ensures
        first_line_error(views) == first_line_error(views.take(k)),
    decreases views.len() - k,
{
    if k < views.len() {
        assert(views.take(k + 1).drop_last() =~= views.take(k));
        lemma_first_error_prefix_step(views, k + 1);
    } else {
        assert(views.take(k) =~= views);
    }
}

/// Operation-local ignore rules: a gitignore matcher over a source root.
pub struct PathIgnoreRules {
    matcher: ignore::gitignore::Gitignore,
    has_negation: bool,
}

impl PathIgnoreRules {
    /// The cached negation flag agrees with the matcher.
    #[verifier::type_invariant]
    spec fn negation_cached(self) -> bool {
        self.has_negation == (whitelist_count(matcher_lines(self.matcher)) > 0)
    }

    /// The root and lines of these rules.
    pub closed spec fn spec_view(&self) -> RulesView {
        RulesView { root: matcher_root(self.matcher), lines: matcher_lines(self.matcher) }
    }

    /// Builds ignore rules from gitignore patterns over `root`.
    pub fn new(root: &str, patterns: &Vec<String>) -> (res: Result<Self, String>)
        ensures
            match rules_result(root@, string_views(patterns@)) {
                Ok(v) => res matches Ok(r) && r.spec_view() == v,
                Err(m) => res matches Err(e) && e@ == m,
            },
    {
        match build_matcher(root, patterns) {
            Ok(matcher) => {
                let has_negation = matcher_whitelists(&matcher) > 0;
                Ok(PathIgnoreRules { matcher, has_negation })
            },
            Err(e) => Err(e),
        }
    }

    /// Whether the rules hold a negated pattern.
    pub fn has_negation(&self) -> (res: bool)
        ensures
            res == (whitelist_count(self.spec_view().lines) > 0),
    {
        proof {
            use_type_invariant(self);
        }
        self.has_negation
    }

    /// Whether a source-relative path is ignored.
    pub fn is_ignored(&self, relative: &str, is_dir: bool) -> (res: bool)
        ensures
            res == ignore_match(self.spec_view().root, self.spec_view().lines, relative@, is_dir),
    {
        matcher_ignores(&self.matcher, relative, is_dir)
    }
}

/// Whether `c` has the Unicode White_Space property, as `char::is_whitespace`
/// documents.
pub open spec fn unicode_whitespace(c: char) -> bool {
    ('\u{9}' <= c && c <= '\u{d}') || c == ' ' || c == '\u{85}' || c == '\u{a0}' || c == '\u{1680}'
        || ('\u{2000}' <= c && c <= '\u{200a}') || c == '\u{2028}' || c == '\u{2029}' || c
        == '\u{202f}' || c == '\u{205f}' || c == '\u{3000}'
}

fn is_whitespace(c: char) -> (res: bool)
    ensures
        res == unicode_whitespace(c),
{
    ('\u{9}' <= c && c <= '\u{d}') || c == ' ' || c == '\u{85}' || c == '\u{a0}' || c == '\u{1680}'
        || ('\u{2000}' <= c && c <= '\u{200a}') || c == '\u{2028}' || c == '\u{2029}' || c
        == '\u{202f}' || c == '\u{205f}' || c == '\u{3000}'
}

/// Why an include pattern is rejected during validation.
#[derive(Debug, Clone, Copy, PartialEq, Eq, Structural)]
pub enum IncludePatternIssue {
    Negation,
    Blank,
    Comment,
}

/// The reason an include pattern is not an effective positive pattern:
/// blank (only whitespace), negated, or a comment.
pub open spec fn include_issue(pattern: Seq<char>) -> Option<IncludePatternIssue> {
    if forall|i: int| 0 <= i < pattern.len() ==> unicode_whitespace(#[trigger] pattern[i]) {
        Some(IncludePatternIssue::Blank)
    } else if pattern[0] == '!' {
        Some(IncludePatternIssue::Negation)
    } else if pattern[0] == '#' {
        Some(IncludePatternIssue::Comment)
    } else {
        None
    }
}

/// Returns why an include pattern is invalid, or none when it is an
/// effective positive pattern.
pub fn invalid_include_pattern(pattern: &str) -> (res: Option<IncludePatternIssue>)
    ensures
        res == include_issue(pattern@),
{
    let chars = chars_of(pattern);
    let mut i: usize = 0;
    let mut blank = true;
    while i < chars.len()
        invariant
            i <= chars.len(),
            chars@ == pattern@,
            blank == (forall|k: int| 0 <= k < i ==> unicode_whitespace(#[trigger] chars@[k])),
        decreases chars.len() - i,
    {
        if !is_whitespace(chars[i]) {
            blank = false;
        }
        i = i + 1;
    }
    if blank {
        return Some(IncludePatternIssue::Blank);
    }
    if chars[0] == '!' {
        return Some(IncludePatternIssue::Negation);
    }
    if chars[0] == '#' {
        return Some(IncludePatternIssue::Comment);
    }
    None
}

impl IncludePatternIssue {
    /// The validation message for `pattern`.
    pub fn message(self, pattern: &str) -> (res: String)
        ensures
            res@ == (match self {
                IncludePatternIssue::Negation => "include pattern `"@ + pattern@
                    + "` uses `!` negation; use `ignore` to exclude paths"@,
                IncludePatternIssue::Blank => "include patterns cannot be blank"@,
                IncludePatternIssue::Comment => "include pattern `"@ + pattern@
                    + "` is a gitignore comment; escape a literal leading `#` as `\\#`"@,
            }),
    {
        match self {
            IncludePatternIssue::Negation => concat3(
                "include pattern `",
                pattern,
                "` uses `!` negation; use `ignore` to exclude paths",
            ),
            IncludePatternIssue::Blank => owned("include patterns cannot be blank"),
            IncludePatternIssue::Comment => concat3(
                "include pattern `",
                pattern,
                "` is a gitignore comment; escape a literal leading `#` as `\\#`",
            ),
        }
    }
}

/// One path segment of an anchored include pattern.
#[derive(Debug, Clone, PartialEq, Eq)]
pub enum ViabilitySegment {
    DoubleStar,
    Wildcard,
    Literal(String),
}

/// How an include pattern limits the directories worth entering.
#[derive(Debug, Clone, PartialEq, Eq)]
pub enum PatternViability {
    /// The pattern can match at any depth; every directory stays viable.
    Always,
    /// The pattern is anchored; viability walks its path segments.
    Segments(Vec<ViabilitySegment>),
}

/// Model of a segment: `None` for `**`, `Some(None)` for a wildcard, the
/// literal text otherwise.
pub open spec fn segment_model(seg: Seq<char>) -> Option<Option<Seq<char>>> {
    if seg == seq!['*', '*'] {
        None
    } else if seg.contains('*') || seg.contains('?') || seg.contains('[') || seg.contains(']')
        || seg.contains('{') || seg.contains('}') || seg.contains('\\') {
        Some(None)
    } else {
        Some(Some(seg))
    }
}

/// The view of a segment.
pub open spec fn segment_view(s: ViabilitySegment) -> Option<Option<Seq<char>>> {
    match s {
        ViabilitySegment::DoubleStar => None,
        ViabilitySegment::Wildcard => Some(None),
        ViabilitySegment::Literal(l) => Some(Some(l@)),
    }
}

/// `s` without one trailing `/`.
pub open spec fn strip_trailing_slash(s: Seq<char>) -> Seq<char> {
    if s.len() > 0 && s.last() == '/' {
        s.drop_last()
    } else {
        s
    }
}

/// `s` without one leading `/`.
pub open spec fn strip_leading_slash(s: Seq<char>) -> Seq<char> {
    if s.len() > 0 && s[0] == '/' {
        s.skip(1)
    } else {
        s
    }
}

/// The viability of an include pattern: a pattern without an inner `/`
/// matches at any depth; otherwise its segments after a leading `/`.
pub open spec fn viability_spec(pattern: Seq<char>) -> Option<Seq<Option<Option<Seq<char>>>>> {
    let trimmed = strip_trailing_slash(pattern);
    if !trimmed.contains('/') {
        None
    } else {
        Some(crate::paths::raw_split(strip_leading_slash(trimmed)).map_values(|seg: Seq<char>| segment_model(seg)))
    }
}

/// Whether a directory with these components can hold a match of a pattern
/// with these segments: deeper than the pattern it cannot; a `**` segment
/// allows anything below; a literal must equal its component.
pub open spec fn dir_viable_spec(components: Seq<Seq<char>>, segments: Seq<Option<Option<Seq<char>>>>) -> bool
    decreases components.len(),
{
    if components.len() == 0 {
        true
    } else if segments.len() == 0 {
        false
    } else {
        match segments[0] {
            None => true,
            Some(None) => dir_viable_spec(components.skip(1), segments.skip(1)),
            Some(Some(l)) => l == components[0] && dir_viable_spec(components.skip(1), segments.skip(1)),
        }
    }
}

/// Whether a directory with these components can hold a match of a pattern
/// with these segments.
pub fn dir_viable(components: &Vec<String>, segments: &Vec<ViabilitySegment>) -> (res: bool)
    ensures
        res == dir_viable_spec(string_views(components@), segments@.map_values(|s: ViabilitySegment| segment_view(s))),
{
    let ghost cs = string_views(components@);
    let ghost ss = segments@.map_values(|s: ViabilitySegment| segment_view(s));
    assert(cs.skip(0) =~= cs);
    assert(ss.skip(0) =~= ss);
    let mut i: usize = 0;
    while i < components.len()
        invariant
            i <= components.len(),
            i <= segments.len(),
            cs == string_views(components@),
            ss == segments@.map_values(|s: ViabilitySegment| segment_view(s)),
            dir_viable_spec(cs, ss) == dir_viable_spec(cs.skip(i as int), ss.skip(i as int)),
        decreases components.len() - i,
    {
        if i >= segments.len() {
            return false;
        }
        proof {
            assert(cs.skip(i as int).skip(1) =~= cs.skip(i + 1));
            assert(ss.skip(i as int).skip(1) =~= ss.skip(i + 1));
        }
        match &segments[i] {
            ViabilitySegment::DoubleStar => {
                return true;
            },
            ViabilitySegment::Wildcard => {},
            ViabilitySegment::Literal(literal) => {
                if !str_eq(literal.as_str(), components[i].as_str()) {
                    return false;
                }
            },
        }
        i = i + 1;
    }
    true
}

/// For an anchored include pattern, once a `**` segment is reached every
/// deeper directory stays viable, whatever its depth: if the components of a
/// directory lead up to a `**` segment, any directory below it may still hold
/// a match.
pub proof fn lemma_double_star_keeps_deeper_viable(
    prefix: Seq<Seq<char>>,
    deeper: Seq<Seq<char>>,
    segments: Seq<Option<Option<Seq<char>>>>,
)
    requires
        prefix.len() < segments.len(),
        segments[prefix.len() as int] is None,
        dir_viable_spec(prefix, segments),
    ensures
        dir_viable_spec(prefix + deeper, segments),
    decreases prefix.len(),
{
    let all = prefix + deeper;
    if prefix.len() == 0 {
        assert(all =~= deeper);
    } else {
        assert(all[0] == prefix[0]);
        match segments[0] {
            None => {},
            _ => {
                lemma_double_star_keeps_deeper_viable(prefix.skip(1), deeper, segments.skip(1));
                assert(all.skip(1) =~= prefix.skip(1) + deeper);
            },
        }
    }
}

fn contains_char(s: &Vec<char>, c: char) -> (res: bool)
    ensures
        res == s@.contains(c),
{
    let mut i: usize = 0;
    while i < s.len()
        invariant
            i <= s.len(),
            forall|k: int| 0 <= k < i ==> s@[k] != c,
        decreases s.len() - i,
    {
        if s[i] == c {
            assert(s@[i as int] == c);
            return true;
        }
        i = i + 1;
    }
    false
}

fn segment_of(seg: &Vec<char>) -> (res: ViabilitySegment)
    ensures
        segment_view(res) == segment_model(seg@),
{
    if seg.len() == 2 && seg[0] == '*' && seg[1] == '*' {
        assert(seg@ =~= seq!['*', '*']);
        return ViabilitySegment::DoubleStar;
    }
    if contains_char(seg, '*') || contains_char(seg, '?') || contains_char(seg, '[') || contains_char(seg, ']')
        || contains_char(seg, '{') || contains_char(seg, '}') || contains_char(seg, '\\') {
        return ViabilitySegment::Wildcard;
    }
    ViabilitySegment::Literal(crate::text::string_from_chars(seg.as_slice()))
}

/// The viability of an include pattern.
pub fn pattern_viability(pattern: &str) -> (res: PatternViability)
    ensures
        match viability_spec(pattern@) {
            None => res == PatternViability::Always,
            Some(segs) => res matches PatternViability::Segments(v) && v@.map_values(|s: ViabilitySegment| segment_view(s)) == segs,
        },
{
    let chars = chars_of(pattern);
    let mut trimmed: Vec<char> = Vec::new();
    let end = if chars.len() > 0 && chars[chars.len() - 1] == '/' { chars.len() - 1 } else { chars.len() };
    let mut i: usize = 0;
    while i < end
        invariant
            i <= end,
            end <= chars.len(),
            trimmed@ == chars@.take(i as int),
        decreases end - i,
    {
        trimmed.push(chars[i]);
        proof {
            assert(chars@.take(i + 1) =~= chars@.take(i as int).push(chars@[i as int]));
        }
        i = i + 1;
    }
    assert(trimmed@ =~= strip_trailing_slash(pattern@));
    if !contains_char(&trimmed, '/') {
        return PatternViability::Always;
    }
    let start: usize = if trimmed.len() > 0 && trimmed[0] == '/' { 1 } else { 0 };
    let ghost anchored = strip_leading_slash(trimmed@);
    assert(anchored =~= trimmed@.skip(start as int));
    let mut segments: Vec<ViabilitySegment> = Vec::new();
    let mut cur: Vec<char> = Vec::new();
    let ghost mut done: Seq<Seq<char>> = Seq::empty();
    let mut j: usize = start;
    proof {
        assert(anchored.take(0) =~= Seq::<char>::empty());
        assert(crate::paths::raw_split(anchored.take(0)) =~= seq![Seq::<char>::empty()]);
    }
    while j < trimmed.len()
        invariant
            start <= j <= trimmed.len(),
            anchored == trimmed@.skip(start as int),
            crate::paths::raw_split(anchored.take(j - start)) == done.push(cur@),
            segments@.map_values(|s: ViabilitySegment| segment_view(s)) == done.map_values(|seg: Seq<char>| segment_model(seg)),
        decreases trimmed.len() - j,
    {
        let c = trimmed[j];
        proof {
            assert(anchored.take(j + 1 - start).drop_last() =~= anchored.take(j - start));
            assert(anchored.take(j + 1 - start).last() == c);
        }
        if c == '/' {
            let ghost before = segments@.map_values(|s: ViabilitySegment| segment_view(s));
            segments.push(segment_of(&cur));
            proof {
                assert(segments@.map_values(|s: ViabilitySegment| segment_view(s)) =~= before.push(segment_model(cur@)));
                assert(done.push(cur@).map_values(|seg: Seq<char>| segment_model(seg)) =~= done.map_values(|seg: Seq<char>| segment_model(seg)).push(segment_model(cur@)));
                done = done.push(cur@);
            }
            cur = Vec::new();
            proof {
                assert(crate::paths::raw_split(anchored.take(j + 1 - start)) =~= done.push(cur@));
            }
        } else {
            let ghost old_cur = cur@;
            cur.push(c);
            proof {
                assert(done.push(old_cur).update(done.len() as int, old_cur.push(c)) =~= done.push(cur@));
            }
        }
        j = j + 1;
    }
    let ghost before = segments@.map_values(|s: ViabilitySegment| segment_view(s));
    segments.push(segment_of(&cur));
    proof {
        assert(anchored.take(trimmed.len() - start) =~= anchored);
        assert(segments@.map_values(|s: ViabilitySegment| segment_view(s)) =~= before.push(segment_model(cur@)));
        assert(done.push(cur@).map_values(|seg: Seq<char>| segment_model(seg)) =~= done.map_values(|seg: Seq<char>| segment_model(seg)).push(segment_model(cur@)));
    }
    PatternViability::Segments(segments)
}

/// Operation-local include rules for copy and sync tree traversal: a path
/// is included when it matches any pattern.
pub struct PathIncludeRules {
    matcher: ignore::gitignore::Gitignore,
    viability: Vec<PatternViability>,
}

/// The viability model of a pattern.
pub open spec fn viability_view(v: PatternViability) -> Option<Seq<Option<Option<Seq<char>>>>> {
    match v {
        PatternViability::Always => None,
        PatternViability::Segments(s) => Some(s@.map_values(|x: ViabilitySegment| segment_view(x))),
    }
}

/// Whether a directory with these components can hold a match of any
/// pattern.
pub open spec fn may_contain_spec(components: Seq<Seq<char>>, patterns: Seq<Seq<char>>) -> bool {
    exists|i: int| 0 <= i < patterns.len() && match viability_spec(#[trigger] patterns[i]) {
        None => true,
        Some(segs) => dir_viable_spec(components, segs),
    }
}

/// The names of the components of a relative path.
pub open spec fn component_names(p: Seq<char>) -> Seq<Seq<char>> {
    components(p).map_values(|c: Comp| crate::paths::comp_text(c))
}

impl PathIncludeRules {
    /// The root, lines and patterns of these rules.
    pub closed spec fn spec_view(&self) -> RulesView {
        RulesView { root: matcher_root(self.matcher), lines: matcher_lines(self.matcher) }
    }

    /// The viability of each pattern matches its pattern.
    #[verifier::type_invariant]
    spec fn viability_matches(self) -> bool {
        &&& self.viability@.len() == matcher_lines(self.matcher).len()
        &&& forall|i: int| 0 <= i < self.viability@.len() ==> viability_view(#[trigger] self.viability@[i]) == viability_spec(matcher_lines(self.matcher)[i])
    }

    /// Builds include rules from gitignore patterns over `root`.
    pub fn new(root: &str, patterns: &Vec<String>) -> (res: Result<Self, String>)
        ensures
            match rules_result(root@, string_views(patterns@)) {
                Ok(v) => res matches Ok(r) && r.spec_view() == v,
                Err(m) => res matches Err(e) && e@ == m,
            },
    {
        let matcher = match build_matcher(root, patterns) {
            Ok(m) => m,
            Err(e) => return Err(e),
        };
        let ghost lines = string_views(patterns@);
        let mut viability: Vec<PatternViability> = Vec::new();
        let mut i: usize = 0;
        while i < patterns.len()
            invariant
                i <= patterns.len(),
                lines == string_views(patterns@),
                viability@.len() == i,
                forall|k: int| 0 <= k < i ==> viability_view(#[trigger] viability@[k]) == viability_spec(lines[k]),
            decreases patterns.len() - i,
        {
            let v = pattern_viability(patterns[i].as_str());
            viability.push(v);
            i = i + 1;
        }
        Ok(PathIncludeRules { matcher, viability })
    }

    /// Whether a source-relative path matches any include pattern.
    pub fn is_included(&self, relative: &str, is_dir: bool) -> (res: bool)
        ensures
            res == ignore_match(self.spec_view().root, self.spec_view().lines, relative@, is_dir),
    {
        matcher_ignores(&self.matcher, relative, is_dir)
    }

    /// Whether a descendant of the source-relative directory could match an
    /// include pattern; `false` guarantees that none can.
    pub fn dir_may_contain_matches(&self, relative: &str) -> (res: bool)
        ensures
            res == may_contain_spec(component_names(relative@), self.spec_view().lines),
    {
        proof {
            use_type_invariant(self);
        }
        let cs = components_of(relative);
        let mut names: Vec<String> = Vec::new();
        let mut k: usize = 0;
        while k < cs.len()
            invariant
                k <= cs.len(),
                string_views(names@) == crate::paths::comp_views(cs@).take(k as int).map_values(|c: Comp| crate::paths::comp_text(c)),
            decreases cs.len() - k,
        {
            let t = crate::paths::comp_text_exec(&cs[k]);
            let ghost before = string_views(names@);
            names.push(t);
            proof {
                assert(string_views(names@) =~= before.push(t@));
                assert(crate::paths::comp_views(cs@).take(k + 1) =~= crate::paths::comp_views(cs@).take(k as int).push(cs@[k as int]@));
                assert(crate::paths::comp_views(cs@).take(k + 1).map_values(|c: Comp| crate::paths::comp_text(c)) =~= crate::paths::comp_views(cs@).take(k as int).map_values(|c: Comp| crate::paths::comp_text(c)).push(crate::paths::comp_text(cs@[k as int]@)));
            }
            k = k + 1;
        }
        proof {
            assert(crate::paths::comp_views(cs@).take(cs.len() as int) =~= crate::paths::comp_views(cs@));
        }
        let ghost lines = self.spec_view().lines;
        let mut i: usize = 0;
        while i < self.viability.len()
            invariant
                i <= self.viability.len(),
                self.viability@.len() == lines.len(),
                lines == matcher_lines(self.matcher),
                forall|j: int| 0 <= j < self.viability@.len() ==> viability_view(#[trigger] self.viability@[j]) == viability_spec(lines[j]),
                string_views(names@) == component_names(relative@),
                forall|j: int| 0 <= j < i ==> !match viability_spec(#[trigger] lines[j]) {
                    None => true,
                    Some(segs) => dir_viable_spec(component_names(relative@), segs),
                },
            decreases self.viability.len() - i,
        {
            let hit = match &self.viability[i] {
                PatternViability::Always => true,
                PatternViability::Segments(segments) => dir_viable(&names, segments),
            };
            if hit {
                proof {
                    assert(viability_view(self.viability@[i as int]) == viability_spec(lines[i as int]));
                }
                return true;
            }
            i = i + 1;
        }
        false
    }
}

} // verus!
