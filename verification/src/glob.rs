//! Glob source detection and splitting.

use vstd::prelude::*;

use crate::paths::{
    components, components_of, push_piece, Comp, PathComponent, comp_views, push_comp, comp_text,
    segments_comps, raw_split, is_absolute, leading_cur_dir,
};
use crate::text::{chars_of, concat3, owned, push_char};

verus! {

/// Whether a character is a glob metacharacter.
pub open spec fn is_meta(c: char) -> bool {
    c == '*' || c == '?' || c == '['
}

/// Whether `s` holds a metacharacter that is not escaped by a backslash,
/// scanning from the left with `escaped` telling whether the previous
/// character was an unescaped backslash.
pub open spec fn scan_meta(s: Seq<char>, escaped: bool) -> bool
    decreases s.len(),
{
    if s.len() == 0 {
        false
    } else if escaped {
        scan_meta(s.drop_first(), false)
    } else if s[0] == '\\' {
        scan_meta(s.drop_first(), true)
    } else if is_meta(s[0]) {
        true
    } else {
        scan_meta(s.drop_first(), false)
    }
}

/// Whether one path component holds an unescaped `*`, `?` or `[`.
pub open spec fn has_unescaped_meta(s: Seq<char>) -> bool {
    scan_meta(s, false)
}

/// Returns whether a path component contains unescaped glob syntax.
pub fn component_has_unescaped_metacharacters(value: &str) -> (res: bool)
    ensures
        res == has_unescaped_meta(value@),
{
    let chars = chars_of(value);
    let mut escaped = false;
    let mut i: usize = 0;
    assert(chars@.skip(0) =~= chars@);
    while i < chars.len()
        invariant
            i <= chars.len(),
            chars@ == value@,
            scan_meta(value@, false) == scan_meta(chars@.skip(i as int), escaped),
        decreases chars.len() - i,
    {
        let c = chars[i];
        proof {
            let rest = chars@.skip(i as int);
            assert(rest[0] == c);
            assert(rest.drop_first() =~= chars@.skip(i + 1));
        }
        if escaped {
            escaped = false;
        } else if c == '\\' {
            escaped = true;
        } else if c == '*' || c == '?' || c == '[' {
            return true;
        }
        i = i + 1;
    }
    false
}

/// Whether any normal component of a path holds glob syntax.
pub open spec fn comps_have_glob(cs: Seq<Comp>) -> bool {
    exists|i: int|
        0 <= i < cs.len() && (match #[trigger] cs[i] {
            Comp::Normal(s) => has_unescaped_meta(s),
            _ => false,
        })
}

/// Whether a declared source path contains unescaped glob syntax.
pub open spec fn is_glob_source_spec(source: Seq<char>) -> bool {
    comps_have_glob(components(source))
}

/// Returns whether a declared source path contains unescaped glob syntax.
pub fn is_glob_source(source: &str) -> (res: bool)
    ensures
        res == is_glob_source_spec(source@),
{
    let cs = components_of(source);
    let ghost views = comp_views(cs@);
    let mut i: usize = 0;
    while i < cs.len()
        invariant
            i <= cs.len(),
            views == comp_views(cs@),
            views == components(source@),
            forall|j: int|
                0 <= j < i ==> !(match #[trigger] views[j] {
                    Comp::Normal(s) => has_unescaped_meta(s),
                    _ => false,
                }),
        decreases cs.len() - i,
    {
        assert(views[i as int] == cs@[i as int]@);
        match &cs[i] {
            PathComponent::Normal(value) => {
                if component_has_unescaped_metacharacters(value.as_str()) {
                    return true;
                }
            },
            _ => {},
        }
        i = i + 1;
    }
    false
}

/// A glob source split into its literal base and pattern components.
#[derive(Debug)]
pub struct SplitGlobSource {
    /// Declared literal base path, before the first pattern component.
    pub base: String,
    /// Pattern components after the base, in declaration order.
    pub components: Vec<String>,
}

/// Failure to split or expand a glob source.
#[derive(Debug)]
pub enum GlobSourceError {
    /// The pattern contains a `..` component after the base.
    UnsupportedComponent(String),
    /// The pattern is not a valid glob.
    InvalidPattern(String),
    /// Walking the base directory failed.
    Io {
        /// Directory or entry being inspected.
        path: String,
        /// Underlying I/O error text.
        message: String,
    },
}

impl GlobSourceError {
    /// The user-facing text of the error.
    pub open spec fn message_spec(&self) -> Seq<char> {
        match self {
            GlobSourceError::UnsupportedComponent(c) => "`"@ + c@
                + "` components are not supported after glob pattern components"@,
            GlobSourceError::InvalidPattern(m) => "invalid glob pattern: "@ + m@,
            GlobSourceError::Io { path, message } => "failed to inspect glob source directory "@
                + path@ + ": "@ + message@,
        }
    }

    /// The user-facing text of the error.
    pub fn message(&self) -> (res: String)
        ensures
            res@ == self.message_spec(),
    {
        match self {
            GlobSourceError::UnsupportedComponent(c) => concat3(
                "`",
                c.as_str(),
                "` components are not supported after glob pattern components",
            ),
            GlobSourceError::InvalidPattern(m) => {
                let mut r = owned("invalid glob pattern: ");
                r.append(m.as_str());
                r
            },
            GlobSourceError::Io { path, message } => {
                let mut r = owned("failed to inspect glob source directory ");
                r.append(path.as_str());
                r.append(": ");
                r.append(message.as_str());
                r
            },
        }
    }
}

/// State of splitting: the literal base so far and the pattern components.
pub struct SplitState {
    pub base: Seq<char>,
    pub patterns: Seq<Seq<char>>,
}

/// One component of the split, or `None` for an unsupported `..`.
pub open spec fn split_step(st: SplitState, c: Comp) -> Option<SplitState> {
    match c {
        Comp::Normal(v) => if st.patterns.len() == 0 && !has_unescaped_meta(v) {
            Some(SplitState { base: push_piece(st.base, v), patterns: st.patterns })
        } else {
            Some(SplitState { base: st.base, patterns: st.patterns.push(v) })
        },
        Comp::CurDir => Some(st),
        Comp::ParentDir => if st.patterns.len() == 0 {
            Some(SplitState { base: push_piece(st.base, seq!['.', '.']), patterns: st.patterns })
        } else {
            None
        },
        Comp::RootDir => Some(SplitState { base: seq!['/'], patterns: st.patterns }),
    }
}

/// Splitting over a prefix of the components.
pub open spec fn split_comps(cs: Seq<Comp>) -> Option<SplitState>
    decreases cs.len(),
{
    if cs.len() == 0 {
        Some(SplitState { base: Seq::empty(), patterns: Seq::empty() })
    } else {
        match split_comps(cs.drop_last()) {
            Some(st) => split_step(st, cs.last()),
            None => None,
        }
    }
}

/// The split of a source path: the literal base before the first pattern
/// component, and every component from there on.
pub open spec fn split_glob_source_spec(source: Seq<char>) -> Option<SplitState> {
    split_comps(components(source))
}

/// Splits a glob source into its literal base and pattern components.
pub fn split_glob_source(source: &str) -> (res: Result<SplitGlobSource, GlobSourceError>)
    ensures
        match res {
            Ok(split) => split_glob_source_spec(source@) == Some(
                SplitState { base: split.base@, patterns: split.components@.map_values(|s: String| s@) },
            ),
            Err(e) => split_glob_source_spec(source@).is_none() && (
            e matches GlobSourceError::UnsupportedComponent(c) && c@ == seq!['.', '.']),
        },
{
    let cs = components_of(source);
    let ghost views = comp_views(cs@);
    let mut base = String::new();
    let mut patterns: Vec<String> = Vec::new();
    let mut i: usize = 0;
    proof {
        assert(views.take(0) =~= Seq::<Comp>::empty());
        assert(patterns@.map_values(|s: String| s@) =~= Seq::<Seq<char>>::empty());
        assert(base@ =~= Seq::<char>::empty());
    }
    while i < cs.len()
        invariant
            i <= cs.len(),
            views == comp_views(cs@),
            views == components(source@),
            split_comps(views.take(i as int)) == Some(
                SplitState { base: base@, patterns: patterns@.map_values(|s: String| s@) },
            ),
        decreases cs.len() - i,
    {
        proof {
            assert(views.take(i + 1).drop_last() =~= views.take(i as int));
            assert(views.take(i + 1).last() == cs@[i as int]@);
        }
        let ghost old_patterns = patterns@.map_values(|s: String| s@);
        match &cs[i] {
            PathComponent::Normal(value) => {
                if patterns.len() == 0 && !component_has_unescaped_metacharacters(value.as_str()) {
                    let chars = chars_of(base.as_str());
                    if chars.len() > 0 && chars[chars.len() - 1] != '/' {
                        push_char(&mut base, '/');
                    }
                    base.append(value.as_str());
                    proof {
                        if chars@.len() > 0 {
                            assert(chars@.last() == chars@[chars.len() - 1]);
                        }
                        assert(base@ =~= push_piece(chars@, value@));
                        assert(patterns@.map_values(|s: String| s@) =~= old_patterns);
                    }
                } else {
                    patterns.push(value.clone());
                    assert(patterns@.map_values(|s: String| s@) =~= old_patterns.push(value@));
                }
            },
            PathComponent::CurDir => {},
            PathComponent::ParentDir => {
                if patterns.len() == 0 {
                    let chars = chars_of(base.as_str());
                    if chars.len() > 0 && chars[chars.len() - 1] != '/' {
                        push_char(&mut base, '/');
                    }
                    push_char(&mut base, '.');
                    push_char(&mut base, '.');
                    proof {
                        if chars@.len() > 0 {
                            assert(chars@.last() == chars@[chars.len() - 1]);
                        }
                        assert(base@ =~= push_piece(chars@, seq!['.', '.']));
                    }
                } else {
                    proof {
                        assert(split_comps(views.take(i + 1)).is_none());
                        lemma_split_none_extends(views, i as int + 1);
                        assert(views.take(views.len() as int) =~= views);
                    }
                    let mut dots = String::new();
                    push_char(&mut dots, '.');
                    push_char(&mut dots, '.');
                    let e = GlobSourceError::UnsupportedComponent(dots);
                    assert(dots@ =~= seq!['.', '.']);
                    return Err(e);
                }
            },
            PathComponent::RootDir => {
                base = String::new();
                push_char(&mut base, '/');
                assert(base@ =~= seq!['/']);
            },
        }
        i = i + 1;
    }
    assert(views.take(cs.len() as int) =~= views);
    Ok(SplitGlobSource { base, components: patterns })
}

proof fn lemma_split_none_extends(cs: Seq<Comp>, n: int)
    requires
        0 <= n <= cs.len(),
        split_comps(cs.take(n)).is_none(),
    ensures
        split_comps(cs.take(cs.len() as int)).is_none(),
    decreases cs.len() - n,
{
    if n < cs.len() {
        assert(cs.take(n + 1).drop_last() =~= cs.take(n));
        lemma_split_none_extends(cs, n + 1);
    }
}

/// Whether `c` is a normal component holding glob syntax.
pub open spec fn is_pattern_comp(c: Comp) -> bool {
    match c {
        Comp::Normal(s) => has_unescaped_meta(s),
        _ => false,
    }
}

/// Whether a `..` component comes after a component holding glob syntax.
pub open spec fn parent_after_pattern(cs: Seq<Comp>) -> bool {
    exists|i: int, j: int|
        0 <= i < j < cs.len() && is_pattern_comp(#[trigger] cs[i]) && #[trigger] cs[j] == Comp::ParentDir
}

proof fn lemma_split_comps_shape(cs: Seq<Comp>)
    ensures
        split_comps(cs).is_none() <==> parent_after_pattern(cs),
        split_comps(cs) matches Some(st) ==> {
            &&& (st.patterns.len() > 0) == comps_have_glob(cs)
            &&& st.patterns.len() > 0 ==> has_unescaped_meta(st.patterns[0])
        },
    decreases cs.len(),
{
    if cs.len() == 0 {
        return;
    }
    let front = cs.drop_last();
    let last = cs.last();
    lemma_split_comps_shape(front);
    let n = front.len() as int;
    assert forall|i: int| 0 <= i < n implies #[trigger] front[i] == cs[i] by {}
    assert(cs[n] == last);
    // Glob syntax in `cs` is glob syntax in `front` or in `last`.
    assert(comps_have_glob(cs) == (comps_have_glob(front) || is_pattern_comp(last))) by {
        if comps_have_glob(cs) {
            let i = choose|i: int| 0 <= i < cs.len() && (match #[trigger] cs[i] {
                Comp::Normal(s) => has_unescaped_meta(s),
                _ => false,
            });
            if i < n {
                assert(front[i] == cs[i]);
            }
        }
        if comps_have_glob(front) {
            let i = choose|i: int| 0 <= i < front.len() && (match #[trigger] front[i] {
                Comp::Normal(s) => has_unescaped_meta(s),
                _ => false,
            });
            assert(cs[i] == front[i]);
        }
        if is_pattern_comp(last) {
            assert(cs[n] == last);
        }
    }
    // A `..` after glob syntax in `cs` is one in `front`, or `last` is `..`
    // after glob syntax in `front`.
    assert(parent_after_pattern(cs) == (parent_after_pattern(front) || (last == Comp::ParentDir
        && comps_have_glob(front)))) by {
        if parent_after_pattern(cs) {
            let (i, j) = choose|i: int, j: int|
                0 <= i < j < cs.len() && is_pattern_comp(#[trigger] cs[i]) && #[trigger] cs[j] == Comp::ParentDir;
            if j < n {
                assert(front[i] == cs[i] && front[j] == cs[j]);
            } else {
                assert(front[i] == cs[i]);
                assert(is_pattern_comp(front[i]));
            }
        }
        if parent_after_pattern(front) {
            let (i, j) = choose|i: int, j: int|
                0 <= i < j < front.len() && is_pattern_comp(#[trigger] front[i]) && #[trigger] front[j] == Comp::ParentDir;
            assert(cs[i] == front[i] && cs[j] == front[j]);
        }
        if last == Comp::ParentDir && comps_have_glob(front) {
            let i = choose|i: int| 0 <= i < front.len() && (match #[trigger] front[i] {
                Comp::Normal(s) => has_unescaped_meta(s),
                _ => false,
            });
            assert(cs[i] == front[i]);
            assert(is_pattern_comp(cs[i]));
            assert(cs[n] == Comp::ParentDir);
        }
    }
}

/// The index of the first component with glob syntax, or the length when
/// there is none.
pub open spec fn first_pattern(cs: Seq<Comp>) -> int
    decreases cs.len(),
{
    if cs.len() == 0 {
        0
    } else {
        let f = first_pattern(cs.drop_last());
        if f < cs.len() - 1 {
            f
        } else if is_pattern_comp(cs.last()) {
            cs.len() - 1
        } else {
            cs.len() as int
        }
    }
}

/// The path built from `cs` with its `.` components left out.
pub open spec fn render_without_cur(cs: Seq<Comp>) -> Seq<char>
    decreases cs.len(),
{
    if cs.len() == 0 {
        Seq::empty()
    } else if cs.last() == Comp::CurDir {
        render_without_cur(cs.drop_last())
    } else {
        push_comp(render_without_cur(cs.drop_last()), cs.last())
    }
}

/// The texts of the components `cs`, in order.
pub open spec fn comp_texts(cs: Seq<Comp>) -> Seq<Seq<char>> {
    cs.map_values(|c: Comp| comp_text(c))
}

proof fn lemma_first_pattern_bounds(cs: Seq<Comp>)
    ensures
        0 <= first_pattern(cs) <= cs.len(),
        first_pattern(cs) < cs.len() ==> is_pattern_comp(cs[first_pattern(cs)]),
    decreases cs.len(),
{
    if cs.len() > 0 {
        lemma_first_pattern_bounds(cs.drop_last());
        let f = first_pattern(cs.drop_last());
        if f < cs.len() - 1 {
            assert(cs.drop_last()[f] == cs[f]);
        }
    }
}

proof fn lemma_split_comps_parts(cs: Seq<Comp>)
    requires
        forall|i: int| 1 <= i < cs.len() ==> (#[trigger] cs[i]) is Normal || cs[i] is ParentDir,
    ensures
        split_comps(cs) matches Some(st) ==> {
            &&& st.base == render_without_cur(cs.take(first_pattern(cs)))
            &&& st.patterns == comp_texts(cs.skip(first_pattern(cs)))
        },
    decreases cs.len(),
{
    lemma_first_pattern_bounds(cs);
    if cs.len() == 0 {
        assert(cs.take(0) =~= Seq::<Comp>::empty());
        assert(comp_texts(cs.skip(0)) =~= Seq::<Seq<char>>::empty());
    } else {
        let front = cs.drop_last();
        let c = cs.last();
        assert forall|i: int| 1 <= i < front.len() implies (#[trigger] front[i]) is Normal || front[i] is ParentDir by {
            assert(front[i] == cs[i]);
        }
        lemma_split_comps_parts(front);
        lemma_first_pattern_bounds(front);
        let f = first_pattern(front);
        let n = front.len() as int;
        assert(cs[n] == c);
        if let Some(sf) = split_comps(front) {
            if let Some(st) = split_comps(cs) {
                if f < n {
                    assert(first_pattern(cs) == f);
                    assert(cs.take(f) =~= front.take(f));
                    assert(sf.patterns.len() > 0) by {
                        assert(comp_texts(front.skip(f)).len() == n - f);
                    }
                    assert(c is Normal || c is ParentDir);
                    if let Comp::Normal(v) = c {
                        assert(st.patterns == sf.patterns.push(v));
                        assert(comp_texts(cs.skip(f)) =~= comp_texts(front.skip(f)).push(v));
                    }
                } else {
                    assert(f == n);
                    assert(sf.patterns =~= Seq::<Seq<char>>::empty()) by {
                        assert(comp_texts(front.skip(n)).len() == 0);
                    }
                    assert(front.take(n) =~= front);
                    if is_pattern_comp(c) {
                        assert(first_pattern(cs) == n);
                        assert(cs.take(n) =~= front);
                        let v = c->Normal_0;
                        assert(comp_texts(cs.skip(n)) =~= seq![v]);
                        assert(st.patterns =~= seq![v]);
                    } else {
                        assert(first_pattern(cs) == cs.len());
                        assert(cs.take(cs.len() as int) =~= cs);
                        assert(cs.drop_last() == front);
                        assert(comp_texts(cs.skip(cs.len() as int)) =~= Seq::<Seq<char>>::empty());
                        match c {
                            Comp::Normal(v) => {
                                assert(!has_unescaped_meta(v));
                                assert(st.base == push_piece(sf.base, v));
                            },
                            Comp::ParentDir => {},
                            Comp::CurDir => {},
                            Comp::RootDir => {},
                        }
                    }
                }
            }
        }
    }
}

/// Splitting a glob source fails exactly when a `..` component follows a
/// component with glob syntax. Otherwise the base is the longest literal
/// prefix: it is built from the components before the first one with glob
/// syntax (`.` left out), the pattern components are the texts of that one
/// and all after it, and there are pattern components exactly when the
/// source holds glob syntax.
pub proof fn lemma_split_glob_source(source: Seq<char>)
    ensures
        split_glob_source_spec(source).is_none() <==> parent_after_pattern(components(source)),
        split_glob_source_spec(source) matches Some(st) ==> {
            let cs = components(source);
            &&& st.base == render_without_cur(cs.take(first_pattern(cs)))
            &&& st.patterns == comp_texts(cs.skip(first_pattern(cs)))
            &&& (st.patterns.len() > 0) == is_glob_source_spec(source)
            &&& st.patterns.len() > 0 ==> has_unescaped_meta(st.patterns[0])
        },
{
    let cs = components(source);
    lemma_split_comps_shape(cs);
    let segs = segments_comps(raw_split(source));
    crate::file_system::lemma_segments_comps_kinds(raw_split(source));
    let lead: Seq<Comp> = if is_absolute(source) {
        seq![Comp::RootDir]
    } else if leading_cur_dir(source) {
        seq![Comp::CurDir]
    } else {
        Seq::empty()
    };
    assert(cs == lead + segs);
    assert forall|i: int| 1 <= i < cs.len() implies (#[trigger] cs[i]) is Normal || cs[i] is ParentDir by {
        assert(cs[i] == segs[i - lead.len()]);
    }
    lemma_split_comps_parts(cs);
}

} // verus!
