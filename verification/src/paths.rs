//! Lexical path handling for `/`-separated paths.
//!
//! Paths are held as strings. A path is split into components the way
//! `std::path::Path::components` does on Unix: a leading `/` is the root,
//! empty segments and `.` segments are dropped (except a leading `.` of a
//! relative path), and `..` is a parent component.

use vstd::prelude::*;

use crate::text::{chars_of, push_char, string_from_chars};

verus! {

/// One component of a path.
#[derive(Debug, PartialEq, Eq)]
pub enum PathComponent {
    /// The leading `/` of an absolute path.
    RootDir,
    /// A leading `.` of a relative path.
    CurDir,
    /// A `..` segment.
    ParentDir,
    /// Any other non-empty segment.
    Normal(String),
}

/// Mathematical model of a path component.
pub enum Comp {
    RootDir,
    CurDir,
    ParentDir,
    Normal(Seq<char>),
}

impl View for PathComponent {
    type V = Comp;

    open spec fn view(&self) -> Comp {
        match self {
            PathComponent::RootDir => Comp::RootDir,
            PathComponent::CurDir => Comp::CurDir,
            PathComponent::ParentDir => Comp::ParentDir,
            PathComponent::Normal(s) => Comp::Normal(s@),
        }
    }
}

/// The views of a vector of components.
pub open spec fn comp_views(v: Seq<PathComponent>) -> Seq<Comp> {
    v.map_values(|c: PathComponent| c@)
}

/// Splits `s` at every `/`, keeping empty pieces.
pub open spec fn raw_split(s: Seq<char>) -> Seq<Seq<char>>
    decreases s.len(),
{
    if s.len() == 0 {
        seq![Seq::empty()]
    } else {
        let r = raw_split(s.drop_last());
        if s.last() == '/' {
            r.push(Seq::empty())
        } else {
            r.update(r.len() - 1, r.last().push(s.last()))
        }
    }
}

/// A segment that stands for a component (not empty, not `.`).
pub open spec fn kept_segment(seg: Seq<char>) -> bool {
    seg.len() > 0 && seg != seq!['.']
}

/// The component a kept segment stands for.
pub open spec fn segment_comp(seg: Seq<char>) -> Comp {
    if seg == seq!['.', '.'] {
        Comp::ParentDir
    } else {
        Comp::Normal(seg)
    }
}

/// Components of a list of raw segments, in order.
pub open spec fn segments_comps(segs: Seq<Seq<char>>) -> Seq<Comp>
    decreases segs.len(),
{
    if segs.len() == 0 {
        Seq::empty()
    } else {
        let r = segments_comps(segs.drop_last());
        if kept_segment(segs.last()) {
            r.push(segment_comp(segs.last()))
        } else {
            r
        }
    }
}

/// Whether the path starts with `/`.
pub open spec fn is_absolute(p: Seq<char>) -> bool {
    p.len() > 0 && p[0] == '/'
}

/// Whether a relative path starts with a `.` segment.
pub open spec fn leading_cur_dir(p: Seq<char>) -> bool {
    !is_absolute(p) && p.len() > 0 && p[0] == '.' && (p.len() == 1 || p[1] == '/')
}

/// The components of a path, as `Path::components` yields them.
pub open spec fn components(p: Seq<char>) -> Seq<Comp> {
    let lead: Seq<Comp> = if is_absolute(p) {
        seq![Comp::RootDir]
    } else if leading_cur_dir(p) {
        seq![Comp::CurDir]
    } else {
        Seq::empty()
    };
    lead + segments_comps(raw_split(p))
}

/// The text of one component when it is appended to a path.
pub open spec fn comp_text(c: Comp) -> Seq<char> {
    match c {
        Comp::RootDir => seq!['/'],
        Comp::CurDir => seq!['.'],
        Comp::ParentDir => seq!['.', '.'],
        Comp::Normal(s) => s,
    }
}

/// `PathBuf::push` of a relative piece onto `buf`.
pub open spec fn push_piece(buf: Seq<char>, piece: Seq<char>) -> Seq<char> {
    if buf.len() > 0 && buf.last() != '/' {
        buf + seq!['/'] + piece
    } else {
        buf + piece
    }
}

/// Appends one component to a path buffer.
pub open spec fn push_comp(buf: Seq<char>, c: Comp) -> Seq<char> {
    match c {
        Comp::RootDir => seq!['/'],
        _ => push_piece(buf, comp_text(c)),
    }
}

/// The path built by pushing each component in turn onto an empty buffer.
pub open spec fn render(cs: Seq<Comp>) -> Seq<char>
    decreases cs.len(),
{
    if cs.len() == 0 {
        Seq::empty()
    } else {
        push_comp(render(cs.drop_last()), cs.last())
    }
}

/// `base.join(p)`: `p` itself when absolute, otherwise `p` appended to `base`.
pub open spec fn join(base: Seq<char>, p: Seq<char>) -> Seq<char> {
    if is_absolute(p) {
        p
    } else {
        push_piece(base, p)
    }
}

/// Whether a normalized buffer can drop its last component.
pub open spec fn can_pop(acc: Seq<Comp>) -> bool {
    acc.len() > 0 && acc.last() != Comp::RootDir
}

/// Whether a normalized buffer starts at the root.
pub open spec fn has_root(acc: Seq<Comp>) -> bool {
    acc.len() > 0 && acc[0] == Comp::RootDir
}

/// One step of lexical normalization.
pub open spec fn normalize_step(acc: Seq<Comp>, c: Comp) -> Seq<Comp> {
    match c {
        Comp::RootDir => seq![Comp::RootDir],
        Comp::CurDir => acc,
        Comp::ParentDir => if can_pop(acc) {
            acc.drop_last()
        } else if has_root(acc) {
            acc
        } else {
            acc.push(Comp::ParentDir)
        },
        Comp::Normal(s) => acc.push(Comp::Normal(s)),
    }
}

/// Lexical normalization of a component list, from left to right.
pub open spec fn normalize_comps(cs: Seq<Comp>) -> Seq<Comp>
    decreases cs.len(),
{
    if cs.len() == 0 {
        Seq::empty()
    } else {
        normalize_step(normalize_comps(cs.drop_last()), cs.last())
    }
}

/// Lexical normalization of a path: `.` dropped and `..` applied where a
/// previous component can be removed.
pub open spec fn normalize_lexical_spec(p: Seq<char>) -> Seq<char> {
    render(normalize_comps(components(p)))
}

/// The last component of a path when it is a normal name.
pub open spec fn file_name_spec(p: Seq<char>) -> Option<Seq<char>> {
    let cs = components(p);
    if cs.len() > 0 {
        match cs.last() {
            Comp::Normal(s) => Some(s),
            _ => None,
        }
    } else {
        None
    }
}

/// The path without its last component, when that component is not the root.
pub open spec fn parent_spec(p: Seq<char>) -> Option<Seq<char>> {
    let cs = components(p);
    if cs.len() > 0 && cs.last() != Comp::RootDir {
        Some(render(cs.drop_last()))
    } else {
        None
    }
}

/// The component name used when comparing two paths for a relative link.
pub open spec fn comparable_name(c: Comp) -> Seq<char> {
    comp_text(c)
}

/// Whether a component list holds no `..` component.
pub open spec fn no_parent_dirs(cs: Seq<Comp>) -> bool {
    forall|i: int| 0 <= i < cs.len() ==> cs[i] != Comp::ParentDir
}

/// Components used for relative-link computation: `.` dropped, and no
/// result when a `..` occurs.
pub open spec fn comparable_components_spec(p: Seq<char>) -> Option<Seq<Comp>> {
    let cs = components(p);
    if no_parent_dirs(cs) {
        Some(cs.filter(|c: Comp| c != Comp::CurDir))
    } else {
        None
    }
}

pub(crate) proof fn lemma_raw_split_nonempty(s: Seq<char>)
    ensures
        raw_split(s).len() >= 1,
    decreases s.len(),
{
    if s.len() > 0 {
        lemma_raw_split_nonempty(s.drop_last());
    }
}

/// Splits a path into its components, as `Path::components` does on Unix.
pub fn components_of(path: &str) -> (res: Vec<PathComponent>)
    ensures
        comp_views(res@) == components(path@),
{
    let chars = chars_of(path);
    let n = chars.len();
    let mut res: Vec<PathComponent> = Vec::new();
    let absolute = n > 0 && chars[0] == '/';
    let cur_dir = !absolute && n > 0 && chars[0] == '.' && (n == 1 || chars[1] == '/');
    if absolute {
        res.push(PathComponent::RootDir);
    } else if cur_dir {
        res.push(PathComponent::CurDir);
    }
    let ghost lead = comp_views(res@);
    let mut cur: Vec<char> = Vec::new();
    let ghost mut done: Seq<Seq<char>> = Seq::empty();
    let mut i: usize = 0;
    proof {
        assert(chars@.take(0) =~= Seq::<char>::empty());
        assert(raw_split(chars@.take(0)) =~= seq![Seq::<char>::empty()]);
        assert(done.push(cur@) =~= seq![Seq::<char>::empty()]);
        assert(comp_views(res@) =~= lead + segments_comps(done));
    }
    while i < n
        invariant
            n == chars.len(),
            chars@ == path@,
            i <= n,
            raw_split(chars@.take(i as int)) == done.push(cur@),
            comp_views(res@) == lead + segments_comps(done),
        decreases n - i,
    {
        let c = chars[i];
        let ghost prefix = chars@.take(i as int);
        proof {
            assert(chars@.take(i + 1).drop_last() =~= prefix);
            assert(chars@.take(i + 1).last() == c);
        }
        let ghost old_cur = cur@;
        let ghost old_res = comp_views(res@);
        if c == '/' {
            let ghost seg = cur@;
            let keep = is_kept_segment(&cur);
            if keep {
                let comp = segment_to_comp(&cur);
                res.push(comp);
                assert(comp_views(res@) =~= old_res.push(segment_comp(seg)));
            }
            proof {
                let nd = done.push(seg);
                assert(nd.drop_last() =~= done);
                assert(nd.last() == seg);
                assert(comp_views(res@) =~= lead + segments_comps(nd));
                done = nd;
            }
            cur = Vec::new();
            proof {
                assert(raw_split(chars@.take(i + 1)) =~= done.push(cur@));
            }
        } else {
            cur.push(c);
            proof {
                assert(cur@.drop_last() =~= old_cur);
                let r = raw_split(prefix);
                assert(r =~= done.push(cur@.drop_last()));
                assert(raw_split(chars@.take(i + 1)) =~= done.push(cur@));
            }
        }
        i = i + 1;
    }
    proof {
        assert(chars@.take(n as int) =~= chars@);
    }
    let ghost seg = cur@;
    let ghost old_res = comp_views(res@);
    if is_kept_segment(&cur) {
        let comp = segment_to_comp(&cur);
        res.push(comp);
        assert(comp_views(res@) =~= old_res.push(segment_comp(seg)));
    }
    proof {
        let all = done.push(seg);
        assert(all.drop_last() =~= done);
        assert(all.last() == seg);
        assert(comp_views(res@) =~= lead + segments_comps(all));
        assert(lead == (if is_absolute(path@) {
            seq![Comp::RootDir]
        } else if leading_cur_dir(path@) {
            seq![Comp::CurDir]
        } else {
            Seq::empty()
        }));
    }
    res
}

fn is_kept_segment(seg: &Vec<char>) -> (res: bool)
    ensures
        res == kept_segment(seg@),
{
    if seg.len() == 0 {
        false
    } else if seg.len() == 1 && seg[0] == '.' {
        assert(seg@ =~= seq!['.']);
        false
    } else {
        proof {
            if seg@ == seq!['.'] {
                assert(seg@[0] == '.');
            }
        }
        true
    }
}

fn segment_to_comp(seg: &Vec<char>) -> (res: PathComponent)
    ensures
        res@ == segment_comp(seg@),
{
    if seg.len() == 2 && seg[0] == '.' && seg[1] == '.' {
        assert(seg@ =~= seq!['.', '.']);
        PathComponent::ParentDir
    } else {
        proof {
            if seg@ == seq!['.', '.'] {
                assert(seg@[0] == '.' && seg@[1] == '.');
            }
        }
        PathComponent::Normal(string_from_chars(seg.as_slice()))
    }
}

/// Whether a path is absolute.
pub fn path_is_absolute(path: &str) -> (res: bool)
    ensures
        res == is_absolute(path@),
{
    let chars = chars_of(path);
    chars.len() > 0 && chars[0] == '/'
}

pub fn push_piece_exec(buf: &mut String, piece: &str)
    ensures
        final(buf)@ == push_piece(old(buf)@, piece@),
{
    let chars = chars_of(buf.as_str());
    if chars.len() > 0 && chars[chars.len() - 1] != '/' {
        push_char(buf, '/');
    }
    buf.append(piece);
    proof {
        if old(buf)@.len() > 0 {
            assert(old(buf)@.last() == chars@[chars.len() - 1]);
        }
    }
}

/// `base.join(path)`.
pub fn join_paths(base: &str, path: &str) -> (res: String)
    ensures
        res@ == join(base@, path@),
{
    if path_is_absolute(path) {
        String::from_str(path)
    } else {
        let mut buf = String::from_str(base);
        push_piece_exec(&mut buf, path);
        buf
    }
}

pub fn comp_text_exec(c: &PathComponent) -> (res: String)
    ensures
        res@ == comp_text(c@),
{
    match c {
        PathComponent::RootDir => {
            let mut s = String::new();
            push_char(&mut s, '/');
            assert(s@ =~= seq!['/']);
            s
        },
        PathComponent::CurDir => {
            let mut s = String::new();
            push_char(&mut s, '.');
            assert(s@ =~= seq!['.']);
            s
        },
        PathComponent::ParentDir => {
            let mut s = String::new();
            push_char(&mut s, '.');
            push_char(&mut s, '.');
            assert(s@ =~= seq!['.', '.']);
            s
        },
        PathComponent::Normal(n) => n.clone(),
    }
}

/// Renders a component list back into a path.
pub fn render_components(cs: &Vec<PathComponent>) -> (res: String)
    ensures
        res@ == render(comp_views(cs@)),
{
    let mut buf = String::new();
    let mut i: usize = 0;
    while i < cs.len()
        invariant
            i <= cs.len(),
            buf@ == render(comp_views(cs@).take(i as int)),
        decreases cs.len() - i,
    {
        proof {
            assert(comp_views(cs@).take(i + 1).drop_last() =~= comp_views(cs@).take(i as int));
            assert(comp_views(cs@).take(i + 1).last() == cs@[i as int]@);
        }
        match &cs[i] {
            PathComponent::RootDir => {
                buf = String::new();
                push_char(&mut buf, '/');
                assert(buf@ =~= seq!['/']);
            },
            c => {
                let t = comp_text_exec(c);
                push_piece_exec(&mut buf, t.as_str());
            },
        }
        i = i + 1;
    }
    assert(comp_views(cs@).take(cs.len() as int) =~= comp_views(cs@));
    buf
}

pub fn clone_component(c: &PathComponent) -> (res: PathComponent)
    ensures
        res@ == c@,
{
    match c {
        PathComponent::RootDir => PathComponent::RootDir,
        PathComponent::CurDir => PathComponent::CurDir,
        PathComponent::ParentDir => PathComponent::ParentDir,
        PathComponent::Normal(n) => PathComponent::Normal(n.clone()),
    }
}

/// Lexically normalized components of a component list.
pub fn normalize_components(cs: &Vec<PathComponent>) -> (res: Vec<PathComponent>)
    ensures
        comp_views(res@) == normalize_comps(comp_views(cs@)),
{
    let mut acc: Vec<PathComponent> = Vec::new();
    let mut i: usize = 0;
    while i < cs.len()
        invariant
            i <= cs.len(),
            comp_views(acc@) == normalize_comps(comp_views(cs@).take(i as int)),
        decreases cs.len() - i,
    {
        let ghost before = comp_views(acc@);
        proof {
            assert(comp_views(cs@).take(i + 1).drop_last() =~= comp_views(cs@).take(i as int));
            assert(comp_views(cs@).take(i + 1).last() == cs@[i as int]@);
        }
        match &cs[i] {
            PathComponent::RootDir => {
                acc = Vec::new();
                acc.push(PathComponent::RootDir);
                assert(comp_views(acc@) =~= seq![Comp::RootDir]);
            },
            PathComponent::CurDir => {},
            PathComponent::ParentDir => {
                let n = acc.len();
                let pop_ok = n > 0 && !matches!(acc[n - 1], PathComponent::RootDir);
                let rooted = n > 0 && matches!(acc[0], PathComponent::RootDir);
                proof {
                    if n > 0 {
                        assert(before.last() == acc@[n - 1]@);
                        assert(before[0] == acc@[0]@);
                    }
                }
                if pop_ok {
                    acc.pop();
                    assert(comp_views(acc@) =~= before.drop_last());
                } else if !rooted {
                    acc.push(PathComponent::ParentDir);
                    assert(comp_views(acc@) =~= before.push(Comp::ParentDir));
                }
            },
            PathComponent::Normal(_) => {
                let c = clone_component(&cs[i]);
                acc.push(c);
                assert(comp_views(acc@) =~= before.push(cs@[i as int]@));
            },
        }
        i = i + 1;
    }
    assert(comp_views(cs@).take(cs.len() as int) =~= comp_views(cs@));
    acc
}

/// Lexical normalization: drops `.` components and applies `..` to the
/// previous component where there is one.
pub fn normalize_lexical(path: &str) -> (res: String)
    ensures
        res@ == normalize_lexical_spec(path@),
{
    let cs = components_of(path);
    let normalized = normalize_components(&cs);
    render_components(&normalized)
}

/// Whether a component list has the shape normalization leaves: no `.`,
/// and nothing but normal names after the first component.
pub open spec fn is_normalized(cs: Seq<Comp>) -> bool {
    forall|i: int| 0 <= i < cs.len() ==> (#[trigger] cs[i]) != Comp::CurDir && (i > 0 ==> cs[i] is Normal)
}

proof fn lemma_step_keeps_normalized(acc: Seq<Comp>, c: Comp)
    requires
        is_normalized(acc),
    ensures
        is_normalized(normalize_step(acc, c)),
{
    let r = normalize_step(acc, c);
    match c {
        Comp::ParentDir => {
            if can_pop(acc) {
                assert forall|i: int| 0 <= i < r.len() implies (#[trigger] r[i]) != Comp::CurDir && (i > 0 ==> r[i] is Normal) by {
                    assert(r[i] == acc[i]);
                }
            } else if !has_root(acc) {
                assert(acc.len() == 0);
            }
        },
        Comp::Normal(_) => {
            assert forall|i: int| 0 <= i < r.len() implies (#[trigger] r[i]) != Comp::CurDir && (i > 0 ==> r[i] is Normal) by {
                if i < acc.len() {
                    assert(r[i] == acc[i]);
                }
            }
        },
        _ => {},
    }
}

proof fn lemma_normalize_comps_normalized(cs: Seq<Comp>)
    ensures
        is_normalized(normalize_comps(cs)),
    decreases cs.len(),
{
    if cs.len() > 0 {
        lemma_normalize_comps_normalized(cs.drop_last());
        lemma_step_keeps_normalized(normalize_comps(cs.drop_last()), cs.last());
    }
}

pub(crate) proof fn lemma_normalized_is_fixed(cs: Seq<Comp>)
    requires
        is_normalized(cs),
    ensures
        normalize_comps(cs) == cs,
    decreases cs.len(),
{
    if cs.len() > 0 {
        let front = cs.drop_last();
        assert(is_normalized(front)) by {
            assert forall|i: int| 0 <= i < front.len() implies (#[trigger] front[i]) != Comp::CurDir && (i > 0 ==> front[i] is Normal) by {
                assert(front[i] == cs[i]);
            }
        }
        lemma_normalized_is_fixed(front);
        let last = cs[cs.len() - 1];
        assert(last != Comp::CurDir);
        if cs.len() == 1 {
            assert(front.len() == 0);
            match last {
                Comp::RootDir => assert(normalize_comps(cs) =~= cs),
                Comp::ParentDir => assert(normalize_comps(cs) =~= cs),
                Comp::Normal(_) => assert(normalize_comps(cs) =~= cs),
                Comp::CurDir => {},
            }
        } else {
            assert(last is Normal);
            assert(normalize_comps(cs) =~= front.push(last));
        }
    }
}

/// Lexical normalization is idempotent on components, and what it leaves
/// holds no `.` component: normalizing an already normalized component list
/// changes nothing.
pub proof fn lemma_normalize_idempotent(cs: Seq<Comp>)
    ensures
        normalize_comps(normalize_comps(cs)) == normalize_comps(cs),
        forall|i: int| 0 <= i < normalize_comps(cs).len() ==> #[trigger] normalize_comps(cs)[i] != Comp::CurDir,
{
    lemma_normalize_comps_normalized(cs);
    lemma_normalized_is_fixed(normalize_comps(cs));
}

/// Whether `x` holds no `/`.
pub open spec fn no_slash(x: Seq<char>) -> bool {
    forall|j: int| 0 <= j < x.len() ==> #[trigger] x[j] != '/'
}

/// Whether `x` can stand as a normal component: a kept segment other than
/// `..`, with no `/`.
pub open spec fn good_name(x: Seq<char>) -> bool {
    kept_segment(x) && x != seq!['.', '.'] && no_slash(x)
}

/// Whether every normal component of `cs` is a good name.
pub open spec fn good_names(cs: Seq<Comp>) -> bool {
    forall|i: int| 0 <= i < cs.len() ==> (#[trigger] cs[i] matches Comp::Normal(x) ==> good_name(x))
}

pub(crate) proof fn lemma_raw_split_no_slash(s: Seq<char>)
    ensures
        forall|k: int| 0 <= k < raw_split(s).len() ==> no_slash(#[trigger] raw_split(s)[k]),
    decreases s.len(),
{
    if s.len() > 0 {
        lemma_raw_split_no_slash(s.drop_last());
        lemma_raw_split_nonempty(s.drop_last());
        let r = raw_split(s.drop_last());
        if s.last() != '/' {
            let piece = r.last().push(s.last());
            assert(no_slash(r[r.len() - 1]));
            assert(no_slash(piece)) by {
                assert forall|j: int| 0 <= j < piece.len() implies #[trigger] piece[j] != '/' by {
                    if j < piece.len() - 1 {
                        assert(piece[j] == r.last()[j]);
                    }
                }
            }
            assert forall|k: int| 0 <= k < raw_split(s).len() implies no_slash(#[trigger] raw_split(s)[k]) by {
                if k < r.len() - 1 {
                    assert(raw_split(s)[k] == r[k]);
                }
            }
        } else {
            assert forall|k: int| 0 <= k < raw_split(s).len() implies no_slash(#[trigger] raw_split(s)[k]) by {
                if k < r.len() {
                    assert(raw_split(s)[k] == r[k]);
                }
            }
        }
    }
}

pub(crate) proof fn lemma_segments_comps_good(segs: Seq<Seq<char>>)
    requires
        forall|k: int| 0 <= k < segs.len() ==> no_slash(#[trigger] segs[k]),
    ensures
        good_names(segments_comps(segs)),
    decreases segs.len(),
{
    if segs.len() > 0 {
        let front = segs.drop_last();
        assert forall|k: int| 0 <= k < front.len() implies no_slash(#[trigger] front[k]) by {
            assert(front[k] == segs[k]);
        }
        lemma_segments_comps_good(front);
        assert(no_slash(segs[segs.len() - 1]));
        let r = segments_comps(segs);
        let rf = segments_comps(front);
        assert forall|i: int| 0 <= i < r.len() implies (#[trigger] r[i] matches Comp::Normal(x) ==> good_name(x)) by {
            if i < rf.len() {
                assert(r[i] == rf[i]);
            }
        }
    }
}

/// The normal components of any path are good names.
proof fn lemma_components_good(p: Seq<char>)
    ensures
        good_names(components(p)),
{
    let segs = segments_comps(raw_split(p));
    lemma_raw_split_no_slash(p);
    lemma_segments_comps_good(raw_split(p));
    let lead: Seq<Comp> = if is_absolute(p) {
        seq![Comp::RootDir]
    } else if leading_cur_dir(p) {
        seq![Comp::CurDir]
    } else {
        Seq::empty()
    };
    let cs = components(p);
    assert(cs == lead + segs);
    assert forall|i: int| 0 <= i < cs.len() implies (#[trigger] cs[i] matches Comp::Normal(x) ==> good_name(x)) by {
        if i >= lead.len() {
            assert(cs[i] == segs[i - lead.len()]);
        }
    }
}

proof fn lemma_normalize_good(cs: Seq<Comp>)
    requires
        good_names(cs),
    ensures
        good_names(normalize_comps(cs)),
    decreases cs.len(),
{
    if cs.len() > 0 {
        let front = cs.drop_last();
        assert forall|i: int| 0 <= i < front.len() implies (#[trigger] front[i] matches Comp::Normal(x) ==> good_name(x)) by {
            assert(front[i] == cs[i]);
        }
        lemma_normalize_good(front);
        let acc = normalize_comps(front);
        let r = normalize_comps(cs);
        assert(cs.last() == cs[cs.len() - 1]);
        assert forall|i: int| 0 <= i < r.len() implies (#[trigger] r[i] matches Comp::Normal(x) ==> good_name(x)) by {
            if i < acc.len() && r.len() <= acc.len() + 1 && !(cs.last() is RootDir) {
                assert(r[i] == acc[i]);
            }
        }
    }
}

pub(crate) proof fn lemma_raw_split_single(x: Seq<char>)
    requires
        no_slash(x),
    ensures
        raw_split(x) == seq![x],
    decreases x.len(),
{
    if x.len() > 0 {
        let front = x.drop_last();
        assert forall|j: int| 0 <= j < front.len() implies #[trigger] front[j] != '/' by {
            assert(front[j] == x[j]);
        }
        lemma_raw_split_single(front);
        assert(x.last() == x[x.len() - 1]);
        assert(front.push(x.last()) =~= x);
        assert(raw_split(x) =~= seq![x]);
    } else {
        assert(x =~= Seq::<char>::empty());
        assert(raw_split(x) =~= seq![x]);
    }
}

pub(crate) proof fn lemma_raw_split_after_slash(s: Seq<char>, x: Seq<char>)
    requires
        no_slash(x),
    ensures
        raw_split(s + seq!['/'] + x) == raw_split(s).push(x),
    decreases x.len(),
{
    let t = s + seq!['/'] + x;
    if x.len() == 0 {
        assert(x =~= Seq::<char>::empty());
        assert(t.drop_last() =~= s);
        assert(t.last() == '/');
        assert(raw_split(t) =~= raw_split(s).push(x));
    } else {
        let front = x.drop_last();
        assert forall|j: int| 0 <= j < front.len() implies #[trigger] front[j] != '/' by {
            assert(front[j] == x[j]);
        }
        lemma_raw_split_after_slash(s, front);
        assert(t.drop_last() =~= s + seq!['/'] + front);
        assert(t.last() == x[x.len() - 1]);
        let r = raw_split(s).push(front);
        assert(r.update(r.len() - 1, r.last().push(t.last())) =~= raw_split(s).push(x)) by {
            assert(front.push(x[x.len() - 1]) =~= x);
        }
    }
}

/// Splitting at `/` is additive over a join at one `/`.
pub(crate) proof fn lemma_raw_split_concat(s: Seq<char>, t: Seq<char>)
    ensures
        raw_split(s + seq!['/'] + t) == raw_split(s) + raw_split(t),
    decreases t.len(),
{
    let whole = s + seq!['/'] + t;
    if t.len() == 0 {
        assert(t =~= Seq::<char>::empty());
        assert(whole.drop_last() =~= s);
        assert(whole.last() == '/');
        assert(raw_split(t) =~= seq![Seq::<char>::empty()]);
        assert(raw_split(whole) =~= raw_split(s) + raw_split(t));
    } else {
        let front = t.drop_last();
        lemma_raw_split_concat(s, front);
        lemma_raw_split_nonempty(front);
        assert(whole.drop_last() =~= s + seq!['/'] + front);
        assert(whole.last() == t.last());
        let a = raw_split(s);
        let b = raw_split(front);
        if t.last() == '/' {
            assert(raw_split(whole) =~= (a + b).push(Seq::<char>::empty()));
            assert((a + b).push(Seq::<char>::empty()) =~= a + b.push(Seq::<char>::empty()));
        } else {
            let ab = a + b;
            assert(raw_split(whole) =~= ab.update(ab.len() - 1, ab.last().push(t.last())));
            assert(ab.last() == b.last());
            assert(ab.update(ab.len() - 1, ab.last().push(t.last())) =~= a + b.update(b.len() - 1, b.last().push(t.last())));
        }
    }
}

/// Components of segments are additive over a concatenation.
pub(crate) proof fn lemma_segments_comps_concat(a: Seq<Seq<char>>, b: Seq<Seq<char>>)
    ensures
        segments_comps(a + b) == segments_comps(a) + segments_comps(b),
    decreases b.len(),
{
    if b.len() == 0 {
        assert(a + b =~= a);
        assert(segments_comps(a) + segments_comps(b) =~= segments_comps(a));
    } else {
        lemma_segments_comps_concat(a, b.drop_last());
        assert((a + b).drop_last() =~= a + b.drop_last());
        assert((a + b).last() == b.last());
        if kept_segment(b.last()) {
            assert(segments_comps(a) + segments_comps(b) =~= (segments_comps(a) + segments_comps(b.drop_last())).push(segment_comp(b.last())));
        }
    }
}

/// The components of `base` with a relative piece pushed: those of `base`,
/// then those of the piece's segments.
pub(crate) proof fn lemma_components_push_piece(base: Seq<char>, piece: Seq<char>)
    requires
        base.len() > 0,
    ensures
        components(push_piece(base, piece)) == components(base) + segments_comps(raw_split(piece)),
{
    let j = push_piece(base, piece);
    if base.last() != '/' {
        assert(j =~= base + seq!['/'] + piece);
        lemma_raw_split_concat(base, piece);
        lemma_segments_comps_concat(raw_split(base), raw_split(piece));
        assert(j[0] == base[0]);
        if base.len() >= 2 {
            assert(j[1] == base[1]);
        } else {
            assert(j[1] == '/');
        }
    } else {
        let b0 = base.drop_last();
        assert(base =~= b0 + seq!['/'] + Seq::<char>::empty());
        assert(j =~= b0 + seq!['/'] + piece);
        lemma_raw_split_concat(b0, piece);
        lemma_raw_split_concat(b0, Seq::empty());
        assert(raw_split(Seq::<char>::empty()) =~= seq![Seq::<char>::empty()]);
        lemma_segments_comps_concat(raw_split(b0), raw_split(piece));
        lemma_segments_comps_concat(raw_split(b0), seq![Seq::<char>::empty()]);
        assert(segments_comps(Seq::<Seq<char>>::empty()).len() == 0);
        assert(seq![Seq::<char>::empty()].drop_last() =~= Seq::<Seq<char>>::empty());
        assert(seq![Seq::<char>::empty()].last() == Seq::<char>::empty());
        assert(!kept_segment(Seq::<char>::empty()));
        assert(segments_comps(seq![Seq::<char>::empty()]) =~= Seq::<Comp>::empty());
        assert(j[0] == base[0]);
        if base.len() >= 2 {
            assert(j[1] == base[1]);
        }
        assert(segments_comps(raw_split(b0)) + Seq::<Comp>::empty() =~= segments_comps(raw_split(b0)));
    }
}

/// The components of a path rendered from normalized components, without a
/// leading root.
pub open spec fn rendered_tail(n: Seq<Comp>) -> Seq<Comp> {
    if n.len() > 0 && n[0] == Comp::RootDir {
        n.skip(1)
    } else {
        n
    }
}

proof fn lemma_render_shape(n: Seq<Comp>)
    requires
        is_normalized(n),
        good_names(n),
    ensures
        (render(n).len() == 0) == (n.len() == 0),
        n.len() > 0 ==> ((render(n).last() == '/') == (n.len() == 1 && n[0] == Comp::RootDir)),
        is_absolute(render(n)) == (n.len() > 0 && n[0] == Comp::RootDir),
        !leading_cur_dir(render(n)),
        segments_comps(raw_split(render(n))) == rendered_tail(n),
    decreases n.len(),
{
    if n.len() == 0 {
        assert(raw_split(render(n)) =~= seq![Seq::<char>::empty()]);
        assert(segments_comps(seq![Seq::<char>::empty()]).len() == 0) by {
            assert(segments_comps(Seq::<Seq<char>>::empty()).len() == 0);
            assert(seq![Seq::<char>::empty()].drop_last() =~= Seq::<Seq<char>>::empty());
            assert(seq![Seq::<char>::empty()].last() == Seq::<char>::empty());
            assert(!kept_segment(Seq::<char>::empty()));
        }
        assert(segments_comps(raw_split(render(n))) =~= rendered_tail(n));
    } else if n.len() == 1 {
        assert(n.drop_last() =~= Seq::<Comp>::empty());
        let c = n[0];
        assert(n.last() == c);
        match c {
            Comp::RootDir => {
                assert(render(n) =~= seq!['/']);
                assert(seq!['/'] =~= Seq::<char>::empty() + seq!['/'] + Seq::<char>::empty());
                lemma_raw_split_after_slash(Seq::empty(), Seq::empty());
                assert(raw_split(render(n)) =~= seq![Seq::<char>::empty(), Seq::<char>::empty()]);
                let two = seq![Seq::<char>::empty(), Seq::<char>::empty()];
                assert(two.drop_last() =~= seq![Seq::<char>::empty()]);
                assert(seq![Seq::<char>::empty()].drop_last() =~= Seq::<Seq<char>>::empty());
                assert(segments_comps(Seq::<Seq<char>>::empty()).len() == 0);
                assert(seq![Seq::<char>::empty()].last() == Seq::<char>::empty());
                assert(two.last() == Seq::<char>::empty());
                assert(!kept_segment(Seq::<char>::empty()));
                assert(segments_comps(seq![Seq::<char>::empty()]) =~= Seq::<Comp>::empty());
                assert(segments_comps(two) =~= Seq::<Comp>::empty());
                assert(n.skip(1) =~= Seq::<Comp>::empty());
                assert(segments_comps(raw_split(render(n))) == rendered_tail(n));
            },
            Comp::ParentDir => {
                let dd = seq!['.', '.'];
                assert(render(Seq::<Comp>::empty()) =~= Seq::<char>::empty());
                assert(render(n) =~= dd);
                assert(no_slash(dd));
                lemma_raw_split_single(dd);
                assert(seq![dd].drop_last() =~= Seq::<Seq<char>>::empty());
                assert(seq![dd].last() == dd);
                assert(dd.len() == 2 && seq!['.'].len() == 1);
                assert(kept_segment(dd));
                assert(segment_comp(dd) == Comp::ParentDir);
                assert(segments_comps(Seq::<Seq<char>>::empty()).len() == 0);
                assert(segments_comps(seq![dd]) =~= seq![Comp::ParentDir]);
                assert(n =~= seq![Comp::ParentDir]);
                assert(segments_comps(raw_split(render(n))) == rendered_tail(n));
            },
            Comp::Normal(x) => {
                assert(good_name(x));
                assert(render(Seq::<Comp>::empty()) =~= Seq::<char>::empty());
                assert(render(n) =~= x);
                lemma_raw_split_single(x);
                assert(seq![x].drop_last() =~= Seq::<Seq<char>>::empty());
                assert(segments_comps(Seq::<Seq<char>>::empty()).len() == 0);
                assert(seq![x].last() == x);
                assert(segments_comps(seq![x]) =~= seq![Comp::Normal(x)]);
                assert(n =~= seq![Comp::Normal(x)]);
                assert(segments_comps(raw_split(render(n))) == rendered_tail(n));
                assert(x[0] != '/');
                assert(x.len() > 0);
                if x.len() > 1 {
                    assert(x[1] != '/');
                } else {
                    assert(x =~= seq![x[0]]);
                }
            },
            Comp::CurDir => {},
        }
    } else {
        let front = n.drop_last();
        assert(is_normalized(front)) by {
            assert forall|i: int| 0 <= i < front.len() implies (#[trigger] front[i]) != Comp::CurDir && (i > 0 ==> front[i] is Normal) by {
                assert(front[i] == n[i]);
            }
        }
        assert(good_names(front)) by {
            assert forall|i: int| 0 <= i < front.len() implies (#[trigger] front[i] matches Comp::Normal(x) ==> good_name(x)) by {
                assert(front[i] == n[i]);
            }
        }
        lemma_render_shape(front);
        let last = n[n.len() - 1];
        assert(n.last() == last);
        assert(last is Normal);
        let x = last->Normal_0;
        assert(good_name(x));
        assert(comp_text(last) == x);
        let rf = render(front);
        assert(front[0] == n[0]);
        if front.len() == 1 && front[0] == Comp::RootDir {
            assert(rf =~= seq!['/']);
            assert(render(n) =~= seq!['/'] + x);
            assert(seq!['/'] + x =~= Seq::<char>::empty() + seq!['/'] + x);
            lemma_raw_split_after_slash(Seq::empty(), x);
            let segs = seq![Seq::<char>::empty(), x];
            assert(raw_split(render(n)) =~= segs);
            assert(segs.drop_last() =~= seq![Seq::<char>::empty()]);
            assert(seq![Seq::<char>::empty()].drop_last() =~= Seq::<Seq<char>>::empty());
            assert(segments_comps(Seq::<Seq<char>>::empty()).len() == 0);
            assert(seq![Seq::<char>::empty()].last() == Seq::<char>::empty());
            assert(segments_comps(seq![Seq::<char>::empty()]) =~= Seq::<Comp>::empty());
            assert(segs.last() == x);
            assert(segments_comps(segs) =~= seq![Comp::Normal(x)]);
            assert(n.skip(1) =~= seq![Comp::Normal(x)]);
            assert(segments_comps(raw_split(render(n))) == rendered_tail(n));
            assert(render(n).last() == x[x.len() - 1]);
        } else {
            assert(rf.last() != '/');
            assert(render(n) =~= rf + seq!['/'] + x);
            lemma_raw_split_after_slash(rf, x);
            let segs = raw_split(rf).push(x);
            assert(segs.drop_last() =~= raw_split(rf));
            assert(segments_comps(segs) =~= segments_comps(raw_split(rf)).push(Comp::Normal(x)));
            if n[0] == Comp::RootDir {
                assert(n.skip(1) =~= front.skip(1).push(Comp::Normal(x)));
            } else {
                assert(n =~= front.push(Comp::Normal(x)));
            }
            assert(segments_comps(raw_split(render(n))) == rendered_tail(n));
            assert(render(n).last() == x[x.len() - 1]);
            assert(rf.len() >= 1);
            assert(render(n)[0] == rf[0]);
            if rf.len() == 1 {
                assert(render(n)[1] == '/');
            }
            if rf.len() >= 2 {
                assert(render(n)[1] == rf[1]);
            }
        }
    }
}

/// Lexical normalization is idempotent on paths: normalizing a normalized
/// path gives it back unchanged.
pub proof fn lemma_normalize_lexical_idempotent(p: Seq<char>)
    ensures
        normalize_lexical_spec(normalize_lexical_spec(p)) == normalize_lexical_spec(p),
{
    lemma_normalized_components(p);
    lemma_normalize_comps_normalized(components(p));
    lemma_normalized_is_fixed(normalize_comps(components(p)));
}

/// The components of a normalized path are the normalized components, and
/// the normalized path is absolute exactly when they start at the root.
proof fn lemma_normalized_components(p: Seq<char>)
    ensures
        components(normalize_lexical_spec(p)) == normalize_comps(components(p)),
        is_absolute(normalize_lexical_spec(p)) == (normalize_comps(components(p)).len() > 0
            && normalize_comps(components(p))[0] == Comp::RootDir),
{
    let n = normalize_comps(components(p));
    lemma_components_good(p);
    lemma_normalize_good(components(p));
    lemma_normalize_comps_normalized(components(p));
    lemma_render_shape(n);
    let q = render(n);
    if n.len() > 0 && n[0] == Comp::RootDir {
        assert(components(q) =~= seq![Comp::RootDir] + n.skip(1));
        assert(seq![Comp::RootDir] + n.skip(1) =~= n);
    } else {
        assert(components(q) =~= Seq::<Comp>::empty() + n);
    }
}

proof fn lemma_normalize_keeps_root(cs: Seq<Comp>)
    requires
        cs.len() > 0,
        cs[0] == Comp::RootDir,
    ensures
        normalize_comps(cs).len() > 0,
        normalize_comps(cs)[0] == Comp::RootDir,
    decreases cs.len(),
{
    let front = cs.drop_last();
    if cs.len() == 1 {
        assert(front.len() == 0);
        assert(cs.last() == cs[0]);
    } else {
        assert(front[0] == cs[0]);
        lemma_normalize_keeps_root(front);
        let acc = normalize_comps(front);
        if acc.len() == 1 {
            assert(acc.last() == acc[0]);
        }
    }
}

/// Lexical normalization of an absolute path gives an absolute path whose
/// components are the root and then names only, with no `.` and no `..`,
/// and normalizing it again changes nothing.
pub proof fn lemma_normalize_absolute(p: Seq<char>)
    requires
        is_absolute(p),
    ensures
        is_absolute(normalize_lexical_spec(p)),
        components(normalize_lexical_spec(p))[0] == Comp::RootDir,
        forall|i: int|
            0 <= i < components(normalize_lexical_spec(p)).len() ==> #[trigger] components(normalize_lexical_spec(p))[i]
                != Comp::CurDir && components(normalize_lexical_spec(p))[i] != Comp::ParentDir,
        normalize_lexical_spec(normalize_lexical_spec(p)) == normalize_lexical_spec(p),
{
    let cs = components(p);
    assert(cs[0] == Comp::RootDir);
    lemma_normalize_keeps_root(cs);
    lemma_normalized_components(p);
    lemma_normalize_comps_normalized(cs);
    lemma_normalize_lexical_idempotent(p);
    let n = normalize_comps(cs);
    assert forall|i: int| 0 <= i < n.len() implies #[trigger] n[i] != Comp::CurDir && n[i] != Comp::ParentDir by {
        if i > 0 {
            assert(n[i] is Normal);
        }
    }
}

/// The last component of a path when it is a normal name.
pub fn file_name(path: &str) -> (res: Option<String>)
    ensures
        match res {
            Some(s) => file_name_spec(path@) == Some(s@),
            None => file_name_spec(path@).is_none(),
        },
{
    let cs = components_of(path);
    if cs.len() == 0 {
        return None;
    }
    proof {
        assert(components(path@).last() == cs@[cs.len() - 1]@);
    }
    match &cs[cs.len() - 1] {
        PathComponent::Normal(n) => Some(n.clone()),
        _ => None,
    }
}

/// The path without its last component, when that component is not the root.
pub fn parent(path: &str) -> (res: Option<String>)
    ensures
        match res {
            Some(s) => parent_spec(path@) == Some(s@),
            None => parent_spec(path@).is_none(),
        },
{
    let mut cs = components_of(path);
    let n = cs.len();
    if n == 0 {
        return None;
    }
    proof {
        assert(components(path@).last() == cs@[n - 1]@);
    }
    if matches!(cs[n - 1], PathComponent::RootDir) {
        return None;
    }
    let ghost before = comp_views(cs@);
    cs.pop();
    assert(comp_views(cs@) =~= before.drop_last());
    Some(render_components(&cs))
}

/// The parent of a path, or `.` when it has none.
pub fn parent_or_dot(path: &str) -> (res: String)
    ensures
        match parent_spec(path@) {
            Some(p) => res@ == p,
            None => res@ == seq!['.'],
        },
{
    match parent(path) {
        Some(p) => p,
        None => {
            let mut s = String::new();
            push_char(&mut s, '.');
            assert(s@ =~= seq!['.']);
            s
        },
    }
}

/// Whether two paths have the same components, as `Path` equality compares
/// them.
pub open spec fn same_path(a: Seq<char>, b: Seq<char>) -> bool {
    components(a) == components(b)
}

/// `path` relative to `base` when the components of `base` begin those of
/// `path`.
pub open spec fn strip_prefix_spec(path: Seq<char>, base: Seq<char>) -> Option<Seq<char>> {
    let pc = components(path);
    let bc = components(base);
    if bc.len() <= pc.len() && pc.take(bc.len() as int) == bc {
        Some(render(pc.skip(bc.len() as int)))
    } else {
        None
    }
}

/// Component equality.
pub fn component_eq(a: &PathComponent, b: &PathComponent) -> (res: bool)
    ensures
        res == (a@ == b@),
{
    match (a, b) {
        (PathComponent::RootDir, PathComponent::RootDir) => true,
        (PathComponent::CurDir, PathComponent::CurDir) => true,
        (PathComponent::ParentDir, PathComponent::ParentDir) => true,
        (PathComponent::Normal(x), PathComponent::Normal(y)) => crate::text::str_eq(x.as_str(), y.as_str()),
        _ => false,
    }
}

/// Whether `prefix` begins `cs`, component by component.
pub fn components_prefix(cs: &Vec<PathComponent>, prefix: &Vec<PathComponent>) -> (res: bool)
    ensures
        res == (prefix.len() <= cs.len() && comp_views(cs@).take(prefix.len() as int) == comp_views(prefix@)),
{
    if prefix.len() > cs.len() {
        return false;
    }
    let mut i: usize = 0;
    while i < prefix.len()
        invariant
            i <= prefix.len(),
            prefix.len() <= cs.len(),
            forall|k: int| 0 <= k < i ==> cs@[k]@ == prefix@[k]@,
        decreases prefix.len() - i,
    {
        if !component_eq(&cs[i], &prefix[i]) {
            assert(comp_views(cs@).take(prefix.len() as int)[i as int] != comp_views(prefix@)[i as int]);
            return false;
        }
        i = i + 1;
    }
    assert(comp_views(cs@).take(prefix.len() as int) =~= comp_views(prefix@));
    true
}

/// Whether two paths are equal as paths.
pub fn paths_equal(a: &str, b: &str) -> (res: bool)
    ensures
        res == same_path(a@, b@),
{
    let ac = components_of(a);
    let bc = components_of(b);
    let r = ac.len() == bc.len() && components_prefix(&ac, &bc);
    proof {
        assert(comp_views(ac@).len() == ac.len());
        assert(comp_views(bc@).len() == bc.len());
        if ac.len() == bc.len() {
            assert(comp_views(ac@).take(bc.len() as int) =~= comp_views(ac@));
        }
    }
    r
}

/// `path` relative to `base`, when `base` is a prefix of it.
pub fn strip_prefix(path: &str, base: &str) -> (res: Option<String>)
    ensures
        match res {
            Some(r) => strip_prefix_spec(path@, base@) == Some(r@),
            None => strip_prefix_spec(path@, base@).is_none(),
        },
{
    let pc = components_of(path);
    let bc = components_of(base);
    if !components_prefix(&pc, &bc) {
        return None;
    }
    let mut rest: Vec<PathComponent> = Vec::new();
    let mut i: usize = bc.len();
    while i < pc.len()
        invariant
            bc.len() <= i <= pc.len(),
            comp_views(rest@) == comp_views(pc@).subrange(bc.len() as int, i as int),
        decreases pc.len() - i,
    {
        let ghost before = comp_views(rest@);
        rest.push(clone_component(&pc[i]));
        proof {
            assert(comp_views(rest@) =~= before.push(pc@[i as int]@));
            assert(comp_views(pc@).subrange(bc.len() as int, i + 1) =~= comp_views(pc@).subrange(bc.len() as int, i as int).push(pc@[i as int]@));
        }
        i = i + 1;
    }
    assert(comp_views(rest@) =~= comp_views(pc@).skip(bc.len() as int));
    Some(render_components(&rest))
}

} // verus!
