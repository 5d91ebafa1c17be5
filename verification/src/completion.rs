//! Shell completion of manual operation sources: the entries of the root
//! checkout below the typed prefix whose names start with the typed rest.

use vstd::prelude::*;
use crate::file_system::EntryKind;
use crate::fs_snapshot::{FsSnapshot, Listing, Lookup, find_entry, find_listing};
use crate::glob_expand::{chars_less, chars_lt};
use crate::manual::has_trailing_separator;
use crate::paths::{
    Comp, PathComponent, components, components_of, file_name, file_name_spec, join, join_paths,
    parent, parent_spec, path_is_absolute, is_absolute, push_piece, push_piece_exec,
};
use crate::text::{chars_of, copy_string, owned, push_char, string_views};

verus! {

/// Whether a typed value could leave the root checkout: it is absolute or
/// climbs with `..`.
pub open spec fn escapes_root(current: Seq<char>) -> bool {
    is_absolute(current) || exists|i: int|
        0 <= i < components(current).len() && (#[trigger] components(current)[i] == Comp::ParentDir
            || components(current)[i] == Comp::RootDir)
}

/// The directory to list and the name prefix to match: a value ending in a
/// separator is listed whole; otherwise its parent is listed for names
/// starting with its last component.
pub open spec fn split_candidate_spec(current: Seq<char>) -> (Seq<char>, Seq<char>) {
    if current.len() == 0 {
        (Seq::empty(), Seq::empty())
    } else if current.last() == '/' || current.last() == '\\' {
        (current, Seq::empty())
    } else {
        (
            match parent_spec(current) {
                Some(p) => p,
                None => Seq::empty(),
            },
            match file_name_spec(current) {
                Some(n) => n,
                None => Seq::empty(),
            },
        )
    }
}

/// Whether `s` starts with `prefix`.
pub open spec fn starts_with(s: Seq<char>, prefix: Seq<char>) -> bool {
    prefix.len() <= s.len() && s.take(prefix.len() as int) == prefix
}

/// The completion of one directory entry, if it matches: the prefix with
/// the name pushed, and a separator after directories.
pub open spec fn entry_candidate(s: FsSnapshot, search_root: Seq<char>, prefix: Seq<char>, needle: Seq<char>, name: Seq<char>) -> Option<Seq<char>> {
    if !starts_with(name, needle) {
        None
    } else {
        match find_entry(s.entries@, join(search_root, name)) {
            Some(Lookup::Found(m)) => Some(
                if m.kind == EntryKind::Directory {
                    push_piece(prefix, name).push('/')
                } else {
                    push_piece(prefix, name)
                },
            ),
            _ => None,
        }
    }
}

/// The completions of the names from index `k` on, in listing order.
pub open spec fn entry_candidates(
    s: FsSnapshot,
    search_root: Seq<char>,
    prefix: Seq<char>,
    needle: Seq<char>,
    names: Seq<Seq<char>>,
) -> Seq<Seq<char>>
    decreases names.len(),
{
    if names.len() == 0 {
        Seq::empty()
    } else {
        let rest = entry_candidates(s, search_root, prefix, needle, names.drop_last());
        match entry_candidate(s, search_root, prefix, needle, names.last()) {
            Some(c) => rest.push(c),
            None => rest,
        }
    }
}

/// `x` added to the sorted list `v` before the first element that does not
/// sort before it.
pub open spec fn insert_sorted(v: Seq<Seq<char>>, x: Seq<char>) -> Seq<Seq<char>>
    decreases v.len(),
{
    if v.len() == 0 {
        seq![x]
    } else if chars_lt(v[0], x) {
        seq![v[0]] + insert_sorted(v.drop_first(), x)
    } else {
        seq![x] + v
    }
}

/// The strings of `v` sorted.
pub open spec fn sorted(v: Seq<Seq<char>>) -> Seq<Seq<char>>
    decreases v.len(),
{
    if v.len() == 0 {
        Seq::empty()
    } else {
        insert_sorted(sorted(v.drop_last()), v.last())
    }
}

/// The completions of a typed value, sorted; nothing when the value could
/// leave the root checkout or the directory cannot be listed.
pub open spec fn source_candidates_spec(s: FsSnapshot, root: Seq<char>, current: Seq<char>) -> Seq<Seq<char>> {
    if escapes_root(current) {
        Seq::empty()
    } else {
        let (prefix, needle) = split_candidate_spec(current);
        let search_root = join(root, prefix);
        match find_listing(s.listings@, search_root) {
            Some(Listing::Names(names)) => sorted(entry_candidates(s, search_root, prefix, needle, string_views(names@))),
            _ => Seq::empty(),
        }
    }
}

proof fn lemma_insert_sorted_skip(v: Seq<Seq<char>>, x: Seq<char>, p: int)
    requires
        0 <= p <= v.len(),
        forall|i: int| 0 <= i < p ==> chars_lt(#[trigger] v[i], x),
    ensures
        insert_sorted(v, x) == v.take(p) + insert_sorted(v.skip(p), x),
    decreases p,
{
    if p == 0 {
        assert(v.skip(0) =~= v);
        assert(v.take(0) + insert_sorted(v, x) =~= insert_sorted(v, x));
    } else {
        let w = v.drop_first();
        assert forall|i: int| 0 <= i < p - 1 implies chars_lt(#[trigger] w[i], x) by {
            assert(w[i] == v[i + 1]);
        }
        lemma_insert_sorted_skip(w, x, p - 1);
        assert(chars_lt(v[0], x));
        assert(w.skip(p - 1) =~= v.skip(p));
        assert(seq![v[0]] + w.take(p - 1) =~= v.take(p));
        assert(seq![v[0]] + (w.take(p - 1) + insert_sorted(w.skip(p - 1), x)) =~= v.take(p) + insert_sorted(v.skip(p), x));
    }
}

fn insert_string(v: &mut Vec<String>, x: String)
    ensures
        string_views(final(v)@) == insert_sorted(string_views(old(v)@), x@),
{
    let ghost ov = string_views(v@);
    let mut p: usize = 0;
    loop
        invariant
            p <= v.len(),
            ov == string_views(v@),
            forall|i: int| 0 <= i < p ==> chars_lt(#[trigger] ov[i], x@),
        ensures
            p <= v.len(),
            ov == string_views(v@),
            forall|i: int| 0 <= i < p ==> chars_lt(#[trigger] ov[i], x@),
            p < v.len() ==> !chars_lt(ov[p as int], x@),
        decreases v.len() - p,
    {
        if p >= v.len() {
            break;
        }
        assert(ov[p as int] == v@[p as int]@);
        if !chars_less(v[p].as_str(), x.as_str()) {
            break;
        }
        p = p + 1;
    }
    proof {
        lemma_insert_sorted_skip(ov, x@, p as int);
        if p < ov.len() {
            assert(ov.skip(p as int)[0] == ov[p as int]);
        } else {
            assert(ov.skip(p as int) =~= Seq::<Seq<char>>::empty());
        }
    }
    let ghost xv = x@;
    v.insert(p, x);
    assert(string_views(v@) =~= ov.take(p as int) + insert_sorted(ov.skip(p as int), xv));
}

/// Whether `s` starts with `prefix`.
fn starts_with_exec(s: &str, prefix: &str) -> (res: bool)
    ensures
        res == starts_with(s@, prefix@),
{
    let a = chars_of(s);
    let b = chars_of(prefix);
    if b.len() > a.len() {
        return false;
    }
    let mut i: usize = 0;
    while i < b.len()
        invariant
            i <= b.len(),
            b.len() <= a.len(),
            a@ == s@,
            b@ == prefix@,
            forall|j: int| 0 <= j < i ==> a@[j] == b@[j],
        decreases b.len() - i,
    {
        if a[i] != b[i] {
            assert(s@.take(prefix@.len() as int)[i as int] != prefix@[i as int]);
            return false;
        }
        i = i + 1;
    }
    assert(s@.take(prefix@.len() as int) =~= prefix@);
    true
}

/// Whether a typed value could leave the root checkout.
fn escapes_root_exec(current: &str) -> (res: bool)
    ensures
        res == escapes_root(current@),
{
    if path_is_absolute(current) {
        return true;
    }
    let cs = components_of(current);
    let mut i: usize = 0;
    while i < cs.len()
        invariant
            i <= cs.len(),
            components(current@) == cs@.map_values(|c: PathComponent| c@),
            forall|j: int|
                0 <= j < i ==> !(#[trigger] components(current@)[j] == Comp::ParentDir || components(
                    current@,
                )[j] == Comp::RootDir),
        decreases cs.len() - i,
    {
        assert(components(current@)[i as int] == cs@[i as int]@);
        match &cs[i] {
            PathComponent::ParentDir => return true,
            PathComponent::RootDir => return true,
            _ => {},
        }
        i = i + 1;
    }
    false
}

/// The directory to list and the name prefix to match.
fn split_candidate(current: &str) -> (res: (String, String))
    ensures
        (res.0@, res.1@) == split_candidate_spec(current@),
{
    let chars = chars_of(current);
    if chars.len() == 0 {
        return (String::new(), String::new());
    }
    if has_trailing_separator(current) {
        return (owned(current), String::new());
    }
    let p = match parent(current) {
        Some(p) => p,
        None => String::new(),
    };
    let n = match file_name(current) {
        Some(n) => n,
        None => String::new(),
    };
    (p, n)
}

/// The completions of a typed source value relative to the root checkout,
/// sorted; nothing when the value is absolute or climbs with `..`, or when
/// its directory cannot be listed.
pub fn source_candidates(s: &FsSnapshot, root: &str, current: &str) -> (res: Vec<String>)
    ensures
        string_views(res@) == source_candidates_spec(*s, root@, current@),
{
    if escapes_root_exec(current) {
        let empty: Vec<String> = Vec::new();
        assert(string_views(empty@) =~= Seq::<Seq<char>>::empty());
        return empty;
    }
    let (prefix, needle) = split_candidate(current);
    let search_root = join_paths(root, prefix.as_str());
    let names = match s.listing(search_root.as_str()) {
        Some(Listing::Names(names)) => names,
        _ => {
            let empty: Vec<String> = Vec::new();
            assert(string_views(empty@) =~= Seq::<Seq<char>>::empty());
            return empty;
        },
    };
    let ghost ns = string_views(names@);
    let mut found: Vec<String> = Vec::new();
    let mut k: usize = 0;
    assert(ns.take(0) =~= Seq::<Seq<char>>::empty());
    assert(string_views(found@) =~= Seq::<Seq<char>>::empty());
    while k < names.len()
        invariant
            k <= names.len(),
            ns == string_views(names@),
            string_views(found@) == entry_candidates(*s, search_root@, prefix@, needle@, ns.take(k as int)),
        decreases names.len() - k,
    {
        let name = &names[k];
        proof {
            assert(ns.take(k + 1).drop_last() =~= ns.take(k as int));
            assert(ns.take(k + 1).last() == name@);
        }
        if starts_with_exec(name.as_str(), needle.as_str()) {
            let entry_path = join_paths(search_root.as_str(), name.as_str());
            match s.entry(entry_path.as_str()) {
                Some(Lookup::Found(m)) => {
                    let mut candidate = copy_string(&prefix);
                    push_piece_exec(&mut candidate, name.as_str());
                    if m.kind == EntryKind::Directory {
                        push_char(&mut candidate, '/');
                    }
                    let ghost before = string_views(found@);
                    found.push(candidate);
                    assert(string_views(found@) =~= before.push(candidate@));
                },
                _ => {},
            }
        }
        k = k + 1;
    }
    assert(ns.take(names.len() as int) =~= ns);
    let ghost all = string_views(found@);
    let mut out: Vec<String> = Vec::new();
    let mut i: usize = 0;
    assert(all.take(0) =~= Seq::<Seq<char>>::empty());
    assert(string_views(out@) =~= Seq::<Seq<char>>::empty());
    while i < found.len()
        invariant
            i <= found.len(),
            all == string_views(found@),
            string_views(out@) == sorted(all.take(i as int)),
        decreases found.len() - i,
    {
        proof {
            assert(all.take(i + 1).drop_last() =~= all.take(i as int));
            assert(all.take(i + 1).last() == found@[i as int]@);
        }
        insert_string(&mut out, copy_string(&found[i]));
        i = i + 1;
    }
    assert(all.take(found.len() as int) =~= all);
    out
}

} // verus!
