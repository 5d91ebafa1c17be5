//! What planning reads from the filesystem, captured as plain values before
//! planning starts.

use vstd::prelude::*;
use crate::file_system::{ContentReadError, EntryMetadata};
use crate::paths::{normalize_lexical, normalize_lexical_spec, parent, parent_spec, paths_equal, push_piece, push_piece_exec, same_path, strip_prefix, strip_prefix_spec};
use crate::text::{chars_of, owned, str_eq};

verus! {

/// The outcome of `symlink_metadata` on a path.
#[derive(Debug, Clone, PartialEq, Eq)]
pub enum Lookup {
    /// The entry exists.
    Found(EntryMetadata),
    /// Nothing is at the path; the message is the not-found error.
    Missing(String),
    /// Looking the path up failed otherwise.
    Failed(String),
}

/// One looked-up path.
#[derive(Debug, Clone, PartialEq, Eq)]
pub struct EntryRecord {
    pub path: String,
    pub lookup: Lookup,
}

/// The outcome of listing a directory: entry names in the order the
/// directory yields them, or the failure.
#[derive(Debug, Clone, PartialEq, Eq)]
pub enum Listing {
    Names(Vec<String>),
    Failed(String),
}

/// One listed directory.
#[derive(Debug, Clone, PartialEq, Eq)]
pub struct ListingRecord {
    pub path: String,
    pub listing: Listing,
}

/// The outcome of reading a symlink.
#[derive(Debug, Clone, PartialEq, Eq)]
pub enum LinkRead {
    Target(String),
    Failed(String),
}

/// One read symlink.
#[derive(Debug, Clone, PartialEq, Eq)]
pub struct LinkRecord {
    pub path: String,
    pub link: LinkRead,
}

/// The outcome of comparing the contents of a source and a target file.
#[derive(Debug, Clone, PartialEq, Eq)]
pub enum ContentCheck {
    /// Opening the source failed.
    OpenSourceFailed(String),
    /// Opening the target failed.
    OpenTargetFailed(String),
    /// The readers were compared: whether the contents differ.
    Compared(bool),
    /// Reading one side failed.
    ReadFailed(ContentReadError),
}

/// One compared pair of files.
#[derive(Debug, Clone, PartialEq, Eq)]
pub struct ContentRecord {
    pub source_path: String,
    pub target_path: String,
    pub check: ContentCheck,
}

/// The outcome of resolving a path to its canonical, absolute form with
/// symlinks followed.
#[derive(Debug, Clone, PartialEq, Eq)]
pub enum Canonical {
    /// The path exists and resolves to this path.
    Resolved(String),
    /// Nothing is at the path.
    Missing,
    /// Resolving failed otherwise; the error's text.
    Failed(String),
}

/// One resolved path.
#[derive(Debug, Clone, PartialEq, Eq)]
pub struct CanonicalRecord {
    pub path: String,
    pub canonical: Canonical,
}

/// Everything planning reads from the filesystem.
#[derive(Debug, Clone, PartialEq, Eq)]
pub struct FsSnapshot {
    /// `symlink_metadata` outcomes.
    pub entries: Vec<EntryRecord>,
    /// Directory listings.
    pub listings: Vec<ListingRecord>,
    /// Symlink reads.
    pub links: Vec<LinkRecord>,
    /// Paths that are directories when symlinks are followed.
    pub followed_dirs: Vec<String>,
    /// Content comparisons.
    pub contents: Vec<ContentRecord>,
    /// Canonical forms of paths.
    pub canonical: Vec<CanonicalRecord>,
}

/// The first recorded lookup of `p`, if any.
pub open spec fn find_entry(records: Seq<EntryRecord>, p: Seq<char>) -> Option<Lookup>
    decreases records.len(),
{
    if records.len() == 0 {
        None
    } else if records[0].path@ == p {
        Some(records[0].lookup)
    } else {
        find_entry(records.skip(1), p)
    }
}

/// The first recorded listing of `p`, if any.
pub open spec fn find_listing(records: Seq<ListingRecord>, p: Seq<char>) -> Option<Listing>
    decreases records.len(),
{
    if records.len() == 0 {
        None
    } else if records[0].path@ == p {
        Some(records[0].listing)
    } else {
        find_listing(records.skip(1), p)
    }
}

/// The first recorded symlink read of `p`, if any.
pub open spec fn find_link(records: Seq<LinkRecord>, p: Seq<char>) -> Option<LinkRead>
    decreases records.len(),
{
    if records.len() == 0 {
        None
    } else if records[0].path@ == p {
        Some(records[0].link)
    } else {
        find_link(records.skip(1), p)
    }
}

/// The first recorded comparison of `source` and `target`, if any.
pub open spec fn find_content(records: Seq<ContentRecord>, source: Seq<char>, target: Seq<char>) -> Option<ContentCheck>
    decreases records.len(),
{
    if records.len() == 0 {
        None
    } else if records[0].source_path@ == source && records[0].target_path@ == target {
        Some(records[0].check)
    } else {
        find_content(records.skip(1), source, target)
    }
}

/// Whether `p` is a directory when symlinks are followed.
pub open spec fn followed_dir(s: FsSnapshot, p: Seq<char>) -> bool {
    exists|i: int| 0 <= i < s.followed_dirs@.len() && #[trigger] s.followed_dirs@[i]@ == p
}

impl FsSnapshot {
    /// The recorded lookup of `path`.
    pub fn entry(&self, path: &str) -> (res: Option<&Lookup>)
        ensures
            match find_entry(self.entries@, path@) {
                Some(l) => res == Some(&l),
                None => res.is_none(),
            },
    {
        let mut i: usize = 0;
        assert(self.entries@.skip(0) =~= self.entries@);
        while i < self.entries.len()
            invariant
                i <= self.entries.len(),
                find_entry(self.entries@, path@) == find_entry(self.entries@.skip(i as int), path@),
            decreases self.entries.len() - i,
        {
            proof {
                assert(self.entries@.skip(i as int).skip(1) =~= self.entries@.skip(i + 1));
            }
            if str_eq(self.entries[i].path.as_str(), path) {
                return Some(&self.entries[i].lookup);
            }
            i = i + 1;
        }
        None
    }

    /// The recorded listing of `path`.
    pub fn listing(&self, path: &str) -> (res: Option<&Listing>)
        ensures
            match find_listing(self.listings@, path@) {
                Some(l) => res == Some(&l),
                None => res.is_none(),
            },
    {
        let mut i: usize = 0;
        assert(self.listings@.skip(0) =~= self.listings@);
        while i < self.listings.len()
            invariant
                i <= self.listings.len(),
                find_listing(self.listings@, path@) == find_listing(self.listings@.skip(i as int), path@),
            decreases self.listings.len() - i,
        {
            proof {
                assert(self.listings@.skip(i as int).skip(1) =~= self.listings@.skip(i + 1));
            }
            if str_eq(self.listings[i].path.as_str(), path) {
                return Some(&self.listings[i].listing);
            }
            i = i + 1;
        }
        None
    }

    /// The recorded symlink read of `path`.
    pub fn link(&self, path: &str) -> (res: Option<&LinkRead>)
        ensures
            match find_link(self.links@, path@) {
                Some(l) => res == Some(&l),
                None => res.is_none(),
            },
    {
        let mut i: usize = 0;
        assert(self.links@.skip(0) =~= self.links@);
        while i < self.links.len()
            invariant
                i <= self.links.len(),
                find_link(self.links@, path@) == find_link(self.links@.skip(i as int), path@),
            decreases self.links.len() - i,
        {
            proof {
                assert(self.links@.skip(i as int).skip(1) =~= self.links@.skip(i + 1));
            }
            if str_eq(self.links[i].path.as_str(), path) {
                return Some(&self.links[i].link);
            }
            i = i + 1;
        }
        None
    }

    /// The recorded comparison of `source` and `target`.
    pub fn content(&self, source: &str, target: &str) -> (res: Option<&ContentCheck>)
        ensures
            match find_content(self.contents@, source@, target@) {
                Some(c) => res == Some(&c),
                None => res.is_none(),
            },
    {
        let mut i: usize = 0;
        assert(self.contents@.skip(0) =~= self.contents@);
        while i < self.contents.len()
            invariant
                i <= self.contents.len(),
                find_content(self.contents@, source@, target@) == find_content(
                    self.contents@.skip(i as int),
                    source@,
                    target@,
                ),
            decreases self.contents.len() - i,
        {
            proof {
                assert(self.contents@.skip(i as int).skip(1) =~= self.contents@.skip(i + 1));
            }
            if str_eq(self.contents[i].source_path.as_str(), source) && str_eq(
                self.contents[i].target_path.as_str(),
                target,
            ) {
                return Some(&self.contents[i].check);
            }
            i = i + 1;
        }
        None
    }

    /// Whether `path` is a directory when symlinks are followed.
    pub fn is_followed_dir(&self, path: &str) -> (res: bool)
        ensures
            res == followed_dir(*self, path@),
    {
        let mut i: usize = 0;
        while i < self.followed_dirs.len()
            invariant
                i <= self.followed_dirs.len(),
                forall|k: int| 0 <= k < i ==> #[trigger] self.followed_dirs@[k]@ != path@,
            decreases self.followed_dirs.len() - i,
        {
            if str_eq(self.followed_dirs[i].as_str(), path) {
                return true;
            }
            i = i + 1;
        }
        false
    }
}

/// The first recorded resolution of `p`, if any.
pub open spec fn find_canonical(records: Seq<CanonicalRecord>, p: Seq<char>) -> Option<Canonical>
    decreases records.len(),
{
    if records.len() == 0 {
        None
    } else if records[0].path@ == p {
        Some(records[0].canonical)
    } else {
        find_canonical(records.skip(1), p)
    }
}

/// The text for a path the snapshot lacks.
pub open spec fn path_not_captured() -> Seq<char> {
    "path was not captured"@
}

/// Whether something exists at `p` (following symlinks), or the failure to
/// tell.
pub open spec fn exists_spec(s: FsSnapshot, p: Seq<char>) -> Result<bool, Seq<char>> {
    match find_canonical(s.canonical@, p) {
        Some(Canonical::Resolved(_)) => Ok(true),
        Some(Canonical::Missing) => Ok(false),
        Some(Canonical::Failed(m)) => Err(m@),
        None => Err(path_not_captured()),
    }
}

/// The normalization of `path` once its nearest existing ancestor is known:
/// the canonical ancestor with the rest of the path appended, normalized
/// lexically; with no existing ancestor, `path` normalized lexically.
pub open spec fn ancestors_spec(s: FsSnapshot, path: Seq<char>, a: Seq<char>, fuel: nat) -> Result<Seq<char>, Seq<char>>
    decreases fuel,
{
    match exists_spec(s, a) {
        Err(m) => Err(m),
        Ok(true) => match strip_prefix_spec(path, a) {
            None => Err("prefix not found"@),
            Some(suffix) => match find_canonical(s.canonical@, a) {
                Some(Canonical::Resolved(c)) => Ok(normalize_lexical_spec(push_piece(c@, suffix))),
                _ => Err(path_not_captured()),
            },
        },
        Ok(false) => match parent_spec(a) {
            None => Ok(normalize_lexical_spec(path)),
            Some(p) => if same_path(p, a) || fuel == 0 {
                Ok(normalize_lexical_spec(path))
            } else {
                ancestors_spec(s, path, p, (fuel - 1) as nat)
            },
        },
    }
}

/// A path resolved as far as it exists: its canonical form when it exists,
/// otherwise the canonical form of its nearest existing ancestor with the
/// missing rest appended, normalized lexically.
pub open spec fn normalize_maybe_existing_spec(s: FsSnapshot, path: Seq<char>) -> Result<Seq<char>, Seq<char>> {
    match find_canonical(s.canonical@, path) {
        Some(Canonical::Resolved(c)) => Ok(c@),
        Some(Canonical::Failed(m)) => Err(m@),
        None => Err(path_not_captured()),
        Some(Canonical::Missing) => ancestors_spec(s, path, path, path.len()),
    }
}

impl FsSnapshot {
    /// The recorded resolution of `path`.
    pub fn canonical_of(&self, path: &str) -> (res: Option<&Canonical>)
        ensures
            match find_canonical(self.canonical@, path@) {
                Some(c) => res == Some(&c),
                None => res.is_none(),
            },
    {
        let mut i: usize = 0;
        assert(self.canonical@.skip(0) =~= self.canonical@);
        while i < self.canonical.len()
            invariant
                i <= self.canonical.len(),
                find_canonical(self.canonical@, path@) == find_canonical(self.canonical@.skip(i as int), path@),
            decreases self.canonical.len() - i,
        {
            proof {
                assert(self.canonical@.skip(i as int).skip(1) =~= self.canonical@.skip(i + 1));
            }
            if str_eq(self.canonical[i].path.as_str(), path) {
                return Some(&self.canonical[i].canonical);
            }
            i = i + 1;
        }
        None
    }
}

fn not_captured_text() -> (res: String)
    ensures
        res@ == path_not_captured(),
{
    proof {
        reveal_strlit("path was not captured");
    }
    owned("path was not captured")
}

/// Resolves a path as far as it exists, as `normalize_maybe_existing_spec`
/// describes; an error carries the failure's text.
pub fn normalize_maybe_existing(s: &FsSnapshot, path: &str) -> (res: Result<String, String>)
    ensures
        match normalize_maybe_existing_spec(*s, path@) {
            Ok(p) => res matches Ok(r) && r@ == p,
            Err(m) => res matches Err(e) && e@ == m,
        },
{
    match s.canonical_of(path) {
        Some(Canonical::Resolved(c)) => return Ok(owned(c.as_str())),
        Some(Canonical::Failed(m)) => return Err(owned(m.as_str())),
        None => return Err(not_captured_text()),
        Some(Canonical::Missing) => {},
    }
    let mut ancestor = owned(path);
    let mut fuel: usize = chars_of(path).len();
    loop
        invariant
            normalize_maybe_existing_spec(*s, path@) == ancestors_spec(*s, path@, ancestor@, fuel as nat),
        decreases fuel,
    {
        let found = match s.canonical_of(ancestor.as_str()) {
            Some(Canonical::Resolved(c)) => true,
            Some(Canonical::Missing) => false,
            Some(Canonical::Failed(m)) => return Err(owned(m.as_str())),
            None => return Err(not_captured_text()),
        };
        if found {
            let suffix = match strip_prefix(path, ancestor.as_str()) {
                Some(x) => x,
                None => {
                    proof {
                        reveal_strlit("prefix not found");
                    }
                    return Err(owned("prefix not found"));
                },
            };
            let mut normalized = match s.canonical_of(ancestor.as_str()) {
                Some(Canonical::Resolved(c)) => owned(c.as_str()),
                _ => return Err(not_captured_text()),
            };
            push_piece_exec(&mut normalized, suffix.as_str());
            return Ok(normalize_lexical(normalized.as_str()));
        }
        let p = match parent(ancestor.as_str()) {
            Some(p) => p,
            None => return Ok(normalize_lexical(path)),
        };
        if paths_equal(p.as_str(), ancestor.as_str()) || fuel == 0 {
            return Ok(normalize_lexical(path));
        }
        ancestor = p;
        fuel = fuel - 1;
    }
}

} // verus!
