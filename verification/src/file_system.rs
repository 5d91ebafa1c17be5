//! Filesystem facts as plain values, and the decisions taken from them:
//! whether a synced file changed, whether metadata drifted, relative link
//! targets, and byte-for-byte comparison of two readers.

use vstd::prelude::*;
use crate::action_plan::PlannedFileOperation;
use crate::config::{FileOperationKind, SyncCompare, kind_name};
use crate::context::Worktree;
use crate::error::Error;
use crate::file_actions::{MetadataPolicy, MetadataTarget};
use crate::paths::{
    Comp, PathComponent, comp_views, components, components_of, comparable_components_spec,
    comp_text, comp_text_exec, is_absolute, join, join_paths, normalize_lexical,
    normalize_lexical_spec, push_piece, push_piece_exec, path_is_absolute, normalize_comps, no_parent_dirs,
    normalize_step, is_normalized, lemma_normalized_is_fixed, segments_comps, raw_split,
    leading_cur_dir, good_name, good_names, no_slash, kept_segment, segment_comp,
    lemma_raw_split_no_slash, lemma_segments_comps_good, lemma_raw_split_single,
    lemma_raw_split_after_slash, lemma_components_push_piece,
};
use crate::text::{copy_string, owned, str_eq};

verus! {

/// Type of a filesystem entry, as `symlink_metadata` reports it.
#[derive(Debug, Clone, Copy, PartialEq, Eq, Structural)]
pub enum EntryKind {
    File,
    Directory,
    Symlink,
    Other,
}

/// A modification time.
#[derive(Debug, Clone, Copy, PartialEq, Eq, Structural)]
pub struct Timestamp {
    pub secs: i64,
    pub nanos: u32,
}

/// A modification time, or why it could not be read.
#[derive(Debug, Clone, PartialEq, Eq)]
pub enum ModifiedTime {
    Known(Timestamp),
    Unavailable(String),
}

/// What treeboot reads of an entry's metadata.
#[derive(Debug, Clone, PartialEq, Eq)]
pub struct EntryMetadata {
    pub kind: EntryKind,
    /// Length in bytes.
    pub len: u64,
    /// Modification time, or why it could not be read.
    pub modified: ModifiedTime,
    /// Permission bits (mode).
    pub mode: u32,
    pub uid: u32,
    pub gid: u32,
}

/// The error of a file operation that conflicts with what is on disk.
pub open spec fn is_conflict(e: Error, operation: FileOperationKind, path: Seq<char>, message: Seq<char>) -> bool {
    e matches Error::FileOperationConflict { operation: o, path: p, message: m } && o@ == kind_name(
        operation,
    ) && p@ == path && m@ == message
}

/// The error of a file operation that failed on an I/O error.
pub open spec fn is_io_error(e: Error, operation: FileOperationKind, path: Seq<char>, message: Seq<char>) -> bool {
    e matches Error::FileOperationIo { operation: o, path: p, message: m } && o@ == kind_name(operation)
        && p@ == path && m@ == message
}

/// A conflict of a file operation at `path`.
pub fn conflict(operation: FileOperationKind, path: &str, message: &str) -> (res: Error)
    ensures
        is_conflict(res, operation, path@, message@),
{
    Error::FileOperationConflict {
        operation: owned(operation.as_str()),
        path: owned(path),
        message: owned(message),
    }
}

/// An I/O failure of a file operation at `path`.
pub fn io_error(operation: FileOperationKind, path: &str, message: &str) -> (res: Error)
    ensures
        is_io_error(res, operation, path@, message@),
{
    Error::FileOperationIo {
        operation: owned(operation.as_str()),
        path: owned(path),
        message: owned(message),
    }
}

/// Whether the modification times of source and target differ, or the
/// first unreadable time (source first) as an error at its path.
pub open spec fn times_differ(
    operation: FileOperationKind,
    source_path: Seq<char>,
    target_path: Seq<char>,
    source: EntryMetadata,
    target: EntryMetadata,
    r: Result<bool, Error>,
) -> bool {
    match (source.modified, target.modified) {
        (ModifiedTime::Unavailable(m), _) => r matches Err(e) && is_io_error(e, operation, source_path, m@),
        (ModifiedTime::Known(_), ModifiedTime::Unavailable(m)) => r matches Err(e) && is_io_error(e, operation, target_path, m@),
        (ModifiedTime::Known(a), ModifiedTime::Known(b)) => r == Ok::<bool, Error>(a != b),
    }
}

fn modified_differ(
    operation: FileOperationKind,
    source_path: &str,
    target_path: &str,
    source: &EntryMetadata,
    target: &EntryMetadata,
) -> (res: Result<bool, Error>)
    ensures
        times_differ(operation, source_path@, target_path@, *source, *target, res),
{
    let a = match &source.modified {
        ModifiedTime::Known(t) => *t,
        ModifiedTime::Unavailable(m) => return Err(io_error(operation, source_path, m.as_str())),
    };
    let b = match &target.modified {
        ModifiedTime::Known(t) => *t,
        ModifiedTime::Unavailable(m) => return Err(io_error(operation, target_path, m.as_str())),
    };
    Ok(!(a.secs == b.secs && a.nanos == b.nanos))
}

/// Whether a synced file changed under metadata comparison: a symlink
/// target always changed; otherwise lengths, then modification times, are
/// compared. `source` is the source's metadata, or why it could not be read.
pub open spec fn metadata_sync_changed(
    operation: FileOperationKind,
    source_path: Seq<char>,
    target_path: Seq<char>,
    source: Result<EntryMetadata, String>,
    target: EntryMetadata,
    r: Result<bool, Error>,
) -> bool {
    if target.kind == EntryKind::Symlink {
        r == Ok::<bool, Error>(true)
    } else {
        match source {
            Err(m) => r matches Err(e) && is_io_error(e, operation, source_path, m@),
            Ok(s) => if s.len != target.len {
                r == Ok::<bool, Error>(true)
            } else {
                times_differ(operation, source_path, target_path, s, target, r)
            },
        }
    }
}

/// Whether a synced file changed under metadata comparison.
pub fn metadata_changed(
    operation: FileOperationKind,
    source_path: &str,
    target_path: &str,
    source: &Result<EntryMetadata, String>,
    target: &EntryMetadata,
) -> (res: Result<bool, Error>)
    ensures
        metadata_sync_changed(operation, source_path@, target_path@, *source, *target, res),
{
    if target.kind == EntryKind::Symlink {
        return Ok(true);
    }
    let s = match source {
        Ok(s) => s,
        Err(m) => return Err(io_error(operation, source_path, m.as_str())),
    };
    if s.len != target.len {
        return Ok(true);
    }
    modified_differ(operation, source_path, target_path, s, target)
}

/// Under metadata comparison, a regular file whose length matches its
/// source counts as changed exactly when the two known modification times
/// differ, whichever of them is the later one: a target edited in place
/// after the source was written is copied over like any other.
pub proof fn lemma_same_length_changed_iff_times_differ(
    operation: FileOperationKind,
    source_path: Seq<char>,
    target_path: Seq<char>,
    source: EntryMetadata,
    target: EntryMetadata,
    source_time: Timestamp,
    target_time: Timestamp,
    r: Result<bool, Error>,
)
    requires
        target.kind != EntryKind::Symlink,
        source.len == target.len,
        source.modified == ModifiedTime::Known(source_time),
        target.modified == ModifiedTime::Known(target_time),
        metadata_sync_changed(operation, source_path, target_path, Ok(source), target, r),
    ensures
        r is Ok,
        r == Ok::<bool, Error>(true) <==> source_time != target_time,
        source_time.secs < target_time.secs ==> r == Ok::<bool, Error>(true),
        source_time.secs > target_time.secs ==> r == Ok::<bool, Error>(true),
{
}

/// Whether a sync compares files by checksum rather than metadata.
pub open spec fn compares_checksum(operation: PlannedFileOperation) -> bool {
    operation.compare == Some(SyncCompare::Checksum)
}

/// Whether a sync compares files by checksum rather than metadata; metadata
/// is the default.
pub fn uses_checksum(operation: &PlannedFileOperation) -> (res: bool)
    ensures
        res == compares_checksum(*operation),
{
    match operation.compare {
        Some(SyncCompare::Checksum) => true,
        _ => false,
    }
}

/// Whether metadata of a target drifted from its source: permissions first
/// (when carried), then, for files, modification times, then ownership
/// (when carried).
pub open spec fn drift_result(
    operation: FileOperationKind,
    source_path: Seq<char>,
    target_path: Seq<char>,
    source: Result<EntryMetadata, String>,
    target: EntryMetadata,
    target_kind: MetadataTarget,
    policy: MetadataPolicy,
    r: Result<bool, Error>,
) -> bool {
    match source {
        Err(m) => r matches Err(e) && is_io_error(e, operation, source_path, m@),
        Ok(s) => if policy.permissions && s.mode != target.mode {
            r == Ok::<bool, Error>(true)
        } else if target_kind == MetadataTarget::File && !(s.modified is Known && target.modified is Known
            && s.modified == target.modified) {
            times_differ(operation, source_path, target_path, s, target, r)
        } else {
            r == Ok::<bool, Error>(ownership_drift(s, target, policy))
        },
    }
}

/// Whether a carried owner or group differs.
pub open spec fn ownership_drift(source: EntryMetadata, target: EntryMetadata, policy: MetadataPolicy) -> bool {
    (policy.owner && source.uid != target.uid) || (policy.group && source.gid != target.gid)
}

/// Whether metadata of a target drifted from its source.
pub fn metadata_drifted(
    operation: FileOperationKind,
    source_path: &str,
    target_path: &str,
    source: &Result<EntryMetadata, String>,
    target: &EntryMetadata,
    target_kind: MetadataTarget,
    policy: MetadataPolicy,
) -> (res: Result<bool, Error>)
    ensures
        drift_result(operation, source_path@, target_path@, *source, *target, target_kind, policy, res),
{
    let s = match source {
        Ok(s) => s,
        Err(m) => return Err(io_error(operation, source_path, m.as_str())),
    };
    if policy.permissions && s.mode != target.mode {
        return Ok(true);
    }
    if target_kind == MetadataTarget::File {
        match modified_differ(operation, source_path, target_path, s, target) {
            Ok(true) => return Ok(true),
            Ok(false) => {},
            Err(e) => return Err(e),
        }
    }
    Ok((policy.owner && s.uid != target.uid) || (policy.group && s.gid != target.gid))
}

/// Which side of a checksum comparison a read error came from.
#[derive(Debug, Clone, Copy, PartialEq, Eq, Structural)]
pub enum ContentInput {
    Source,
    Target,
}

/// A read error from one side of a checksum comparison.
#[derive(Debug, Clone, PartialEq, Eq)]
pub struct ContentReadError {
    pub input: ContentInput,
    pub message: String,
}

/// Why a read failed.
#[derive(Debug, Clone, PartialEq, Eq)]
pub enum ReadFailure {
    /// The read was interrupted and may be retried.
    Interrupted,
    /// The read failed; the message says why.
    Failed(String),
}

/// A stream of bytes read in chunks.
pub trait ByteSource {
    /// Reads up to `max` bytes; an empty result means end of input.
    fn read_chunk(&mut self, max: usize) -> Result<Vec<u8>, ReadFailure>;
}

/// Reads asked of a byte source, in order: how many bytes were asked for,
/// and the answer.
pub type Reads = Seq<(usize, Result<Vec<u8>, ReadFailure>)>;

/// A byte source together with the record of every read the library asked
/// of it, in order, with the answer.
pub struct ReadLog<B> {
    /// The source the reads go to.
    pub inner: B,
    /// The answers so far.
    pub returned: Ghost<Reads>,
}

impl<B: ByteSource> ReadLog<B> {
    /// Starts a log with no read made yet.
    pub fn new(inner: B) -> (res: Self)
        ensures
            res.inner == inner,
            res.returned@ == Seq::<(usize, Result<Vec<u8>, ReadFailure>)>::empty(),
    {
        ReadLog { inner, returned: Ghost(Seq::empty()) }
    }

    /// Asks the source for up to `max` bytes and records the answer.
    pub fn read(&mut self, max: usize) -> (res: Result<Vec<u8>, ReadFailure>)
        ensures
            final(self).returned@ == old(self).returned@.push((max, res)),
    {
        let answer = self.inner.read_chunk(max);
        self.returned = Ghost(self.returned@.push((max, answer)));
        answer
    }
}

/// The bytes handed back by the successful reads of `rs`, in order.
pub open spec fn read_bytes(rs: Reads) -> Seq<u8>
    decreases rs.len(),
{
    if rs.len() == 0 {
        Seq::empty()
    } else {
        read_bytes(rs.drop_last()) + match rs.last().1 {
            Ok(c) => c@,
            Err(_) => Seq::empty(),
        }
    }
}

/// Whether the last read of `rs` reported the end of input.
pub open spec fn reached_end(rs: Reads) -> bool {
    rs.len() > 0 && (rs.last().1 matches Ok(c) && c@.len() == 0)
}

/// Whether no read of `rs` failed other than by interruption.
pub open spec fn only_interrupted(rs: Reads) -> bool {
    forall|i: int| 0 <= i < rs.len() ==> !((#[trigger] rs[i]).1 matches Err(ReadFailure::Failed(_)))
}

/// Whether the last read of `rs` broke off the reading: it failed other
/// than by interruption, or it handed back more bytes than were asked for.
pub open spec fn read_broke(rs: Reads) -> bool {
    rs.len() > 0 && match rs.last().1 {
        Err(ReadFailure::Failed(_)) => true,
        Err(ReadFailure::Interrupted) => false,
        Ok(c) => c@.len() > rs.last().0,
    }
}

/// Whether reading through `rs` stopped with an error: a broken last read,
/// or `u64::MAX` reads without getting anywhere.
pub open spec fn read_stopped(rs: Reads) -> bool {
    read_broke(rs) || rs.len() >= u64::MAX
}

/// Reading that stopped in a later stretch of reads stopped the whole.
proof fn lemma_stopped_suffix(whole: Reads, k: int)
    requires
        0 <= k <= whole.len(),
        read_stopped(whole.skip(k)),
    ensures
        read_stopped(whole),
{
    if read_broke(whole.skip(k)) {
        assert(whole.skip(k).last() == whole.last());
    }
}

/// The bytes read are additive over a concatenation of reads.
pub proof fn lemma_read_bytes_append(a: Reads, b: Reads)
    ensures
        read_bytes(a + b) == read_bytes(a) + read_bytes(b),
    decreases b.len(),
{
    if b.len() == 0 {
        assert(a + b =~= a);
        assert(read_bytes(b) =~= Seq::<u8>::empty());
        assert(read_bytes(a) + read_bytes(b) =~= read_bytes(a));
    } else {
        lemma_read_bytes_append(a, b.drop_last());
        assert((a + b).drop_last() =~= a + b.drop_last());
        assert((a + b).last() == b.last());
        assert(read_bytes(a + b) =~= read_bytes(a) + read_bytes(b));
    }
}

/// Reads into `buffer` until it is full or the reader reports end of input,
/// retrying interrupted reads, and returns the number of bytes read. A count
/// below `buffer.len()` means end of input was reached. A read error is
/// tagged with `input`; so is a reader that hands back more bytes than were
/// asked for, or one that is still being retried after `u64::MAX` reads.
pub fn read_full_chunk<B: ByteSource>(reader: &mut ReadLog<B>, buffer: &mut Vec<u8>, input: ContentInput) -> (res: Result<
    usize,
    ContentReadError,
>)
    ensures
        final(buffer)@.len() == old(buffer)@.len(),
        res matches Ok(n) ==> n <= old(buffer)@.len() && final(buffer)@.skip(n as int) == old(buffer)@.skip(n as int),
        res matches Err(e) ==> e.input == input,
        res matches Err(e) ==> {
            let rs = final(reader).returned@.skip(old(reader).returned@.len() as int);
            &&& read_stopped(rs)
            &&& rs.len() > 0 ==> (rs.last().1 matches Err(ReadFailure::Failed(m)) ==> e.message == m)
        },
        old(buffer)@.len() == 0 ==> res == Ok::<usize, ContentReadError>(0) && *final(reader) == *old(reader),
        old(buffer)@.len() > 0 ==> final(reader).returned@.len() > old(reader).returned@.len(),
        final(reader).returned@.len() >= old(reader).returned@.len(),
        final(reader).returned@.take(old(reader).returned@.len() as int) == old(reader).returned@,
        res matches Ok(n) ==> {
            let rs = final(reader).returned@.skip(old(reader).returned@.len() as int);
            &&& n == read_bytes(rs).len()
            &&& final(buffer)@.take(n as int) == read_bytes(rs)
            &&& only_interrupted(rs)
            &&& (n < old(buffer)@.len() ==> reached_end(rs))
        },
{
    let ghost r0 = reader.returned@;
    let len = buffer.len();
    let mut filled: usize = 0;
    let mut attempts: u64 = u64::MAX;
    proof {
        assert(r0.skip(r0.len() as int) =~= Seq::<(usize, Result<Vec<u8>, ReadFailure>)>::empty());
        assert(r0.take(r0.len() as int) =~= r0);
        assert(buffer@.take(0) =~= Seq::<u8>::empty());
    }
    while filled < len
        invariant
            filled <= len,
            len == old(buffer)@.len(),
            buffer@.len() == len,
            buffer@.skip(filled as int) == old(buffer)@.skip(filled as int),
            len == 0 ==> *reader == *old(reader),
            r0 == old(reader).returned@,
            reader.returned@.len() >= r0.len(),
            reader.returned@.take(r0.len() as int) == r0,
            filled == read_bytes(reader.returned@.skip(r0.len() as int)).len(),
            buffer@.take(filled as int) == read_bytes(reader.returned@.skip(r0.len() as int)),
            only_interrupted(reader.returned@.skip(r0.len() as int)),
            reader.returned@.len() - r0.len() == u64::MAX - attempts,
            attempts == u64::MAX ==> filled == 0,
        ensures
            filled <= len,
            buffer@.len() == len,
            buffer@.skip(filled as int) == old(buffer)@.skip(filled as int),
            len == 0 ==> *reader == *old(reader),
            reader.returned@.len() >= r0.len(),
            reader.returned@.take(r0.len() as int) == r0,
            filled == read_bytes(reader.returned@.skip(r0.len() as int)).len(),
            buffer@.take(filled as int) == read_bytes(reader.returned@.skip(r0.len() as int)),
            only_interrupted(reader.returned@.skip(r0.len() as int)),
            filled < len ==> reached_end(reader.returned@.skip(r0.len() as int)),
            len > 0 ==> reader.returned@.len() > r0.len(),
        decreases attempts,
    {
        if attempts == 0 {
            return Err(ContentReadError { input, message: owned("read retried too many times") });
        }
        attempts = attempts - 1;
        let ghost before = reader.returned@;
        let want = len - filled;
        let answer = reader.read(want);
        proof {
            let after = reader.returned@;
            assert(after.take(before.len() as int).take(r0.len() as int) =~= after.take(r0.len() as int));
            assert(after.take(r0.len() as int) =~= r0);
            assert(after.skip(r0.len() as int) =~= before.skip(r0.len() as int).push((want, answer)));
            assert(after.skip(r0.len() as int).drop_last() =~= before.skip(r0.len() as int));
        }
        let chunk = match answer {
            Ok(c) => c,
            Err(ReadFailure::Interrupted) => {
                proof {
                    let rs = reader.returned@.skip(r0.len() as int);
                    assert(read_bytes(rs) =~= read_bytes(before.skip(r0.len() as int)));
                    assert forall|i: int| 0 <= i < rs.len() implies !((#[trigger] rs[i]).1 matches Err(ReadFailure::Failed(_))) by {
                        if i < rs.len() - 1 {
                            assert(rs[i] == before.skip(r0.len() as int)[i]);
                        }
                    }
                }
                continue;
            },
            Err(ReadFailure::Failed(message)) => {
                proof {
                    assert(reader.returned@.skip(r0.len() as int).last() == (want, answer));
                }
                return Err(ContentReadError { input, message });
            },
        };
        let ghost rs = reader.returned@.skip(r0.len() as int);
        proof {
            assert(read_bytes(rs) =~= read_bytes(before.skip(r0.len() as int)) + chunk@);
            assert forall|i: int| 0 <= i < rs.len() implies !((#[trigger] rs[i]).1 matches Err(ReadFailure::Failed(_))) by {
                if i < rs.len() - 1 {
                    assert(rs[i] == before.skip(r0.len() as int)[i]);
                }
            }
        }
        if chunk.len() == 0 {
            break;
        }
        if chunk.len() > len - filled {
            proof {
                assert(rs.last() == (want, answer));
            }
            return Err(ContentReadError { input, message: owned("reader returned more bytes than requested") });
        }
        let ghost prefix = buffer@.take(filled as int);
        proof {
            let f = filled as int;
            let c = chunk.len() as int;
            assert forall|k: int| 0 <= k < len - f - c implies #[trigger] buffer@.skip(f + c)[k] == old(buffer)@.skip(f + c)[k] by {
                assert(buffer@.skip(f)[c + k] == old(buffer)@.skip(f)[c + k]);
            }
            assert(buffer@.skip(f + c) =~= old(buffer)@.skip(f + c));
        }
        let mut j: usize = 0;
        while j < chunk.len()
            invariant
                j <= chunk.len(),
                filled + chunk.len() <= len,
                buffer@.len() == len,
                buffer@.skip(filled + chunk.len()) == old(buffer)@.skip(filled + chunk.len()),
                buffer@.take(filled as int) == prefix,
                forall|k: int| 0 <= k < j ==> #[trigger] buffer@[filled + k] == chunk@[k],
            decreases chunk.len() - j,
        {
            let ghost b = buffer@;
            buffer.set(filled + j, chunk[j]);
            assert(buffer@.skip(filled + chunk.len()) =~= b.skip(filled + chunk.len()));
            assert(buffer@.take(filled as int) =~= b.take(filled as int));
            j = j + 1;
        }
        proof {
            let f = filled as int;
            let c = chunk.len() as int;
            assert forall|k: int| 0 <= k < f + c implies #[trigger] buffer@.take(f + c)[k] == (prefix + chunk@)[k] by {
                if k < f {
                    assert(buffer@.take(f)[k] == buffer@[k]);
                } else {
                    assert(buffer@[f + (k - f)] == chunk@[k - f]);
                }
            }
            assert(buffer@.take(f + c) =~= prefix + chunk@);
        }
        filled = filled + chunk.len();
    }
    Ok(filled)
}

fn bytes_equal(a: &Vec<u8>, b: &Vec<u8>, n: usize) -> (res: bool)
    requires
        n <= a.len(),
        n <= b.len(),
    ensures
        res == (a@.take(n as int) == b@.take(n as int)),
{
    let mut i: usize = 0;
    while i < n
        invariant
            i <= n,
            n <= a.len(),
            n <= b.len(),
            forall|k: int| 0 <= k < i ==> a@[k] == b@[k],
        decreases n - i,
    {
        if a[i] != b[i] {
            assert(a@.take(n as int)[i as int] != b@.take(n as int)[i as int]);
            return false;
        }
        i = i + 1;
    }
    assert(a@.take(n as int) =~= b@.take(n as int));
    true
}

/// The size of the comparison buffers.
pub const CHUNK_SIZE: usize = 8192;

/// Compares two readers byte for byte, in full chunks, so that short reads
/// on either side cannot look like a difference. Any difference in chunk
/// length or content means changed. A read error carries the side it came
/// from. After `u64::MAX` chunks without an end the comparison gives up
/// with an error on the source side.
pub fn reader_contents_changed<S: ByteSource, T: ByteSource>(source: &mut ReadLog<S>, target: &mut ReadLog<T>) -> (res: Result<
    bool,
    ContentReadError,
>)
    ensures
        res matches Err(e) ==> (e.input == ContentInput::Source && read_stopped(
            final(source).returned@.skip(old(source).returned@.len() as int),
        )) || (e.input == ContentInput::Target && read_stopped(
            final(target).returned@.skip(old(target).returned@.len() as int),
        )),
        final(source).returned@.len() >= old(source).returned@.len(),
        final(source).returned@.take(old(source).returned@.len() as int) == old(source).returned@,
        final(target).returned@.len() >= old(target).returned@.len(),
        final(target).returned@.take(old(target).returned@.len() as int) == old(target).returned@,
        res matches Ok(changed) ==> changed == (read_bytes(final(source).returned@.skip(old(source).returned@.len() as int))
            != read_bytes(final(target).returned@.skip(old(target).returned@.len() as int))),
        res == Ok::<bool, ContentReadError>(false) ==> reached_end(final(source).returned@.skip(old(source).returned@.len() as int))
            && reached_end(final(target).returned@.skip(old(target).returned@.len() as int)),
        res == Ok::<bool, ContentReadError>(true) ==> ({
            let rs = final(source).returned@.skip(old(source).returned@.len() as int);
            let rt = final(target).returned@.skip(old(target).returned@.len() as int);
            let a = read_bytes(rs);
            let b = read_bytes(rt);
            ||| exists|i: int| 0 <= i < a.len() && i < b.len() && #[trigger] a[i] != b[i]
            ||| reached_end(rs) && a.len() < b.len()
            ||| reached_end(rt) && b.len() < a.len()
        }),
{
    let ghost s0 = source.returned@;
    let ghost t0 = target.returned@;
    let mut source_buf: Vec<u8> = vec![0u8; CHUNK_SIZE];
    let mut target_buf: Vec<u8> = vec![0u8; CHUNK_SIZE];
    let mut chunks: u64 = u64::MAX;
    proof {
        assert(s0.skip(s0.len() as int) =~= Seq::<(usize, Result<Vec<u8>, ReadFailure>)>::empty());
        assert(t0.skip(t0.len() as int) =~= Seq::<(usize, Result<Vec<u8>, ReadFailure>)>::empty());
        assert(s0.take(s0.len() as int) =~= s0);
        assert(t0.take(t0.len() as int) =~= t0);
    }
    while chunks > 0
        invariant
            source_buf.len() == CHUNK_SIZE,
            target_buf.len() == CHUNK_SIZE,
            s0 == old(source).returned@,
            t0 == old(target).returned@,
            source.returned@.len() >= s0.len(),
            source.returned@.take(s0.len() as int) == s0,
            target.returned@.len() >= t0.len(),
            target.returned@.take(t0.len() as int) == t0,
            read_bytes(source.returned@.skip(s0.len() as int)) == read_bytes(target.returned@.skip(t0.len() as int)),
            source.returned@.len() - s0.len() >= u64::MAX - chunks,
        decreases chunks,
    {
        chunks = chunks - 1;
        let ghost sb = source.returned@;
        let ghost tb = target.returned@;
        let source_result = read_full_chunk(source, &mut source_buf, ContentInput::Source);
        proof {
            let sa = source.returned@;
            assert(sa.take(sb.len() as int).take(s0.len() as int) =~= sa.take(s0.len() as int));
        }
        let source_read = match source_result {
            Ok(n) => n,
            Err(e) => {
                proof {
                    let sa = source.returned@;
                    assert(sa.skip(s0.len() as int).skip(sb.len() - s0.len()) =~= sa.skip(sb.len() as int));
                    lemma_stopped_suffix(sa.skip(s0.len() as int), sb.len() - s0.len());
                }
                return Err(e);
            },
        };
        let target_result = read_full_chunk(target, &mut target_buf, ContentInput::Target);
        proof {
            let ta = target.returned@;
            assert(ta.take(tb.len() as int).take(t0.len() as int) =~= ta.take(t0.len() as int));
        }
        let target_read = match target_result {
            Ok(n) => n,
            Err(e) => {
                proof {
                    let ta = target.returned@;
                    assert(ta.skip(t0.len() as int).skip(tb.len() - t0.len()) =~= ta.skip(tb.len() as int));
                    lemma_stopped_suffix(ta.skip(t0.len() as int), tb.len() - t0.len());
                }
                return Err(e);
            },
        };
        let ghost sn = source.returned@.skip(sb.len() as int);
        let ghost tn = target.returned@.skip(tb.len() as int);
        proof {
            let sa = source.returned@;
            let ta = target.returned@;
            assert(sa.take(sb.len() as int).take(s0.len() as int) =~= sa.take(s0.len() as int));
            assert(ta.take(tb.len() as int).take(t0.len() as int) =~= ta.take(t0.len() as int));
            assert(sa.skip(s0.len() as int) =~= sb.skip(s0.len() as int) + sn);
            assert(ta.skip(t0.len() as int) =~= tb.skip(t0.len() as int) + tn);
            lemma_read_bytes_append(sb.skip(s0.len() as int), sn);
            lemma_read_bytes_append(tb.skip(t0.len() as int), tn);
        }
        if source_read != target_read {
            proof {
                let sa = source.returned@;
                let ta = target.returned@;
                assert(read_bytes(sa.skip(s0.len() as int)).len() != read_bytes(ta.skip(t0.len() as int)).len());
                if source_read < target_read {
                    assert(sa.skip(s0.len() as int).last() == sn.last());
                } else {
                    assert(ta.skip(t0.len() as int).last() == tn.last());
                }
            }
            return Ok(true);
        }
        if source_read == 0 {
            proof {
                assert(read_bytes(sn) =~= Seq::<u8>::empty());
                assert(read_bytes(tn) =~= Seq::<u8>::empty());
                let sa = source.returned@;
                let ta = target.returned@;
                assert(sa.skip(s0.len() as int).last() == sn.last());
                assert(ta.skip(t0.len() as int).last() == tn.last());
            }
            return Ok(false);
        }
        if !bytes_equal(&source_buf, &target_buf, source_read) {
            proof {
                let prev = read_bytes(sb.skip(s0.len() as int));
                assert((prev + read_bytes(sn)).subrange(prev.len() as int, prev.len() + source_read) =~= read_bytes(sn));
                assert((prev + read_bytes(tn)).subrange(prev.len() as int, prev.len() + source_read) =~= read_bytes(tn));
                let x = read_bytes(sn);
                let y = read_bytes(tn);
                assert(exists|k: int| 0 <= k < x.len() && x[k] != y[k]) by {
                    if !(exists|k: int| 0 <= k < x.len() && x[k] != y[k]) {
                        assert(x =~= y);
                    }
                }
                let k = choose|k: int| 0 <= k < x.len() && x[k] != y[k];
                let a = read_bytes(source.returned@.skip(s0.len() as int));
                let b = read_bytes(target.returned@.skip(t0.len() as int));
                assert(a == prev + x);
                assert(b == prev + y);
                assert(a[prev.len() + k] == x[k]);
                assert(b[prev.len() + k] == y[k]);
            }
            return Ok(true);
        }
    }
    Err(ContentReadError { input: ContentInput::Source, message: owned("input did not end") })
}

/// The first element of a component list, if any.
pub open spec fn first_comp(cs: Seq<Comp>) -> Option<Comp> {
    if cs.len() > 0 {
        Some(cs[0])
    } else {
        None
    }
}

/// Length of the longest common prefix of `a` and `b` from index `i` on.
pub open spec fn common_from(a: Seq<Comp>, b: Seq<Comp>, i: nat) -> nat
    decreases a.len() - i,
{
    if i < a.len() && i < b.len() && a[i as int] == b[i as int] {
        common_from(a, b, i + 1)
    } else {
        i
    }
}

/// `buf` with `n` `..` pieces pushed.
pub open spec fn push_ups(buf: Seq<char>, n: nat) -> Seq<char>
    decreases n,
{
    if n == 0 {
        buf
    } else {
        push_piece(push_ups(buf, (n - 1) as nat), seq!['.', '.'])
    }
}

/// `buf` with the text of each component pushed in turn.
pub open spec fn push_names(buf: Seq<char>, cs: Seq<Comp>) -> Seq<char>
    decreases cs.len(),
{
    if cs.len() == 0 {
        buf
    } else {
        push_piece(push_names(buf, cs.drop_last()), comp_text(cs.last()))
    }
}

/// The path from directory `from` to `to`, built from their components:
/// one `..` for each component of `from` past the common prefix, then the
/// rest of `to`; `.` when nothing is left. There is none when either path
/// has a `..` component or they start differently (one absolute, one not).
pub open spec fn relative_path_spec(from: Seq<char>, to: Seq<char>) -> Option<Seq<char>> {
    match (comparable_components_spec(from), comparable_components_spec(to)) {
        (Some(f), Some(t)) => if first_comp(f) != first_comp(t) {
            None
        } else {
            let common = common_from(f, t, 0);
            let r = push_names(push_ups(Seq::empty(), (f.len() - common) as nat), t.skip(common as int));
            Some(if r.len() == 0 { seq!['.'] } else { r })
        },
        _ => None,
    }
}

/// `n` `..` components.
pub open spec fn parent_steps(n: nat) -> Seq<Comp> {
    Seq::new(n, |i: int| Comp::ParentDir)
}

/// Normalization continued from `acc` over `cs`.
pub open spec fn normalize_onto(acc: Seq<Comp>, cs: Seq<Comp>) -> Seq<Comp>
    decreases cs.len(),
{
    if cs.len() == 0 {
        acc
    } else {
        normalize_step(normalize_onto(acc, cs.drop_last()), cs.last())
    }
}

proof fn lemma_normalize_onto_concat(acc: Seq<Comp>, a: Seq<Comp>, b: Seq<Comp>)
    ensures
        normalize_onto(acc, a + b) == normalize_onto(normalize_onto(acc, a), b),
    decreases b.len(),
{
    if b.len() == 0 {
        assert(a + b =~= a);
    } else {
        assert((a + b).drop_last() =~= a + b.drop_last());
        assert((a + b).last() == b.last());
        lemma_normalize_onto_concat(acc, a, b.drop_last());
    }
}

proof fn lemma_normalize_comps_onto(cs: Seq<Comp>)
    ensures
        normalize_comps(cs) == normalize_onto(Seq::empty(), cs),
    decreases cs.len(),
{
    if cs.len() > 0 {
        lemma_normalize_comps_onto(cs.drop_last());
    }
}

proof fn lemma_normalize_onto_names(acc: Seq<Comp>, names: Seq<Comp>)
    requires
        forall|i: int| 0 <= i < names.len() ==> (#[trigger] names[i]) is Normal,
    ensures
        normalize_onto(acc, names) == acc + names,
    decreases names.len(),
{
    if names.len() == 0 {
        assert(acc + names =~= acc);
    } else {
        let front = names.drop_last();
        assert forall|i: int| 0 <= i < front.len() implies (#[trigger] front[i]) is Normal by {
            assert(front[i] == names[i]);
        }
        lemma_normalize_onto_names(acc, front);
        assert(names.last() == names[names.len() - 1]);
        assert((acc + front).push(names.last()) =~= acc + names);
    }
}

proof fn lemma_normalize_onto_parents(acc: Seq<Comp>, k: nat)
    requires
        k <= acc.len(),
        forall|i: int| acc.len() - k <= i < acc.len() ==> (#[trigger] acc[i]) is Normal,
    ensures
        normalize_onto(acc, parent_steps(k)) == acc.take(acc.len() - k),
    decreases k,
{
    if k == 0 {
        assert(acc.take(acc.len() as int) =~= acc);
    } else {
        assert(parent_steps(k).drop_last() =~= parent_steps((k - 1) as nat));
        lemma_normalize_onto_parents(acc, (k - 1) as nat);
        let mid = acc.take(acc.len() - k + 1);
        assert(mid.last() == acc[acc.len() - k]);
        assert(mid.drop_last() =~= acc.take(acc.len() - k));
    }
}

pub(crate) proof fn lemma_segments_comps_kinds(segs: Seq<Seq<char>>)
    ensures
        forall|i: int| 0 <= i < segments_comps(segs).len() ==> (#[trigger] segments_comps(segs)[i]) is Normal
            || segments_comps(segs)[i] is ParentDir,
    decreases segs.len(),
{
    if segs.len() > 0 {
        lemma_segments_comps_kinds(segs.drop_last());
    }
}

proof fn lemma_filter_keeps_all(cs: Seq<Comp>)
    requires
        forall|i: int| 0 <= i < cs.len() ==> (#[trigger] cs[i]) != Comp::CurDir,
    ensures
        cs.filter(|c: Comp| c != Comp::CurDir) == cs,
    decreases cs.len(),
{
    reveal(Seq::filter);
    if cs.len() > 0 {
        let front = cs.drop_last();
        assert forall|i: int| 0 <= i < front.len() implies (#[trigger] front[i]) != Comp::CurDir by {
            assert(front[i] == cs[i]);
        }
        lemma_filter_keeps_all(front);
        let pred = |c: Comp| c != Comp::CurDir;
        assert(cs.last() == cs[cs.len() - 1]);
        assert(pred(cs.last()));
        assert(cs.filter(pred) == front.filter(pred).push(cs.last()));
        assert(front.push(cs.last()) =~= cs);
    }
}

/// The comparable components of a path: a root or a name first, names
/// after that.
proof fn lemma_comparable_shape(p: Seq<char>)
    requires
        comparable_components_spec(p).is_some(),
    ensures
        ({
            let f = comparable_components_spec(p).unwrap();
            &&& forall|i: int| 1 <= i < f.len() ==> (#[trigger] f[i]) is Normal
            &&& f.len() > 0 ==> (f[0] is Normal || f[0] == Comp::RootDir)
            &&& good_names(f)
            &&& normalize_comps(components(p)) == f
            &&& crate::paths::is_absolute(p) ==> f.len() > 0 && f[0] == Comp::RootDir
        }),
{
    let cs = components(p);
    let segs = segments_comps(raw_split(p));
    let lead: Seq<Comp> = if crate::paths::is_absolute(p) {
        seq![Comp::RootDir]
    } else if leading_cur_dir(p) {
        seq![Comp::CurDir]
    } else {
        Seq::empty()
    };
    assert(cs == lead + segs);
    lemma_segments_comps_kinds(raw_split(p));
    assert forall|i: int| 0 <= i < segs.len() implies (#[trigger] segs[i]) != Comp::CurDir by {}
    lemma_filter_keeps_all(segs);
    let pred = |c: Comp| c != Comp::CurDir;
    Seq::filter_distributes_over_add(lead, segs, pred);
    let fl = lead.filter(pred);
    reveal(Seq::filter);
    if lead.len() == 1 {
        assert(lead.drop_last() =~= Seq::<Comp>::empty());
        assert(lead.drop_last().filter(pred) =~= Seq::<Comp>::empty());
    } else {
        assert(lead =~= Seq::<Comp>::empty());
    }
    let f = cs.filter(pred);
    assert(f == fl + segs);
    assert forall|i: int| 0 <= i < segs.len() implies (#[trigger] segs[i]) is Normal by {
        assert(cs[lead.len() + i] == segs[i]);
        assert(!(cs[lead.len() + i] is ParentDir));
    }
    assert forall|i: int| 1 <= i < f.len() implies (#[trigger] f[i]) is Normal by {
        assert(f[i] == segs[i - fl.len()]);
    }
    if f.len() > 0 {
        if fl.len() == 0 {
            assert(f[0] == segs[0]);
        } else {
            assert(f[0] == fl[0]);
        }
    }
    lemma_raw_split_no_slash(p);
    lemma_segments_comps_good(raw_split(p));
    assert(good_names(f)) by {
        assert forall|i: int| 0 <= i < f.len() implies (#[trigger] f[i] matches Comp::Normal(x) ==> good_name(x)) by {
            if i >= fl.len() {
                assert(f[i] == segs[i - fl.len()]);
            } else {
                assert(f[i] == fl[i]);
            }
        }
    }
    // Normalizing the components drops a leading `.` and keeps the rest.
    lemma_normalize_comps_onto(cs);
    lemma_normalize_onto_concat(Seq::empty(), lead, segs);
    lemma_normalize_onto_names(normalize_onto(Seq::empty(), lead), segs);
    if lead.len() == 1 {
        assert(lead.drop_last() =~= Seq::<Comp>::empty());
        assert(normalize_onto(Seq::<Comp>::empty(), Seq::<Comp>::empty()) == Seq::<Comp>::empty());
        assert(lead.last() == lead[0]);
        assert(normalize_onto(Seq::empty(), lead) =~= fl);
    } else {
        assert(normalize_onto(Seq::empty(), lead) =~= fl);
    }
}

proof fn lemma_common_from(a: Seq<Comp>, b: Seq<Comp>, i: nat)
    requires
        i <= a.len(),
        i <= b.len(),
        a.take(i as int) == b.take(i as int),
    ensures
        i <= common_from(a, b, i) <= a.len(),
        common_from(a, b, i) <= b.len(),
        a.take(common_from(a, b, i) as int) == b.take(common_from(a, b, i) as int),
    decreases a.len() - i,
{
    if i < a.len() && i < b.len() && a[i as int] == b[i as int] {
        assert(a.take(i + 1int) =~= a.take(i as int).push(a[i as int]));
        assert(b.take(i + 1int) =~= b.take(i as int).push(b[i as int]));
        lemma_common_from(a, b, i + 1);
    }
}

/// A relative link leads where it is meant to: from the comparable
/// components of `from`, the link's `..` steps (one per component of `from`
/// past the common prefix) and then the rest of `to`'s components normalize
/// to exactly the comparable components of `to`.
pub proof fn lemma_relative_path_reaches_target(from: Seq<char>, to: Seq<char>)
    requires
        relative_path_spec(from, to).is_some(),
    ensures
        ({
            let f = comparable_components_spec(from).unwrap();
            let t = comparable_components_spec(to).unwrap();
            let c = common_from(f, t, 0);
            normalize_comps(f + parent_steps((f.len() - c) as nat) + t.skip(c as int)) == t
        }),
{
    let f = comparable_components_spec(from).unwrap();
    let t = comparable_components_spec(to).unwrap();
    lemma_comparable_shape(from);
    lemma_comparable_shape(to);
    assert(f.take(0) =~= t.take(0));
    lemma_common_from(f, t, 0);
    let c = common_from(f, t, 0);
    let k = (f.len() - c) as nat;
    if f.len() > 0 {
        assert(t.len() > 0 && f[0] == t[0]);
        assert(c >= 1) by {
            assert(f.take(1) =~= t.take(1)) by {
                assert(f.take(1)[0] == t.take(1)[0]);
            }
            lemma_common_from(f, t, 1);
        }
    } else {
        assert(t.len() == 0);
    }
    let whole = f + parent_steps(k) + t.skip(c as int);
    lemma_normalize_comps_onto(whole);
    lemma_normalize_onto_concat(Seq::empty(), f + parent_steps(k), t.skip(c as int));
    lemma_normalize_onto_concat(Seq::empty(), f, parent_steps(k));
    lemma_normalize_comps_onto(f);
    assert(is_normalized(f)) by {
        assert forall|i: int| 0 <= i < f.len() implies (#[trigger] f[i]) != Comp::CurDir && (i > 0 ==> f[i] is Normal) by {
            if i > 0 {
                assert(f[i] is Normal);
            }
        }
    }
    lemma_normalized_is_fixed(f);
    assert forall|i: int| f.len() - k <= i < f.len() implies (#[trigger] f[i]) is Normal by {}
    lemma_normalize_onto_parents(f, k);
    let rest = t.skip(c as int);
    assert forall|i: int| 0 <= i < rest.len() implies (#[trigger] rest[i]) is Normal by {
        assert(rest[i] == t[c + i]);
    }
    lemma_normalize_onto_names(f.take(c as int), rest);
    assert(f.take(c as int) + rest =~= t) by {
        assert(f.take(c as int) == t.take(c as int));
        assert(t.take(c as int) + t.skip(c as int) =~= t);
    }
}

/// Pushing one good piece onto a buffer that does not end with `/` adds its
/// component to the buffer's segments and keeps the first character.
proof fn lemma_push_piece_segments(buf: Seq<char>, x: Seq<char>)
    requires
        buf.len() > 0 ==> buf.last() != '/' && buf[0] != '/',
        kept_segment(x),
        no_slash(x),
    ensures
        segments_comps(raw_split(push_piece(buf, x))) == segments_comps(raw_split(buf)).push(segment_comp(x)),
        push_piece(buf, x).len() > 0,
        push_piece(buf, x).last() != '/',
        push_piece(buf, x)[0] != '/',
        buf.len() > 0 ==> push_piece(buf, x)[0] == buf[0],
{
    let r = push_piece(buf, x);
    if buf.len() > 0 {
        assert(r =~= buf + seq!['/'] + x);
        lemma_raw_split_after_slash(buf, x);
        let segs = raw_split(buf).push(x);
        assert(segs.drop_last() =~= raw_split(buf));
        assert(segs.last() == x);
        assert(r[0] == buf[0]);
    } else {
        assert(r =~= x);
        lemma_raw_split_single(x);
        assert(raw_split(buf) =~= seq![Seq::<char>::empty()]);
        assert(segments_comps(Seq::<Seq<char>>::empty()).len() == 0);
        assert(seq![Seq::<char>::empty()].drop_last() =~= Seq::<Seq<char>>::empty());
        assert(seq![Seq::<char>::empty()].last() == Seq::<char>::empty());
        assert(segments_comps(seq![Seq::<char>::empty()]) =~= Seq::<Comp>::empty());
        assert(seq![x].drop_last() =~= Seq::<Seq<char>>::empty());
        assert(seq![x].last() == x);
        assert(segments_comps(seq![x]) =~= seq![segment_comp(x)]);
        assert(Seq::<Comp>::empty().push(segment_comp(x)) =~= seq![segment_comp(x)]);
    }
    assert(r.last() == x[x.len() - 1]);
}

proof fn lemma_push_ups_segments(k: nat)
    ensures
        segments_comps(raw_split(push_ups(Seq::empty(), k))) == parent_steps(k),
        push_ups(Seq::empty(), k).len() > 0 ==> push_ups(Seq::empty(), k).last() != '/' && push_ups(Seq::empty(), k)[0] != '/',
        (push_ups(Seq::empty(), k).len() == 0) == (k == 0),
    decreases k,
{
    let dd = seq!['.', '.'];
    if k == 0 {
        assert(raw_split(Seq::<char>::empty()) =~= seq![Seq::<char>::empty()]);
        assert(segments_comps(Seq::<Seq<char>>::empty()).len() == 0);
        assert(seq![Seq::<char>::empty()].drop_last() =~= Seq::<Seq<char>>::empty());
        assert(seq![Seq::<char>::empty()].last() == Seq::<char>::empty());
        assert(segments_comps(seq![Seq::<char>::empty()]) =~= parent_steps(0));
    } else {
        lemma_push_ups_segments((k - 1) as nat);
        assert(dd.len() == 2 && seq!['.'].len() == 1);
        assert(kept_segment(dd));
        assert(no_slash(dd));
        lemma_push_piece_segments(push_ups(Seq::empty(), (k - 1) as nat), dd);
        assert(segment_comp(dd) == Comp::ParentDir);
        assert(parent_steps((k - 1) as nat).push(Comp::ParentDir) =~= parent_steps(k));
    }
}

proof fn lemma_push_names_segments(buf: Seq<char>, names: Seq<Comp>)
    requires
        buf.len() > 0 ==> buf.last() != '/' && buf[0] != '/',
        forall|i: int| 0 <= i < names.len() ==> (#[trigger] names[i]) is Normal,
        good_names(names),
    ensures
        segments_comps(raw_split(push_names(buf, names))) == segments_comps(raw_split(buf)) + names,
        push_names(buf, names).len() > 0 ==> push_names(buf, names).last() != '/' && push_names(buf, names)[0] != '/',
        (push_names(buf, names).len() == 0) == (buf.len() == 0 && names.len() == 0),
    decreases names.len(),
{
    if names.len() == 0 {
        assert(segments_comps(raw_split(buf)) + names =~= segments_comps(raw_split(buf)));
    } else {
        let front = names.drop_last();
        assert forall|i: int| 0 <= i < front.len() implies (#[trigger] front[i]) is Normal by {
            assert(front[i] == names[i]);
        }
        assert(good_names(front)) by {
            assert forall|i: int| 0 <= i < front.len() implies (#[trigger] front[i] matches Comp::Normal(x) ==> good_name(x)) by {
                assert(front[i] == names[i]);
            }
        }
        lemma_push_names_segments(buf, front);
        let last = names[names.len() - 1];
        assert(names.last() == last);
        assert(last is Normal);
        let x = last->Normal_0;
        assert(good_name(x));
        assert(comp_text(last) == x);
        lemma_push_piece_segments(push_names(buf, front), x);
        assert(segment_comp(x) == last);
        assert((segments_comps(raw_split(buf)) + front).push(last) =~= segments_comps(raw_split(buf)) + names);
    }
}

/// A relative link resolves to its target: joined onto `from` and
/// normalized, the path from `from` to `to` gives the normalized `to`.
pub proof fn lemma_relative_path_join(from: Seq<char>, to: Seq<char>)
    requires
        relative_path_spec(from, to).is_some(),
    ensures
        normalize_lexical_spec(join(from, relative_path_spec(from, to).unwrap())) == normalize_lexical_spec(to),
{
    let f = comparable_components_spec(from).unwrap();
    let t = comparable_components_spec(to).unwrap();
    lemma_comparable_shape(from);
    lemma_comparable_shape(to);
    lemma_relative_path_reaches_target(from, to);
    assert(f.take(0) =~= t.take(0));
    lemma_common_from(f, t, 0);
    let c = common_from(f, t, 0);
    let k = (f.len() - c) as nat;
    let rest = t.skip(c as int);
    if f.len() > 0 {
        assert(t.len() > 0 && f[0] == t[0]);
        assert(c >= 1) by {
            assert(f.take(1) =~= t.take(1)) by {
                assert(f.take(1)[0] == t.take(1)[0]);
            }
            lemma_common_from(f, t, 1);
        }
    }
    assert forall|i: int| 0 <= i < rest.len() implies (#[trigger] rest[i]) is Normal by {
        assert(rest[i] == t[c + i]);
    }
    assert(good_names(rest)) by {
        assert forall|i: int| 0 <= i < rest.len() implies (#[trigger] rest[i] matches Comp::Normal(x) ==> good_name(x)) by {
            assert(rest[i] == t[c + i]);
        }
    }
    let ups = push_ups(Seq::empty(), k);
    lemma_push_ups_segments(k);
    lemma_push_names_segments(ups, rest);
    let r0 = push_names(ups, rest);
    let r = relative_path_spec(from, to).unwrap();
    assert(r == (if r0.len() == 0 { seq!['.'] } else { r0 }));
    // The link's segments: `k` steps up, then the rest of `to`.
    assert(segments_comps(raw_split(r)) == parent_steps(k) + rest) by {
        if r0.len() == 0 {
            assert(k == 0 && rest.len() == 0);
            let dot = seq!['.'];
            assert(no_slash(dot));
            lemma_raw_split_single(dot);
            assert(segments_comps(Seq::<Seq<char>>::empty()).len() == 0);
            assert(seq![dot].drop_last() =~= Seq::<Seq<char>>::empty());
            assert(seq![dot].last() == dot);
            assert(!kept_segment(dot));
            assert(segments_comps(seq![dot]) =~= parent_steps(k) + rest);
        }
    }
    assert(!is_absolute(r)) by {
        if r0.len() == 0 {
            assert(r[0] == '.');
        }
    }
    let j = join(from, r);
    assert(j == push_piece(from, r));
    let lhs_comps = components(j);
    if from.len() > 0 {
        lemma_components_push_piece(from, r);
        assert(lhs_comps == components(from) + (parent_steps(k) + rest));
        assert(components(from) + (parent_steps(k) + rest) =~= components(from) + parent_steps(k) + rest);
        let whole = components(from) + parent_steps(k) + rest;
        lemma_normalize_comps_onto(whole);
        lemma_normalize_onto_concat(Seq::empty(), components(from) + parent_steps(k), rest);
        lemma_normalize_onto_concat(Seq::empty(), components(from), parent_steps(k));
        lemma_normalize_comps_onto(components(from));
        let g = f + parent_steps(k) + rest;
        lemma_normalize_comps_onto(g);
        lemma_normalize_onto_concat(Seq::empty(), f + parent_steps(k), rest);
        lemma_normalize_onto_concat(Seq::empty(), f, parent_steps(k));
        lemma_normalize_comps_onto(f);
        assert(is_normalized(f)) by {
            assert forall|i: int| 0 <= i < f.len() implies (#[trigger] f[i]) != Comp::CurDir && (i > 0 ==> f[i] is Normal) by {
                if i > 0 {
                    assert(f[i] is Normal);
                }
            }
        }
        lemma_normalized_is_fixed(f);
        assert(normalize_comps(whole) == normalize_comps(g));
    } else {
        // An empty start compares equal only to an empty target.
        assert(from =~= Seq::<char>::empty());
        assert(raw_split(from) =~= seq![Seq::<char>::empty()]);
        assert(segments_comps(Seq::<Seq<char>>::empty()).len() == 0);
        assert(seq![Seq::<char>::empty()].drop_last() =~= Seq::<Seq<char>>::empty());
        assert(seq![Seq::<char>::empty()].last() == Seq::<char>::empty());
        assert(segments_comps(raw_split(from)) =~= Seq::<Comp>::empty());
        assert(components(from) =~= Seq::<Comp>::empty());
        assert(f.len() == 0);
        assert(t.len() == 0);
        assert(k == 0 && rest.len() == 0);
        assert(j == r);
        assert(r =~= seq!['.']);
        assert(components(r) =~= seq![Comp::CurDir] + segments_comps(raw_split(r)));
        assert(seq![Comp::CurDir] + segments_comps(raw_split(r)) =~= seq![Comp::CurDir]);
        assert(seq![Comp::CurDir].drop_last() =~= Seq::<Comp>::empty());
        assert(normalize_comps(seq![Comp::CurDir]) =~= Seq::<Comp>::empty());
    }
}

/// The relative-path law: a `..` component in either path gives no link;
/// two absolute paths without `..` always get one, made of one `..` per
/// component of `from` past the longest common prefix and then the rest of
/// `to` (or `.` when both are used up); and the link joined onto `from`
/// normalizes to the normalized `to`.
pub proof fn lemma_relative_path(from: Seq<char>, to: Seq<char>)
    ensures
        !no_parent_dirs(components(from)) || !no_parent_dirs(components(to)) ==> relative_path_spec(from, to).is_none(),
        is_absolute(from) && is_absolute(to) && no_parent_dirs(components(from)) && no_parent_dirs(components(to))
            ==> ({
            let f = comparable_components_spec(from).unwrap();
            let t = comparable_components_spec(to).unwrap();
            let c = common_from(f, t, 0);
            let r0 = push_names(push_ups(Seq::empty(), (f.len() - c) as nat), t.skip(c as int));
            relative_path_spec(from, to) == Some(if r0.len() == 0 { seq!['.'] } else { r0 })
        }),
        relative_path_spec(from, to) matches Some(r) ==> normalize_lexical_spec(join(from, r)) == normalize_lexical_spec(to),
{
    if is_absolute(from) && is_absolute(to) && no_parent_dirs(components(from)) && no_parent_dirs(components(to)) {
        lemma_comparable_shape(from);
        lemma_comparable_shape(to);
    }
    if relative_path_spec(from, to).is_some() {
        lemma_relative_path_join(from, to);
    }
}

fn comp_eq(a: &PathComponent, b: &PathComponent) -> (res: bool)
    ensures
        res == (a@ == b@),
{
    match (a, b) {
        (PathComponent::RootDir, PathComponent::RootDir) => true,
        (PathComponent::CurDir, PathComponent::CurDir) => true,
        (PathComponent::ParentDir, PathComponent::ParentDir) => true,
        (PathComponent::Normal(x), PathComponent::Normal(y)) => str_eq(x.as_str(), y.as_str()),
        _ => false,
    }
}

/// The components of a path without `.` entries, or none when it has a
/// `..` entry.
pub fn comparable_components(path: &str) -> (res: Option<Vec<PathComponent>>)
    ensures
        match res {
            Some(v) => comparable_components_spec(path@) == Some(comp_views(v@)),
            None => comparable_components_spec(path@).is_none(),
        },
{
    let cs = components_of(path);
    let ghost all = comp_views(cs@);
    let mut out: Vec<PathComponent> = Vec::new();
    let mut i: usize = 0;
    while i < cs.len()
        invariant
            i <= cs.len(),
            all == comp_views(cs@),
            all == components(path@),
            forall|k: int| 0 <= k < i ==> all[k] != Comp::ParentDir,
            comp_views(out@) == all.take(i as int).filter(|c: Comp| c != Comp::CurDir),
        decreases cs.len() - i,
    {
        proof {
            assert(all.take(i + 1).drop_last() =~= all.take(i as int));
            assert(all.take(i + 1).last() == all[i as int]);
            assert(all[i as int] == cs@[i as int]@);
            let p = |c: Comp| c != Comp::CurDir;
            reveal(Seq::filter);
            assert(all.take(i + 1).filter(p) == if p(all[i as int]) {
                all.take(i as int).filter(p).push(all[i as int])
            } else {
                all.take(i as int).filter(p)
            });
        }
        match &cs[i] {
            PathComponent::ParentDir => {
                return None;
            },
            PathComponent::CurDir => {},
            PathComponent::RootDir => {
                let ghost before = comp_views(out@);
                out.push(PathComponent::RootDir);
                assert(comp_views(out@) =~= before.push(Comp::RootDir));
            },
            PathComponent::Normal(n) => {
                let ghost before = comp_views(out@);
                out.push(PathComponent::Normal(copy_string(n)));
                assert(comp_views(out@) =~= before.push(Comp::Normal(n@)));
            },
        }
        i = i + 1;
    }
    assert(all.take(cs.len() as int) =~= all);
    Some(out)
}

/// The path from directory `from` to `to`, when one can be built
/// lexically.
pub fn relative_path(from: &str, to: &str) -> (res: Option<String>)
    ensures
        match res {
            Some(r) => relative_path_spec(from@, to@) == Some(r@),
            None => relative_path_spec(from@, to@).is_none(),
        },
{
    let f = match comparable_components(from) {
        Some(f) => f,
        None => return None,
    };
    let t = match comparable_components(to) {
        Some(t) => t,
        None => return None,
    };
    let ghost fv = comp_views(f@);
    let ghost tv = comp_views(t@);
    let same_first = if f.len() == 0 || t.len() == 0 {
        f.len() == t.len()
    } else {
        comp_eq(&f[0], &t[0])
    };
    if !same_first {
        return None;
    }
    let mut common: usize = 0;
    while common < f.len() && common < t.len() && comp_eq(&f[common], &t[common])
        invariant
            common <= f.len(),
            common <= t.len(),
            fv == comp_views(f@),
            tv == comp_views(t@),
            common_from(fv, tv, common as nat) == common_from(fv, tv, 0),
        decreases f.len() - common,
    {
        common = common + 1;
    }
    let mut r = String::new();
    let mut k: usize = 0;
    while k < f.len() - common
        invariant
            common <= f.len(),
            k <= f.len() - common,
            r@ == push_ups(Seq::empty(), k as nat),
        decreases f.len() - common - k,
    {
        push_piece_exec(&mut r, "..");
        proof {
            reveal_strlit("..");
            assert(".."@ =~= seq!['.', '.']);
        }
        k = k + 1;
    }
    let ghost ups = r@;
    let mut j: usize = common;
    while j < t.len()
        invariant
            common <= j <= t.len(),
            tv == comp_views(t@),
            r@ == push_names(ups, tv.skip(common as int).take(j - common)),
        decreases t.len() - j,
    {
        let piece = comp_text_exec(&t[j]);
        push_piece_exec(&mut r, piece.as_str());
        proof {
            let rest = tv.skip(common as int);
            assert(rest.take(j + 1 - common).drop_last() =~= rest.take(j - common));
            assert(rest.take(j + 1 - common).last() == tv[j as int]);
        }
        j = j + 1;
    }
    proof {
        assert(tv.skip(common as int).take(t.len() - common) =~= tv.skip(common as int));
    }
    if r.as_str().is_empty() {
        let mut dot = String::new();
        crate::text::push_char(&mut dot, '.');
        assert(dot@ =~= seq!['.']);
        return Some(dot);
    }
    Some(r)
}

/// The absolute source path of a planned operation: the source itself when
/// absolute, otherwise joined to the root checkout and normalized.
pub open spec fn raw_source_path_spec(root: Seq<char>, source: Seq<char>) -> Seq<char> {
    if is_absolute(source) {
        source
    } else {
        normalize_lexical_spec(join(root, source))
    }
}

/// The absolute source path of a planned operation.
pub fn raw_source_path(context: &Worktree, operation: &PlannedFileOperation) -> (res: String)
    ensures
        res@ == raw_source_path_spec(context.root_path@, operation.source@),
{
    if path_is_absolute(operation.source.as_str()) {
        copy_string(&operation.source)
    } else {
        let joined = join_paths(context.root_path.as_str(), operation.source.as_str());
        normalize_lexical(joined.as_str())
    }
}

} // verus!
