use treeboot_core::file_system::{
    read_full_chunk, reader_contents_changed, relative_path, ByteSource, ContentInput, ReadFailure,
    ReadLog,
};

/// Hands back bytes in a scripted sequence of short reads; once the script
/// is exhausted it fills whatever the caller asks for.
struct ChunkedRead {
    data: Vec<u8>,
    chunks: Vec<usize>,
    pos: usize,
    chunk_index: usize,
}

impl ChunkedRead {
    fn new(data: Vec<u8>, chunks: Vec<usize>) -> Self {
        Self { data, chunks, pos: 0, chunk_index: 0 }
    }
}

impl ByteSource for ChunkedRead {
    fn read_chunk(&mut self, max: usize) -> Result<Vec<u8>, ReadFailure> {
        if self.pos == self.data.len() {
            return Ok(Vec::new());
        }
        let chunk = self.chunks.get(self.chunk_index).copied().unwrap_or(max).max(1);
        self.chunk_index += 1;
        let read = chunk.min(max).min(self.data.len() - self.pos);
        let out = self.data[self.pos..self.pos + read].to_vec();
        self.pos += read;
        Ok(out)
    }
}

/// Reports an interruption a fixed number of times before yielding its data.
struct InterruptingReader {
    data: Vec<u8>,
    pos: usize,
    pending_interrupts: usize,
}

impl InterruptingReader {
    fn new(data: Vec<u8>, pending_interrupts: usize) -> Self {
        Self { data, pos: 0, pending_interrupts }
    }
}

impl ByteSource for InterruptingReader {
    fn read_chunk(&mut self, max: usize) -> Result<Vec<u8>, ReadFailure> {
        if self.pending_interrupts > 0 {
            self.pending_interrupts -= 1;
            return Err(ReadFailure::Interrupted);
        }
        let read = max.min(self.data.len() - self.pos);
        let out = self.data[self.pos..self.pos + read].to_vec();
        self.pos += read;
        Ok(out)
    }
}

/// Always fails.
struct FailingReader;

impl ByteSource for FailingReader {
    fn read_chunk(&mut self, _max: usize) -> Result<Vec<u8>, ReadFailure> {
        Err(ReadFailure::Failed("read failed".to_owned()))
    }
}

/// Compares two copies of the same data read with different short-read
/// patterns.
fn short_read_boundaries() -> bool {
    let data: Vec<u8> = (0..(8192 + 137)).map(|i| (i % 251) as u8).collect();
    let source = ChunkedRead::new(data.clone(), vec![1, 8, 3, 2, 13]);
    let target = ChunkedRead::new(data, vec![5, 1, 1, 16, 4]);
    reader_contents_changed(&mut ReadLog::new(source), &mut ReadLog::new(target))
        .expect("identical readers should compare cleanly")
}

/// Compares two equal-length inputs that differ in their last byte.
fn equal_size_differences() -> bool {
    let source_data: Vec<u8> = (0..4096).map(|i| (i % 251) as u8).collect();
    let mut target_data = source_data.clone();
    *target_data.last_mut().expect("data is non-empty") ^= 0xFF;
    let source = ChunkedRead::new(source_data, vec![1, 8, 3]);
    let target = ChunkedRead::new(target_data, vec![5, 1, 1]);
    reader_contents_changed(&mut ReadLog::new(source), &mut ReadLog::new(target))
        .expect("equal-length readers should compare cleanly")
}

/// Reads through `reader` into a buffer of `size` bytes; returns the count
/// and the buffer.
fn read_into<B: ByteSource>(reader: B, size: usize, input: ContentInput) -> (usize, Vec<u8>) {
    let mut buffer = vec![0u8; size];
    let read = read_full_chunk(&mut ReadLog::new(reader), &mut buffer, input)
        .expect("read_full_chunk should succeed");
    (read, buffer)
}

fn hundred_bytes() -> Vec<u8> {
    (0..100).map(|i| i as u8).collect()
}

fn thirty_two_bytes() -> Vec<u8> {
    (0..32).map(|i| i as u8).collect()
}

/// The side named by the error of a reader that always fails.
fn failing_side(input: ContentInput) -> ContentInput {
    let mut buffer = vec![0u8; 8];
    read_full_chunk(&mut ReadLog::new(FailingReader), &mut buffer, input)
        .expect_err("hard read error should propagate")
        .input
}

#[test]
fn reader_contents_changed_should_ignore_short_read_boundaries() {
    assert!(!short_read_boundaries());
    let source_error = reader_contents_changed(
        &mut ReadLog::new(FailingReader),
        &mut ReadLog::new(ChunkedRead::new(vec![1], vec![])),
    )
    .expect_err("source fails");
    assert_eq!(source_error.input, ContentInput::Source);
}

#[test]
fn tests_reader_contents_changed_should_ignore_short_read_boundaries() {
    assert!(!short_read_boundaries());
}

#[test]
fn reader_contents_changed_should_detect_equal_size_differences() {
    assert!(equal_size_differences());
}

#[test]
fn tests_reader_contents_changed_should_detect_equal_size_differences() {
    assert!(equal_size_differences());
}

#[test]
fn read_full_chunk_should_fill_buffer_across_short_reads() {
    let (read, buffer) = read_into(ChunkedRead::new(hundred_bytes(), vec![3, 7, 11]), 100, ContentInput::Source);
    assert_eq!(read, 100);
    assert_eq!(buffer, hundred_bytes());
}

#[test]
fn tests_read_full_chunk_should_fill_buffer_across_short_reads() {
    let (read, buffer) = read_into(ChunkedRead::new(hundred_bytes(), vec![3, 7, 11]), 100, ContentInput::Source);
    assert_eq!(read, 100);
    assert_eq!(buffer, hundred_bytes());
}

#[test]
fn read_full_chunk_should_return_short_count_at_eof() {
    let data: Vec<u8> = (0..10).map(|i| i as u8).collect();
    let (read, buffer) = read_into(ChunkedRead::new(data.clone(), vec![3]), 64, ContentInput::Source);
    assert_eq!(read, 10);
    assert_eq!(&buffer[..10], data.as_slice());
}

#[test]
fn tests_read_full_chunk_should_return_short_count_at_eof() {
    let data: Vec<u8> = (0..10).map(|i| i as u8).collect();
    let (read, _) = read_into(ChunkedRead::new(data, vec![3]), 64, ContentInput::Source);
    assert_eq!(read, 10);
}

#[test]
fn read_full_chunk_should_retry_interrupted_reads() {
    let (read, buffer) = read_into(InterruptingReader::new(thirty_two_bytes(), 2), 32, ContentInput::Source);
    assert_eq!(read, 32);
    assert_eq!(buffer, thirty_two_bytes());
}

#[test]
fn tests_read_full_chunk_should_retry_interrupted_reads() {
    let (read, buffer) = read_into(InterruptingReader::new(thirty_two_bytes(), 2), 32, ContentInput::Source);
    assert_eq!(read, 32);
    assert_eq!(buffer, thirty_two_bytes());
}

#[test]
fn read_full_chunk_should_tag_errors_with_input_side() {
    assert_eq!(failing_side(ContentInput::Target), ContentInput::Target);
    assert_eq!(failing_side(ContentInput::Source), ContentInput::Source);
}

#[test]
fn tests_read_full_chunk_should_tag_errors_with_input_side() {
    assert_eq!(failing_side(ContentInput::Target), ContentInput::Target);
}

#[test]
fn reader_contents_changed_should_detect_length_differences() {
    let source = ChunkedRead::new(vec![1, 2, 3], vec![]);
    let target = ChunkedRead::new(vec![1, 2], vec![]);
    assert!(reader_contents_changed(&mut ReadLog::new(source), &mut ReadLog::new(target)).expect("readers compare"));
    let failing = FailingReader;
    let other = ChunkedRead::new(vec![1], vec![]);
    let error = reader_contents_changed(&mut ReadLog::new(other), &mut ReadLog::new(failing)).expect_err("target fails");
    assert_eq!(error.input, ContentInput::Target);
}

#[test]
fn relative_path_should_walk_up_from_the_link_parent() {
    assert_eq!(relative_path("/repo/wt/a/b", "/repo/wt/c/d").as_deref(), Some("../../c/d"));
    assert_eq!(relative_path("/repo/wt", "/repo/wt").as_deref(), Some("."));
    assert_eq!(relative_path("/repo/wt", "/repo/wt/x").as_deref(), Some("x"));
    assert_eq!(relative_path("/repo", "rel/x"), None);
    assert_eq!(relative_path("/repo/../x", "/repo/x"), None);
    assert_eq!(relative_path("a/./b", "a/c").as_deref(), Some("../c"));
}

/// Hands back more bytes than asked for.
struct Overfull;

impl ByteSource for Overfull {
    fn read_chunk(&mut self, max: usize) -> Result<Vec<u8>, ReadFailure> {
        Ok(vec![7u8; max + 1])
    }
}

#[test]
fn read_full_chunk_should_refuse_a_reader_that_overfills() {
    let mut buffer = vec![0u8; 4];
    let error = read_full_chunk(&mut ReadLog::new(Overfull), &mut buffer, ContentInput::Source)
        .expect_err("overfull read is refused");
    assert_eq!(error.input, ContentInput::Source);
    assert_eq!(error.message, "reader returned more bytes than requested");
    let mut empty: Vec<u8> = Vec::new();
    assert_eq!(read_full_chunk(&mut ReadLog::new(Overfull), &mut empty, ContentInput::Target).expect("nothing asked"), 0);
}
