//! The adapters over in-memory collaborators: round trips, chunk bounds,
//! fragment bounds, zero-length reads and writes, and error propagation.

use dribble::ByteSink;
use dribble::ByteSource;
use dribble::ChunkSizer;
use dribble::DribbleReader;
use dribble::DribbleWriter;
use dribble::MemSink;
use dribble::MemSource;
use dribble::StreamError;

/// A sizer that always answers with the same size, clamped to the asked
/// bounds, so a test can pin chunk boundaries exactly.
struct FixedSizer {
    size: usize,
}

impl ChunkSizer for FixedSizer {
    fn pick(&mut self, lo: usize, hi: usize) -> usize {
        if self.size < lo {
            lo
        } else if self.size > hi {
            hi
        } else {
            self.size
        }
    }
}

/// A source that produces from a byte vector but fails with the given
/// error kind on its nth call (counting from 1).
struct FailingSource {
    bytes: Vec<u8>,
    taken: usize,
    calls: usize,
    fail_on: usize,
    kind: u64,
}

impl ByteSource for FailingSource {
    // The ghost model of the trait; never invoked at run time.
    fn data(&self) -> vstd::seq::Seq<u8> {
        unreachable!()
    }

    // The ghost model of the trait; never invoked at run time.
    fn errors(&self) -> vstd::seq::Seq<StreamError> {
        unreachable!()
    }

    fn read_into(&mut self, buf: &mut Vec<u8>) -> Result<usize, StreamError> {
        self.calls += 1;
        if self.calls == self.fail_on {
            return Err(StreamError { kind: self.kind });
        }
        let left = self.bytes.len() - self.taken;
        let n = if buf.len() < left { buf.len() } else { left };
        for i in 0..n {
            buf[i] = self.bytes[self.taken + i];
        }
        self.taken += n;
        Ok(n)
    }
}

/// A sink that accepts fragments but fails with the given error kind on
/// its nth `accept` call (counting from 1), and whose `flush` fails with
/// `flush_kind` when one is given.
struct FailingSink {
    accepted: Vec<u8>,
    calls: usize,
    fail_on: usize,
    kind: u64,
    flush_kind: Option<u64>,
}

impl ByteSink for FailingSink {
    // The ghost model of the trait; never invoked at run time.
    fn frags(&self) -> vstd::seq::Seq<vstd::seq::Seq<u8>> {
        unreachable!()
    }

    // The ghost model of the trait; never invoked at run time.
    fn errors(&self) -> vstd::seq::Seq<StreamError> {
        unreachable!()
    }

    // The ghost model of the trait; never invoked at run time.
    fn flushes(&self) -> vstd::seq::Seq<Result<(), StreamError>> {
        unreachable!()
    }

    fn accept(&mut self, chunk: &[u8]) -> Result<(), StreamError> {
        self.calls += 1;
        if self.calls == self.fail_on {
            return Err(StreamError { kind: self.kind });
        }
        self.accepted.extend_from_slice(chunk);
        Ok(())
    }

    fn flush(&mut self) -> Result<(), StreamError> {
        match self.flush_kind {
            Some(kind) => Err(StreamError { kind }),
            None => Ok(()),
        }
    }
}

fn read_all(reader: &mut DribbleReader<MemSource, dribble::RandomSizer>, room: usize) -> Vec<u8> {
    let mut out = Vec::new();
    let mut buf = vec![0u8; room];
    loop {
        let n = reader.read(&mut buf).unwrap();
        if n == 0 {
            break;
        }
        assert!(n <= 4, "chunk of {} bytes is over the cap", n);
        assert!(n <= room);
        out.extend_from_slice(&buf[..n]);
    }
    out
}

#[test]
fn reader_round_trips_the_example() {
    let input = b"This is my test data";
    let source = MemSource::new(input.to_vec());
    let mut reader = DribbleReader::new(source);
    let out = read_all(&mut reader, 16);
    assert_eq!(out, input.to_vec());
    // Once exhausted, it stays exhausted.
    let mut buf = vec![0u8; 8];
    assert_eq!(reader.read(&mut buf).unwrap(), 0);
    assert_eq!(reader.read(&mut buf).unwrap(), 0);
}

#[test]
fn reader_round_trips_long_input() {
    // Longer than the refill buffer, so several refills happen.
    let input: Vec<u8> = (0..=255u8).cycle().take(1000).collect();
    let source = MemSource::new(input.clone());
    let mut reader = DribbleReader::new(source);
    let out = read_all(&mut reader, 7);
    assert_eq!(out, input);
}

#[test]
fn reader_round_trips_empty_input() {
    let source = MemSource::new(Vec::new());
    let mut reader = DribbleReader::new(source);
    let mut buf = vec![0u8; 4];
    assert_eq!(reader.read(&mut buf).unwrap(), 0);
}

#[test]
fn reader_nonzero_chunks_stay_within_bounds() {
    let input: Vec<u8> = (0u8..200).collect();
    let source = MemSource::new(input.clone());
    let mut reader = DribbleReader::new(source);
    let mut buf = vec![0u8; 10];
    let mut out = Vec::new();
    loop {
        let n = reader.read(&mut buf).unwrap();
        if n == 0 {
            break;
        }
        assert!((1..=4).contains(&n));
        out.extend_from_slice(&buf[..n]);
    }
    assert_eq!(out, input);
}

#[test]
fn reader_never_overfills_a_small_buffer() {
    let input = b"abcdefgh".to_vec();
    let source = MemSource::new(input.clone());
    let mut reader = DribbleReader::new(source);
    let mut buf = vec![0u8; 2];
    let mut out = Vec::new();
    loop {
        let n = reader.read(&mut buf).unwrap();
        if n == 0 {
            break;
        }
        assert!(n <= 2);
        out.extend_from_slice(&buf[..n]);
    }
    assert_eq!(out, input);
}

#[test]
fn reader_zero_length_buffer_returns_zero_and_consumes_nothing() {
    let input = b"payload".to_vec();
    let source = MemSource::new(input.clone());
    let mut reader = DribbleReader::new(source);
    let mut empty: Vec<u8> = Vec::new();
    for _ in 0..3 {
        assert_eq!(reader.read(&mut empty).unwrap(), 0);
    }
    // Not end-of-stream: the full payload is still there.
    let out = read_all(&mut reader, 16);
    assert_eq!(out, input);
}

#[test]
fn reader_with_fixed_sizer_cuts_exact_chunks() {
    let input = b"0123456789".to_vec();
    let source = MemSource::new(input.clone());
    let mut reader = DribbleReader::with_sizer(source, FixedSizer { size: 3 });
    let mut buf = vec![0u8; 8];
    let mut sizes = Vec::new();
    let mut out = Vec::new();
    loop {
        let n = reader.read(&mut buf).unwrap();
        if n == 0 {
            break;
        }
        sizes.push(n);
        out.extend_from_slice(&buf[..n]);
    }
    assert_eq!(sizes, vec![3, 3, 3, 1]);
    assert_eq!(out, input);
}

#[test]
fn reader_propagates_the_source_error_kind() {
    // The second source call fails; the refill buffer holds 64 bytes, so
    // the failure surfaces once the first 64 bytes have been dribbled out.
    let input: Vec<u8> = (0u8..100).collect();
    let source = FailingSource { bytes: input, taken: 0, calls: 0, fail_on: 2, kind: 42 };
    let mut reader = DribbleReader::new(source);
    let mut buf = vec![0u8; 8];
    let mut out = Vec::new();
    let err = loop {
        match reader.read(&mut buf) {
            Ok(n) => {
                assert!(n > 0, "ran out before the planted failure");
                out.extend_from_slice(&buf[..n]);
            }
            Err(e) => break e,
        }
    };
    assert_eq!(err, StreamError { kind: 42 });
    assert_eq!(out, (0u8..64).collect::<Vec<u8>>());
    // No retry happened: the failing call was the second and last.
    let source = reader.into_source();
    assert_eq!(source.calls, 2);
}

#[test]
fn writer_delivers_everything_in_order() {
    let input = b"This is my test data".to_vec();
    let mut writer = DribbleWriter::new(MemSink::new());
    assert_eq!(writer.write(&input).unwrap(), input.len());
    let sink = writer.into_dest();
    assert_eq!(sink.received(), input);
}

#[test]
fn writer_fragments_stay_within_bounds() {
    let input: Vec<u8> = (0u8..150).collect();
    let mut writer = DribbleWriter::new(MemSink::new());
    assert_eq!(writer.write(&input).unwrap(), input.len());
    let sink = writer.into_dest();
    for i in 0..sink.fragment_count() {
        assert!(sink.fragment_len(i) <= 4);
    }
    assert_eq!(sink.received(), input);
}

#[test]
fn writer_with_fixed_sizer_cuts_exact_fragments() {
    let input = b"0123456789".to_vec();
    let mut writer = DribbleWriter::with_sizer(MemSink::new(), FixedSizer { size: 4 });
    assert_eq!(writer.write(&input).unwrap(), 10);
    let sink = writer.into_dest();
    assert_eq!(sink.fragment_count(), 3);
    assert_eq!(sink.fragment_len(0), 4);
    assert_eq!(sink.fragment_len(1), 4);
    assert_eq!(sink.fragment_len(2), 2);
    assert_eq!(sink.received(), input);
}

#[test]
fn writer_tolerance_of_zero_draws_reaches_the_sink() {
    // A sizer stuck at 0 is clamped to the asked bounds: each round
    // delivers one empty fragment, then a 1-byte one.
    let input = b"xyz".to_vec();
    let mut writer = DribbleWriter::with_sizer(MemSink::new(), FixedSizer { size: 0 });
    assert_eq!(writer.write(&input).unwrap(), 3);
    let sink = writer.into_dest();
    assert_eq!(sink.fragment_count(), 6);
    for i in 0..6 {
        assert_eq!(sink.fragment_len(i), if i % 2 == 0 { 0 } else { 1 });
    }
    assert_eq!(sink.received(), input);
}

#[test]
fn writer_empty_write_succeeds_without_touching_the_sink() {
    let mut writer = DribbleWriter::new(MemSink::new());
    assert_eq!(writer.write(&[]).unwrap(), 0);
    let sink = writer.into_dest();
    assert_eq!(sink.fragment_count(), 0);
    assert_eq!(sink.received(), Vec::<u8>::new());
}

#[test]
fn writer_flush_reaches_the_sink_and_records_nothing() {
    let mut writer = DribbleWriter::new(MemSink::new());
    writer.write(b"ab").unwrap();
    writer.flush().unwrap();
    let sink = writer.into_dest();
    assert_eq!(sink.received(), b"ab".to_vec());
}

#[test]
fn writer_propagates_the_sink_error_kind() {
    // The third sink call fails: what the first two accepted stays
    // delivered, nothing is retried, and the kind comes through as-is.
    let input: Vec<u8> = (0u8..40).collect();
    let sink = FailingSink { accepted: Vec::new(), calls: 0, fail_on: 3, kind: 7, flush_kind: None };
    let mut writer = DribbleWriter::with_sizer(sink, FixedSizer { size: 4 });
    let err = writer.write(&input).unwrap_err();
    assert_eq!(err, StreamError { kind: 7 });
    let sink = writer.into_dest();
    assert_eq!(sink.calls, 3);
    assert_eq!(sink.accepted, input[..8].to_vec());
}

#[test]
fn reader_and_writer_compose_into_a_round_trip() {
    let input = b"through both adapters, twice chunked".to_vec();
    let source = MemSource::new(input.clone());
    let mut reader = DribbleReader::new(source);
    let mut writer = DribbleWriter::new(MemSink::new());
    let mut buf = vec![0u8; 5];
    loop {
        let n = reader.read(&mut buf).unwrap();
        if n == 0 {
            break;
        }
        assert_eq!(writer.write(&buf[..n]).unwrap(), n);
    }
    let sink = writer.into_dest();
    assert_eq!(sink.received(), input);
}

#[test]
fn read_to_end_round_trips() {
    let input = b"This is my test data".to_vec();
    let source = MemSource::new(input.clone());
    let mut reader = DribbleReader::new(source);
    assert_eq!(reader.read_to_end().unwrap(), input);
    // Nothing is left for a second pass.
    assert_eq!(reader.read_to_end().unwrap(), Vec::<u8>::new());
}

#[test]
fn read_to_end_propagates_the_source_error_kind() {
    let input: Vec<u8> = (0u8..10).collect();
    let source = FailingSource { bytes: input, taken: 0, calls: 0, fail_on: 1, kind: 9 };
    let mut reader = DribbleReader::new(source);
    assert_eq!(reader.read_to_end().unwrap_err(), StreamError { kind: 9 });
}

#[test]
fn writer_flush_propagates_the_sink_error_kind() {
    let sink =
        FailingSink { accepted: Vec::new(), calls: 0, fail_on: 0, kind: 0, flush_kind: Some(13) };
    let mut writer = DribbleWriter::new(sink);
    assert_eq!(writer.flush().unwrap_err(), StreamError { kind: 13 });
}
