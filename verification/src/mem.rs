//! In-memory collaborators: a source over a fixed byte sequence and a sink
//! that records every fragment it is handed.  They give the adapters
//! something concrete to wrap, with every promise of the capability traits
//! proved rather than assumed.

use vstd::prelude::*;
use crate::frags::concat_frags;
use crate::frags::lemma_concat_frags_push;
use crate::stream::ByteSink;
use crate::stream::ByteSource;
use crate::stream::StreamError;

verus! {

/// A source that produces a fixed byte sequence, front to back, giving
/// each read as many bytes as fit, and 0 once the sequence is spent.
pub struct MemSource {
    bytes: Vec<u8>,
    taken: usize,
}

impl MemSource {
    /// Create a source that will produce exactly `bytes`.
    pub fn new(bytes: Vec<u8>) -> (r: MemSource)
        ensures
            r.data() == bytes@,
            r.errors() == Seq::<StreamError>::empty(),
    {
        let r = MemSource { bytes, taken: 0 };
        proof {
            assert(r.data() =~= r.bytes@);
        }
        r
    }
}

impl ByteSource for MemSource {
    closed spec fn data(&self) -> Seq<u8> {
        if self.taken <= self.bytes@.len() {
            self.bytes@.skip(self.taken as int)
        } else {
            Seq::<u8>::empty()
        }
    }

    closed spec fn errors(&self) -> Seq<StreamError> {
        Seq::<StreamError>::empty()
    }

    fn read_into(&mut self, buf: &mut Vec<u8>) -> (r: Result<usize, StreamError>)
        ensures
            r is Ok,
    {
        let left = if self.taken <= self.bytes.len() {
            self.bytes.len() - self.taken
        } else {
            0
        };
        let n = if buf.len() < left {
            buf.len()
        } else {
            left
        };
        let mut i: usize = 0;
        let ghost start = *self;
        while i < n
            invariant
                i <= n,
                *self == start,
                n == 0 || start.taken + n <= start.bytes@.len(),
                start.bytes@.len() <= usize::MAX,
                n <= buf@.len(),
                buf@.len() == old(buf)@.len(),
                forall|j: int| 0 <= j < i ==> buf@[j] == start.bytes@[start.taken + j],
                forall|j: int| i <= j < buf@.len() ==> buf@[j] == old(buf)@[j],
            decreases n - i,
        {
            let b = self.bytes[self.taken + i];
            buf.set(i, b);
            i = i + 1;
        }
        self.taken = self.taken + n;
        proof {
            assert(buf@.take(n as int) =~= start.data().take(n as int));
            assert(buf@.skip(n as int) =~= old(buf)@.skip(n as int));
            assert(self.data() =~= start.data().skip(n as int));
        }
        Ok(n)
    }
}

/// A sink that records every fragment handed to it, as delivered and in
/// order, so a test can inspect both the fragments and their reassembly.
pub struct MemSink {
    parts: Vec<Vec<u8>>,
    flushed: Ghost<Seq<Result<(), StreamError>>>,
}

impl MemSink {
    /// Create a sink that has recorded nothing yet.
    pub fn new() -> (r: MemSink)
        ensures
            r.frags() == Seq::<Seq<u8>>::empty(),
            r.errors() == Seq::<StreamError>::empty(),
            r.flushes() == Seq::<Result<(), StreamError>>::empty(),
    {
        let r = MemSink { parts: Vec::new(), flushed: Ghost(Seq::empty()) };
        proof {
            assert(r.frags() =~= Seq::<Seq<u8>>::empty());
        }
        r
    }

    /// How many fragments have been recorded.
    pub fn fragment_count(&self) -> (r: usize)
        ensures
            r == self.frags().len(),
    {
        self.parts.len()
    }

    /// The length of the recorded fragment at `i`.
    pub fn fragment_len(&self, i: usize) -> (r: usize)
        requires
            i < self.frags().len(),
        ensures
            r == self.frags()[i as int].len(),
    {
        self.parts[i].len()
    }

    /// All recorded fragments laid end to end: the bytes the sink was
    /// given, in the order it was given them.
    pub fn received(&self) -> (r: Vec<u8>)
        ensures
            r@ == concat_frags(self.frags()),
    {
        let mut out: Vec<u8> = Vec::new();
        let mut i: usize = 0;
        while i < self.parts.len()
            invariant
                i <= self.parts.len(),
                out@ == concat_frags(self.frags().take(i as int)),
            decreases self.parts.len() - i,
        {
            let ghost sofar = self.frags().take(i as int);
            let part = &self.parts[i];
            let mut j: usize = 0;
            while j < part.len()
                invariant
                    j <= part@.len(),
                    part@ == self.frags()[i as int],
                    i < self.frags().len(),
                    out@ == concat_frags(sofar) + part@.take(j as int),
                decreases part@.len() - j,
            {
                out.push(part[j]);
                proof {
                    assert(out@ =~= concat_frags(sofar) + part@.take(j + 1));
                }
                j = j + 1;
            }
            proof {
                lemma_concat_frags_push(sofar, part@);
                assert(sofar.push(part@) =~= self.frags().take(i + 1));
                assert(part@.take(part@.len() as int) =~= part@);
            }
            i = i + 1;
        }
        proof {
            assert(self.frags().take(self.parts@.len() as int) =~= self.frags());
        }
        out
    }
}

impl ByteSink for MemSink {
    closed spec fn frags(&self) -> Seq<Seq<u8>> {
        self.parts@.map_values(|p: Vec<u8>| p@)
    }

    closed spec fn errors(&self) -> Seq<StreamError> {
        Seq::<StreamError>::empty()
    }

    closed spec fn flushes(&self) -> Seq<Result<(), StreamError>> {
        self.flushed@
    }

    fn accept(&mut self, chunk: &[u8]) -> (r: Result<(), StreamError>)
        ensures
            r is Ok,
    {
        let copied = vstd::slice::slice_to_vec(chunk);
        self.parts.push(copied);
        proof {
            assert(self.frags() =~= old(self).frags().push(chunk@));
        }
        Ok(())
    }

    fn flush(&mut self) -> (r: Result<(), StreamError>)
        ensures
            r is Ok,
    {
        self.flushed = Ghost(self.flushed@.push(Ok(())));
        Ok(())
    }
}

} // verus!
