//! The read-side adapter: a wrapped source's bytes, handed out in small,
//! freshly sized chunks.

use vstd::prelude::*;
use crate::frags::lemma_round_trip_step;
use crate::random::RandomSizer;
use crate::stream::ByteSource;
use crate::stream::ChunkSizer;
use crate::stream::StreamError;

verus! {

/// Capacity of the refill buffer.  One pull from the source can feed many
/// small chunks, so how chunky the caller's view is stays decoupled from
/// how often the source is consulted.
pub const REFILL_CAPACITY: usize = 64;

/// Wraps a byte source and returns its bytes in chunks of 1 to 4 bytes,
/// sized afresh on every call.  The stream itself is untouched: the chunks
/// arrive in order and add up to exactly what the source produced, and
/// `read` returns 0 into a non-empty buffer only once the source is
/// exhausted.
pub struct DribbleReader<R: ByteSource, C: ChunkSizer> {
    source: R,
    sizer: C,
    buffer: Vec<u8>,
    used: usize,
    available: usize,
}

impl<R: ByteSource, C: ChunkSizer> DribbleReader<R, C> {
    /// The reader's internal invariant: the delivered count never passes
    /// the filled count, which never passes the buffer's fixed capacity.
    pub closed spec fn wf(&self) -> bool {
        &&& self.used <= self.available
        &&& self.available <= self.buffer@.len()
        &&& self.buffer@.len() == REFILL_CAPACITY
    }

    /// The bytes pulled from the source but not yet handed out.
    pub closed spec fn buffered(&self) -> Seq<u8> {
        self.buffer@.subrange(self.used as int, self.available as int)
    }

    /// The bytes the wrapped source has yet to produce.
    pub closed spec fn source_data(&self) -> Seq<u8> {
        self.source.data()
    }

    /// The errors the wrapped source has raised so far.
    pub closed spec fn source_errors(&self) -> Seq<StreamError> {
        self.source.errors()
    }

    /// Every byte still owed to the caller: first what is buffered, then
    /// what the source has yet to produce.
    pub open spec fn pending(&self) -> Seq<u8> {
        self.buffered() + self.source_data()
    }

    /// Create a `DribbleReader` over `source` that asks `sizer` for each
    /// chunk's size, for callers that want chunk sizes under their control.
    pub fn with_sizer(source: R, sizer: C) -> (r: DribbleReader<R, C>)
        ensures
            r.wf(),
            r.pending() == source.data(),
            r.buffered().len() == 0,
            r.source_data() == source.data(),
            r.source_errors() == source.errors(),
    {
        let mut buffer: Vec<u8> = Vec::new();
        let mut i: usize = 0;
        while i < REFILL_CAPACITY
            invariant
                i <= REFILL_CAPACITY,
                buffer@.len() == i,
            decreases REFILL_CAPACITY - i,
        {
            buffer.push(0);
            i = i + 1;
        }
        let r = DribbleReader { source, sizer, buffer, used: 0, available: 0 };
        proof {
            assert(r.pending() =~= r.source_data());
        }
        r
    }

    /// Take the wrapped source back out of the adapter.
    pub fn into_source(self) -> (r: R)
        ensures
            r.data() == self.source_data(),
            r.errors() == self.source_errors(),
    {
        self.source
    }
}

impl<R: ByteSource> DribbleReader<R, RandomSizer> {
    /// Create a `DribbleReader` over `source`, with randomly drawn chunk
    /// sizes.  Its `read` will return 0 only if `source.read_into` has.
    pub fn new(source: R) -> (r: DribbleReader<R, RandomSizer>)
        ensures
            r.wf(),
            r.pending() == source.data(),
            r.buffered().len() == 0,
            r.source_data() == source.data(),
            r.source_errors() == source.errors(),
    {
        DribbleReader::with_sizer(source, RandomSizer::new())
    }
}

impl<R: ByteSource, C: ChunkSizer> DribbleReader<R, C> {
    /// Read the next chunk of the stream into the front of `buf`.
    ///
    /// A successful call hands out the next `n` pending bytes — at most 4,
    /// at most `buf.len()`, at least 1 whenever both the stream and `buf`
    /// are non-empty — and leaves exactly the rest pending.  A zero-length
    /// `buf` gets 0 back with nothing consumed; otherwise 0 means the
    /// stream is exhausted.  One call consumes at most one refill of the
    /// source, never more.  An error is the very error the source just
    /// raised, propagated unchanged; it loses no pending byte, and the
    /// failed refill leaves the buffer empty and the source where it was.
    #[verifier::rlimit(30)]
    pub fn read(&mut self, buf: &mut Vec<u8>) -> (r: Result<usize, StreamError>)
        requires
            old(self).wf(),
        ensures
            final(self).wf(),
            final(buf)@.len() == old(buf)@.len(),
            match r {
                Ok(n) => {
                    &&& n <= old(buf)@.len()
                    &&& n <= 4
                    &&& n <= old(self).pending().len()
                    &&& final(buf)@.take(n as int) == old(self).pending().take(n as int)
                    &&& final(buf)@.skip(n as int) == old(buf)@.skip(n as int)
                    &&& final(self).pending() == old(self).pending().skip(n as int)
                    &&& (n == 0 <==> old(buf)@.len() == 0 || old(self).pending().len() == 0)
                    &&& final(self).source_errors() == old(self).source_errors()
                },
                Err(e) => {
                    &&& final(buf)@ == old(buf)@
                    &&& final(self).pending() == old(self).pending()
                    &&& final(self).buffered().len() == 0
                    &&& final(self).source_data() == old(self).source_data()
                    &&& final(self).source_errors() == old(self).source_errors().push(e)
                    &&& old(buf)@.len() > 0
                    &&& old(self).buffered().len() == 0
                    &&& old(self).pending().len() > 0
                },
            },
            old(buf)@.len() == 0 ==> r == Ok::<usize, StreamError>(0) && *final(self) == *old(self),
            old(self).buffered().len() > 0 && old(buf)@.len() > 0 ==> r is Ok,
            old(buf)@.len() == 0 || old(self).buffered().len() > 0 ==> final(self).source_data()
                == old(self).source_data(),
            exists|m: int|
                0 <= m <= REFILL_CAPACITY && m <= old(self).source_data().len()
                    && final(self).source_data() == old(self).source_data().skip(m),
    {
        proof {
            assert(old(self).source_data().skip(0) =~= old(self).source_data());
        }
        if buf.len() == 0 {
            // A caller with no room gets 0 back; that says nothing about
            // the stream, and the source is not consulted for it.
            return Ok(0);
        }

        if self.used == self.available {
            // Out of buffered data: consult the source, once.
            self.used = 0;
            self.available = 0;
            let refill = self.source.read_into(&mut self.buffer);
            match refill {
                Ok(n) => {
                    self.available = n;
                    proof {
                        assert(self.pending() =~= old(self).pending());
                    }
                },
                Err(e) => {
                    // Propagate the failure as-is; any partial refill is
                    // discarded, and the source consumed nothing.
                    proof {
                        assert(old(self).buffered() =~= Seq::<u8>::empty());
                        assert(self.pending() =~= old(self).pending());
                    }
                    return Err(e);
                },
            }
        }

        if self.available == 0 {
            // The refill itself got 0 bytes: the source is exhausted, and
            // that is passed through.
            proof {
                assert(old(self).pending() =~= Seq::<u8>::empty());
            }
            return Ok(0);
        }

        // The chunk is the smallest of the caller's room, a fresh draw
        // from 1 to 4, and what is buffered.
        let cap = self.sizer.pick(1, 4);
        let mut bytes = buf.len();
        if cap < bytes {
            bytes = cap;
        }
        let remaining = self.available - self.used;
        if remaining < bytes {
            bytes = remaining;
        }

        let ghost mid = *self;
        proof {
            assert(mid.pending() == old(self).pending());
            assert(mid.buffered().len() == remaining);
        }

        let mut i: usize = 0;
        while i < bytes
            invariant
                i <= bytes,
                mid == *self,
                mid.wf(),
                bytes <= mid.buffered().len(),
                mid.used + bytes <= mid.available,
                bytes <= buf@.len(),
                buf@.len() == old(buf)@.len(),
                forall|j: int| 0 <= j < i ==> buf@[j] == mid.buffered()[j],
                forall|j: int| i <= j < buf@.len() ==> buf@[j] == old(buf)@[j],
            decreases bytes - i,
        {
            let b = self.buffer[self.used + i];
            buf.set(i, b);
            i = i + 1;
        }

        self.used = self.used + bytes;
        proof {
            assert(buf@.take(bytes as int) =~= mid.buffered().take(bytes as int));
            assert(mid.buffered().take(bytes as int) =~= mid.pending().take(bytes as int));
            assert(buf@.skip(bytes as int) =~= old(buf)@.skip(bytes as int));
            assert(self.buffered() =~= mid.buffered().skip(bytes as int));
            assert(self.pending() =~= mid.pending().skip(bytes as int));
        }
        Ok(bytes)
    }

    /// Read chunk after chunk until the stream is exhausted: the round
    /// trip whole.  On success the bytes returned are exactly what was
    /// pending, however the chunks happened to fall, and nothing is left;
    /// an already exhausted source always gets that success.  On an error
    /// of the source's — propagated unchanged from the one refill that
    /// failed — the chunks already delivered are dropped with the partial
    /// result, and what is left pending is exactly the rest of the stream
    /// from that point on.
    pub fn read_to_end(&mut self) -> (r: Result<Vec<u8>, StreamError>)
        requires
            old(self).wf(),
        ensures
            final(self).wf(),
            match r {
                Ok(v) => {
                    &&& v@ == old(self).pending()
                    &&& final(self).pending() == Seq::<u8>::empty()
                    &&& final(self).source_errors() == old(self).source_errors()
                },
                Err(e) => {
                    &&& final(self).source_errors() == old(self).source_errors().push(e)
                    &&& exists|k: int|
                        0 <= k <= old(self).pending().len() && final(self).pending() == old(
                            self,
                        ).pending().skip(k)
                },
            },
            old(self).source_data().len() == 0 ==> r is Ok,
    {
        let mut out: Vec<u8> = Vec::new();
        let mut buf: Vec<u8> = Vec::new();
        let mut i: usize = 0;
        while i < 16
            invariant
                i <= 16,
                buf@.len() == i,
            decreases 16 - i,
        {
            buf.push(0);
            i = i + 1;
        }
        loop
            invariant
                self.wf(),
                buf@.len() == 16,
                out@ + self.pending() == old(self).pending(),
                self.source_errors() == old(self).source_errors(),
                old(self).source_data().len() == 0 ==> self.source_data().len() == 0,
            decreases self.pending().len(),
        {
            let ghost sofar = out@;
            let ghost left = self.pending();
            match self.read(&mut buf) {
                Ok(n) => {
                    if n == 0 {
                        // A zero into a roomy buffer: the stream is spent.
                        proof {
                            assert(out@ + self.pending() =~= out@);
                        }
                        return Ok(out);
                    }
                    let mut j: usize = 0;
                    while j < n
                        invariant
                            j <= n,
                            n <= buf@.len(),
                            out@ == sofar + buf@.take(j as int),
                        decreases n - j,
                    {
                        let b = buf[j];
                        out.push(b);
                        proof {
                            assert(out@ =~= sofar + buf@.take(j + 1));
                        }
                        j = j + 1;
                    }
                    proof {
                        lemma_round_trip_step(sofar, left, n as int);
                        assert(buf@.take(n as int) == left.take(n as int));
                        assert(out@ + self.pending() =~= (sofar + left.take(n as int))
                            + left.skip(n as int));
                    }
                },
                Err(e) => {
                    proof {
                        let k = sofar.len() as int;
                        assert(self.pending() =~= old(self).pending().skip(k));
                    }
                    return Err(e);
                },
            }
        }
    }
}

} // verus!
