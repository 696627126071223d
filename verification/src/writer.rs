//! The write-side adapter: each logical write delivered to the wrapped
//! sink as many small fragments.

use vstd::prelude::*;
use vstd::slice::slice_subrange;
use crate::frags::concat_frags;
use crate::frags::lemma_chunks_rejoin;
use crate::frags::lemma_concat_frags_push;
use crate::random::RandomSizer;
use crate::stream::ByteSink;
use crate::stream::ChunkSizer;
use crate::stream::StreamError;

verus! {

/// Wraps a byte sink and splits every write into fragments of 0 to 4
/// bytes, sized afresh for each fragment, delivering them to the sink one
/// call at a time until the whole input is through.  The payload is
/// untouched: the fragments, in order, add up to exactly the bytes given.
/// A zero-sized draw delivers a zero-length fragment — a sink must
/// tolerate those — and is followed at once by a non-empty one, so a
/// write of `n` bytes makes at most `2 * n` sink calls.
pub struct DribbleWriter<W: ByteSink, C: ChunkSizer> {
    dest: W,
    sizer: C,
}

impl<W: ByteSink, C: ChunkSizer> DribbleWriter<W, C> {
    /// The fragments the wrapped sink has accepted so far.
    pub closed spec fn dest_frags(&self) -> Seq<Seq<u8>> {
        self.dest.frags()
    }

    /// The errors the wrapped sink has raised so far.
    pub closed spec fn dest_errors(&self) -> Seq<StreamError> {
        self.dest.errors()
    }

    /// The results of the flush calls the wrapped sink has received.
    pub closed spec fn dest_flushes(&self) -> Seq<Result<(), StreamError>> {
        self.dest.flushes()
    }

    /// Create a `DribbleWriter` over `dest` that asks `sizer` for each
    /// fragment's size, for callers that want the sizes under their
    /// control.
    pub fn with_sizer(dest: W, sizer: C) -> (r: DribbleWriter<W, C>)
        ensures
            r.dest_frags() == dest.frags(),
            r.dest_errors() == dest.errors(),
            r.dest_flushes() == dest.flushes(),
    {
        DribbleWriter { dest, sizer }
    }

    /// Take the wrapped sink back out of the adapter, fragments and all.
    pub fn into_dest(self) -> (r: W)
        ensures
            r.frags() == self.dest_frags(),
            r.errors() == self.dest_errors(),
            r.flushes() == self.dest_flushes(),
    {
        self.dest
    }
}

impl<W: ByteSink> DribbleWriter<W, RandomSizer> {
    /// Create a `DribbleWriter` over `dest`, with randomly drawn fragment
    /// sizes.
    pub fn new(dest: W) -> (r: DribbleWriter<W, RandomSizer>)
        ensures
            r.dest_frags() == dest.frags(),
            r.dest_errors() == dest.errors(),
            r.dest_flushes() == dest.flushes(),
    {
        DribbleWriter::with_sizer(dest, RandomSizer::new())
    }
}

impl<W: ByteSink, C: ChunkSizer> DribbleWriter<W, C> {
    /// Deliver every byte of `buf` to the wrapped sink in small fragments.
    ///
    /// On success the count returned is `buf.len()`: the input was fully
    /// consumed.  Win or lose, whatever reached the sink through this call
    /// is a row of fragments of at most 4 bytes each that, laid end to
    /// end, are exactly a prefix of `buf` — the whole of it on success, a
    /// shorter prefix when the sink failed, for those fragments are not
    /// rolled back.  An error is the very error the sink just raised on
    /// the first sink call that failed, propagated unchanged; no flush is
    /// issued on the sink's behalf.
    pub fn write(&mut self, buf: &[u8]) -> (r: Result<usize, StreamError>)
        ensures
            final(self).dest_frags().len() >= old(self).dest_frags().len(),
            final(self).dest_frags().take(old(self).dest_frags().len() as int)
                == old(self).dest_frags(),
            forall|i: int|
                old(self).dest_frags().len() <= i < final(self).dest_frags().len()
                    ==> #[trigger] final(self).dest_frags()[i].len() <= 4,
            final(self).dest_flushes() == old(self).dest_flushes(),
            match r {
                Ok(n) => {
                    &&& n == buf@.len()
                    &&& concat_frags(
                        final(self).dest_frags().skip(old(self).dest_frags().len() as int),
                    ) == buf@
                    &&& final(self).dest_errors() == old(self).dest_errors()
                },
                Err(e) => {
                    &&& buf@.len() > 0
                    &&& final(self).dest_errors() == old(self).dest_errors().push(e)
                    &&& exists|k: int|
                        0 <= k < buf@.len() && concat_frags(
                            final(self).dest_frags().skip(old(self).dest_frags().len() as int),
                        ) == buf@.take(k)
                },
            },
            buf@.len() == 0 ==> r == Ok::<usize, StreamError>(0) && *final(self) == *old(self),
    {
        if buf.len() == 0 {
            // Nothing to split: the sink is not consulted at all.
            proof {
                let ghost base = self.dest.frags();
                assert(base.take(base.len() as int) =~= base);
                assert(base.skip(base.len() as int) =~= Seq::<Seq<u8>>::empty());
                assert(concat_frags(base.skip(base.len() as int)) =~= buf@);
            }
            return Ok(0);
        }
        let ghost base = self.dest.frags();
        let mut written: usize = 0;
        proof {
            assert(base.skip(base.len() as int) =~= Seq::<Seq<u8>>::empty());
            assert(buf@.take(0) =~= Seq::<u8>::empty());
        }
        while written < buf.len()
            invariant
                written <= buf@.len(),
                base == old(self).dest_frags(),
                self.dest_frags().len() >= base.len(),
                self.dest_frags().take(base.len() as int) == base,
                concat_frags(self.dest_frags().skip(base.len() as int)) == buf@.take(
                    written as int,
                ),
                forall|i: int|
                    base.len() <= i < self.dest_frags().len()
                        ==> #[trigger] self.dest_frags()[i].len() <= 4,
                self.dest_errors() == old(self).dest_errors(),
                self.dest_flushes() == old(self).dest_flushes(),
            decreases buf@.len() - written,
        {
            // Decide this fragment's size: a fresh draw from 0 to 4,
            // capped by what is left.
            let drawn = self.sizer.pick(0, 4);
            let mut bytes = drawn;
            let left = buf.len() - written;
            if left < bytes {
                bytes = left;
            }
            if bytes == 0 {
                // A zero-sized draw: hand the sink a zero-length
                // fragment, then redraw so the write keeps moving.
                let ghost before = self.dest_frags();
                let empty_chunk = slice_subrange(buf, written, written);
                match self.dest.accept(empty_chunk) {
                    Ok(_) => {
                        proof {
                            lemma_concat_frags_push(before.skip(base.len() as int), empty_chunk@);
                            assert(self.dest_frags().skip(base.len() as int) =~= before.skip(
                                base.len() as int,
                            ).push(empty_chunk@));
                            assert(self.dest_frags().take(base.len() as int) =~= base);
                            assert(concat_frags(self.dest_frags().skip(base.len() as int)) =~= buf@.take(
                                written as int,
                            ));
                        }
                    },
                    Err(e) => {
                        return Err(e);
                    },
                }
                let redrawn = self.sizer.pick(1, 4);
                bytes = redrawn;
                if left < bytes {
                    bytes = left;
                }
            }
            // Deliver the fragment and mark its bytes written.
            let ghost before = self.dest_frags();
            let chunk = slice_subrange(buf, written, written + bytes);
            match self.dest.accept(chunk) {
                Ok(_) => {},
                Err(e) => {
                    return Err(e);
                },
            }
            proof {
                lemma_concat_frags_push(before.skip(base.len() as int), chunk@);
                assert(self.dest_frags().skip(base.len() as int) =~= before.skip(
                    base.len() as int,
                ).push(chunk@));
                assert(self.dest_frags().take(base.len() as int) =~= base);
                assert(chunk@ =~= buf@.skip(written as int).take(bytes as int));
                lemma_chunks_rejoin(buf@, written as int, bytes as int);
            }
            written = written + bytes;
        }
        proof {
            assert(buf@.take(written as int) =~= buf@);
        }
        Ok(written)
    }

    /// Forward a flush to the wrapped sink, adding no buffering semantics
    /// of this adapter's own: exactly one flush reaches the sink, no
    /// fragment does, and the sink's result — success or failure — is
    /// returned unmodified.
    pub fn flush(&mut self) -> (r: Result<(), StreamError>)
        ensures
            final(self).dest_frags() == old(self).dest_frags(),
            final(self).dest_errors() == old(self).dest_errors(),
            final(self).dest_flushes() == old(self).dest_flushes().push(r),
    {
        self.dest.flush()
    }
}

} // verus!
