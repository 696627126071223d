//! The capabilities an adapter wraps: a source that produces bytes on
//! demand, a sink that accepts them, and a chooser of chunk sizes.

use vstd::prelude::*;

verus! {

/// An error reported by a wrapped source or sink.  The adapters never make
/// an error of their own: every error a caller sees came out of the wrapped
/// collaborator on the call where it occurred, unchanged.
#[derive(Clone, Copy, Debug, PartialEq, Eq, Structural)]
pub struct StreamError {
    /// The collaborator's own error kind, carried through untouched.
    pub kind: u64,
}

/// A blocking capability that produces bytes on demand.
///
/// `data()` models the bytes the source has yet to produce, and `errors()`
/// the errors it has raised so far.  A call to `read_into` moves some
/// prefix of `data()` into the front of the caller's buffer; a return of 0
/// with room in the buffer means end-of-input, and an exhausted source
/// keeps answering 0.  A failing call consumes nothing and is recorded in
/// `errors()`, so a caller's contract can name the very error this source
/// produced.
pub trait ByteSource {
    /// The bytes this source has yet to produce, in order.
    spec fn data(&self) -> Seq<u8>;

    /// The errors this source has raised so far, in order.
    spec fn errors(&self) -> Seq<StreamError>;

    /// Read up to `buf.len()` bytes into the front of `buf`, returning how
    /// many were read, and leaving the rest of `buf` as it was.
    fn read_into(&mut self, buf: &mut Vec<u8>) -> (r: Result<usize, StreamError>)
        ensures
            final(buf)@.len() == old(buf)@.len(),
            match r {
                Ok(n) => {
                    &&& n <= old(buf)@.len()
                    &&& n <= old(self).data().len()
                    &&& final(buf)@.take(n as int) == old(self).data().take(n as int)
                    &&& final(buf)@.skip(n as int) == old(buf)@.skip(n as int)
                    &&& final(self).data() == old(self).data().skip(n as int)
                    &&& (n == 0 <==> old(self).data().len() == 0 || old(buf)@.len() == 0)
                    &&& final(self).errors() == old(self).errors()
                },
                Err(e) => {
                    &&& final(self).data() == old(self).data()
                    &&& final(self).errors() == old(self).errors().push(e)
                },
            },
            old(self).data().len() == 0 ==> r == Ok::<usize, StreamError>(0),
    ;
}

/// A blocking capability that accepts bytes on demand.
///
/// `frags()` models the fragments the sink has accepted so far, each one
/// as it was delivered, in order; `errors()` the errors `accept` has
/// raised; and `flushes()` the result of every `flush` call received.  A
/// successful `accept` appends the chunk, a failing one appends nothing to
/// `frags()` and its error to `errors()`, and `flush` appends its own
/// result — success or failure — to `flushes()` only.  A caller's contract
/// can so name the very error this sink produced, and count the flushes
/// that reached it.
pub trait ByteSink {
    /// The fragments this sink has accepted so far, in delivery order.
    spec fn frags(&self) -> Seq<Seq<u8>>;

    /// The errors `accept` has raised so far, in order.
    spec fn errors(&self) -> Seq<StreamError>;

    /// The results of the `flush` calls received so far, in order.
    spec fn flushes(&self) -> Seq<Result<(), StreamError>>;

    /// Accept every byte of `chunk`, or fail having accepted none of it.
    fn accept(&mut self, chunk: &[u8]) -> (r: Result<(), StreamError>)
        ensures
            final(self).flushes() == old(self).flushes(),
            match r {
                Ok(_) => {
                    &&& final(self).frags() == old(self).frags().push(chunk@)
                    &&& final(self).errors() == old(self).errors()
                },
                Err(e) => {
                    &&& final(self).frags() == old(self).frags()
                    &&& final(self).errors() == old(self).errors().push(e)
                },
            },
    ;

    /// Push any buffering of the sink's own through; accepts no bytes.
    fn flush(&mut self) -> (r: Result<(), StreamError>)
        ensures
            final(self).frags() == old(self).frags(),
            final(self).errors() == old(self).errors(),
            final(self).flushes() == old(self).flushes().push(r),
    ;
}

/// A chooser of chunk sizes: each call yields some size within the asked
/// bounds.  The adapters draw one fresh size per chunk; nothing beyond the
/// bounds is promised, so any implementation that stays within them —
/// random or fixed — gives a correct adapter.
pub trait ChunkSizer {
    /// Choose a size in `lo..=hi`.
    fn pick(&mut self, lo: usize, hi: usize) -> (r: usize)
        requires
            lo <= hi,
        ensures
            lo <= r <= hi,
    ;
}

} // verus!
