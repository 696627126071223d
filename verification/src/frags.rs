//! Reassembling a stream out of the fragments an adapter produced.

use vstd::prelude::*;

verus! {

/// The bytes of `frags` laid end to end, in order.
pub open spec fn concat_frags(frags: Seq<Seq<u8>>) -> Seq<u8>
    decreases frags.len(),
{
    if frags.len() == 0 {
        Seq::<u8>::empty()
    } else {
        concat_frags(frags.drop_last()) + frags.last()
    }
}

/// Delivering one more fragment appends exactly its bytes to the
/// reassembled stream.
pub proof fn lemma_concat_frags_push(frags: Seq<Seq<u8>>, f: Seq<u8>)
    ensures
        concat_frags(frags.push(f)) == concat_frags(frags) + f,
{
    assert(frags.push(f).drop_last() =~= frags);
}

/// The round trip, one read at a time: a read hands out the front of what
/// was pending and leaves the rest — `DribbleReader::read`'s contract — so
/// everything delivered so far followed by what is still pending is, after
/// the read as before it, the whole stream.  Reading until exhaustion
/// therefore delivers the stream exactly.
pub proof fn lemma_round_trip_step(delivered: Seq<u8>, pending: Seq<u8>, n: int)
    requires
        0 <= n <= pending.len(),
    ensures
        (delivered + pending.take(n)) + pending.skip(n) == delivered + pending,
{
    assert((delivered + pending.take(n)) + pending.skip(n) =~= delivered + pending);
}

/// Chunks cut from a stream one after another rejoin seamlessly: the first
/// `a` bytes followed by the next `b` bytes are the first `a + b` bytes.
/// This is why reading through an adapter until exhaustion and
/// concatenating the chunks gives back the stream exactly.
pub proof fn lemma_chunks_rejoin(s: Seq<u8>, a: int, b: int)
    requires
        0 <= a,
        0 <= b,
        a + b <= s.len(),
    ensures
        s.take(a) + s.skip(a).take(b) == s.take(a + b),
{
    assert(s.take(a) + s.skip(a).take(b) =~= s.take(a + b));
}

} // verus!
