//! The default chunk-size chooser: a process-seeded random draw.

use vstd::prelude::*;
use crate::stream::ChunkSizer;

verus! {

/// Relies on rand: `rng()` hands back the thread's generator, and
/// `RngExt::random_range` over `lo..=hi` yields a value of that range,
/// panicking only when the range is empty, which `lo <= hi` rules out.
/// `rng()` itself can panic should the operating system's entropy source
/// fail at seeding — an environmental failure, independent of any input.
#[verifier::external_body]
fn rand_between(lo: usize, hi: usize) -> (r: usize)
    requires
        lo <= hi,
    ensures
        lo <= r <= hi,
{
    rand::RngExt::random_range(&mut rand::rng(), lo..=hi)
}

/// The chunk sizer the adapters use unless told otherwise: every call
/// draws a fresh, uniformly random size from the asked range, so chunk
/// boundaries fall in ever different places from run to run.
pub struct RandomSizer {}

impl RandomSizer {
    /// Make a random chunk sizer.
    pub fn new() -> (r: RandomSizer) {
        RandomSizer {}
    }
}

impl ChunkSizer for RandomSizer {
    fn pick(&mut self, lo: usize, hi: usize) -> (r: usize) {
        rand_between(lo, hi)
    }
}

} // verus!
