//! A workload generator for object storage: a large sequential write of
//! pseudo-random content, a fixed set of random (offset, length) samples
//! drawn over the written range, and a time-bounded cyclic replay of reads
//! for those samples.

use vstd::prelude::*;

pub mod replayer;
pub mod rng;
pub mod sampler;
pub mod writer;

verus! {

/// Integer division rounding up.
pub open spec fn spec_ceil_div(a: int, b: int) -> int
    recommends
        b >= 1,
{
    (a + b - 1) / b
}

} // verus!
