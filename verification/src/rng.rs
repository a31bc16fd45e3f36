//! The pseudo-random source shared by the write and sampling phases: one
//! seeded generator, consumed in strict draw order.  Nothing is promised of
//! the values drawn; every function that consumes them is verified for every
//! value they could take.

use vstd::prelude::*;

verus! {

#[verifier::external_type_specification]
#[verifier::external_body]
pub struct ExStdRng(rand::rngs::StdRng);

/// Relies on rand's `SeedableRng::seed_from_u64` for `StdRng`: builds a
/// generator from the given seed.
#[verifier::external_body]
pub fn rng_from_seed(seed: u64) -> rand::rngs::StdRng {
    <rand::rngs::StdRng as rand::SeedableRng>::seed_from_u64(seed)
}

/// Relies on rand's `RngCore::next_u64` for `StdRng`: one 64-bit draw from
/// the generator.  Nothing is promised of the value.
#[verifier::external_body]
pub fn next_u64(rng: &mut rand::rngs::StdRng) -> u64 {
    <rand::rngs::StdRng as rand::RngCore>::next_u64(rng)
}

/// Relies on rand's `RngCore::fill_bytes` for `StdRng`: overwrites every
/// byte of the buffer with drawn bytes.  The buffer keeps its length;
/// nothing is promised of its new contents.
#[verifier::external_body]
pub fn fill_random(rng: &mut rand::rngs::StdRng, buf: &mut Vec<u8>)
    ensures
        final(buf)@.len() == old(buf)@.len(),
{
    <rand::rngs::StdRng as rand::RngCore>::fill_bytes(rng, buf.as_mut_slice())
}

} // verus!
