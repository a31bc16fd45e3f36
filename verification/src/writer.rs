//! The write phase: the object's content is produced in bounded-size chunks
//! of freshly drawn random bytes.  The plan of chunk lengths is computed and
//! proved here; the caller appends each chunk to the object and then forces
//! a durability sync.

use vstd::prelude::*;

use crate::rng;

verus! {

/// The total of a sequence of chunk lengths.
pub open spec fn spec_sum(s: Seq<u64>) -> int
    decreases s.len(),
{
    if s.len() == 0 {
        0
    } else {
        spec_sum(s.drop_last()) + s.last()
    }
}

/// A valid chunk plan: the lengths add up to exactly the object size, no
/// chunk is empty or longer than the chunk bound, and only the last chunk
/// may be shorter than the bound.
pub open spec fn chunk_plan_valid(object_size: u64, chunk_size: u64, plan: Seq<u64>) -> bool {
    &&& spec_sum(plan) == object_size
    &&& forall|i: int| 0 <= i < plan.len() ==> 0 < #[trigger] plan[i] <= chunk_size
    &&& forall|i: int| 0 <= i < plan.len() - 1 ==> #[trigger] plan[i] == chunk_size
}

/// The sequence of chunk lengths used to write an object of `object_size`
/// bytes in chunks of at most `chunk_size` bytes: full chunks, then one
/// shorter final chunk if a remainder is left.  The lengths add up to
/// exactly `object_size`.
pub fn chunk_plan(object_size: u64, chunk_size: u64) -> (plan: Vec<u64>)
    requires
        chunk_size >= 1,
    ensures
        chunk_plan_valid(object_size, chunk_size, plan@),
        plan@.len() == crate::spec_ceil_div(object_size as int, chunk_size as int),
{
    let mut plan: Vec<u64> = Vec::new();
    let mut written: u64 = 0;
    proof {
        lemma_ceil_div_of_zero(chunk_size as int);
    }
    while written < object_size
        invariant
            chunk_size >= 1,
            written <= object_size,
            spec_sum(plan@) == written,
            forall|i: int| 0 <= i < plan@.len() ==> 0 < #[trigger] plan@[i] <= chunk_size,
            forall|i: int| 0 <= i < plan@.len() - 1 ==> #[trigger] plan@[i] == chunk_size,
            written < object_size ==> written == plan@.len() * chunk_size,
            written < object_size ==> forall|i: int|
                0 <= i < plan@.len() ==> #[trigger] plan@[i] == chunk_size,
            written == object_size ==> plan@.len() == crate::spec_ceil_div(
                object_size as int,
                chunk_size as int,
            ),
        decreases object_size - written,
    {
        let remaining = object_size - written;
        let ghost old_plan = plan@;
        if remaining < chunk_size {
            plan.push(remaining);
            written = object_size;
            proof {
                assert(plan@.drop_last() =~= old_plan);
                lemma_full_then_short_is_ceil(
                    object_size as int,
                    chunk_size as int,
                    old_plan.len() as int,
                    remaining as int,
                );
            }
        } else {
            plan.push(chunk_size);
            written = written + chunk_size;
            proof {
                assert(plan@.drop_last() =~= old_plan);
                lemma_mul_succ(old_plan.len() as int, chunk_size as int);
                if written == object_size {
                    lemma_all_full_is_ceil(
                        object_size as int,
                        chunk_size as int,
                        plan@.len() as int,
                    );
                }
            }
        }
    }
    plan
}

/// One more factor distributes over the product.
proof fn lemma_mul_succ(l: int, c: int)
    ensures
        (l + 1) * c == l * c + c,
{
    assert((l + 1) * c == l * c + c) by (nonlinear_arith);
}

/// An empty object needs no chunks.
proof fn lemma_ceil_div_of_zero(c: int)
    requires
        c >= 1,
    ensures
        crate::spec_ceil_div(0, c) == 0,
{
    assert((c - 1) / c == 0) by (nonlinear_arith)
        requires
            c >= 1,
    ;
}

/// With `l` full chunks written and a final short chunk of `r` bytes, the
/// plan has exactly the rounded-up number of chunks.
proof fn lemma_full_then_short_is_ceil(object_size: int, chunk_size: int, l: int, r: int)
    requires
        chunk_size >= 1,
        0 < r < chunk_size,
        object_size == l * chunk_size + r,
        l >= 0,
    ensures
        l + 1 == crate::spec_ceil_div(object_size, chunk_size),
{
    assert((l * chunk_size + r + chunk_size - 1) / chunk_size == l + 1) by (nonlinear_arith)
        requires
            chunk_size >= 1,
            0 < r < chunk_size,
            l >= 0,
    ;
}

/// With the whole object written in full chunks, the plan has exactly the
/// rounded-up number of chunks.
proof fn lemma_all_full_is_ceil(object_size: int, chunk_size: int, l: int)
    requires
        chunk_size >= 1,
        object_size == l * chunk_size,
        l >= 1,
    ensures
        l == crate::spec_ceil_div(object_size, chunk_size),
{
    assert((l * chunk_size + chunk_size - 1) / chunk_size == l) by (nonlinear_arith)
        requires
            chunk_size >= 1,
            l >= 1,
    ;
}

/// A buffer of exactly `len` zero bytes.
pub fn zero_buffer(len: usize) -> (buf: Vec<u8>)
    ensures
        buf@.len() == len,
        forall|i: int| 0 <= i < buf@.len() ==> #[trigger] buf@[i] == 0u8,
{
    let mut buf: Vec<u8> = Vec::new();
    while buf.len() < len
        invariant
            buf@.len() <= len,
            forall|i: int| 0 <= i < buf@.len() ==> #[trigger] buf@[i] == 0u8,
        decreases len - buf@.len(),
    {
        buf.push(0u8);
    }
    buf
}

/// One chunk of the object's content: exactly `len` bytes drawn from the
/// generator.  Only the length is promised; the bytes are random.
pub fn random_chunk(rng: &mut rand::rngs::StdRng, len: usize) -> (chunk: Vec<u8>)
    ensures
        chunk@.len() == len,
{
    let mut chunk = zero_buffer(len);
    rng::fill_random(rng, &mut chunk);
    chunk
}

} // verus!
