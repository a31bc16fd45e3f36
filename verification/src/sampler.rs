//! Drawing the read sample set: `(offset, length)` pairs over a written
//! object, each lying fully inside it and no longer than the fetch bound.

use vstd::prelude::*;

use crate::rng;

verus! {

/// What one pair of raw 64-bit draws becomes: the offset is the first draw
/// reduced modulo `object_size - 1` (so at least one byte index is left
/// after it), the length is the second draw reduced modulo `fetch_size`
/// and then clamped to the bytes remaining after the offset.
pub open spec fn spec_sample_pair(
    object_size: u64,
    fetch_size: u64,
    raw_offset: u64,
    raw_length: u64,
) -> (u64, u64)
    recommends
        object_size >= 2,
        fetch_size >= 1,
{
    let offset = raw_offset % ((object_size - 1) as u64);
    let reduced = raw_length % fetch_size;
    let remaining = (object_size - offset) as u64;
    let length = if reduced <= remaining {
        reduced
    } else {
        remaining
    };
    (offset, length)
}

/// A pair is a valid read descriptor: it starts strictly before the last
/// byte index, lies fully inside the object, and is no longer than the
/// fetch bound.
pub open spec fn pair_valid(object_size: u64, fetch_size: u64, p: (u64, u64)) -> bool {
    &&& p.0 < object_size - 1
    &&& p.0 + p.1 <= object_size
    &&& p.1 <= fetch_size
}

/// Reduce and clamp one pair of raw draws into a valid read descriptor.
pub fn sample_pair(object_size: u64, fetch_size: u64, raw_offset: u64, raw_length: u64) -> (p: (
    u64,
    u64,
))
    requires
        object_size >= 2,
        fetch_size >= 1,
    ensures
        p == spec_sample_pair(object_size, fetch_size, raw_offset, raw_length),
        pair_valid(object_size, fetch_size, p),
{
    let offset = raw_offset % (object_size - 1);
    let reduced = raw_length % fetch_size;
    let remaining = object_size - offset;
    let length = if reduced <= remaining {
        reduced
    } else {
        remaining
    };
    (offset, length)
}

/// The whole sample set as a function of the raw draws: the i-th pair of
/// draws becomes the i-th read descriptor.
pub open spec fn spec_sample_set(
    object_size: u64,
    fetch_size: u64,
    raws: Seq<(u64, u64)>,
) -> Seq<(u64, u64)> {
    raws.map(|i: int, r: (u64, u64)| spec_sample_pair(object_size, fetch_size, r.0, r.1))
}

/// Turn a sequence of raw draw pairs into the sample set.  The result is a
/// function of the draws alone, so a replayed draw sequence reproduces the
/// same set.
pub fn sample_set_from_raws(object_size: u64, fetch_size: u64, raws: &Vec<(u64, u64)>) -> (samples:
    Vec<(u64, u64)>)
    requires
        object_size >= 2,
        fetch_size >= 1,
    ensures
        samples@ == spec_sample_set(object_size, fetch_size, raws@),
        samples@.len() == raws@.len(),
        forall|i: int|
            0 <= i < samples@.len() ==> pair_valid(object_size, fetch_size, #[trigger] samples@[i]),
{
    let mut samples: Vec<(u64, u64)> = Vec::new();
    let mut j: usize = 0;
    while j < raws.len()
        invariant
            object_size >= 2,
            fetch_size >= 1,
            j <= raws@.len(),
            samples@ == spec_sample_set(object_size, fetch_size, raws@.take(j as int)),
            forall|i: int|
                0 <= i < samples@.len() ==> pair_valid(
                    object_size,
                    fetch_size,
                    #[trigger] samples@[i],
                ),
        decreases raws@.len() - j,
    {
        let (raw_offset, raw_length) = raws[j];
        let p = sample_pair(object_size, fetch_size, raw_offset, raw_length);
        samples.push(p);
        j = j + 1;
        proof {
            assert(raws@.take(j as int).drop_last() =~= raws@.take(j - 1));
            assert(samples@ =~= spec_sample_set(object_size, fetch_size, raws@.take(j as int)));
        }
    }
    proof {
        assert(raws@.take(raws@.len() as int) =~= raws@);
    }
    samples
}

/// Draw `n_positions` read descriptors from the generator: for each, one
/// draw for the offset and one for the length, reduced and clamped as
/// `spec_sample_pair` says.  The draws are random, so only validity of
/// every pair is promised.
pub fn sample_positions(
    rng: &mut rand::rngs::StdRng,
    object_size: u64,
    fetch_size: u64,
    n_positions: usize,
) -> (samples: Vec<(u64, u64)>)
    requires
        object_size >= 2,
        fetch_size >= 1,
    ensures
        samples@.len() == n_positions,
        forall|i: int|
            0 <= i < samples@.len() ==> pair_valid(object_size, fetch_size, #[trigger] samples@[i]),
{
    let mut samples: Vec<(u64, u64)> = Vec::new();
    let mut j: usize = 0;
    while j < n_positions
        invariant
            object_size >= 2,
            fetch_size >= 1,
            j <= n_positions,
            samples@.len() == j,
            forall|i: int|
                0 <= i < samples@.len() ==> pair_valid(
                    object_size,
                    fetch_size,
                    #[trigger] samples@[i],
                ),
        decreases n_positions - j,
    {
        let raw_offset = rng::next_u64(rng);
        let raw_length = rng::next_u64(rng);
        let p = sample_pair(object_size, fetch_size, raw_offset, raw_length);
        samples.push(p);
        j = j + 1;
    }
    samples
}

/// Sampling is deterministic in its inputs: equal draw sequences give equal
/// sample sets, whatever the bounds.
pub proof fn lemma_sampling_deterministic(
    object_size: u64,
    fetch_size: u64,
    raws1: Seq<(u64, u64)>,
    raws2: Seq<(u64, u64)>,
)
    requires
        raws1 == raws2,
    ensures
        spec_sample_set(object_size, fetch_size, raws1) == spec_sample_set(
            object_size,
            fetch_size,
            raws2,
        ),
{
}

} // verus!
