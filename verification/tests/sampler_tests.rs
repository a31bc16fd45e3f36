use scientific_evaluation::rng::{next_u64, rng_from_seed};
use scientific_evaluation::sampler::{sample_pair, sample_positions, sample_set_from_raws};

#[test]
fn sample_pair_reduces_offset_and_length() {
    // offset = 2047 % 1023 = 1, length = 250 % 100 = 50, no clamping needed
    let p = sample_pair(1024, 100, 2047, 250);
    assert_eq!(p, (1, 50));
}

#[test]
fn sample_pair_clamps_length_to_remaining_bytes() {
    // offset = 1020, reduced length = 99, but only 4 bytes remain
    let p = sample_pair(1024, 100, 1020, 99);
    assert_eq!(p, (1020, 4));
}

#[test]
fn sample_pair_allows_zero_length() {
    let p = sample_pair(1024, 100, 7, 300);
    assert_eq!(p, (7, 0));
}

#[test]
fn sampled_pairs_lie_inside_the_object() {
    let object_size: u64 = 1 << 20;
    let fetch_size: u64 = 4096;
    let mut rng = rng_from_seed(7);
    let samples = sample_positions(&mut rng, object_size, fetch_size, 128);
    assert_eq!(samples.len(), 128);
    for &(offset, length) in &samples {
        assert!(offset < object_size);
        assert!(offset + length <= object_size);
        assert!(length <= fetch_size);
    }
}

#[test]
fn sampling_is_deterministic_for_equal_draws() {
    let raws: Vec<(u64, u64)> = vec![(3, 9), (1000, 1000), (u64::MAX, u64::MAX), (0, 0)];
    let a = sample_set_from_raws(4096, 512, &raws);
    let b = sample_set_from_raws(4096, 512, &raws);
    assert_eq!(a, b);
}

#[test]
fn sampling_is_reproducible_under_a_fixed_seed() {
    let mut rng_a = rng_from_seed(42);
    let mut rng_b = rng_from_seed(42);
    let a = sample_positions(&mut rng_a, 1 << 30, 1 << 20, 64);
    let b = sample_positions(&mut rng_b, 1 << 30, 1 << 20, 64);
    assert_eq!(a, b);
}

#[test]
fn seeded_generators_replay_the_same_draws() {
    let mut rng_a = rng_from_seed(5);
    let mut rng_b = rng_from_seed(5);
    for _ in 0..16 {
        assert_eq!(next_u64(&mut rng_a), next_u64(&mut rng_b));
    }
}
