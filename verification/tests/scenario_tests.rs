use scientific_evaluation::rng::rng_from_seed;
use scientific_evaluation::sampler::sample_positions;
use scientific_evaluation::writer::{chunk_plan, random_chunk};

#[test]
fn small_run_writes_four_chunks_and_samples_four_valid_pairs() {
    let object_size: u64 = 1024;
    let fetch_size: u64 = 100;
    let chunk_size: u64 = 256;
    let n_positions: usize = 4;

    let mut rng = rng_from_seed(1);

    // write phase: exactly four chunk writes, 1024 bytes in all
    let plan = chunk_plan(object_size, chunk_size);
    assert_eq!(plan.len(), 4);
    let mut written: u64 = 0;
    for &len in &plan {
        let chunk = random_chunk(&mut rng, len as usize);
        assert_eq!(chunk.len() as u64, len);
        written += chunk.len() as u64;
    }
    assert_eq!(written, object_size);

    // sampling phase: four pairs, each fully inside the written object
    let samples = sample_positions(&mut rng, object_size, fetch_size, n_positions);
    assert_eq!(samples.len(), 4);
    for &(offset, length) in &samples {
        assert!(offset < object_size - 1);
        assert!(length <= fetch_size.min(object_size - offset));
    }
}
