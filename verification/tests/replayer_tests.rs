use scientific_evaluation::replayer::{simulate_replay, ReplayOutcome, Replayer};

#[test]
fn reads_walk_the_sample_set_in_cyclic_order() {
    let samples: Vec<(u64, u64)> = vec![(0, 10), (100, 20), (200, 30)];
    // pause 2 s, budget 9 s: 9 / 2 + 1 = 5 cycles
    let outcomes = vec![true; 5];
    let (trace, outcome) = simulate_replay(&samples, &outcomes, 9, 2);
    assert_eq!(trace, vec![0, 1, 2, 0, 1]);
    assert_eq!(outcome, ReplayOutcome::Completed);
}

#[test]
fn cycle_count_stays_within_the_budget_bounds() {
    // budget 10 s, pause 3 s: floor(10/3) = 3, ceil(10/3) = 4
    let samples: Vec<(u64, u64)> = vec![(0, 1)];
    let outcomes = vec![true; 8];
    let (trace, outcome) = simulate_replay(&samples, &outcomes, 10, 3);
    assert_eq!(outcome, ReplayOutcome::Completed);
    assert_eq!(trace.len(), 4);
    assert!(3 <= trace.len() && trace.len() <= 4 + 1);
}

#[test]
fn zero_budget_still_runs_one_cycle() {
    let samples: Vec<(u64, u64)> = vec![(50, 5), (60, 6)];
    let outcomes = vec![true];
    let (trace, outcome) = simulate_replay(&samples, &outcomes, 0, 1);
    assert_eq!(trace, vec![0]);
    assert_eq!(outcome, ReplayOutcome::Completed);
}

#[test]
fn zero_length_sample_replays_without_error() {
    let samples: Vec<(u64, u64)> = vec![(5, 0)];
    let outcomes = vec![true; 3];
    let (trace, outcome) = simulate_replay(&samples, &outcomes, 2, 1);
    assert_eq!(outcome, ReplayOutcome::Completed);
    assert_eq!(trace, vec![0, 0, 0]);
}

#[test]
fn read_failure_aborts_with_no_further_reads() {
    let samples: Vec<(u64, u64)> = vec![(0, 1), (1, 1), (2, 1), (3, 1)];
    // the read of sample index 2 fails
    let outcomes = vec![true, true, false, true, true, true, true, true, true];
    let (trace, outcome) = simulate_replay(&samples, &outcomes, 7, 1);
    assert_eq!(outcome, ReplayOutcome::AbortedRead);
    assert_eq!(trace, vec![0, 1, 2]);
}

#[test]
fn replayer_cursor_wraps_past_the_last_sample() {
    let mut rep = Replayer::new(3, 100);
    let mut seen = Vec::new();
    for _ in 0..7 {
        seen.push(rep.current_index());
        rep.advance();
    }
    assert_eq!(seen, vec![0, 1, 2, 0, 1, 2, 0]);
}

#[test]
fn should_stop_only_once_the_budget_is_exceeded() {
    let rep = Replayer::new(1, 4);
    assert!(!rep.should_stop(0));
    assert!(!rep.should_stop(4));
    assert!(rep.should_stop(5));
}
