//! The replay phase: reads for the sampled pairs are issued in strict
//! round-robin order, with a fixed pause after each read, until the elapsed
//! time exceeds the runtime budget.  The first read failure aborts the run;
//! the elapsed-time check comes after each read-and-pause cycle, so the
//! budget may be overrun by at most one cycle.

use vstd::prelude::*;

verus! {

/// How a replay run ends: the time budget elapsed, or a read failed.
#[derive(Clone, Copy, Debug, PartialEq, Eq, Structural)]
pub enum ReplayOutcome {
    /// The elapsed time exceeded the budget after a full cycle.
    Completed,
    /// A read failed; the run aborted at once.
    AbortedRead,
}

/// The cursor of the replay loop: which read comes next, how many reads
/// were issued, and the runtime budget the loop is held to.
pub struct Replayer {
    /// How many samples the set holds; at least one.
    pub n_samples: usize,
    /// The sample index of the next read.
    pub next_index: usize,
    /// How many reads were issued so far.
    pub reads_issued: u64,
    /// The runtime budget in seconds.
    pub budget_secs: u64,
}

impl Replayer {
    /// Round-robin over a non-empty set: the next read's index is the count
    /// of reads issued so far, modulo the set's size.
    pub open spec fn wf(self) -> bool {
        &&& self.n_samples >= 1
        &&& self.next_index < self.n_samples
        &&& self.next_index as int == self.reads_issued as int % self.n_samples as int
    }

    /// A replayer at the start of the loop: no reads issued, the first
    /// sample up next.
    pub fn new(n_samples: usize, budget_secs: u64) -> (r: Replayer)
        requires
            n_samples >= 1,
        ensures
            r.wf(),
            r.n_samples == n_samples,
            r.budget_secs == budget_secs,
            r.reads_issued == 0,
            r.next_index == 0,
    {
        proof {
            assert(0int % (n_samples as int) == 0) by (nonlinear_arith)
                requires
                    n_samples >= 1,
            ;
        }
        Replayer { n_samples, next_index: 0, reads_issued: 0, budget_secs }
    }

    /// The sample index the next read uses: the i-th read issued uses index
    /// `i mod n_samples`.
    pub fn current_index(&self) -> (idx: usize)
        requires
            self.wf(),
        ensures
            idx < self.n_samples,
            idx as int == self.reads_issued as int % self.n_samples as int,
    {
        self.next_index
    }

    /// Record one issued read and step the cursor to the next sample,
    /// wrapping past the last back to the first.
    pub fn advance(&mut self)
        requires
            old(self).wf(),
            old(self).reads_issued < u64::MAX,
        ensures
            final(self).wf(),
            final(self).n_samples == old(self).n_samples,
            final(self).budget_secs == old(self).budget_secs,
            final(self).reads_issued == old(self).reads_issued + 1,
    {
        proof {
            lemma_mod_succ(self.reads_issued as int, self.n_samples as int);
        }
        if self.next_index + 1 == self.n_samples {
            self.next_index = 0;
        } else {
            self.next_index = self.next_index + 1;
        }
        self.reads_issued = self.reads_issued + 1;
    }

    /// The termination check made after each read-and-pause cycle: stop
    /// once the elapsed time exceeds the budget.
    pub fn should_stop(&self, elapsed_secs: u64) -> (stop: bool)
        ensures
            stop == (elapsed_secs > self.budget_secs),
    {
        elapsed_secs > self.budget_secs
    }
}

/// How many read-and-pause cycles a run of budget `budget_secs` performs
/// when no read fails and each cycle takes exactly `pause_secs`: the loop
/// body runs once, then again as long as the elapsed time has not passed
/// the budget.
pub open spec fn spec_planned_cycles(budget_secs: u64, pause_secs: u64) -> int
    recommends
        pause_secs >= 1,
{
    budget_secs as int / pause_secs as int + 1
}

/// The planned cycle count lies between `floor(budget/pause)` and
/// `ceil(budget/pause) + 1`: the loop never stops short of the budget and
/// overruns it by at most one cycle.
pub proof fn lemma_cycle_count_bounds(budget_secs: u64, pause_secs: u64)
    requires
        pause_secs >= 1,
    ensures
        budget_secs as int / pause_secs as int <= spec_planned_cycles(budget_secs, pause_secs),
        spec_planned_cycles(budget_secs, pause_secs) <= crate::spec_ceil_div(
            budget_secs as int,
            pause_secs as int,
        ) + 1,
{
    lemma_div_mono_num(budget_secs as int, budget_secs as int + pause_secs as int - 1,
        pause_secs as int);
}

/// Run the replay loop against a test double of the object: the i-th read
/// succeeds exactly when `outcomes[i]` holds, and each read-and-pause cycle
/// takes exactly `pause_secs` seconds.  Returns the trace of sample indices
/// read, in order, and how the run ended.  Reads walk the sample set round
/// robin; the first failed read aborts the run with no further reads; with
/// no failure the loop runs for exactly the planned number of cycles, at
/// least one.
pub fn simulate_replay(
    samples: &Vec<(u64, u64)>,
    outcomes: &Vec<bool>,
    budget_secs: u64,
    pause_secs: u64,
) -> (r: (Vec<usize>, ReplayOutcome))
    requires
        samples@.len() >= 1,
        pause_secs >= 1,
        budget_secs + pause_secs <= u64::MAX,
        outcomes@.len() >= spec_planned_cycles(budget_secs, pause_secs),
    ensures
        1 <= r.0@.len() <= spec_planned_cycles(budget_secs, pause_secs),
        forall|i: int| 0 <= i < r.0@.len() ==> #[trigger] r.0@[i] == i % (samples@.len() as int),
        (r.1 == ReplayOutcome::Completed) <==> (forall|j: int|
            0 <= j < spec_planned_cycles(budget_secs, pause_secs) ==> #[trigger] outcomes@[j]),
        r.1 == ReplayOutcome::Completed ==> r.0@.len() == spec_planned_cycles(
            budget_secs,
            pause_secs,
        ),
        r.1 == ReplayOutcome::AbortedRead ==> !outcomes@[r.0@.len() - 1] && (forall|j: int|
            0 <= j < r.0@.len() - 1 ==> #[trigger] outcomes@[j]),
{
    let k = samples.len();
    let n_outcomes = outcomes.len();
    let planned = budget_secs / pause_secs + 1;
    let mut trace: Vec<usize> = Vec::new();
    let mut rep = Replayer::new(k, budget_secs);
    let mut i: u64 = 0;
    proof {
        lemma_div_le_num(budget_secs as int, pause_secs as int);
    }
    loop
        invariant
            k == samples@.len(),
            k >= 1,
            pause_secs >= 1,
            budget_secs + pause_secs <= u64::MAX,
            planned == spec_planned_cycles(budget_secs, pause_secs),
            planned <= budget_secs + 1,
            n_outcomes == outcomes@.len(),
            outcomes@.len() >= planned,
            rep.wf(),
            rep.n_samples == k,
            rep.budget_secs == budget_secs,
            rep.reads_issued == i,
            i < planned,
            trace@.len() == i,
            forall|j: int| 0 <= j < i ==> #[trigger] trace@[j] == j % (k as int),
            forall|j: int| 0 <= j < i ==> #[trigger] outcomes@[j],
        decreases planned - i,
    {
        let idx = rep.current_index();
        trace.push(idx);
        if !outcomes[i as usize] {
            return (trace, ReplayOutcome::AbortedRead);
        }
        rep.advance();
        proof {
            lemma_mul_bounded_by_div(i as int + 1, pause_secs as int, budget_secs as int);
        }
        let elapsed = (i + 1) * pause_secs;
        i = i + 1;
        if rep.should_stop(elapsed) {
            proof {
                lemma_div_lt_of_mul_gt(i as int, pause_secs as int, budget_secs as int);
            }
            return (trace, ReplayOutcome::Completed);
        }
        proof {
            lemma_le_div_of_mul_le(i as int, pause_secs as int, budget_secs as int);
        }
    }
}

/// Stepping the dividend by one steps the remainder, wrapping at the
/// divisor.
proof fn lemma_mod_succ(r: int, n: int)
    requires
        r >= 0,
        n >= 1,
    ensures
        (r + 1) % n == if r % n + 1 == n {
            0int
        } else {
            r % n + 1
        },
{
    assert((r + 1) % n == if r % n + 1 == n {
        0int
    } else {
        r % n + 1
    }) by (nonlinear_arith)
        requires
            r >= 0,
            n >= 1,
    ;
}

/// Division by a positive divisor never grows the dividend.
proof fn lemma_div_le_num(b: int, p: int)
    requires
        b >= 0,
        p >= 1,
    ensures
        b / p <= b,
{
    assert(b / p <= b) by (nonlinear_arith)
        requires
            b >= 0,
            p >= 1,
    ;
}

/// Division is monotone in the dividend.
proof fn lemma_div_mono_num(a: int, b: int, p: int)
    requires
        0 <= a <= b,
        p >= 1,
    ensures
        a / p <= b / p,
{
    assert(a / p <= b / p) by (nonlinear_arith)
        requires
            0 <= a <= b,
            p >= 1,
    ;
}

/// A factor at most one past the quotient keeps the product within one
/// divisor of the dividend.
proof fn lemma_mul_bounded_by_div(c: int, p: int, b: int)
    requires
        p >= 1,
        b >= 0,
        1 <= c <= b / p + 1,
    ensures
        c * p <= b + p,
{
    assert(c * p <= b + p) by (nonlinear_arith)
        requires
            p >= 1,
            b >= 0,
            1 <= c <= b / p + 1,
    ;
}

/// A product above the dividend puts the factor above the quotient.
proof fn lemma_div_lt_of_mul_gt(c: int, p: int, b: int)
    requires
        p >= 1,
        b >= 0,
        c >= 0,
        c * p > b,
    ensures
        b / p < c,
{
    assert(b / p < c) by (nonlinear_arith)
        requires
            p >= 1,
            b >= 0,
            c >= 0,
            c * p > b,
    ;
}

/// A product within the dividend keeps the factor within the quotient.
proof fn lemma_le_div_of_mul_le(c: int, p: int, b: int)
    requires
        p >= 1,
        b >= 0,
        c >= 0,
        c * p <= b,
    ensures
        c <= b / p,
{
    assert(c <= b / p) by (nonlinear_arith)
        requires
            p >= 1,
            b >= 0,
            c >= 0,
            c * p <= b,
    ;
}

} // verus!
