//! The benchmark orchestrator: passes over bindings, sample recording,
//! cancellation, and the bandwidth figure each run yields.
//!
//! The set and order of bindings is fixed when the benchmark is created and
//! never changes; every completed pass holds exactly one sample per binding,
//! in that order, so sample `i` of every pass belongs to the same binding.
//! Cancellation stops the whole benchmark at the next checkpoint between
//! runs; a cancelled benchmark discards its pass in progress and is never
//! aggregated.

use crate::aggregate::{
    rank_descending, sorted_descending, trimmed_mean, trimmed_score,
};
use vstd::prelude::*;

verus! {

/// One candidate source binding: a local address or an isolated network
/// name, with its configured comment.
#[derive(Debug)]
pub struct Target {
    pub network: String,
    pub comment: String,
}

/// What the benchmark loop must do next, as decided by `Benchmark::next_run`.
#[derive(Clone, Copy, Debug, PartialEq, Eq, Structural)]
pub enum BenchStep {
    /// Launch the given pass and binding (both zero-based).
    Run { pass: usize, target: usize },
    /// Cancellation was observed: stop the benchmark, skip aggregation.
    Cancelled,
    /// Every pass is complete: the samples are ready for aggregation.
    Done,
}

/// The bandwidth of one run in KB/s: bytes transferred over elapsed
/// milliseconds.
pub open spec fn spec_bandwidth_kbps(bytes: int, elapsed_ms: int) -> int {
    (bytes * 1000) / (elapsed_ms * 1024)
}

/// Computes a run's bandwidth in KB/s from the bytes it transferred and the
/// wall-clock milliseconds it took.
pub fn bandwidth_kbps(bytes: u64, elapsed_ms: u64) -> (kbps: u64)
    requires
        elapsed_ms >= 1,
    ensures
        kbps == spec_bandwidth_kbps(bytes as int, elapsed_ms as int),
{
    let num = bytes as u128 * 1000;
    let den = elapsed_ms as u128 * 1024;
    let q = num / den;
    proof {
        assert(q <= bytes) by (nonlinear_arith)
            requires
                q == (bytes as u128 * 1000) / (elapsed_ms as u128 * 1024),
                elapsed_ms >= 1,
                bytes <= u64::MAX,
        ;
    }
    q as u64
}

/// How one run ended, for reporting. A run whose elapsed time reaches or
/// exceeds the timeout is an expected, successful timeout — the bounded
/// wait cut it short by design. A non-zero exit code or death by signal is
/// a failure; neither aborts the benchmark.
#[derive(Clone, Copy, Debug, PartialEq, Eq, Structural)]
pub enum RunOutcome {
    ExpectedTimeout,
    Success,
    Failed { code: i32 },
    KilledBySignal,
}

/// The outcome of a run from its elapsed time, the deadline, and the exit
/// code the process reported (`None` when a signal ended it).
pub open spec fn spec_classify_run(elapsed_ms: int, timeout_ms: int, exit_code: Option<i32>) -> RunOutcome {
    if elapsed_ms >= timeout_ms {
        RunOutcome::ExpectedTimeout
    } else {
        match exit_code {
            Some(code) => if code == 0 {
                RunOutcome::Success
            } else {
                RunOutcome::Failed { code }
            },
            None => RunOutcome::KilledBySignal,
        }
    }
}

/// Classifies how one run ended.
pub fn classify_run(elapsed_ms: u64, timeout_ms: u64, exit_code: Option<i32>) -> (o: RunOutcome)
    ensures
        o == spec_classify_run(elapsed_ms as int, timeout_ms as int, exit_code),
{
    if elapsed_ms >= timeout_ms {
        RunOutcome::ExpectedTimeout
    } else {
        match exit_code {
            Some(code) => if code == 0 {
                RunOutcome::Success
            } else {
                RunOutcome::Failed { code }
            },
            None => RunOutcome::KilledBySignal,
        }
    }
}

/// The benchmark's state: the fixed shape of the run (bindings × passes),
/// the samples of every completed pass, the pass in progress, and whether
/// cancellation has been observed.
pub struct Benchmark {
    num_targets: usize,
    pass_count: usize,
    completed: Vec<Vec<u64>>,
    current: Vec<u64>,
    cancelled: bool,
}

impl Benchmark {
    /// How many bindings each pass measures.
    pub closed spec fn spec_num_targets(&self) -> int {
        self.num_targets as int
    }

    /// How many passes the benchmark makes in all.
    pub closed spec fn spec_pass_count(&self) -> int {
        self.pass_count as int
    }

    /// The samples of the completed passes: one row per pass, one sample per
    /// binding, in binding order.
    pub closed spec fn passes(&self) -> Seq<Seq<u64>> {
        self.completed@.map_values(|row: Vec<u64>| row@)
    }

    /// The samples of the pass in progress.
    pub closed spec fn partial_pass(&self) -> Seq<u64> {
        self.current@
    }

    /// Whether cancellation has been observed at a checkpoint.
    pub closed spec fn is_cancelled(&self) -> bool {
        self.cancelled
    }

    /// Every benchmark value keeps this shape: at least one pass is asked
    /// for, every completed row holds one sample per binding, and the pass
    /// in progress is strictly shorter than a full row.
    pub closed spec fn wf(&self) -> bool {
        &&& self.pass_count >= 1
        &&& self.completed@.len() <= self.pass_count
        &&& forall|p: int|
            0 <= p < self.completed@.len() ==> (#[trigger] self.completed@[p])@.len()
                == self.num_targets
        &&& self.current@.len() < self.num_targets || (self.current@.len() == 0 && self.num_targets
            == 0)
        &&& self.num_targets == 0 ==> self.completed@.len() == self.pass_count
    }

    /// All passes are complete and cancellation never struck: only then may
    /// the samples be aggregated.
    pub open spec fn complete(&self) -> bool {
        &&& !self.is_cancelled()
        &&& self.passes().len() == self.spec_pass_count()
    }

    /// The samples of binding `t` across all completed passes, in pass
    /// order.
    pub open spec fn column(&self, t: int) -> Seq<u64> {
        Seq::new(self.passes().len() as nat, |p: int| self.passes()[p][t])
    }

    /// A fresh benchmark over `num_targets` bindings and `pass_count`
    /// passes. A benchmark over no bindings is trivially complete.
    pub fn new(num_targets: usize, pass_count: usize) -> (b: Benchmark)
        requires
            pass_count >= 1,
        ensures
            b.wf(),
            b.spec_num_targets() == num_targets,
            b.spec_pass_count() == pass_count,
            !b.is_cancelled(),
            num_targets > 0 ==> b.passes() == Seq::<Seq<u64>>::empty(),
            num_targets == 0 ==> b.complete(),
            b.partial_pass() == Seq::<u64>::empty(),
    {
        let mut completed: Vec<Vec<u64>> = Vec::new();
        if num_targets == 0 {
            // Zero bindings: every pass is an empty row, complete from the
            // start.
            let mut p: usize = 0;
            while p < pass_count
                invariant
                    0 <= p <= pass_count,
                    completed@.len() == p,
                    forall|q: int| 0 <= q < p ==> (#[trigger] completed@[q])@.len() == 0,
                decreases pass_count - p,
            {
                completed.push(Vec::new());
                p = p + 1;
            }
        }
        Benchmark {
            num_targets,
            pass_count,
            completed,
            current: Vec::new(),
            cancelled: false,
        }
    }

    /// The checkpoint before each run. Cancellation observed here stops the
    /// benchmark for good; otherwise the next (pass, binding) pair is
    /// announced in declared order, or `Done` once every pass is complete.
    pub fn next_run(&mut self, cancel: bool) -> (step: BenchStep)
        requires
            old(self).wf(),
        ensures
            final(self).wf(),
            final(self).spec_num_targets() == old(self).spec_num_targets(),
            final(self).spec_pass_count() == old(self).spec_pass_count(),
            final(self).passes() == old(self).passes(),
            final(self).partial_pass() == old(self).partial_pass(),
            old(self).is_cancelled() ==> step == BenchStep::Cancelled && *final(self) == *old(
                self),
            !old(self).is_cancelled() && old(self).complete() ==> step == BenchStep::Done && *final(
                self) == *old(self),
            !old(self).is_cancelled() && !old(self).complete() && cancel ==> step
                == BenchStep::Cancelled && final(self).is_cancelled(),
            !old(self).is_cancelled() && !old(self).complete() && !cancel ==> step
                == (BenchStep::Run {
                pass: old(self).passes().len() as usize,
                target: old(self).partial_pass().len() as usize,
            }) && *final(self) == *old(self),
    {
        if self.cancelled {
            return BenchStep::Cancelled;
        }
        if self.completed.len() == self.pass_count {
            return BenchStep::Done;
        }
        if cancel {
            self.cancelled = true;
            return BenchStep::Cancelled;
        }
        BenchStep::Run { pass: self.completed.len(), target: self.current.len() }
    }

    /// Records the bandwidth sample of the run just finished. When the
    /// sample completes a row, the row joins the completed passes.
    pub fn record(&mut self, kbps: u64)
        requires
            old(self).wf(),
            !old(self).is_cancelled(),
            !old(self).complete(),
            old(self).spec_num_targets() > 0,
        ensures
            final(self).wf(),
            final(self).spec_num_targets() == old(self).spec_num_targets(),
            final(self).spec_pass_count() == old(self).spec_pass_count(),
            !final(self).is_cancelled(),
            old(self).partial_pass().len() + 1 < old(self).spec_num_targets() ==> final(
                self).partial_pass() == old(self).partial_pass().push(kbps) && final(self).passes()
                == old(self).passes(),
            old(self).partial_pass().len() + 1 == old(self).spec_num_targets() ==> final(
                self).partial_pass() == Seq::<u64>::empty() && final(self).passes() == old(
                self).passes().push(old(self).partial_pass().push(kbps)),
    {
        self.current.push(kbps);
        if self.current.len() == self.num_targets {
            let mut row: Vec<u64> = Vec::new();
            core::mem::swap(&mut row, &mut self.current);
            let ghost before = self.completed@;
            self.completed.push(row);
            proof {
                assert(self.completed@.map_values(|r: Vec<u64>| r@) =~= before.map_values(
                    |r: Vec<u64>| r@,
                ).push(row@));
            }
        }
    }

    /// The aggregated, ranked result of a complete benchmark: one score per
    /// binding — the trimmed mean of its samples across all passes — ordered
    /// by score, highest first. Each entry is the binding's index paired
    /// with its score.
    pub fn ranked_results(&self) -> (ranked: Vec<(usize, u64)>)
        requires
            self.wf(),
            self.complete(),
        ensures
            sorted_descending(ranked@),
            ranked@.len() == self.spec_num_targets(),
            ranked@.to_multiset() == Seq::new(
                self.spec_num_targets() as nat,
                |t: int| (t as usize, trimmed_score(self.column(t)) as u64),
            ).to_multiset(),
    {
        let mut scores: Vec<(usize, u64)> = Vec::new();
        let mut t: usize = 0;
        while t < self.num_targets
            invariant
                self.wf(),
                self.complete(),
                0 <= t <= self.num_targets,
                scores@ =~= Seq::new(
                    t as nat,
                    |i: int| (i as usize, trimmed_score(self.column(i)) as u64),
                ),
            decreases self.num_targets - t,
        {
            let mut column: Vec<u64> = Vec::new();
            let mut p: usize = 0;
            while p < self.completed.len()
                invariant
                    self.wf(),
                    self.complete(),
                    0 <= t < self.num_targets,
                    0 <= p <= self.completed@.len(),
                    column@ =~= self.column(t as int).subrange(0, p as int),
                decreases self.completed@.len() - p,
            {
                proof {
                    assert((#[trigger] self.completed@[p as int])@.len() == self.num_targets);
                    assert(self.column(t as int).subrange(0, p + 1) =~= self.column(
                        t as int,
                    ).subrange(0, p as int).push(self.passes()[p as int][t as int]));
                }
                column.push(self.completed[p][t]);
                p = p + 1;
            }
            proof {
                assert(column@ =~= self.column(t as int));
            }
            let score = trimmed_mean(&column);
            scores.push((t, score));
            proof {
                assert(scores@ =~= Seq::new(
                    (t + 1) as nat,
                    |i: int| (i as usize, trimmed_score(self.column(i)) as u64),
                ));
            }
            t = t + 1;
        }
        proof {
            assert(scores@ =~= Seq::new(
                self.spec_num_targets() as nat,
                |i: int| (i as usize, trimmed_score(self.column(i)) as u64),
            ));
        }
        rank_descending(scores)
    }
}

/// Every completed pass holds exactly one sample per binding, in binding
/// order, so sample `t` of every pass belongs to the same binding: the
/// benchmark's shape never drifts.
pub proof fn lemma_one_sample_per_binding(b: Benchmark)
    requires
        b.wf(),
    ensures
        forall|p: int|
            0 <= p < b.passes().len() ==> (#[trigger] b.passes()[p]).len()
                == b.spec_num_targets(),
{
}

/// Cancellation halts the benchmark for good: from a cancelled state no step
/// ever reaches `complete()`, so the aggregation — whose precondition is
/// `complete()` — can never run over a benchmark whose pass in progress was
/// discarded.
pub proof fn lemma_cancelled_never_aggregates(b: Benchmark)
    requires
        b.is_cancelled(),
    ensures
        !b.complete(),
{
}

} // verus!
