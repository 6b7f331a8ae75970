use vstd::prelude::*;
use crate::outcome::{Outcome, successes, failures, lemma_every_outcome_counted};

verus! {

pub const MILLIS_PER_SECOND: u64 = 1000;

/// Cumulative counts taken when a new whole second of elapsed time is crossed.
#[derive(Clone, Copy, Debug, PartialEq, Eq, Structural)]
pub struct Snapshot {
    pub success_count: u64,
    pub failure_count: u64,
    pub elapsed_seconds: u64,
}

/// The aggregator's running state: counts of outcomes consumed so far and the
/// last whole second for which a snapshot was emitted.
#[derive(Clone, Copy, Debug, PartialEq, Eq, Structural)]
pub struct RunningTally {
    pub success_count: u64,
    pub failure_count: u64,
    pub last_reported_second: u64,
}

/// The whole second in which an event at `elapsed_ms` milliseconds falls.
pub open spec fn second_of(elapsed_ms: u64) -> nat {
    (elapsed_ms / MILLIS_PER_SECOND) as nat
}

/// The outcomes of a sequence of timed events, in consumption order.
pub open spec fn outcomes_of(events: Seq<(Outcome, u64)>) -> Seq<Outcome> {
    events.map_values(|e: (Outcome, u64)| e.0)
}

/// The highest whole second reached by any event, or 0 when there is none.
pub open spec fn reported_through(events: Seq<(Outcome, u64)>) -> nat
    decreases events.len(),
{
    if events.len() == 0 {
        0
    } else {
        let before = reported_through(events.drop_last());
        let s = second_of(events.last().1);
        if s > before {
            s
        } else {
            before
        }
    }
}

/// The snapshots emitted while consuming `events` from a fresh tally: one
/// for each event whose second lies beyond every earlier event's second,
/// carrying the counts up to and including that event.
pub open spec fn snapshots_of(events: Seq<(Outcome, u64)>) -> Seq<Snapshot>
    decreases events.len(),
{
    if events.len() == 0 {
        seq![]
    } else {
        let before = events.drop_last();
        let s = second_of(events.last().1);
        if s > reported_through(before) {
            snapshots_of(before).push(
                Snapshot {
                    success_count: successes(outcomes_of(events)) as u64,
                    failure_count: failures(outcomes_of(events)) as u64,
                    elapsed_seconds: s as u64,
                },
            )
        } else {
            snapshots_of(before)
        }
    }
}

impl RunningTally {
    /// A tally with nothing consumed and nothing reported.
    pub fn new() -> (r: RunningTally)
        ensures
            r.success_count == 0,
            r.failure_count == 0,
            r.last_reported_second == 0,
    {
        RunningTally { success_count: 0, failure_count: 0, last_reported_second: 0 }
    }

    /// Whether one more outcome can be counted without overflowing the total.
    pub fn can_record(&self) -> (r: bool)
        ensures
            r <==> self.success_count + self.failure_count < u64::MAX,
    {
        self.success_count < u64::MAX - self.failure_count
    }

    /// Consumes one outcome observed `elapsed_ms` milliseconds after start.
    /// Returns a snapshot exactly when the event's whole second lies beyond
    /// the last one reported.
    pub fn record(&mut self, outcome: Outcome, elapsed_ms: u64) -> (r: Option<Snapshot>)
        requires
            old(self).success_count + old(self).failure_count < u64::MAX,
        ensures
            final(self).success_count == old(self).success_count + if outcome is Success {
                1int
            } else {
                0int
            },
            final(self).failure_count == old(self).failure_count + if outcome is Success {
                0int
            } else {
                1int
            },
            second_of(elapsed_ms) > old(self).last_reported_second ==> {
                &&& final(self).last_reported_second == second_of(elapsed_ms)
                &&& r == Some(
                    Snapshot {
                        success_count: final(self).success_count,
                        failure_count: final(self).failure_count,
                        elapsed_seconds: final(self).last_reported_second,
                    },
                )
            },
            second_of(elapsed_ms) <= old(self).last_reported_second ==> {
                &&& final(self).last_reported_second == old(self).last_reported_second
                &&& r is None
            },
            r matches Some(s) ==> {
                &&& 1 <= s.elapsed_seconds
                &&& s.elapsed_seconds * MILLIS_PER_SECOND <= elapsed_ms
                &&& elapsed_ms < (s.elapsed_seconds + 1) * MILLIS_PER_SECOND
            },
    {
        match outcome {
            Outcome::Success => self.success_count = self.success_count + 1,
            Outcome::Failure(_) => self.failure_count = self.failure_count + 1,
        }
        let current_second = elapsed_ms / MILLIS_PER_SECOND;
        if current_second > self.last_reported_second {
            self.last_reported_second = current_second;
            Some(
                Snapshot {
                    success_count: self.success_count,
                    failure_count: self.failure_count,
                    elapsed_seconds: current_second,
                },
            )
        } else {
            None
        }
    }
}

/// Consumes `events` in order from a fresh tally, each an outcome with the
/// milliseconds elapsed when it was dequeued. Returns the final tally and
/// every snapshot emitted, in emission order.
pub fn aggregate(events: &[(Outcome, u64)]) -> (r: (RunningTally, Vec<Snapshot>))
    ensures
        r.0.success_count == successes(outcomes_of(events@)),
        r.0.failure_count == failures(outcomes_of(events@)),
        r.0.success_count + r.0.failure_count == events@.len(),
        r.0.last_reported_second == reported_through(events@),
        r.1@ == snapshots_of(events@),
{
    let mut tally = RunningTally::new();
    let mut emitted: Vec<Snapshot> = Vec::new();
    let n = events.len();
    for i in 0..n
        invariant
            n == events@.len(),
            tally.success_count == successes(outcomes_of(events@.take(i as int))),
            tally.failure_count == failures(outcomes_of(events@.take(i as int))),
            tally.success_count + tally.failure_count == i,
            tally.last_reported_second == reported_through(events@.take(i as int)),
            emitted@ == snapshots_of(events@.take(i as int)),
    {
        let (outcome, elapsed_ms) = events[i];
        let ghost prefix = events@.take(i as int);
        let ghost next = events@.take(i + 1);
        proof {
            assert(next.drop_last() =~= prefix);
            assert(outcomes_of(next).drop_last() =~= outcomes_of(prefix));
            assert(next.last() == (outcome, elapsed_ms));
        }
        let snap = tally.record(outcome, elapsed_ms);
        if let Some(s) = snap {
            emitted.push(s);
        }
    }
    proof {
        assert(events@.take(n as int) =~= events@);
    }
    (tally, emitted)
}

/// Facts on one step of a run: the last event's counts extend those of the
/// events before it.
proof fn lemma_run_step(events: Seq<(Outcome, u64)>)
    requires
        0 < events.len() <= u64::MAX,
    ensures
        successes(outcomes_of(events.drop_last())) <= successes(outcomes_of(events)),
        failures(outcomes_of(events.drop_last())) <= failures(outcomes_of(events)),
        successes(outcomes_of(events)) + failures(outcomes_of(events)) == events.len(),
        reported_through(events.drop_last()) <= reported_through(events),
{
    assert(outcomes_of(events).drop_last() =~= outcomes_of(events.drop_last()));
    lemma_every_outcome_counted(outcomes_of(events));
}

/// Every snapshot of a run names a second in `1..=reported_through(events)`
/// and counts no more than the whole run holds.
proof fn lemma_snapshots_within_run(events: Seq<(Outcome, u64)>)
    requires
        events.len() <= u64::MAX,
    ensures
        forall|i: int|
            0 <= i < snapshots_of(events).len() ==> {
                let s = #[trigger] snapshots_of(events)[i];
                &&& 1 <= s.elapsed_seconds <= reported_through(events)
                &&& s.success_count <= successes(outcomes_of(events))
                &&& s.failure_count <= failures(outcomes_of(events))
            },
    decreases events.len(),
{
    if events.len() > 0 {
        let before = events.drop_last();
        lemma_snapshots_within_run(before);
        lemma_run_step(events);
        let prev = snapshots_of(before);
        let all = snapshots_of(events);
        assert forall|i: int| 0 <= i < all.len() implies {
            let s = #[trigger] all[i];
            &&& 1 <= s.elapsed_seconds <= reported_through(events)
            &&& s.success_count <= successes(outcomes_of(events))
            &&& s.failure_count <= failures(outcomes_of(events))
        } by {
            if i < prev.len() {
                assert(all[i] == prev[i]);
            }
        }
    }
}

/// Snapshots are emitted in strictly increasing order of elapsed seconds.
pub proof fn lemma_snapshot_seconds_strictly_increase(events: Seq<(Outcome, u64)>)
    requires
        events.len() <= u64::MAX,
    ensures
        forall|i: int, j: int|
            0 <= i < j < snapshots_of(events).len() ==> #[trigger] snapshots_of(events)[i].elapsed_seconds
                < #[trigger] snapshots_of(events)[j].elapsed_seconds,
    decreases events.len(),
{
    if events.len() > 0 {
        let before = events.drop_last();
        lemma_snapshot_seconds_strictly_increase(before);
        lemma_snapshots_within_run(before);
        lemma_run_step(events);
        let prev = snapshots_of(before);
        let all = snapshots_of(events);
        assert forall|i: int, j: int| 0 <= i < j < all.len() implies #[trigger] all[i].elapsed_seconds
            < #[trigger] all[j].elapsed_seconds by {
            assert(all[i] == prev[i]);
            if j < prev.len() {
                assert(all[j] == prev[j]);
            }
        }
    }
}

/// The success and failure counts of later snapshots are never smaller than
/// those of earlier ones.
pub proof fn lemma_snapshot_counts_never_decrease(events: Seq<(Outcome, u64)>)
    requires
        events.len() <= u64::MAX,
    ensures
        forall|i: int, j: int|
            0 <= i < j < snapshots_of(events).len() ==> {
                &&& #[trigger] snapshots_of(events)[i].success_count <= #[trigger] snapshots_of(
                    events,
                )[j].success_count
                &&& snapshots_of(events)[i].failure_count <= snapshots_of(events)[j].failure_count
            },
    decreases events.len(),
{
    if events.len() > 0 {
        let before = events.drop_last();
        lemma_snapshot_counts_never_decrease(before);
        lemma_snapshots_within_run(before);
        lemma_run_step(events);
        let prev = snapshots_of(before);
        let all = snapshots_of(events);
        assert forall|i: int, j: int| 0 <= i < j < all.len() implies {
            &&& #[trigger] all[i].success_count <= #[trigger] all[j].success_count
            &&& all[i].failure_count <= all[j].failure_count
        } by {
            assert(all[i] == prev[i]);
            if j < prev.len() {
                assert(all[j] == prev[j]);
            }
        }
    }
}

/// A second in which no event was consumed never appears in a snapshot.
pub proof fn lemma_quiet_second_never_reported(events: Seq<(Outcome, u64)>, k: nat)
    requires
        forall|j: int| 0 <= j < events.len() ==> second_of(#[trigger] events[j].1) != k,
    ensures
        forall|i: int|
            0 <= i < snapshots_of(events).len() ==> #[trigger] snapshots_of(events)[i].elapsed_seconds
                != k,
    decreases events.len(),
{
    if events.len() > 0 {
        let before = events.drop_last();
        assert forall|j: int| 0 <= j < before.len() implies second_of(#[trigger] before[j].1) != k by {
            assert(before[j] == events[j]);
        }
        lemma_quiet_second_never_reported(before, k);
        assert(events.last() == events[events.len() - 1]);
        let prev = snapshots_of(before);
        let all = snapshots_of(events);
        assert forall|i: int| 0 <= i < all.len() implies #[trigger] all[i].elapsed_seconds != k by {
            if i < prev.len() {
                assert(all[i] == prev[i]);
            }
        }
    }
}

/// Number of events that worker `w` produced, where `producers[i]` is the
/// worker that produced the `i`-th consumed event.
pub open spec fn produced_by(producers: Seq<nat>, w: nat) -> nat
    decreases producers.len(),
{
    if producers.len() == 0 {
        0
    } else {
        produced_by(producers.drop_last(), w) + if producers.last() == w {
            1nat
        } else {
            0nat
        }
    }
}

/// Number of events produced by the workers numbered below `n`.
pub open spec fn produced_below(producers: Seq<nat>, n: nat) -> nat
    decreases producers.len(),
{
    if producers.len() == 0 {
        0
    } else {
        produced_below(producers.drop_last(), n) + if producers.last() < n {
            1nat
        } else {
            0nat
        }
    }
}

proof fn lemma_produced_below_step(producers: Seq<nat>, n: nat)
    ensures
        produced_below(producers, n + 1) == produced_below(producers, n) + produced_by(producers, n),
        produced_below(producers, 0) == 0,
    decreases producers.len(),
{
    if producers.len() > 0 {
        lemma_produced_below_step(producers.drop_last(), n);
    }
}

proof fn lemma_produced_below_all(producers: Seq<nat>, workers: nat)
    requires
        forall|i: int| 0 <= i < producers.len() ==> #[trigger] producers[i] < workers,
    ensures
        produced_below(producers, workers) == producers.len(),
    decreases producers.len(),
{
    if producers.len() > 0 {
        let before = producers.drop_last();
        assert forall|i: int| 0 <= i < before.len() implies #[trigger] before[i] < workers by {
            assert(before[i] == producers[i]);
        }
        lemma_produced_below_all(before, workers);
        assert(producers.last() == producers[producers.len() - 1]);
    }
}

proof fn lemma_produced_below_even(producers: Seq<nat>, n: nat, per_worker: nat)
    requires
        forall|w: nat| w < n ==> #[trigger] produced_by(producers, w) == per_worker,
    ensures
        produced_below(producers, n) == n * per_worker,
    decreases n,
{
    lemma_produced_below_step(producers, 0);
    if n == 0 {
        assert(n * per_worker == 0);
    } else {
        let m = (n - 1) as nat;
        lemma_produced_below_even(producers, m, per_worker);
        lemma_produced_below_step(producers, m);
        assert(produced_by(producers, m) == per_worker);
        assert(produced_below(producers, n) == produced_below(producers, m) + per_worker);
        assert(n * per_worker == m * per_worker + per_worker) by (nonlinear_arith)
            requires
                n == m + 1,
        ;
    }
}

/// However the events of `workers` producers interleave, when each producer
/// contributed exactly `per_worker` events the aggregator counts
/// `workers * per_worker` outcomes: none is lost and none is counted twice.
/// `producers[i]` names the producer of the `i`-th consumed event.
pub proof fn lemma_no_event_lost_or_duplicated(
    events: Seq<(Outcome, u64)>,
    producers: Seq<nat>,
    workers: nat,
    per_worker: nat,
)
    requires
        producers.len() == events.len(),
        forall|i: int| 0 <= i < producers.len() ==> #[trigger] producers[i] < workers,
        forall|w: nat| w < workers ==> #[trigger] produced_by(producers, w) == per_worker,
    ensures
        successes(outcomes_of(events)) + failures(outcomes_of(events)) == workers * per_worker,
{
    lemma_produced_below_all(producers, workers);
    lemma_produced_below_even(producers, workers, per_worker);
    lemma_every_outcome_counted(outcomes_of(events));
}

} // verus!
