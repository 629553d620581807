//! Completion aggregation: the single consumer that counts down worker
//! outcomes. Every outcome — finished or failed — counts toward completion,
//! so a run with a failing worker still terminates instead of hanging.

use vstd::prelude::*;
use crate::worker::IOOutcome;

verus! {

/// How many outcomes in `s` report a finished run.
pub open spec fn count_finished(s: Seq<IOOutcome>) -> int
    decreases s.len(),
{
    if s.len() == 0 {
        0
    } else {
        count_finished(s.drop_last()) + if s.last().status is Finished {
            1int
        } else {
            0int
        }
    }
}

/// The number of finished runs among some outcomes never exceeds the
/// number of outcomes.
pub proof fn lemma_count_finished_bounds(s: Seq<IOOutcome>)
    ensures
        0 <= count_finished(s) <= s.len(),
    decreases s.len(),
{
    if s.len() > 0 {
        lemma_count_finished_bounds(s.drop_last());
    }
}

/// The aggregator's state: how many workers the run started with, how many
/// outcomes are still outstanding, and how many of those received reported
/// a finished or a failed run.
#[derive(Clone, Copy, Debug, PartialEq, Eq, Structural)]
pub struct Aggregator {
    pub expected: u64,
    pub outstanding: u64,
    pub finished: u64,
    pub failed: u64,
}

impl Aggregator {
    /// The aggregator's invariant: every expected worker is accounted for,
    /// as finished, failed, or still outstanding.
    pub open spec fn wf(self) -> bool {
        self.finished + self.failed + self.outstanding == self.expected
    }

    /// The run is over once no outcome is outstanding.
    pub open spec fn spec_is_done(self) -> bool {
        self.outstanding == 0
    }

    /// Starts an aggregation expecting one outcome from each of `expected`
    /// workers.
    pub fn new(expected: u64) -> (a: Aggregator)
        ensures
            a.wf(),
            a.expected == expected,
            a.outstanding == expected,
            a.finished == 0,
            a.failed == 0,
    {
        Aggregator { expected, outstanding: expected, finished: 0, failed: 0 }
    }

    /// Whether every expected outcome has arrived.
    pub fn is_done(&self) -> (b: bool)
        ensures
            b == self.spec_is_done(),
    {
        self.outstanding == 0
    }

    /// Counts one worker's outcome: the outstanding count goes down by one
    /// whether the worker finished or failed, and the matching tally goes
    /// up by one. Returns whether that was the last outstanding outcome.
    pub fn record(&mut self, outcome: &IOOutcome) -> (done: bool)
        requires
            old(self).wf(),
            old(self).outstanding >= 1,
        ensures
            final(self).wf(),
            final(self).expected == old(self).expected,
            final(self).outstanding == old(self).outstanding - 1,
            outcome.status is Finished ==> final(self).finished == old(self).finished + 1
                && final(self).failed == old(self).failed,
            !(outcome.status is Finished) ==> final(self).failed == old(self).failed + 1
                && final(self).finished == old(self).finished,
            done == final(self).spec_is_done(),
    {
        self.outstanding = self.outstanding - 1;
        match outcome.status {
            crate::worker::IoStatus::Finished => {
                self.finished = self.finished + 1;
            },
            crate::worker::IoStatus::Failed(_) => {
                self.failed = self.failed + 1;
            },
        }
        self.outstanding == 0
    }

    /// Completion law: draining a batch of outcomes, in arrival order,
    /// counts one outcome per outstanding worker and stops as soon as the
    /// count reaches zero. With at least as many outcomes as outstanding
    /// workers the run terminates — failed workers counting toward
    /// completion exactly like finished ones — after consuming one outcome
    /// per worker. Returns how many outcomes were consumed.
    pub fn drain(&mut self, outcomes: &Vec<IOOutcome>) -> (n: usize)
        requires
            old(self).wf(),
        ensures
            final(self).wf(),
            final(self).expected == old(self).expected,
            n == (if old(self).outstanding <= outcomes@.len() {
                old(self).outstanding as int
            } else {
                outcomes@.len() as int
            }),
            final(self).outstanding == old(self).outstanding - n,
            final(self).finished == old(self).finished + count_finished(outcomes@.take(n as int)),
            final(self).failed + final(self).finished == old(self).failed + old(self).finished + n,
            old(self).outstanding <= outcomes@.len() ==> final(self).spec_is_done(),
    {
        let mut n: usize = 0;
        while n < outcomes.len() && self.outstanding > 0
            invariant
                self.wf(),
                self.expected == old(self).expected,
                0 <= n <= outcomes@.len(),
                n <= old(self).outstanding,
                self.outstanding == old(self).outstanding - n,
                self.finished == old(self).finished + count_finished(outcomes@.take(n as int)),
                self.failed + self.finished == old(self).failed + old(self).finished + n,
            decreases outcomes@.len() - n,
        {
            proof {
                lemma_count_finished_bounds(outcomes@.take(n as int));
                assert(outcomes@.take(n + 1).drop_last() == outcomes@.take(n as int));
                assert(outcomes@.take(n + 1).last() == outcomes@[n as int]);
            }
            self.record(&outcomes[n]);
            n = n + 1;
        }
        n
    }
}

} // verus!
