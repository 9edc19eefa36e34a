//! The batch orchestrator's decisions: which fetch to launch next under the
//! concurrency bound, and how each terminal outcome is folded into the batch
//! state.
//!
//! The orchestrator is a state machine over plain values. The loop that owns
//! the network client drives it: it asks `next_launch` for an identifier
//! until no slot or no identifier is left, performs one fetch per granted
//! identifier, and hands every terminal outcome back through `complete`.
//! Every submitted identifier is accounted for exactly once: launches plus
//! in-flight fetches plus recorded outcomes always add up to the batch size.

use vstd::prelude::*;
use crate::batch::{is_dedup_merge, BatchState};
use crate::limiter::ConcurrencyLimiter;
use crate::outcome::{absorbed_records, counts_as_failure, counts_as_success, Outcome};
use crate::report::ResearchReport;

verus! {

/// One batch run: the identifiers not yet launched, the concurrency limiter,
/// and the accumulating batch state.
pub struct BatchRun {
    pub pending: Vec<usize>,
    pub limiter: ConcurrencyLimiter,
    pub state: BatchState,
}

impl BatchRun {
    /// Every identifier is in exactly one place: not yet launched, in flight,
    /// or recorded as a terminal outcome.
    pub open spec fn wf(self) -> bool {
        &&& self.limiter.wf()
        &&& self.state.wf()
        &&& self.state.total == self.pending@.len() + self.limiter.in_flight
            + self.state.history@.len()
    }

    /// A fresh run over the given identifiers with the given concurrency
    /// bound.
    pub fn new(ids: Vec<usize>, bound: usize) -> (run: BatchRun)
        requires
            bound >= 1,
        ensures
            run.wf(),
            run.pending@ == ids@,
            run.limiter.bound == bound,
            run.limiter.in_flight == 0,
            run.state.total == ids@.len(),
            run.state.history@ == Seq::<Outcome>::empty(),
    {
        let total = ids.len();
        BatchRun { pending: ids, limiter: ConcurrencyLimiter::new(bound), state: BatchState::new(total) }
    }

    /// Decides whether one more fetch starts now: grants a slot and hands out
    /// the next identifier exactly when an identifier is pending and the
    /// bound admits another fetch.
    pub fn next_launch(&mut self) -> (launch: Option<usize>)
        requires
            old(self).wf(),
        ensures
            final(self).wf(),
            final(self).state == old(self).state,
            final(self).limiter.bound == old(self).limiter.bound,
            launch is Some <==> (old(self).pending@.len() > 0 && old(self).limiter.in_flight
                < old(self).limiter.bound),
            launch matches Some(id) ==> id == old(self).pending@.last() && final(self).pending@
                == old(self).pending@.drop_last() && final(self).limiter.in_flight == old(
                self,
            ).limiter.in_flight + 1,
            launch is None ==> final(self).pending@ == old(self).pending@
                && final(self).limiter.in_flight == old(self).limiter.in_flight,
    {
        if self.pending.len() == 0 {
            return None;
        }
        if !self.limiter.try_acquire() {
            return None;
        }
        let id = self.pending.pop().unwrap();
        Some(id)
    }

    /// Folds one terminal outcome into the batch: the fetch's slot is freed
    /// and exactly one counter advances.
    pub fn complete(&mut self, outcome: Outcome)
        requires
            old(self).wf(),
            old(self).limiter.in_flight >= 1,
        ensures
            final(self).wf(),
            final(self).pending@ == old(self).pending@,
            final(self).limiter.bound == old(self).limiter.bound,
            final(self).limiter.in_flight == old(self).limiter.in_flight - 1,
            final(self).state.total == old(self).state.total,
            final(self).state.history@ == old(self).state.history@.push(outcome),
            final(self).state.success_count == old(self).state.success_count + if counts_as_success(
                outcome,
            ) {
                1int
            } else {
                0int
            },
            final(self).state.failure_count == old(self).state.failure_count + if counts_as_failure(
                outcome,
            ) {
                1int
            } else {
                0int
            },
    {
        self.limiter.release();
        self.state.record_outcome(outcome);
    }

    /// Whether every identifier has reached its terminal outcome.
    pub fn is_complete(&self) -> (done: bool)
        requires
            self.wf(),
        ensures
            done == (self.pending@.len() == 0 && self.limiter.in_flight == 0),
            done ==> self.state.history@.len() == self.state.total,
    {
        self.pending.len() == 0 && self.limiter.in_flight == 0
    }

    /// Merges the collected records once the run is complete.
    pub fn finish(self) -> (merged: Vec<ResearchReport>)
        requires
            self.wf(),
            self.pending@.len() == 0,
            self.limiter.in_flight == 0,
        ensures
            is_dedup_merge(absorbed_records(self.state.history@), merged@),
    {
        self.state.finalize()
    }
}

/// Every identifier produces exactly one terminal outcome: once nothing is
/// pending and nothing is in flight, the recorded history covers the batch
/// exactly — no double counting and no missed identifier.
pub proof fn lemma_every_identifier_accounted(run: BatchRun)
    requires
        run.wf(),
        run.pending@.len() == 0,
        run.limiter.in_flight == 0,
    ensures
        run.state.history@.len() == run.state.total,
{
}

} // verus!
