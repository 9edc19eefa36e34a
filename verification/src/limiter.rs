//! The concurrency limiter: admits at most a configured number of fetches at
//! once, independent of the total identifier count.
//!
//! The limiter is the admission decision alone: the loop that spawns and
//! joins the fetch tasks asks it for a slot before starting a fetch and
//! returns the slot when the fetch reaches its terminal outcome. Completion
//! order is deliberately unconstrained.

use vstd::prelude::*;

verus! {

/// Tracks how many fetches are in flight against the configured bound.
pub struct ConcurrencyLimiter {
    pub bound: usize,
    pub in_flight: usize,
}

impl ConcurrencyLimiter {
    /// At no point are more fetches in flight than the bound admits.
    pub open spec fn wf(self) -> bool {
        &&& self.bound >= 1
        &&& self.in_flight <= self.bound
    }

    /// A fresh limiter with the configured bound and no fetch in flight.
    pub fn new(bound: usize) -> (l: ConcurrencyLimiter)
        requires
            bound >= 1,
        ensures
            l.wf(),
            l.bound == bound,
            l.in_flight == 0,
    {
        ConcurrencyLimiter { bound, in_flight: 0 }
    }

    /// Asks for one slot. A slot is granted exactly when one is free, so a
    /// submitted task is never starved while fetches keep terminating: each
    /// release frees a slot for the next acquire.
    pub fn try_acquire(&mut self) -> (granted: bool)
        requires
            old(self).wf(),
        ensures
            final(self).wf(),
            final(self).bound == old(self).bound,
            granted == (old(self).in_flight < old(self).bound),
            granted ==> final(self).in_flight == old(self).in_flight + 1,
            !granted ==> final(self).in_flight == old(self).in_flight,
    {
        if self.in_flight < self.bound {
            self.in_flight = self.in_flight + 1;
            true
        } else {
            false
        }
    }

    /// Returns one slot when a fetch reaches its terminal outcome.
    pub fn release(&mut self)
        requires
            old(self).wf(),
            old(self).in_flight >= 1,
        ensures
            final(self).wf(),
            final(self).bound == old(self).bound,
            final(self).in_flight == old(self).in_flight - 1,
    {
        self.in_flight = self.in_flight - 1;
    }
}

/// The concurrency bound is respected: however the acquires and releases of a
/// batch interleave, a well-formed limiter never has more fetches in flight
/// than its bound; with a bound of one, no two fetches are ever in flight
/// simultaneously.
pub proof fn lemma_bound_respected(l: ConcurrencyLimiter)
    requires
        l.wf(),
    ensures
        l.in_flight <= l.bound,
        l.bound == 1 ==> l.in_flight <= 1,
{
}

} // verus!
