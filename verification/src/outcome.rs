//! Terminal outcomes of fetching one identifier, and the batch-level totals
//! over a sequence of outcomes.

use vstd::prelude::*;
use crate::report::ResearchReport;

verus! {

/// The terminal result for one identifier. Every submitted identifier
/// produces exactly one `Outcome`, whatever happened to its fetch.
///
/// A well-formed payload with zero entries is `EmptyResult`: a valid terminal
/// state, not an error, though the progress counters treat it as a success.
/// The two failure variants carry the underlying cause as text, for logging.
pub enum Outcome {
    Success(ResearchReport),
    EmptyResult,
    TransportFailure(String),
    DecodeFailure(String),
}

/// An outcome that advances the success counter: a fetched record, or a
/// well-formed payload with zero entries.
pub open spec fn counts_as_success(o: Outcome) -> bool {
    o is Success || o is EmptyResult
}

/// An outcome that advances the failure counter.
pub open spec fn counts_as_failure(o: Outcome) -> bool {
    o is TransportFailure || o is DecodeFailure
}

/// How many outcomes of the sequence count as successes.
pub open spec fn success_total(s: Seq<Outcome>) -> nat
    decreases s.len(),
{
    if s.len() == 0 {
        0
    } else {
        success_total(s.drop_last()) + if counts_as_success(s.last()) {
            1nat
        } else {
            0nat
        }
    }
}

/// How many outcomes of the sequence count as failures.
pub open spec fn failure_total(s: Seq<Outcome>) -> nat
    decreases s.len(),
{
    if s.len() == 0 {
        0
    } else {
        failure_total(s.drop_last()) + if counts_as_failure(s.last()) {
            1nat
        } else {
            0nat
        }
    }
}

/// The records of the successful outcomes, in outcome order.
pub open spec fn absorbed_records(s: Seq<Outcome>) -> Seq<ResearchReport>
    decreases s.len(),
{
    if s.len() == 0 {
        Seq::empty()
    } else {
        absorbed_records(s.drop_last()) + match s.last() {
            Outcome::Success(r) => seq![r],
            _ => Seq::<ResearchReport>::empty(),
        }
    }
}

/// Every outcome counts exactly once: the success and failure totals of any
/// outcome sequence add up to its length.
pub proof fn lemma_totals_partition(s: Seq<Outcome>)
    ensures
        success_total(s) + failure_total(s) == s.len(),
    decreases s.len(),
{
    if s.len() > 0 {
        lemma_totals_partition(s.drop_last());
    }
}

/// A batch whose outcomes are all `EmptyResult` absorbs no record, counts
/// every outcome as a success, and counts no failure.
pub proof fn lemma_all_empty_results(s: Seq<Outcome>)
    requires
        forall|i: int| 0 <= i < s.len() ==> s[i] is EmptyResult,
    ensures
        success_total(s) == s.len(),
        failure_total(s) == 0,
        absorbed_records(s) =~= Seq::<ResearchReport>::empty(),
    decreases s.len(),
{
    if s.len() > 0 {
        lemma_all_empty_results(s.drop_last());
    }
}

} // verus!
