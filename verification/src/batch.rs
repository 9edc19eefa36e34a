//! Batch state: the progress accumulator and the result aggregator for one
//! batch execution, and the deterministic merge that orders the collected
//! records.
//!
//! The state is created at batch start, fed exactly one terminal outcome per
//! submitted identifier, and finalized once every identifier has reached a
//! terminal outcome. Duplicate payload identifiers are resolved by
//! last-absorbed-wins: the record absorbed latest is the one that the final
//! sequence keeps.

use vstd::prelude::*;
use vstd::arithmetic::div_mod::{lemma_div_is_ordered, lemma_div_multiples_vanish};
use vstd::arithmetic::mul::lemma_mul_inequality;
use crate::outcome::{
    absorbed_records,
    counts_as_failure,
    counts_as_success,
    failure_total,
    lemma_totals_partition,
    success_total,
    Outcome,
};
use crate::report::ResearchReport;

verus! {

/// The records are in strictly ascending identifier order; in particular no
/// identifier appears twice.
pub open spec fn sorted_strictly_by_id(s: Seq<ResearchReport>) -> bool {
    forall|i: int, j: int| 0 <= i < j < s.len() ==> s[i].id < s[j].id
}

/// The record occurs in the collected sequence and no later collected record
/// carries the same identifier: it is the one that last-absorbed-wins keeps.
pub open spec fn is_last_with_id(collected: Seq<ResearchReport>, r: ResearchReport) -> bool {
    exists|i: int|
        0 <= i < collected.len() && collected[i] == r && (forall|j: int|
            i < j < collected.len() ==> collected[j].id != r.id)
}

/// Some record of the sequence carries the identifier.
pub open spec fn id_present(s: Seq<ResearchReport>, id: usize) -> bool {
    exists|j: int| 0 <= j < s.len() && s[j].id == id
}

/// The merged sequence is the deterministic order of the collected records:
/// strictly ascending by identifier, every collected identifier represented,
/// and each entry the last-absorbed record with its identifier.
pub open spec fn is_dedup_merge(
    collected: Seq<ResearchReport>,
    merged: Seq<ResearchReport>,
) -> bool {
    &&& sorted_strictly_by_id(merged)
    &&& forall|k: int| 0 <= k < merged.len() ==> is_last_with_id(collected, #[trigger] merged[k])
    &&& forall|i: int| 0 <= i < collected.len() ==> id_present(merged, #[trigger] collected[i].id)
}

/// The progress percentage after `done` of `total` outcomes, rounded down.
/// An empty batch is complete from the start.
pub open spec fn progress_pct(done: nat, total: nat) -> nat {
    if total == 0 {
        100
    } else {
        (done * 100) / total
    }
}

/// State of one batch execution: the two monotonic counters, the expected
/// outcome count, and the records collected so far in absorption order. The
/// outcomes already recorded are kept as ghost history, so that the counters
/// and the container are pinned to them exactly.
pub struct BatchState {
    pub total: usize,
    pub success_count: usize,
    pub failure_count: usize,
    pub records: Vec<ResearchReport>,
    pub history: Ghost<Seq<Outcome>>,
}

impl BatchState {
    /// The counters and the container are exactly the totals of the recorded
    /// history, and the batch never records more outcomes than identifiers.
    pub open spec fn wf(self) -> bool {
        &&& self.history@.len() <= self.total
        &&& self.success_count == success_total(self.history@)
        &&& self.failure_count == failure_total(self.history@)
        &&& self.records@ == absorbed_records(self.history@)
    }

    /// Fresh state for a batch of `total` identifiers: zero counters, nothing
    /// collected.
    pub fn new(total: usize) -> (s: BatchState)
        ensures
            s.wf(),
            s.total == total,
            s.history@ == Seq::<Outcome>::empty(),
            s.success_count == 0,
            s.failure_count == 0,
            s.records@ == Seq::<ResearchReport>::empty(),
    {
        let s = BatchState {
            total,
            success_count: 0,
            failure_count: 0,
            records: Vec::new(),
            history: Ghost(Seq::empty()),
        };
        proof {
            assert(s.records@ =~= absorbed_records(s.history@));
        }
        s
    }

    /// Records one terminal outcome: exactly one counter advances, and a
    /// successful outcome is absorbed into the record container. Called
    /// exactly once per submitted identifier.
    pub fn record_outcome(&mut self, o: Outcome)
        requires
            old(self).wf(),
            old(self).history@.len() < old(self).total,
        ensures
            final(self).wf(),
            final(self).total == old(self).total,
            final(self).history@ == old(self).history@.push(o),
            final(self).success_count == old(self).success_count + if counts_as_success(o) {
                1int
            } else {
                0int
            },
            final(self).failure_count == old(self).failure_count + if counts_as_failure(o) {
                1int
            } else {
                0int
            },
            final(self).records@ == old(self).records@ + match o {
                Outcome::Success(r) => seq![r],
                _ => Seq::<ResearchReport>::empty(),
            },
    {
        proof {
            lemma_totals_partition(self.history@);
        }
        let ghost o_ghost = o;
        let ghost prior = self.history@;
        match o {
            Outcome::Success(r) => {
                self.success_count = self.success_count + 1;
                self.records.push(r);
            },
            Outcome::EmptyResult => {
                self.success_count = self.success_count + 1;
            },
            Outcome::TransportFailure(_) => {
                self.failure_count = self.failure_count + 1;
            },
            Outcome::DecodeFailure(_) => {
                self.failure_count = self.failure_count + 1;
            },
        }
        self.history = Ghost(prior.push(o_ghost));
        proof {
            assert(self.history@.drop_last() =~= prior);
            assert(self.records@ == absorbed_records(self.history@));
        }
    }

    /// The progress percentage after the outcomes recorded so far: monotonic
    /// in the history, and never above one hundred.
    pub fn progress_percent(&self) -> (p: u64)
        requires
            self.wf(),
        ensures
            p == progress_pct((self.success_count + self.failure_count) as nat, self.total as nat),
            p <= 100,
    {
        proof {
            lemma_totals_partition(self.history@);
        }
        if self.total == 0 {
            100
        } else {
            let done: u128 = (self.success_count as u128) + (self.failure_count as u128);
            let scaled: u128 = done * 100;
            let p128: u128 = scaled / (self.total as u128);
            proof {
                lemma_mul_inequality(done as int, self.total as int, 100);
                lemma_div_is_ordered(done as int * 100, self.total as int * 100, self.total as int);
                lemma_div_multiples_vanish(100, self.total as int);
                assert(self.total as int * 100 == 100 * self.total as int);
            }
            p128 as u64
        }
    }

    /// Merges the collected records into the final ordered sequence. Must be
    /// called only after every identifier has reached a terminal outcome.
    pub fn finalize(self) -> (merged: Vec<ResearchReport>)
        requires
            self.wf(),
            self.history@.len() == self.total,
        ensures
            is_dedup_merge(absorbed_records(self.history@), merged@),
    {
        let mut remaining = self.records;
        let ghost collected = remaining@;
        let mut merged: Vec<ResearchReport> = Vec::new();
        proof {
            assert(collected.subrange(collected.len() as int, collected.len() as int)
                =~= Seq::<ResearchReport>::empty());
        }
        while remaining.len() > 0
            invariant
                remaining@ == collected.subrange(0, remaining@.len() as int),
                remaining@.len() <= collected.len(),
                is_dedup_merge(
                    collected.subrange(remaining@.len() as int, collected.len() as int),
                    merged@,
                ),
            decreases remaining@.len(),
        {
            let ghost suffix = collected.subrange(remaining@.len() as int, collected.len() as int);
            let rec = remaining.pop().unwrap();
            let ghost suffix_next = collected.subrange(
                remaining@.len() as int,
                collected.len() as int,
            );
            proof {
                assert(remaining@ =~= collected.subrange(0, remaining@.len() as int));
                assert(suffix_next =~= seq![rec] + suffix);
            }
            merge_record(&mut merged, rec, Ghost(suffix));
        }
        proof {
            assert(collected.subrange(0, collected.len() as int) =~= collected);
        }
        merged
    }
}

/// One step of the merge: the records of `suffix` are already merged into
/// `merged`; extends the merge by one record absorbed just before `suffix`.
/// If the record's identifier is already present it loses to the later
/// absorption; otherwise it is inserted at its ordered position.
fn merge_record(
    merged: &mut Vec<ResearchReport>,
    rec: ResearchReport,
    suffix: Ghost<Seq<ResearchReport>>,
)
    requires
        is_dedup_merge(suffix@, old(merged)@),
    ensures
        is_dedup_merge(seq![rec] + suffix@, final(merged)@),
{
    let mut lo: usize = 0;
    while lo < merged.len() && merged[lo].id < rec.id
        invariant
            0 <= lo <= merged@.len(),
            forall|i: int| 0 <= i < lo ==> merged@[i].id < rec.id,
            sorted_strictly_by_id(merged@),
        decreases merged@.len() - lo,
    {
        lo = lo + 1;
    }
    if lo < merged.len() && merged[lo].id == rec.id {
        // A record with this identifier was absorbed later: it wins.
        proof {
            lemma_merge_keeps_later(rec, suffix@, merged@, lo as int);
        }
    } else {
        let ghost before = merged@;
        merged.insert(lo, rec);
        proof {
            lemma_merge_inserts_new(rec, suffix@, before, lo as int);
        }
    }
}

/// When a record's identifier is already merged, the merge of the extended
/// collection is the merge unchanged: the record already there was absorbed
/// later and wins.
proof fn lemma_merge_keeps_later(
    rec: ResearchReport,
    suffix: Seq<ResearchReport>,
    merged: Seq<ResearchReport>,
    lo: int,
)
    requires
        is_dedup_merge(suffix, merged),
        0 <= lo < merged.len(),
        merged[lo].id == rec.id,
    ensures
        is_dedup_merge(seq![rec] + suffix, merged),
{
    let extended = seq![rec] + suffix;
    assert forall|k: int| 0 <= k < merged.len() implies is_last_with_id(
        extended,
        #[trigger] merged[k],
    ) by {
        lemma_last_with_id_cons(rec, suffix, merged[k]);
    }
    assert forall|i: int| 0 <= i < extended.len() implies id_present(
        merged,
        #[trigger] extended[i].id,
    ) by {
        if i == 0 {
            assert(merged[lo].id == extended[0].id);
            assert(id_present(merged, extended[0].id));
        } else {
            assert(extended[i] == suffix[i - 1]);
        }
    }
}

/// When a record's identifier is not merged yet, inserting the record at its
/// ordered position merges the extended collection.
proof fn lemma_merge_inserts_new(
    rec: ResearchReport,
    suffix: Seq<ResearchReport>,
    before: Seq<ResearchReport>,
    lo: int,
)
    requires
        is_dedup_merge(suffix, before),
        0 <= lo <= before.len(),
        forall|i: int| 0 <= i < lo ==> before[i].id < rec.id,
        lo < before.len() ==> before[lo].id > rec.id,
    ensures
        is_dedup_merge(seq![rec] + suffix, before.insert(lo, rec)),
{
    let extended = seq![rec] + suffix;
    let merged = before.insert(lo, rec);
    lemma_insert_keeps_sorted(rec, before, lo);
    lemma_insert_entries_are_last(rec, suffix, before, lo);
    lemma_insert_covers_all(rec, suffix, before, lo);
    assert forall|i: int| 0 <= i < extended.len() implies id_present(
        merged,
        #[trigger] extended[i].id,
    ) by {
        if i == 0 {
            assert(extended[0].id == rec.id);
        } else {
            assert(extended[i] == suffix[i - 1]);
        }
    }
}

/// Inserting a record at its ordered position keeps the merge strictly
/// sorted.
proof fn lemma_insert_keeps_sorted(rec: ResearchReport, before: Seq<ResearchReport>, lo: int)
    requires
        sorted_strictly_by_id(before),
        0 <= lo <= before.len(),
        forall|i: int| 0 <= i < lo ==> before[i].id < rec.id,
        lo < before.len() ==> before[lo].id > rec.id,
    ensures
        sorted_strictly_by_id(before.insert(lo, rec)),
{
    let merged = before.insert(lo, rec);
    assert(merged[lo] == rec);
    assert(forall|i: int| 0 <= i < lo ==> merged[i] == before[i]);
    assert(forall|i: int| lo < i < merged.len() ==> merged[i] == before[i - 1]);
}

/// No record of the suffix carries the inserted identifier, so every entry of
/// the extended merge is still the last absorbed with its identifier.
proof fn lemma_insert_entries_are_last(
    rec: ResearchReport,
    suffix: Seq<ResearchReport>,
    before: Seq<ResearchReport>,
    lo: int,
)
    requires
        is_dedup_merge(suffix, before),
        0 <= lo <= before.len(),
        forall|i: int| 0 <= i < lo ==> before[i].id < rec.id,
        lo < before.len() ==> before[lo].id > rec.id,
    ensures
        forall|k: int|
            0 <= k < before.insert(lo, rec).len() ==> is_last_with_id(
                seq![rec] + suffix,
                #[trigger] before.insert(lo, rec)[k],
            ),
{
    let extended = seq![rec] + suffix;
    let merged = before.insert(lo, rec);
    lemma_id_absent_from_suffix(rec, suffix, before, lo);
    assert(is_last_with_id(extended, rec)) by {
        assert(extended[0] == rec);
        assert(forall|j: int| 0 < j < extended.len() ==> extended[j] == suffix[j - 1]);
    }
    assert forall|k: int| 0 <= k < merged.len() implies is_last_with_id(
        extended,
        #[trigger] merged[k],
    ) by {
        if k != lo {
            let ki = if k < lo {
                k
            } else {
                k - 1
            };
            assert(merged[k] == before[ki]);
            lemma_last_with_id_cons(rec, suffix, before[ki]);
        } else {
            assert(merged[k] == rec);
        }
    }
}

/// Every identifier of the collection, and the inserted one, is represented
/// after the insertion.
proof fn lemma_insert_covers_all(
    rec: ResearchReport,
    suffix: Seq<ResearchReport>,
    before: Seq<ResearchReport>,
    lo: int,
)
    requires
        is_dedup_merge(suffix, before),
        0 <= lo <= before.len(),
    ensures
        id_present(before.insert(lo, rec), rec.id),
        forall|i: int|
            0 <= i < suffix.len() ==> id_present(before.insert(lo, rec), #[trigger] suffix[i].id),
{
    let merged = before.insert(lo, rec);
    assert(merged[lo] == rec);
    assert(id_present(merged, rec.id));
    assert forall|i: int| 0 <= i < suffix.len() implies id_present(
        merged,
        #[trigger] suffix[i].id,
    ) by {
        assert(id_present(before, suffix[i].id));
        let k0 = choose|k: int| 0 <= k < before.len() && before[k].id == suffix[i].id;
        let k1 = if k0 < lo {
            k0
        } else {
            k0 + 1
        };
        assert(merged[k1] == before[k0]);
        assert(merged[k1].id == suffix[i].id);
    }
}

/// An identifier below every identifier from the insertion point on, and
/// above every one before it, occurs nowhere in the suffix whose merge the
/// sequence is.
proof fn lemma_id_absent_from_suffix(
    rec: ResearchReport,
    suffix: Seq<ResearchReport>,
    before: Seq<ResearchReport>,
    lo: int,
)
    requires
        is_dedup_merge(suffix, before),
        0 <= lo <= before.len(),
        forall|i: int| 0 <= i < lo ==> before[i].id < rec.id,
        lo < before.len() ==> before[lo].id > rec.id,
    ensures
        forall|j: int| 0 <= j < suffix.len() ==> suffix[j].id != rec.id,
{
    assert forall|j: int| 0 <= j < suffix.len() implies suffix[j].id != rec.id by {
        if suffix[j].id == rec.id {
            assert(id_present(before, suffix[j].id));
            let k = choose|k: int| 0 <= k < before.len() && before[k].id == suffix[j].id;
            assert(k < lo ==> before[k].id < rec.id);
            assert(k > lo ==> before[lo].id < before[k].id);
        }
    }
}

/// A record that last-absorbed-wins keeps among some collected records is
/// still kept when one more record is put before them all.
proof fn lemma_last_with_id_cons(
    first: ResearchReport,
    collected: Seq<ResearchReport>,
    x: ResearchReport,
)
    requires
        is_last_with_id(collected, x),
    ensures
        is_last_with_id(seq![first] + collected, x),
{
    let extended = seq![first] + collected;
    let i = choose|i: int|
        0 <= i < collected.len() && collected[i] == x && (forall|j: int|
            i < j < collected.len() ==> collected[j].id != x.id);
    assert(extended[i + 1] == x);
    assert(forall|j: int| i + 1 < j < extended.len() ==> extended[j] == collected[j - 1]);
    assert(forall|j: int| i + 1 < j < extended.len() ==> extended[j].id != x.id);
}

/// Runs the aggregation of one whole batch: feeds every terminal outcome to
/// fresh state in order and merges the collected records. Returns the ordered
/// record sequence and the final success and failure counts.
pub fn aggregate_outcomes(outcomes: Vec<Outcome>) -> (result: (Vec<ResearchReport>, usize, usize))
    ensures
        result.1 == success_total(outcomes@),
        result.2 == failure_total(outcomes@),
        result.1 + result.2 == outcomes@.len(),
        is_dedup_merge(absorbed_records(outcomes@), result.0@),
        outcomes@.len() == 0 ==> result.0@ =~= Seq::<ResearchReport>::empty(),
{
    let ghost all = outcomes@;
    let total = outcomes.len();
    let mut remaining = outcomes;
    let mut state = BatchState::new(total);
    proof {
        assert(state.history@ =~= all.subrange(0, 0));
    }
    while remaining.len() > 0
        invariant
            state.wf(),
            state.total == total,
            all.len() == total,
            remaining@.len() <= all.len(),
            state.history@ == all.subrange(0, (all.len() - remaining@.len()) as int),
            remaining@ == all.subrange((all.len() - remaining@.len()) as int, all.len() as int),
        decreases remaining@.len(),
    {
        let ghost done = (all.len() - remaining@.len()) as int;
        let o = remaining.remove(0);
        proof {
            assert(o == all[done]);
            assert(remaining@ =~= all.subrange(done + 1, all.len() as int));
        }
        state.record_outcome(o);
        proof {
            assert(state.history@ =~= all.subrange(0, done + 1));
        }
    }
    proof {
        assert(state.history@ =~= all);
        lemma_totals_partition(all);
    }
    let success_count = state.success_count;
    let failure_count = state.failure_count;
    let merged = state.finalize();
    proof {
        if all.len() == 0 {
            assert(absorbed_records(all) =~= Seq::<ResearchReport>::empty());
            if merged@.len() > 0 {
                assert(is_last_with_id(absorbed_records(all), merged@[0]));
            }
        }
    }
    (merged, success_count, failure_count)
}

/// The identifiers of a half-open range, in ascending order: the batch that
/// fetches every numbered record from `begin` up to but not including `end`.
/// An empty or reversed range yields no identifier.
pub fn ids_of_range(begin: usize, end: usize) -> (ids: Vec<usize>)
    ensures
        begin <= end ==> ids@.len() == end - begin,
        begin > end ==> ids@.len() == 0,
        forall|i: int| 0 <= i < ids@.len() ==> ids@[i] == begin + i,
{
    let mut ids: Vec<usize> = Vec::new();
    if begin >= end {
        return ids;
    }
    let mut next = begin;
    while next < end
        invariant
            begin <= next <= end,
            ids@.len() == next - begin,
            forall|i: int| 0 <= i < ids@.len() ==> ids@[i] == begin + i,
        decreases end - next,
    {
        ids.push(next);
        next = next + 1;
    }
    ids
}

/// Progress never regresses and never exceeds one hundred: as outcomes
/// accumulate, the emitted percentage is monotone, and it reaches exactly one
/// hundred when the last identifier reaches its terminal outcome.
pub proof fn lemma_progress_monotonic(done1: nat, done2: nat, total: nat)
    requires
        done1 <= done2 <= total,
    ensures
        progress_pct(done1, total) <= progress_pct(done2, total),
        progress_pct(done2, total) <= 100,
        progress_pct(total, total) == 100,
{
    if total > 0 {
        lemma_mul_inequality(done1 as int, done2 as int, 100);
        lemma_div_is_ordered(done1 as int * 100, done2 as int * 100, total as int);
        lemma_mul_inequality(done2 as int, total as int, 100);
        lemma_div_is_ordered(done2 as int * 100, total as int * 100, total as int);
        lemma_div_multiples_vanish(100, total as int);
        assert(total as int * 100 == 100 * total as int);
    }
}

/// For one identifier there is only one record that last-absorbed-wins keeps.
proof fn lemma_last_with_id_unique(
    collected: Seq<ResearchReport>,
    r1: ResearchReport,
    r2: ResearchReport,
)
    requires
        is_last_with_id(collected, r1),
        is_last_with_id(collected, r2),
        r1.id == r2.id,
    ensures
        r1 == r2,
{
    let i1 = choose|i: int|
        0 <= i < collected.len() && collected[i] == r1 && (forall|j: int|
            i < j < collected.len() ==> collected[j].id != r1.id);
    let i2 = choose|i: int|
        0 <= i < collected.len() && collected[i] == r2 && (forall|j: int|
            i < j < collected.len() ==> collected[j].id != r2.id);
    if i1 < i2 {
        assert(collected[i2].id != r1.id);
    } else if i2 < i1 {
        assert(collected[i1].id != r2.id);
    }
}

/// Two strictly sorted sequences drawn from the same collection, each entry
/// the last-absorbed record with its identifier, covering the same
/// identifiers, are the same sequence.
proof fn lemma_sorted_same_ids_equal(
    collected: Seq<ResearchReport>,
    m1: Seq<ResearchReport>,
    m2: Seq<ResearchReport>,
)
    requires
        sorted_strictly_by_id(m1),
        sorted_strictly_by_id(m2),
        forall|k: int| 0 <= k < m1.len() ==> is_last_with_id(collected, #[trigger] m1[k]),
        forall|k: int| 0 <= k < m2.len() ==> is_last_with_id(collected, #[trigger] m2[k]),
        forall|k: int| 0 <= k < m1.len() ==> id_present(m2, #[trigger] m1[k].id),
        forall|k: int| 0 <= k < m2.len() ==> id_present(m1, #[trigger] m2[k].id),
    ensures
        m1 =~= m2,
    decreases m1.len(),
{
    if m1.len() == 0 {
        if m2.len() > 0 {
            assert(id_present(m1, m2[0].id));
            let j = choose|j: int| 0 <= j < m1.len() && m1[j].id == m2[0].id;
            assert(false);
        }
        assert(m1 =~= m2);
    } else if m2.len() == 0 {
        assert(id_present(m2, m1[0].id));
        let j = choose|j: int| 0 <= j < m2.len() && m2[j].id == m1[0].id;
        assert(false);
    } else {
        assert(id_present(m2, m1[0].id));
        assert(id_present(m1, m2[0].id));
        let j2 = choose|j: int| 0 <= j < m2.len() && m2[j].id == m1[0].id;
        let j1 = choose|j: int| 0 <= j < m1.len() && m1[j].id == m2[0].id;
        assert(j2 > 0 ==> m2[0].id < m2[j2].id);
        assert(j1 > 0 ==> m1[0].id < m1[j1].id);
        assert(m1[0].id == m2[0].id);
        lemma_last_with_id_unique(collected, m1[0], m2[0]);
        let t1 = m1.subrange(1, m1.len() as int);
        let t2 = m2.subrange(1, m2.len() as int);
        assert forall|k: int| 0 <= k < t1.len() implies id_present(t2, #[trigger] t1[k].id) by {
            assert(t1[k] == m1[k + 1]);
            assert(id_present(m2, m1[k + 1].id));
            let j = choose|j: int| 0 <= j < m2.len() && m2[j].id == m1[k + 1].id;
            assert(m2[0].id == m1[0].id < m1[k + 1].id == m2[j].id);
            assert(t2[j - 1].id == t1[k].id);
        }
        assert forall|k: int| 0 <= k < t2.len() implies id_present(t1, #[trigger] t2[k].id) by {
            assert(t2[k] == m2[k + 1]);
            assert(id_present(m1, m2[k + 1].id));
            let j = choose|j: int| 0 <= j < m1.len() && m1[j].id == m2[k + 1].id;
            assert(m1[0].id == m2[0].id < m2[k + 1].id == m1[j].id);
            assert(t1[j - 1].id == t2[k].id);
        }
        assert(forall|k: int| 0 <= k < t1.len() ==> t1[k] == #[trigger] m1[k + 1]);
        assert(forall|k: int| 0 <= k < t2.len() ==> t2[k] == #[trigger] m2[k + 1]);
        lemma_sorted_same_ids_equal(collected, t1, t2);
        assert forall|i: int| 0 <= i < m1.len() implies m1[i] == m2[i] by {
            if i > 0 {
                assert(t1[i - 1] == t2[i - 1]);
            }
        }
    }
}

/// The merge is deterministic: for one collection of absorbed records there
/// is exactly one merged sequence, whatever order the fetches completed in.
pub proof fn lemma_merge_deterministic(
    collected: Seq<ResearchReport>,
    m1: Seq<ResearchReport>,
    m2: Seq<ResearchReport>,
)
    requires
        is_dedup_merge(collected, m1),
        is_dedup_merge(collected, m2),
    ensures
        m1 =~= m2,
{
    lemma_merge_ids_covered(collected, m1, m2);
    lemma_merge_ids_covered(collected, m2, m1);
    lemma_sorted_same_ids_equal(collected, m1, m2);
}

/// Each identifier of one merge of a collection is present in any other
/// merge of it: the entry comes from the collection, whose identifiers the
/// other merge covers.
proof fn lemma_merge_ids_covered(
    collected: Seq<ResearchReport>,
    ma: Seq<ResearchReport>,
    mb: Seq<ResearchReport>,
)
    requires
        forall|k: int| 0 <= k < ma.len() ==> is_last_with_id(collected, #[trigger] ma[k]),
        forall|i: int| 0 <= i < collected.len() ==> id_present(mb, #[trigger] collected[i].id),
    ensures
        forall|k: int| 0 <= k < ma.len() ==> id_present(mb, #[trigger] ma[k].id),
{
    assert forall|k: int| 0 <= k < ma.len() implies id_present(mb, #[trigger] ma[k].id) by {
        let i = choose|i: int|
            0 <= i < collected.len() && collected[i] == ma[k] && (forall|j: int|
                i < j < collected.len() ==> collected[j].id != ma[k].id);
        assert(id_present(mb, collected[i].id));
        assert(collected[i].id == ma[k].id);
    }
}

/// A batch whose outcomes are all `EmptyResult` yields an empty merged
/// sequence, a success count equal to the batch size, and no failure: an
/// empty result is a success for the counters though it contributes no
/// record.
pub proof fn lemma_all_empty_results_batch(outcomes: Seq<Outcome>, merged: Seq<ResearchReport>)
    requires
        forall|i: int| 0 <= i < outcomes.len() ==> outcomes[i] is EmptyResult,
        is_dedup_merge(absorbed_records(outcomes), merged),
    ensures
        success_total(outcomes) == outcomes.len(),
        failure_total(outcomes) == 0,
        merged =~= Seq::<ResearchReport>::empty(),
{
    crate::outcome::lemma_all_empty_results(outcomes);
    if merged.len() > 0 {
        assert(is_last_with_id(absorbed_records(outcomes), merged[0]));
    }
}

} // verus!
