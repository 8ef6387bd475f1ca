//! The sparse custom query scorer: a query bound to a vector-storage
//! backend, scoring stored points or external vectors and accounting
//! the CPU cost of every comparison.
//!
//! Construction sorts every query example's indices ascending exactly
//! once, so that each comparison can merge two sorted vectors instead
//! of re-sorting.

use vstd::prelude::*;
use vstd::pervasive::unreached;

use crate::counter::{lemma_sat_add_chain, sat_add, HardwareCounterCell};
use crate::{PointOffsetType, ScoreType};
use crate::query::{lemma_combine_zero, Query};
use crate::sparse_vector::{clamp_score, dot_pairs, lemma_no_overlap_dot_zero, overlaps,
    SparseVector};
use crate::storage::SparseVectorStorage;

verus! {

/// Why a scoring call cannot be served.
pub enum ScorerError {
    /// Point-to-point scoring is undefined for a custom query, which
    /// is relative to its own examples, not to pairs of stored points.
    UnsupportedOperation,
}

/// The per-example dot-product scores of a query against one target
/// vector, in example order.
pub open spec fn example_scores(q: Query<SparseVector>, t: SparseVector) -> Seq<i64> {
    q.examples().map(|k: int, ex: SparseVector| clamp_score(dot_pairs(ex.pairs(), t.pairs())))
}

/// The CPU cost charged for scoring: for every example, the sum of
/// both operands' stored element counts, whatever their overlap.
pub open spec fn scoring_cost(exs: Seq<SparseVector>, t: SparseVector) -> int
    decreases exs.len(),
{
    if exs.len() == 0 {
        0
    } else {
        scoring_cost(exs.drop_last(), t) + exs.last().indices@.len() + t.indices@.len()
    }
}

/// Scoring cost is never negative.
pub proof fn lemma_scoring_cost_nonneg(exs: Seq<SparseVector>, t: SparseVector)
    ensures
        scoring_cost(exs, t) >= 0,
    decreases exs.len(),
{
    if exs.len() > 0 {
        lemma_scoring_cost_nonneg(exs.drop_last(), t);
    }
}

/// Every example of the query is sound and sorted, fit for merging.
pub open spec fn query_scorable(q: Query<SparseVector>) -> bool {
    forall|k: int|
        0 <= k < q.examples().len() ==> (#[trigger] q.examples()[k]).valid()
            && q.examples()[k].sorted()
}

/// A query that shares no index with the target scores zero, whatever
/// the query's shape.
pub proof fn lemma_no_overlap_zero_score(q: Query<SparseVector>, t: SparseVector)
    requires
        q.shape_wf(),
        forall|k: int|
            0 <= k < q.examples().len() ==> !overlaps(
                (#[trigger] q.examples()[k]).pairs(),
                t.pairs(),
            ),
    ensures
        q.combine(example_scores(q, t)) == 0,
{
    let scores = example_scores(q, t);
    assert forall|k: int| 0 <= k < scores.len() implies scores[k] == 0 by {
        lemma_no_overlap_dot_zero(q.examples()[k].pairs(), t.pairs());
    }
    lemma_combine_zero(q, scores);
}

/// A query bound to a storage backend for one search operation, with
/// its own cost counter.
pub struct SparseCustomQueryScorer<'a, S: SparseVectorStorage> {
    vector_storage: &'a S,
    query: Query<SparseVector>,
    hardware_counter: HardwareCounterCell,
}

impl<'a, S: SparseVectorStorage> SparseCustomQueryScorer<'a, S> {
    /// The bound query, examples sorted.
    pub closed spec fn query_spec(&self) -> Query<SparseVector> {
        self.query
    }

    /// The cost counter.
    pub closed spec fn counter_spec(&self) -> HardwareCounterCell {
        self.hardware_counter
    }

    /// The stored vectors of the bound backend.
    pub closed spec fn storage_map(&self) -> Map<PointOffsetType, SparseVector> {
        self.vector_storage.sparse_map()
    }

    /// The scorer's invariant: a non-empty query whose examples are
    /// all sound and sorted.
    pub open spec fn wf(&self) -> bool {
        self.query_spec().shape_wf() && query_scorable(self.query_spec())
    }

    /// Bind a query to a backend, sorting every example's indices
    /// ascending; each example keeps exactly its pairs. The cost
    /// counter starts at zero.
    pub fn new(query: Query<SparseVector>, vector_storage: &'a S) -> (r: Self)
        requires
            query.shape_wf(),
            forall|k: int|
                0 <= k < query.examples().len() ==> (#[trigger] query.examples()[k]).valid(),
        ensures
            r.wf(),
            r.storage_map() == vector_storage.sparse_map(),
            r.counter_spec().cpu == 0,
            r.counter_spec().checked == false,
            r.query_spec().shape() == query.shape(),
            r.query_spec().examples().len() == query.examples().len(),
            forall|k: int|
                0 <= k < query.examples().len() ==> (#[trigger] r.query_spec().examples()[k]).pairs().to_multiset()
                    == query.examples()[k].pairs().to_multiset()
                    && r.query_spec().examples()[k].sorted(),
    {
        let ghost exs = query.examples();
        let sort_one = |v: SparseVector| -> (res: Result<SparseVector, ScorerError>)
            requires
                v.valid(),
            ensures
                res matches Ok(sv) && sv.valid() && sv.sorted() && sv.pairs().to_multiset()
                    == v.pairs().to_multiset(),
            {
                let mut v2 = v;
                v2.sort_by_indices();
                Ok(v2)
            };
        let sorted_query = match query.transform(sort_one) {
            Ok(q2) => q2,
            Err(_) => unreached(),
        };
        proof {
            assert(sorted_query.examples().len() == exs.len());
            assert forall|k: int|
                0 <= k < exs.len() implies (#[trigger] sorted_query.examples()[k]).valid()
                && sorted_query.examples()[k].sorted()
                && sorted_query.examples()[k].pairs().to_multiset()
                == exs[k].pairs().to_multiset() by {
                assert(call_ensures(sort_one, (exs[k],), Ok(sorted_query.examples()[k])));
            }
        }
        SparseCustomQueryScorer {
            vector_storage,
            query: sorted_query,
            hardware_counter: HardwareCounterCell::new(),
        }
    }

    /// Score the query against one target vector: evaluate the merged
    /// dot product per example, combine by the query's rule, and
    /// charge the element-count cost of every comparison.
    #[verifier::loop_isolation(false)]
    fn score_target(&mut self, target: &SparseVector) -> (r: i64)
        requires
            old(self).wf(),
            target.valid(),
            target.sorted(),
        ensures
            r == old(self).query_spec().combine(
                example_scores(old(self).query_spec(), *target),
            ),
            final(self).query_spec() == old(self).query_spec(),
            final(self).storage_map() == old(self).storage_map(),
            final(self).wf(),
            final(self).counter_spec().cpu == sat_add(
                old(self).counter_spec().cpu as int,
                scoring_cost(old(self).query_spec().examples(), *target),
            ),
            final(self).counter_spec().checked == old(self).counter_spec().checked,
    {
        let ghost q0 = self.query;
        let ghost c0 = self.hardware_counter.cpu as int;
        match &self.query {
            Query::Single(ex) => {
                proof {
                    assert(q0.examples() =~= seq![*ex]);
                    assert(q0.examples()[0] == *ex);
                    assert(ex.valid() && ex.sorted());
                }
                let units: u64 = (ex.indices.len() as u64) + (target.indices.len() as u64);
                self.hardware_counter.incr_cpu(units);
                let s = match ex.score(target) {
                    Some(s2) => s2,
                    None => 0,
                };
                proof {
                    assert(clamp_score(0) == 0);
                    assert(s == clamp_score(dot_pairs(ex.pairs(), target.pairs())));
                    assert(q0.examples() =~= seq![*ex]);
                    assert(q0.examples().drop_last() =~= Seq::<SparseVector>::empty());
                    assert(scoring_cost(q0.examples().drop_last(), *target) == 0);
                    assert(scoring_cost(q0.examples(), *target) == ex.indices@.len()
                        + target.indices@.len());
                    assert(example_scores(q0, *target) =~= seq![s]);
                    assert(q0.combine(seq![s]) == s);
                }
                s
            },
            Query::SumOf(vs) => {
                let n = vs.len();
                let mut acc: i128 = 0;
                let ghost mut scores: Seq<i64> = Seq::empty();
                let mut k: usize = 0;
                proof {
                    assert(q0.examples() == vs@);
                    assert(vs@.take(0) =~= Seq::<SparseVector>::empty());
                }
                while k < n
                    invariant
                        k <= n,
                        self.query == q0,
                        self.vector_storage == old(self).vector_storage,
                        scores.len() == k,
                        forall|q2: int|
                            0 <= q2 < k ==> scores[q2] == clamp_score(
                                dot_pairs((#[trigger] vs@[q2]).pairs(), target.pairs()),
                            ),
                        acc == crate::query::sum_scores(scores),
                        -((k as int) * 0x8000_0000_0000_0000) <= acc <= (k as int)
                            * 0x8000_0000_0000_0000,
                        self.hardware_counter.cpu as int == sat_add(
                            c0,
                            scoring_cost(vs@.take(k as int), *target),
                        ),
                        self.hardware_counter.checked == old(self).hardware_counter.checked,
                    decreases n - k,
                {
                    proof {
                        assert(q0.examples()[k as int] == vs@[k as int]);
                        assert(vs@[k as int].valid() && vs@[k as int].sorted());
                    }
                    let ex = &vs[k];
                    let units: u64 = (ex.indices.len() as u64) + (target.indices.len() as u64);
                    proof {
                        lemma_scoring_cost_nonneg(vs@.take(k as int), *target);
                        lemma_sat_add_chain(
                            c0,
                            scoring_cost(vs@.take(k as int), *target),
                            units as int,
                        );
                        assert(vs@.take(k as int + 1).drop_last() =~= vs@.take(k as int));
                        assert(vs@.take(k as int + 1).last() == vs@[k as int]);
                    }
                    self.hardware_counter.incr_cpu(units);
                    let s = match ex.score(target) {
                        Some(s2) => s2,
                        None => 0,
                    };
                    acc = acc + (s as i128);
                    proof {
                        assert(clamp_score(0) == 0);
                        assert(s == clamp_score(dot_pairs(vs@[k as int].pairs(), target.pairs())));
                        let prev = scores;
                        scores = scores.push(s);
                        assert(scores.drop_last() =~= prev);
                        assert(scores.last() == s);
                    }
                    k += 1;
                }
                let r: i64 = if acc > (i64::MAX as i128) {
                    i64::MAX
                } else if acc < (i64::MIN as i128) {
                    i64::MIN
                } else {
                    acc as i64
                };
                proof {
                    assert(vs@.take(n as int) =~= vs@);
                    assert(scores =~= example_scores(q0, *target));
                    assert(r == q0.combine(scores));
                }
                r
            },
            Query::BestOf(vs) => {
                let n = vs.len();
                proof {
                    assert(q0.examples() == vs@);
                    assert(q0.examples()[0] == vs@[0]);
                    assert(vs@[0].valid() && vs@[0].sorted());
                }
                let ex0 = &vs[0];
                let units0: u64 = (ex0.indices.len() as u64) + (target.indices.len() as u64);
                proof {
                    assert(vs@.take(0) =~= Seq::<SparseVector>::empty());
                    assert(scoring_cost(vs@.take(0), *target) == 0);
                    assert(vs@.take(1).drop_last() =~= vs@.take(0));
                    assert(vs@.take(1).last() == vs@[0]);
                    assert(scoring_cost(vs@.take(1), *target) == vs@[0].indices@.len()
                        + target.indices@.len());
                }
                self.hardware_counter.incr_cpu(units0);
                let s0 = match ex0.score(target) {
                    Some(s2) => s2,
                    None => 0,
                };
                let mut best: i64 = s0;
                let ghost mut scores: Seq<i64> = seq![s0];
                proof {
                    assert(clamp_score(0) == 0);
                    assert(s0 == clamp_score(dot_pairs(vs@[0].pairs(), target.pairs())));
                }
                let mut k: usize = 1;
                while k < n
                    invariant
                        1 <= k <= n,
                        self.query == q0,
                        self.vector_storage == old(self).vector_storage,
                        scores.len() == k,
                        forall|q2: int|
                            0 <= q2 < k ==> scores[q2] == clamp_score(
                                dot_pairs((#[trigger] vs@[q2]).pairs(), target.pairs()),
                            ),
                        best == crate::query::max_score(scores),
                        self.hardware_counter.cpu as int == sat_add(
                            c0,
                            scoring_cost(vs@.take(k as int), *target),
                        ),
                        self.hardware_counter.checked == old(self).hardware_counter.checked,
                    decreases n - k,
                {
                    proof {
                        assert(q0.examples()[k as int] == vs@[k as int]);
                        assert(vs@[k as int].valid() && vs@[k as int].sorted());
                    }
                    let ex = &vs[k];
                    let units: u64 = (ex.indices.len() as u64) + (target.indices.len() as u64);
                    proof {
                        lemma_scoring_cost_nonneg(vs@.take(k as int), *target);
                        lemma_sat_add_chain(
                            c0,
                            scoring_cost(vs@.take(k as int), *target),
                            units as int,
                        );
                        assert(vs@.take(k as int + 1).drop_last() =~= vs@.take(k as int));
                        assert(vs@.take(k as int + 1).last() == vs@[k as int]);
                    }
                    self.hardware_counter.incr_cpu(units);
                    let s = match ex.score(target) {
                        Some(s2) => s2,
                        None => 0,
                    };
                    proof {
                        assert(clamp_score(0) == 0);
                        assert(s == clamp_score(dot_pairs(vs@[k as int].pairs(), target.pairs())));
                        let prev = scores;
                        scores = scores.push(s);
                        assert(scores.drop_last() =~= prev);
                        assert(scores.last() == s);
                    }
                    if s > best {
                        best = s;
                    }
                    k += 1;
                }
                proof {
                    assert(vs@.take(n as int) =~= vs@);
                    assert(scores =~= example_scores(q0, *target));
                    assert(best == q0.combine(scores));
                }
                best
            },
        }
    }

    /// Fetch the stored sparse vector at the given offset and score
    /// the query against it. Offsets are a caller-established
    /// precondition: the backend must resolve them.
    pub fn score_stored(&mut self, idx: PointOffsetType) -> (r: ScoreType)
        requires
            old(self).wf(),
            old(self).storage_map().dom().contains(idx),
            old(self).storage_map()[idx].valid(),
            old(self).storage_map()[idx].sorted(),
        ensures
            r == old(self).query_spec().combine(
                example_scores(old(self).query_spec(), old(self).storage_map()[idx]),
            ),
            final(self).query_spec() == old(self).query_spec(),
            final(self).storage_map() == old(self).storage_map(),
            final(self).wf(),
            final(self).counter_spec().cpu == sat_add(
                old(self).counter_spec().cpu as int,
                scoring_cost(old(self).query_spec().examples(), old(self).storage_map()[idx]),
            ),
            final(self).counter_spec().checked == old(self).counter_spec().checked,
    {
        let storage = self.vector_storage;
        let stored = match storage.get_sparse(idx) {
            Some(v) => v,
            None => unreached(),
        };
        self.score_target(stored)
    }

    /// Score the query against a caller-supplied sparse vector, with
    /// the same combination rule and the same cost accounting.
    pub fn score(&mut self, v: &SparseVector) -> (r: ScoreType)
        requires
            old(self).wf(),
            v.valid(),
            v.sorted(),
        ensures
            r == old(self).query_spec().combine(example_scores(old(self).query_spec(), *v)),
            final(self).query_spec() == old(self).query_spec(),
            final(self).storage_map() == old(self).storage_map(),
            final(self).wf(),
            final(self).counter_spec().cpu == sat_add(
                old(self).counter_spec().cpu as int,
                scoring_cost(old(self).query_spec().examples(), *v),
            ),
            final(self).counter_spec().checked == old(self).counter_spec().checked,
    {
        self.score_target(v)
    }

    /// Point-to-point scoring is not supported by this scorer: the
    /// call always fails, for any pair of offsets.
    pub fn score_internal(&self, _point_a: PointOffsetType, _point_b: PointOffsetType) -> (r: Result<ScoreType, ScorerError>)
        ensures
            r == Err::<ScoreType, ScorerError>(ScorerError::UnsupportedOperation),
    {
        Err(ScorerError::UnsupportedOperation)
    }

    /// Read the accumulated cost counter and reset it: one read
    /// consumes the measurement window.
    pub fn hardware_counter(&mut self) -> (r: HardwareCounterCell)
        ensures
            r.cpu == old(self).counter_spec().cpu,
            r.checked == old(self).counter_spec().checked,
            final(self).counter_spec().cpu == 0,
            final(self).counter_spec().checked == old(self).counter_spec().checked,
            final(self).query_spec() == old(self).query_spec(),
            final(self).storage_map() == old(self).storage_map(),
    {
        self.hardware_counter.take()
    }

    /// Toggle whether the counter is meant to enforce a budget.
    pub fn set_hardware_counter_checked(&mut self, checked: bool)
        ensures
            final(self).counter_spec().cpu == old(self).counter_spec().cpu,
            final(self).counter_spec().checked == checked,
            final(self).query_spec() == old(self).query_spec(),
            final(self).storage_map() == old(self).storage_map(),
    {
        self.hardware_counter.set_checked(checked);
    }
}

} // verus!
