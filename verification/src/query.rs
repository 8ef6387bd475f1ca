//! The query abstraction: what a similarity search scores against.
//!
//! A query is a single example vector or a composite of several, with
//! a fixed, per-variant combination rule. `score_by` evaluates a
//! scoring function once per example and combines the results;
//! `transform` rewrites every example through a fallible mapping, all
//! or nothing.

use vstd::prelude::*;

use crate::sparse_vector::clamp_score;

verus! {

/// The shape of a query, apart from its payload.
pub enum QueryShape {
    Single,
    SumOf,
    BestOf,
}

/// A query over example vectors of type `T`: one example, or a
/// composite whose score is the clamped sum, or the maximum, of the
/// per-example scores.
pub enum Query<T> {
    Single(T),
    SumOf(Vec<T>),
    BestOf(Vec<T>),
}

/// The integer sum of a list of scores.
pub open spec fn sum_scores(s: Seq<i64>) -> int
    decreases s.len(),
{
    if s.len() == 0 {
        0
    } else {
        sum_scores(s.drop_last()) + s.last()
    }
}

/// The maximum of a non-empty list of scores.
pub open spec fn max_score(s: Seq<i64>) -> i64
    decreases s.len(),
{
    if s.len() <= 1 {
        s[0]
    } else if s.last() > max_score(s.drop_last()) {
        s.last()
    } else {
        max_score(s.drop_last())
    }
}

/// A list of zeroes sums to zero.
pub proof fn lemma_sum_scores_zero(s: Seq<i64>)
    requires
        forall|k: int| 0 <= k < s.len() ==> s[k] == 0,
    ensures
        sum_scores(s) == 0,
    decreases s.len(),
{
    if s.len() > 0 {
        lemma_sum_scores_zero(s.drop_last());
    }
}

/// The maximum of a non-empty list of zeroes is zero.
pub proof fn lemma_max_score_zero(s: Seq<i64>)
    requires
        s.len() > 0,
        forall|k: int| 0 <= k < s.len() ==> s[k] == 0,
    ensures
        max_score(s) == 0,
    decreases s.len(),
{
    if s.len() > 1 {
        lemma_max_score_zero(s.drop_last());
    }
}

/// Some example in the list is one on which `f` can fail with `e`.
pub open spec fn transform_failed<T, U, E, F: Fn(T) -> Result<U, E>>(
    f: F,
    exs: Seq<T>,
    e: E,
) -> bool {
    exists|k: int|
        0 <= k < exs.len() && #[trigger] call_ensures(f, (exs[k],), Err::<U, E>(e))
}

impl<T> Query<T> {
    /// The embedded example vectors, in order.
    pub open spec fn examples(self) -> Seq<T> {
        match self {
            Query::Single(v) => seq![v],
            Query::SumOf(vs) => vs@,
            Query::BestOf(vs) => vs@,
        }
    }

    /// The shape of the query.
    pub open spec fn shape(self) -> QueryShape {
        match self {
            Query::Single(..) => QueryShape::Single,
            Query::SumOf(..) => QueryShape::SumOf,
            Query::BestOf(..) => QueryShape::BestOf,
        }
    }

    /// A composite query carries at least one example.
    pub open spec fn shape_wf(self) -> bool {
        self.examples().len() >= 1
    }

    /// The fixed combination rule of the variant, over one score per
    /// example: the single score, the clamped sum, or the maximum.
    pub open spec fn combine(self, scores: Seq<i64>) -> i64 {
        match self {
            Query::Single(..) => scores[0],
            Query::SumOf(..) => clamp_score(sum_scores(scores)),
            Query::BestOf(..) => max_score(scores),
        }
    }

    /// Evaluate `f` once per example, in order, and combine the
    /// results by the variant's rule.
    #[verifier::loop_isolation(false)]
    pub fn score_by<F: Fn(&T) -> i64>(&self, f: F) -> (r: i64)
        requires
            self.shape_wf(),
            forall|v: &T| call_requires(f, (v,)),
        ensures
            exists|scores: Seq<i64>|
                {
                    &&& scores.len() == self.examples().len()
                    &&& forall|k: int|
                        0 <= k < scores.len() ==> #[trigger] call_ensures(
                            f,
                            (&self.examples()[k],),
                            scores[k],
                        )
                    &&& r == self.combine(scores)
                },
    {
        match self {
            Query::Single(v) => {
                let s = f(v);
                proof {
                    let scores = seq![s];
                    assert(scores.len() == self.examples().len());
                    assert(self.combine(scores) == s);
                }
                s
            },
            Query::SumOf(vs) => {
                let n = vs.len();
                let mut acc: i128 = 0;
                let ghost mut scores: Seq<i64> = Seq::empty();
                let mut k: usize = 0;
                while k < n
                    invariant
                        k <= n,
                        scores.len() == k,
                        forall|q: int|
                            0 <= q < k ==> #[trigger] call_ensures(f, (&vs@[q],), scores[q]),
                        acc == sum_scores(scores),
                        -((k as int) * 0x8000_0000_0000_0000) <= acc <= (k as int)
                            * 0x8000_0000_0000_0000,
                    decreases n - k,
                {
                    let s = f(&vs[k]);
                    acc = acc + (s as i128);
                    proof {
                        let prev = scores;
                        scores = scores.push(s);
                        assert(scores.drop_last() =~= prev);
                        assert(scores.last() == s);
                    }
                    k += 1;
                }
                let r: i64 = if acc > (i64::MAX as i128) {
                    i64::MAX
                } else if acc < (i64::MIN as i128) {
                    i64::MIN
                } else {
                    acc as i64
                };
                proof {
                    assert(r == self.combine(scores));
                }
                r
            },
            Query::BestOf(vs) => {
                let n = vs.len();
                let s0 = f(&vs[0]);
                let mut best: i64 = s0;
                let ghost mut scores: Seq<i64> = seq![s0];
                let mut k: usize = 1;
                while k < n
                    invariant
                        1 <= k <= n,
                        scores.len() == k,
                        forall|q: int|
                            0 <= q < k ==> #[trigger] call_ensures(f, (&vs@[q],), scores[q]),
                        best == max_score(scores),
                    decreases n - k,
                {
                    let s = f(&vs[k]);
                    proof {
                        let prev = scores;
                        scores = scores.push(s);
                        assert(scores.drop_last() =~= prev);
                        assert(scores.last() == s);
                    }
                    if s > best {
                        best = s;
                    }
                    k += 1;
                }
                proof {
                    assert(best == self.combine(scores));
                }
                best
            },
        }
    }

    /// Rewrite every example through `f`, preserving the shape and the
    /// combination rule; the first failure is propagated and nothing
    /// partial is returned.
    #[verifier::loop_isolation(false)]
    #[verifier::rlimit(50)]
    pub fn transform<U, E, F: Fn(T) -> Result<U, E>>(self, f: F) -> (r: Result<Query<U>, E>)
        requires
            forall|k: int|
                0 <= k < self.examples().len() ==> call_requires(f, (self.examples()[k],)),
        ensures
            match r {
                Ok(q) => {
                    &&& q.shape() == self.shape()
                    &&& q.examples().len() == self.examples().len()
                    &&& forall|k: int|
                        0 <= k < q.examples().len() ==> #[trigger] call_ensures(
                            f,
                            (self.examples()[k],),
                            Ok(q.examples()[k]),
                        )
                },
                Err(e) => transform_failed(f, self.examples(), e),
            },
    {
        let ghost exs = self.examples();
        match self {
            Query::Single(v) => {
                proof {
                    assert(exs =~= seq![v]);
                    assert(exs[0] == v);
                    assert(call_requires(f, (exs[0],)));
                }
                match f(v) {
                    Ok(u) => {
                        let r = Query::Single(u);
                        proof {
                            assert(r.examples() =~= seq![u]);
                            assert(r.examples()[0] == u);
                        }
                        Ok(r)
                    },
                    Err(e) => {
                        proof {
                            assert(call_ensures(f, (exs[0],), Err::<U, E>(e)));
                            assert(transform_failed(f, exs, e));
                        }
                        Err(e)
                    },
                }
            },
            Query::SumOf(vs) => {
                proof {
                    assert(exs == vs@);
                }
                match transform_examples(vs, f) {
                    Ok(us) => Ok(Query::SumOf(us)),
                    Err(e) => Err(e),
                }
            },
            Query::BestOf(vs) => {
                proof {
                    assert(exs == vs@);
                }
                match transform_examples(vs, f) {
                    Ok(us) => Ok(Query::BestOf(us)),
                    Err(e) => Err(e),
                }
            },
        }
    }
}

/// Map every element of a list through `f`, stopping at the first
/// failure.
#[verifier::loop_isolation(false)]
#[verifier::rlimit(50)]
fn transform_examples<T, U, E, F: Fn(T) -> Result<U, E>>(vs: Vec<T>, f: F) -> (r: Result<
    Vec<U>,
    E,
>)
    requires
        forall|k: int| 0 <= k < vs@.len() ==> call_requires(f, (vs@[k],)),
    ensures
        match r {
            Ok(us) => {
                &&& us@.len() == vs@.len()
                &&& forall|k: int|
                    0 <= k < us@.len() ==> #[trigger] call_ensures(f, (vs@[k],), Ok(us@[k]))
            },
            Err(e) => transform_failed(f, vs@, e),
        },
{
    let ghost orig = vs@;
    let n = vs.len();
    let mut rest = vs;
    let mut out: Vec<U> = Vec::new();
    let mut k: usize = 0;
    while k < n
        invariant
            k <= n,
            n == orig.len(),
            rest@.len() + k == n,
            forall|q: int| 0 <= q < rest@.len() ==> rest@[q] == orig[q + k],
            out@.len() == k,
            forall|q: int| 0 <= q < k ==> #[trigger] call_ensures(f, (orig[q],), Ok(out@[q])),
        decreases n - k,
    {
        let x = rest.remove(0);
        proof {
            assert(x == orig[k as int]);
            assert(call_requires(f, (orig[k as int],)));
        }
        match f(x) {
            Ok(u) => {
                out.push(u);
            },
            Err(e) => {
                proof {
                    assert(call_ensures(f, (orig[k as int],), Err::<U, E>(e)));
                    assert(transform_failed(f, orig, e));
                }
                return Err(e);
            },
        }
        k += 1;
    }
    Ok(out)
}

/// The single-example rule: combining one score returns that score.
pub proof fn lemma_single_combine<T>(q: Query<T>, s: i64)
    requires
        q is Single,
    ensures
        q.combine(seq![s]) == s,
{
}

/// Combining all-zero per-example scores gives zero, whatever the
/// shape of the query.
pub proof fn lemma_combine_zero<T>(q: Query<T>, scores: Seq<i64>)
    requires
        q.shape_wf(),
        scores.len() == q.examples().len(),
        forall|k: int| 0 <= k < scores.len() ==> scores[k] == 0,
    ensures
        q.combine(scores) == 0,
{
    match q {
        Query::Single(..) => {},
        Query::SumOf(..) => {
            lemma_sum_scores_zero(scores);
        },
        Query::BestOf(..) => {
            lemma_max_score_zero(scores);
        },
    }
}

} // verus!
