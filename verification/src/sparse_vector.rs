//! Sparse vectors: ordered (index, value) pairs over a mostly-zero space.
//!
//! Construction does not sort; sorting by index is an explicit transform.
//! Scoring requires strictly increasing indices, so the scorer sorts every
//! query example once at construction time.

use vstd::prelude::*;
use vstd::seq_lib::group_to_multiset_ensures;

verus! {

broadcast use group_to_multiset_ensures;

/// Dimension index of one sparse component.
pub type DimId = u32;

/// Weight of one vector component.
///
/// Weights are kept within `VALUE_LIMIT` so that a product of two of them
/// fits well inside a fixed-width accumulator.
pub type VectorElement = i64;

/// Largest magnitude a component may carry; products of two bounded
/// components then stay below `1 << 62`.
pub const VALUE_LIMIT: i64 = 0x8000_0000;

/// Index/value pairs in non-decreasing index order.
pub open spec fn pairs_nondecreasing(s: Seq<(DimId, VectorElement)>) -> bool {
    forall|a: int, b: int| 0 <= a < b < s.len() ==> (#[trigger] s[a]).0 <= (#[trigger] s[b]).0
}

/// No two pairs carry the same index.
pub open spec fn pairs_distinct_indices(s: Seq<(DimId, VectorElement)>) -> bool {
    forall|a: int, b: int| 0 <= a < b < s.len() ==> (#[trigger] s[a]).0 != (#[trigger] s[b]).0
}

/// The dot product of two pair sequences in strictly increasing index
/// order, merge-wise: equal leading indices contribute their product,
/// the smaller leading index is skipped.
pub open spec fn dot_pairs(a: Seq<(DimId, VectorElement)>, b: Seq<(DimId, VectorElement)>) -> int
    decreases a.len() + b.len(),
{
    if a.len() == 0 || b.len() == 0 {
        0
    } else if a[0].0 == b[0].0 {
        a[0].1 * b[0].1 + dot_pairs(a.drop_first(), b.drop_first())
    } else if a[0].0 < b[0].0 {
        dot_pairs(a.drop_first(), b)
    } else {
        dot_pairs(a, b.drop_first())
    }
}

/// Whether two sorted pair sequences share at least one index.
pub open spec fn overlaps(a: Seq<(DimId, VectorElement)>, b: Seq<(DimId, VectorElement)>) -> bool
    decreases a.len() + b.len(),
{
    if a.len() == 0 || b.len() == 0 {
        false
    } else if a[0].0 == b[0].0 {
        true
    } else if a[0].0 < b[0].0 {
        overlaps(a.drop_first(), b)
    } else {
        overlaps(a, b.drop_first())
    }
}

/// Pair sequences that share no index have a zero dot product.
pub proof fn lemma_no_overlap_dot_zero(
    a: Seq<(DimId, VectorElement)>,
    b: Seq<(DimId, VectorElement)>,
)
    requires
        !overlaps(a, b),
    ensures
        dot_pairs(a, b) == 0,
    decreases a.len() + b.len(),
{
    if a.len() == 0 || b.len() == 0 {
    } else if a[0].0 == b[0].0 {
        assert(overlaps(a, b));
    } else if a[0].0 < b[0].0 {
        lemma_no_overlap_dot_zero(a.drop_first(), b);
    } else {
        lemma_no_overlap_dot_zero(a, b.drop_first());
    }
}

/// A score clamped to the fixed-width score range.
pub open spec fn clamp_score(x: int) -> i64 {
    if x > i64::MAX {
        i64::MAX
    } else if x < i64::MIN {
        i64::MIN
    } else {
        x as i64
    }
}

/// A permutation of a pair sequence with pairwise distinct indices has
/// pairwise distinct indices too.
proof fn lemma_perm_distinct_indices(
    s1: Seq<(DimId, VectorElement)>,
    s2: Seq<(DimId, VectorElement)>,
)
    requires
        s1.to_multiset() == s2.to_multiset(),
        pairs_distinct_indices(s1),
    ensures
        pairs_distinct_indices(s2),
{
    assert(s1.no_duplicates());
    s1.lemma_multiset_has_no_duplicates();
    assert forall|a: int, b: int| 0 <= a < b < s2.len() implies (#[trigger] s2[a]).0 != (
    #[trigger] s2[b]).0 by {
        if s2[a].0 == s2[b].0 {
            if s2[a] == s2[b] {
                assert(s2.remove(a).to_multiset() == s2.to_multiset().remove(s2[a]));
                assert(s2.remove(a)[b - 1] == s2[b]);
                assert(s2.remove(a).contains(s2[b]));
                assert(s2.remove(a).to_multiset().count(s2[b]) > 0);
                assert(s2.to_multiset().count(s2[a]) >= 2);
                assert(s1.to_multiset().contains(s2[a]));
                assert(s1.to_multiset().count(s2[a]) == 1);
            } else {
                assert(s2.contains(s2[a]));
                assert(s2.contains(s2[b]));
                assert(s2.to_multiset().count(s2[a]) > 0);
                assert(s2.to_multiset().count(s2[b]) > 0);
                assert(s1.to_multiset().count(s2[a]) > 0);
                assert(s1.to_multiset().count(s2[b]) > 0);
                assert(s1.contains(s2[a]));
                assert(s1.contains(s2[b]));
                let i = choose|i: int| 0 <= i < s1.len() && s1[i] == s2[a];
                let j = choose|j: int| 0 <= j < s1.len() && s1[j] == s2[b];
                assert(i != j);
                if i < j {
                    assert(s1[i].0 != s1[j].0);
                } else {
                    assert(s1[j].0 != s1[i].0);
                }
            }
        }
    }
}

/// A sparse vector: `indices[k]` carries weight `values[k]`.
pub struct SparseVector {
    pub indices: Vec<DimId>,
    pub values: Vec<VectorElement>,
}

impl SparseVector {
    /// The (index, value) pairs the vector stands for, in stored order.
    pub open spec fn pairs(&self) -> Seq<(DimId, VectorElement)> {
        Seq::new(self.indices@.len(), |k: int| (self.indices@[k], self.values@[k]))
    }

    /// Structurally sound and bounded: one value per index, every value
    /// small enough for exact fixed-width scoring, and no index repeated.
    pub open spec fn valid(&self) -> bool {
        &&& self.indices@.len() == self.values@.len()
        &&& self.indices@.len() <= 0x1_0000_0000
        &&& forall|k: int|
            0 <= k < self.values@.len() ==> -VALUE_LIMIT <= #[trigger] self.values@[k]
                <= VALUE_LIMIT
        &&& forall|j: int, k: int|
            0 <= j < k < self.indices@.len() ==> self.indices@[j] != self.indices@[k]
    }

    /// Indices strictly increase: sorted and free of duplicates.
    pub open spec fn sorted(&self) -> bool {
        forall|j: int, k: int|
            0 <= j < k < self.indices@.len() ==> self.indices@[j] < self.indices@[k]
    }

    /// Build a sparse vector from parallel index and value lists.
    pub fn new(indices: Vec<DimId>, values: Vec<VectorElement>) -> (r: SparseVector)
        ensures
            r.indices@ == indices@,
            r.values@ == values@,
    {
        SparseVector { indices, values }
    }

    /// Runtime check of `valid`: equal lengths, bounded values, no
    /// duplicate index.
    pub fn is_valid(&self) -> (r: bool)
        ensures
            r == self.valid(),
    {
        if self.indices.len() != self.values.len() {
            return false;
        }
        if (self.indices.len() as u64) > 0x1_0000_0000u64 {
            return false;
        }
        let n = self.values.len();
        let mut k: usize = 0;
        while k < n
            invariant
                n == self.values@.len(),
                k <= n,
                forall|i: int|
                    0 <= i < k ==> -VALUE_LIMIT <= #[trigger] self.values@[i] <= VALUE_LIMIT,
            decreases n - k,
        {
            let v = self.values[k];
            if v < -VALUE_LIMIT || v > VALUE_LIMIT {
                return false;
            }
            k += 1;
        }
        let mut j: usize = 0;
        while j < n
            invariant
                n == self.values@.len(),
                n == self.indices@.len(),
                n <= 0x1_0000_0000,
                forall|i: int|
                    0 <= i < n ==> -VALUE_LIMIT <= #[trigger] self.values@[i] <= VALUE_LIMIT,
                j <= n,
                forall|a: int, b: int|
                    0 <= a < b < n && a < j ==> self.indices@[a] != self.indices@[b],
            decreases n - j,
        {
            let mut k2: usize = j + 1;
            while k2 < n
                invariant
                    n == self.indices@.len(),
                    j + 1 <= k2 <= n,
                    j < n,
                    forall|b: int| j < b < k2 ==> self.indices@[j as int] != self.indices@[b],
                decreases n - k2,
            {
                if self.indices[j] == self.indices[k2] {
                    return false;
                }
                k2 += 1;
            }
            j += 1;
        }
        true
    }

    /// Runtime check of `sorted`: indices strictly increase.
    #[verifier::loop_isolation(false)]
    pub fn is_sorted(&self) -> (r: bool)
        ensures
            r == self.sorted(),
    {
        let n = self.indices.len();
        if n == 0 {
            return true;
        }
        let mut k: usize = 1;
        while k < n
            invariant
                1 <= k <= n,
                forall|a: int, b: int|
                    0 <= a < b < k ==> self.indices@[a] < self.indices@[b],
            decreases n - k,
        {
            if self.indices[k - 1] >= self.indices[k] {
                return false;
            }
            proof {
                assert forall|a: int, b: int|
                    0 <= a < b < k + 1 implies self.indices@[a] < self.indices@[b] by {
                    if b == k as int && a < k - 1 {
                        assert(self.indices@[a] < self.indices@[k - 1]);
                    }
                }
            }
            k += 1;
        }
        true
    }

    /// Sort the pairs by index, ascending. The pairs themselves are
    /// kept (as a multiset); a vector with distinct indices comes out
    /// strictly sorted.
    pub fn sort_by_indices(&mut self)
        requires
            old(self).indices@.len() == old(self).values@.len(),
        ensures
            final(self).indices@.len() == final(self).values@.len(),
            final(self).pairs().to_multiset() == old(self).pairs().to_multiset(),
            pairs_nondecreasing(final(self).pairs()),
            old(self).valid() ==> final(self).valid() && final(self).sorted(),
    {
        let mut pv = zip_pairs(&self.indices, &self.values);
        proof {
            assert(pv@ =~= self.pairs());
        }
        sort_pairs(&mut pv);
        let (indices, values) = unzip_pairs(&pv);
        let ghost orig = *self;
        self.indices = indices;
        self.values = values;
        proof {
            assert(self.pairs() =~= pv@);
            if orig.valid() {
                lemma_perm_distinct_indices(orig.pairs(), self.pairs());
                assert forall|a: int, b: int|
                    0 <= a < b < self.indices@.len() implies self.indices@[a]
                    < self.indices@[b] by {
                    assert(self.pairs()[a].0 <= self.pairs()[b].0);
                    assert(self.pairs()[a].0 != self.pairs()[b].0);
                }
                assert forall|k: int|
                    0 <= k < self.values@.len() implies -VALUE_LIMIT <= #[trigger] self.values@[k]
                    <= VALUE_LIMIT by {
                    assert(self.pairs()[k].1 == self.values@[k]);
                    assert(self.pairs().to_multiset().contains(self.pairs()[k]));
                    assert(orig.pairs().contains(self.pairs()[k]));
                    let i = choose|i: int|
                        0 <= i < orig.pairs().len() && orig.pairs()[i] == self.pairs()[k];
                    assert(orig.values@[i] == orig.pairs()[i].1);
                }
            }
        }
    }

    /// The dot-product similarity of two sorted sparse vectors, merged
    /// index-wise and clamped to the score range. `None` means the two
    /// vectors share no index at all.
    #[verifier::loop_isolation(false)]
    pub fn score(&self, other: &SparseVector) -> (r: Option<i64>)
        requires
            self.valid(),
            self.sorted(),
            other.valid(),
            other.sorted(),
        ensures
            r is Some <==> overlaps(self.pairs(), other.pairs()),
            r matches Some(s) ==> s == clamp_score(dot_pairs(self.pairs(), other.pairs())),
            r is None ==> dot_pairs(self.pairs(), other.pairs()) == 0,
    {
        let na = self.indices.len();
        let nb = other.indices.len();
        let mut i: usize = 0;
        let mut j: usize = 0;
        let mut acc: i128 = 0;
        let mut found: bool = false;
        proof {
            assert(self.pairs().skip(0) =~= self.pairs());
            assert(other.pairs().skip(0) =~= other.pairs());
        }
        while i < na && j < nb
            invariant
                i <= na,
                j <= nb,
                dot_pairs(self.pairs(), other.pairs()) == acc + dot_pairs(
                    self.pairs().skip(i as int),
                    other.pairs().skip(j as int),
                ),
                overlaps(self.pairs(), other.pairs()) == (found || overlaps(
                    self.pairs().skip(i as int),
                    other.pairs().skip(j as int),
                )),
                !found ==> acc == 0,
                -((i + j) as int) * 0x4000_0000_0000_0000 <= acc <= ((i + j) as int)
                    * 0x4000_0000_0000_0000,
            decreases na - i + nb - j,
        {
            let ghost ga = self.pairs().skip(i as int);
            let ghost gb = other.pairs().skip(j as int);
            proof {
                assert(ga[0] == self.pairs()[i as int]);
                assert(gb[0] == other.pairs()[j as int]);
                assert(ga.drop_first() =~= self.pairs().skip(i as int + 1));
                assert(gb.drop_first() =~= other.pairs().skip(j as int + 1));
            }
            let ia = self.indices[i];
            let ib = other.indices[j];
            if ia == ib {
                let av = self.values[i];
                let bv = other.values[j];
                proof {
                    assert((av as int) * (bv as int) <= 0x4000_0000_0000_0000 && -(
                    0x4000_0000_0000_0000) <= (av as int) * (bv as int)) by (nonlinear_arith)
                        requires
                            -VALUE_LIMIT <= av <= VALUE_LIMIT,
                            -VALUE_LIMIT <= bv <= VALUE_LIMIT,
                    ;
                    assert(((i + j) as int + 1) * 0x4000_0000_0000_0000 <= 0x2_0000_0001
                        * 0x4000_0000_0000_0000) by (nonlinear_arith)
                        requires
                            (i + j) as int + 1 <= 0x2_0000_0001,
                    ;
                }
                let prod: i128 = (av as i128) * (bv as i128);
                acc = acc + prod;
                found = true;
                proof {
                    assert(acc <= ((i + j) as int + 2) * 0x4000_0000_0000_0000 && -(((i + j) as int
                        + 2) * 0x4000_0000_0000_0000) <= acc) by (nonlinear_arith)
                        requires
                            acc <= ((i + j) as int) * 0x4000_0000_0000_0000 + 0x4000_0000_0000_0000,
                            -(((i + j) as int) * 0x4000_0000_0000_0000 + 0x4000_0000_0000_0000)
                                <= acc,
                    ;
                }
                i += 1;
                j += 1;
            } else if ia < ib {
                i += 1;
            } else {
                j += 1;
            }
        }
        proof {
            if i >= na {
                assert(self.pairs().skip(i as int).len() == 0);
            } else {
                assert(other.pairs().skip(j as int).len() == 0);
            }
        }
        if found {
            let r: i64 = if acc > (i64::MAX as i128) {
                i64::MAX
            } else if acc < (i64::MIN as i128) {
                i64::MIN
            } else {
                acc as i64
            };
            Some(r)
        } else {
            None
        }
    }
}

/// Zip parallel index and value lists into one pair list.
fn zip_pairs(indices: &Vec<DimId>, values: &Vec<VectorElement>) -> (r: Vec<(
    DimId,
    VectorElement,
)>)
    requires
        indices@.len() == values@.len(),
    ensures
        r@.len() == indices@.len(),
        forall|k: int| 0 <= k < r@.len() ==> r@[k] == (indices@[k], values@[k]),
{
    let n = indices.len();
    let mut out: Vec<(DimId, VectorElement)> = Vec::new();
    let mut k: usize = 0;
    while k < n
        invariant
            n == indices@.len(),
            n == values@.len(),
            k <= n,
            out@.len() == k,
            forall|q: int| 0 <= q < k ==> out@[q] == (indices@[q], values@[q]),
        decreases n - k,
    {
        out.push((indices[k], values[k]));
        k += 1;
    }
    out
}

/// Unzip a pair list into parallel index and value lists.
fn unzip_pairs(pairs: &Vec<(DimId, VectorElement)>) -> (r: (Vec<DimId>, Vec<VectorElement>))
    ensures
        r.0@.len() == pairs@.len(),
        r.1@.len() == pairs@.len(),
        forall|k: int| 0 <= k < pairs@.len() ==> (#[trigger] pairs@[k]) == (r.0@[k], r.1@[k]),
{
    let n = pairs.len();
    let mut indices: Vec<DimId> = Vec::new();
    let mut values: Vec<VectorElement> = Vec::new();
    let mut k: usize = 0;
    while k < n
        invariant
            n == pairs@.len(),
            k <= n,
            indices@.len() == k,
            values@.len() == k,
            forall|q: int| 0 <= q < k ==> (#[trigger] pairs@[q]) == (indices@[q], values@[q]),
        decreases n - k,
    {
        let p = pairs[k];
        indices.push(p.0);
        values.push(p.1);
        k += 1;
    }
    (indices, values)
}

/// Insertion sort of a pair list by index, ascending; keeps the pairs
/// as a multiset.
#[verifier::loop_isolation(false)]
fn sort_pairs(v: &mut Vec<(DimId, VectorElement)>)
    ensures
        final(v)@.len() == old(v)@.len(),
        final(v)@.to_multiset() == old(v)@.to_multiset(),
        pairs_nondecreasing(final(v)@),
{
    let ghost orig = v@;
    let n = v.len();
    if n == 0 {
        return;
    }
    let mut i: usize = 1;
    while i < n
        invariant
            n == v@.len(),
            1 <= i <= n,
            v@.to_multiset() == orig.to_multiset(),
            forall|a: int, b: int| 0 <= a < b < i ==> (#[trigger] v@[a]).0 <= (#[trigger] v@[b]).0,
        decreases n - i,
    {
        let x = v[i];
        let mut j: usize = i;
        while j > 0 && v[j - 1].0 > x.0
            invariant
                j <= i,
                forall|k: int| j <= k < i ==> (#[trigger] v@[k]).0 > x.0,
            decreases j,
        {
            j -= 1;
        }
        let ghost before = v@;
        let y = v.remove(i);
        v.insert(j, y);
        proof {
            assert(before.remove(i as int).to_multiset() == before.to_multiset().remove(
                before[i as int],
            ));
            assert(v@.to_multiset() == before.remove(i as int).to_multiset().insert(y));
            assert(v@.to_multiset() =~= before.to_multiset());
            assert forall|a: int, b: int|
                0 <= a < b < i + 1 implies (#[trigger] v@[a]).0 <= (#[trigger] v@[b]).0 by {
                if b < j {
                    assert(v@[a] == before[a] && v@[b] == before[b]);
                } else if b == j {
                    assert(v@[b] == x);
                    assert(v@[a] == before[a]);
                    assert(before[j as int - 1].0 <= x.0);
                    if a < j - 1 {
                        assert(before[a].0 <= before[j as int - 1].0);
                    }
                } else {
                    assert(v@[b] == before[b - 1]);
                    if a < j {
                        assert(v@[a] == before[a]);
                        if b - 1 >= i {
                            assert(before[b - 1] == x);
                        }
                    } else if a == j {
                        assert(v@[a] == x);
                        assert(before[b - 1].0 > x.0 || b - 1 >= i);
                        if b - 1 >= i {
                            assert(before[b - 1] == x);
                        }
                    } else {
                        assert(v@[a] == before[a - 1]);
                        if b - 1 >= i {
                            assert(before[b - 1] == x);
                            assert(before[a - 1].0 > x.0 || a - 1 < i);
                        }
                    }
                }
            }
        }
        i += 1;
    }
}

} // verus!
