//! The vector-storage backend boundary: read-only access to stored
//! sparse vectors by point offset, plus a small in-memory backend.

use vstd::prelude::*;

use crate::sparse_vector::SparseVector;
use crate::PointOffsetType;

verus! {

/// Read access to stored sparse vectors by point offset. Offsets are
/// produced and validated by an external candidate-generation layer.
pub trait SparseVectorStorage {
    /// The stored vectors as a mapping from offset to vector.
    spec fn sparse_map(&self) -> Map<PointOffsetType, SparseVector>;

    /// The stored vector at the given offset, if any.
    fn get_sparse(&self, idx: PointOffsetType) -> (r: Option<&SparseVector>)
        ensures
            match r {
                Some(v) => self.sparse_map().dom().contains(idx) && *v == self.sparse_map()[idx],
                None => !self.sparse_map().dom().contains(idx),
            },
    ;
}

/// A backend fit for scoring: every stored vector is structurally
/// sound and sorted by index.
pub open spec fn storage_scorable(m: Map<PointOffsetType, SparseVector>) -> bool {
    forall|k: PointOffsetType|
        m.dom().contains(k) ==> (#[trigger] m[k]).valid() && m[k].sorted()
}

/// Storing one more sound, sorted vector keeps a backend fit for
/// scoring.
pub proof fn lemma_scorable_insert(m: Map<PointOffsetType, SparseVector>, idx: PointOffsetType, v: SparseVector)
    requires
        storage_scorable(m),
        v.valid(),
        v.sorted(),
    ensures
        storage_scorable(m.insert(idx, v)),
{
    assert forall|k: PointOffsetType| m.insert(idx, v).dom().contains(k) implies (#[trigger] m.insert(
        idx,
        v,
    )[k]).valid() && m.insert(idx, v)[k].sorted() by {
        if k != idx {
            assert(m.dom().contains(k));
            assert(m.insert(idx, v)[k] == m[k]);
        }
    }
}

/// A simple in-memory sparse-vector backend, offset-indexed.
pub struct InMemorySparseStorage {
    vectors: Vec<Option<SparseVector>>,
}

impl InMemorySparseStorage {
    /// An empty backend.
    pub fn new() -> (r: Self)
        ensures
            r.sparse_map() == Map::<u32, SparseVector>::empty(),
            storage_scorable(r.sparse_map()),
    {
        let r = InMemorySparseStorage { vectors: Vec::new() };
        proof {
            assert(r.sparse_map() =~= Map::<u32, SparseVector>::empty());
        }
        r
    }

    /// Store a vector at an offset, provided it is sound and sorted:
    /// the backend accepts only vectors that scoring can rely on.
    /// Returns whether the vector was accepted.
    #[verifier::loop_isolation(false)]
    pub fn insert_vector(&mut self, idx: PointOffsetType, v: SparseVector) -> (r: bool)
        ensures
            r == (v.valid() && v.sorted()),
            r ==> final(self).sparse_map() == old(self).sparse_map().insert(idx, v),
            !r ==> *final(self) == *old(self),
            storage_scorable(old(self).sparse_map()) && r ==> storage_scorable(
                final(self).sparse_map(),
            ),
    {
        if !v.is_valid() {
            return false;
        }
        if !v.is_sorted() {
            return false;
        }
        let ghost orig = self.vectors@;
        let target = idx as usize;
        while self.vectors.len() <= target
            invariant
                forall|k: int|
                    0 <= k < self.vectors@.len() ==> #[trigger] self.vectors@[k] == (if k
                        < orig.len() {
                        orig[k]
                    } else {
                        Option::<SparseVector>::None
                    }),
                self.vectors@.len() >= orig.len(),
            decreases target + 1 - self.vectors.len(),
        {
            self.vectors.push(None);
        }
        let ghost grown = self.vectors@;
        self.vectors[target] = Some(v);
        proof {
            assert(self.sparse_map() =~= old(self).sparse_map().insert(idx, v));
            if storage_scorable(old(self).sparse_map()) {
                lemma_scorable_insert(old(self).sparse_map(), idx, v);
            }
        }
        true
    }
}

impl SparseVectorStorage for InMemorySparseStorage {
    /// Offsets whose slot holds a vector, mapped to that vector.
    closed spec fn sparse_map(&self) -> Map<PointOffsetType, SparseVector> {
        Map::new(
            |k: PointOffsetType| 0 <= k < self.vectors@.len() && self.vectors@[k as int] is Some,
            |k: PointOffsetType| self.vectors@[k as int].unwrap(),
        )
    }

    fn get_sparse(&self, idx: PointOffsetType) -> (r: Option<&SparseVector>) {
        let i = idx as usize;
        if i < self.vectors.len() {
            match &self.vectors[i] {
                Some(v) => Some(v),
                None => None,
            }
        } else {
            None
        }
    }
}

} // verus!
