//! Vector values: dense or sparse, owned or borrowed.
//!
//! A value used on a scoring hot path is borrowed from memory owned
//! elsewhere; a value meant for storage is owned. Both modes stand for
//! the same mathematical vector, and callers of the read-only API
//! cannot observe which mode an entry is in.

use vstd::prelude::*;

use crate::sparse_vector::{SparseVector, VectorElement};

verus! {

/// A fully owned vector value.
pub enum Vector {
    Dense(Vec<VectorElement>),
    Sparse(SparseVector),
}

/// A read-only view of a vector value owned elsewhere.
pub enum VectorRef<'a> {
    Dense(&'a [VectorElement]),
    Sparse(&'a SparseVector),
}

/// A vector entry that is either owned or a borrowed view.
pub enum CowValue<'a> {
    DenseOwned(Vec<VectorElement>),
    DenseBorrowed(&'a [VectorElement]),
    SparseOwned(SparseVector),
    SparseBorrowed(&'a SparseVector),
}

/// The mathematical content of a vector value, independent of kind of
/// ownership: a dense component sequence or a sparse pair sequence.
pub enum VectorData {
    Dense { components: Seq<VectorElement> },
    Sparse { pairs: Seq<(u32, VectorElement)> },
}

impl VectorData {
    /// Whether this is dense content.
    pub open spec fn is_dense(self) -> bool {
        match self {
            VectorData::Dense { .. } => true,
            VectorData::Sparse { .. } => false,
        }
    }

    /// The dense components (meaningful when `is_dense`).
    pub open spec fn dense_components(self) -> Seq<VectorElement> {
        match self {
            VectorData::Dense { components } => components,
            VectorData::Sparse { .. } => Seq::empty(),
        }
    }
}

impl Vector {
    /// The content this owned value stands for.
    pub open spec fn data(&self) -> VectorData {
        match self {
            Vector::Dense(v) => VectorData::Dense { components: v@ },
            Vector::Sparse(v) => VectorData::Sparse { pairs: v.pairs() },
        }
    }
}

impl<'a> VectorRef<'a> {
    /// The content the viewed value stands for.
    pub open spec fn data(&self) -> VectorData {
        match self {
            VectorRef::Dense(v) => VectorData::Dense { components: v@ },
            VectorRef::Sparse(v) => VectorData::Sparse { pairs: v.pairs() },
        }
    }
}

impl<'a> CowValue<'a> {
    /// The content of the entry; a borrowed view and its owned
    /// counterpart have equal data.
    pub open spec fn data(&self) -> VectorData {
        match self {
            CowValue::DenseOwned(v) => VectorData::Dense { components: v@ },
            CowValue::DenseBorrowed(v) => VectorData::Dense { components: v@ },
            CowValue::SparseOwned(v) => VectorData::Sparse { pairs: v.pairs() },
            CowValue::SparseBorrowed(v) => VectorData::Sparse { pairs: v.pairs() },
        }
    }

    /// Whether the entry owns its data (as opposed to holding a
    /// borrowed view).
    pub open spec fn is_owned(&self) -> bool {
        match self {
            CowValue::DenseOwned(..) => true,
            CowValue::SparseOwned(..) => true,
            CowValue::DenseBorrowed(..) => false,
            CowValue::SparseBorrowed(..) => false,
        }
    }

    /// Materialize a fully owned copy; borrowed views are cloned here.
    pub fn to_owned(self) -> (r: Vector)
        ensures
            r.data() == self.data(),
    {
        match self {
            CowValue::DenseOwned(v) => Vector::Dense(v),
            CowValue::DenseBorrowed(v) => Vector::Dense(clone_components(v)),
            CowValue::SparseOwned(v) => Vector::Sparse(v),
            CowValue::SparseBorrowed(v) => Vector::Sparse(clone_sparse(v)),
        }
    }

    /// A read-only view of the entry, whichever mode it is in.
    pub fn as_vec_ref(&self) -> (r: VectorRef<'_>)
        ensures
            r.data() == self.data(),
    {
        match self {
            CowValue::DenseOwned(v) => VectorRef::Dense(v.as_slice()),
            CowValue::DenseBorrowed(v) => VectorRef::Dense(v),
            CowValue::SparseOwned(v) => VectorRef::Sparse(v),
            CowValue::SparseBorrowed(v) => VectorRef::Sparse(v),
        }
    }
}

impl<'a> Default for CowValue<'a> {
    /// An empty owned dense value.
    fn default() -> (r: Self)
        ensures
            r.data() == (VectorData::Dense { components: Seq::<VectorElement>::empty() }),
    {
        CowValue::DenseOwned(Vec::new())
    }
}

/// Copy a dense component slice into an owned list.
pub fn clone_components(v: &[VectorElement]) -> (r: Vec<VectorElement>)
    ensures
        r@ == v@,
{
    let mut out: Vec<VectorElement> = Vec::new();
    let n = v.len();
    let mut k: usize = 0;
    while k < n
        invariant
            n == v@.len(),
            k <= n,
            out@ == v@.subrange(0, k as int),
        decreases n - k,
    {
        out.push(v[k]);
        k += 1;
    }
    proof {
        assert(out@ == v@.subrange(0, n as int));
        assert(v@.subrange(0, n as int) == v@);
    }
    out
}

/// Copy a sparse vector into an owned one with the same pairs.
pub fn clone_sparse(v: &SparseVector) -> (r: SparseVector)
    ensures
        r.indices@ == v.indices@,
        r.values@ == v.values@,
        r.pairs() == v.pairs(),
{
    let indices = clone_dims(v.indices.as_slice());
    let values = clone_components(v.values.as_slice());
    let r = SparseVector { indices, values };
    proof {
        assert(r.pairs() =~= v.pairs());
    }
    r
}

/// Copy a dimension index slice into an owned list.
pub fn clone_dims(v: &[u32]) -> (r: Vec<u32>)
    ensures
        r@ == v@,
{
    let mut out: Vec<u32> = Vec::new();
    let n = v.len();
    let mut k: usize = 0;
    while k < n
        invariant
            n == v@.len(),
            k <= n,
            out@ == v@.subrange(0, k as int),
        decreases n - k,
    {
        out.push(v[k]);
        k += 1;
    }
    proof {
        assert(out@ == v@.subrange(0, n as int));
        assert(v@.subrange(0, n as int) == v@);
    }
    out
}

} // verus!
