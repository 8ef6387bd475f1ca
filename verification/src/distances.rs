//! Distance strategies: externally supplied, per-name normalization of
//! dense vectors before storage or scoring.
//!
//! The named-vector map is agnostic to which normalization a strategy
//! applies; each strategy states its effect as a spec function and its
//! executable transform is proved against it.

use vstd::prelude::*;

use crate::sparse_vector::VectorElement;

verus! {

/// A distance-specific preprocessing capability for dense vectors.
pub trait DistanceStrategy: Sized {
    /// What preprocessing does to a dense component list.
    spec fn preprocess_spec(&self, components: Seq<VectorElement>) -> Seq<VectorElement>;

    /// Apply the distance-specific normalization to dense components.
    fn preprocess_vector(&self, components: Vec<VectorElement>) -> (r: Vec<VectorElement>)
        ensures
            r@ == self.preprocess_spec(components@),
    ;
}

/// A strategy whose normalization is idempotent: applying it twice is
/// the same as applying it once.
pub open spec fn strategy_idempotent<D: DistanceStrategy>(d: D) -> bool {
    forall|c: Seq<VectorElement>| #[trigger] d.preprocess_spec(d.preprocess_spec(c))
        == d.preprocess_spec(c)
}

/// The stock distances over integer components. None of them rescales
/// components, so their preprocessing is the identity.
pub enum Distance {
    Dot,
    Euclid,
    Manhattan,
}

impl DistanceStrategy for Distance {
    open spec fn preprocess_spec(&self, components: Seq<VectorElement>) -> Seq<VectorElement> {
        components
    }

    fn preprocess_vector(&self, components: Vec<VectorElement>) -> (r: Vec<VectorElement>) {
        components
    }
}

/// Every stock distance is idempotent.
pub proof fn lemma_distance_idempotent(d: Distance)
    ensures
        strategy_idempotent(d),
{
}

} // verus!
