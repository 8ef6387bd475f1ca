//! Backing store of the named-vector map.
//!
//! The store is a `tinyvec::TinyVec`: a vector that keeps a handful of
//! entries inline and spills to the heap only past that, which fits the
//! common case of one to four named vectors per point. The store is
//! reached only through the trusted wrappers below; everything built on
//! top of them is verified against `store_entries`.

use vstd::prelude::*;

use crate::vectors::CowValue;

verus! {

/// One named entry of the inline map.
#[derive(Default)]
pub struct Slot<'a> {
    pub name: String,
    pub value: CowValue<'a>,
}

/// Backing store: up to four entries inline, the rest on the heap.
/// Opaque to the verifier; reached only through the wrappers below.
#[verifier::external_body]
pub struct Store<'a> {
    inner: tinyvec::TinyVec<[Slot<'a>; 4]>,
}

/// The entries a backing store holds, in order.
pub uninterp spec fn store_entries(s: Store) -> Seq<Slot>;

/// Relies on tinyvec::TinyVec::new: an empty vector.
#[verifier::external_body]
pub(crate) fn store_new<'a>() -> (r: Store<'a>)
    ensures
        store_entries(r) == Seq::<Slot<'a>>::empty(),
{
    Store { inner: tinyvec::TinyVec::new() }
}

/// Relies on tinyvec::TinyVec::len: the number of entries.
#[verifier::external_body]
pub(crate) fn store_len<'a>(s: &Store<'a>) -> (r: usize)
    ensures
        r == store_entries(*s).len(),
{
    s.inner.len()
}

/// Relies on tinyvec::TinyVec's Index impl: a reference to entry `i`.
#[verifier::external_body]
pub(crate) fn store_get<'s, 'a>(s: &'s Store<'a>, i: usize) -> (r: &'s Slot<'a>)
    requires
        i < store_entries(*s).len(),
    ensures
        *r == store_entries(*s)[i as int],
{
    &s.inner[i]
}

/// Relies on tinyvec::TinyVec's IndexMut impl: replaces entry `i`.
#[verifier::external_body]
pub(crate) fn store_set<'a>(s: &mut Store<'a>, i: usize, slot: Slot<'a>)
    requires
        i < store_entries(*old(s)).len(),
    ensures
        store_entries(*final(s)) == store_entries(*old(s)).update(i as int, slot),
{
    s.inner[i] = slot;
}

/// Relies on tinyvec::TinyVec::push: appends one entry at the end.
#[verifier::external_body]
pub(crate) fn store_push<'a>(s: &mut Store<'a>, slot: Slot<'a>)
    ensures
        store_entries(*final(s)) == store_entries(*old(s)).push(slot),
{
    s.inner.push(slot);
}

/// Relies on tinyvec::TinyVec's IntoIterator impl: yields the entries
/// in order, consuming the store.
#[verifier::external_body]
pub(crate) fn store_into_vec<'a>(s: Store<'a>) -> (r: Vec<Slot<'a>>)
    ensures
        r@ == store_entries(s),
{
    let mut out = Vec::new();
    for slot in s.inner {
        out.push(slot);
    }
    out
}

} // verus!
