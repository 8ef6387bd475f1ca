//! The named-vector map: an insertion-ordered mapping from string name
//! to a borrowed-or-owned vector value, sized for the common case of
//! very few named vectors per point.
//!
//! Names are unique within a map; insertion order is preserved for
//! iteration but carries no further meaning. Read access never reveals
//! whether an entry is owned or borrowed; `into_owned_map` is the one
//! point where every borrowed entry is cloned.

use vstd::prelude::*;

use crate::distances::{strategy_idempotent, DistanceStrategy};
use crate::sparse_vector::VectorElement;
use crate::tiny_store::{store_entries, store_get, store_into_vec, store_len, store_new,
    store_push, store_set, Slot, Store};
use crate::vectors::{clone_components, CowValue, Vector, VectorData, VectorRef};

verus! {

/// The mapping that a list of dense (name, components) pairs builds up:
/// a later pair overwrites an earlier one with the same name.
pub open spec fn dense_pairs_map(s: Seq<(Seq<char>, Seq<VectorElement>)>) -> Map<
    Seq<char>,
    VectorData,
>
    decreases s.len(),
{
    if s.len() == 0 {
        Map::empty()
    } else {
        dense_pairs_map(s.drop_last()).insert(
            s.last().0,
            VectorData::Dense { components: s.last().1 },
        )
    }
}

/// The (name, components) view of a list of owned dense pairs.
pub open spec fn dense_pairs_view(s: Seq<(String, Vec<VectorElement>)>) -> Seq<
    (Seq<char>, Seq<VectorElement>),
> {
    s.map(|i: int, p: (String, Vec<VectorElement>)| (p.0@, p.1@))
}

/// What one round of preprocessing with strategy `d` does to a slot:
/// dense content is rewritten by the strategy and becomes owned, sparse
/// content is left entirely untouched.
pub open spec fn preprocessed_with<D: DistanceStrategy>(d: D, before: Slot, after: Slot) -> bool {
    &&& after.name@ == before.name@
    &&& (before.value.data() is Sparse ==> after == before)
    &&& (before.value.data() is Dense ==> after.value.data() == (VectorData::Dense {
        components: d.preprocess_spec(before.value.data().dense_components()),
    }) && after.value.is_owned())
}

/// Preprocessing twice with one idempotent strategy is the same as
/// preprocessing once: the second pass changes no slot's content.
pub proof fn lemma_preprocess_idempotent<D: DistanceStrategy>(
    d: D,
    before: Slot,
    mid: Slot,
    after: Slot,
)
    requires
        strategy_idempotent(d),
        preprocessed_with(d, before, mid),
        preprocessed_with(d, mid, after),
    ensures
        after.value.data() == mid.value.data(),
{
    if before.value.data() is Dense {
        let c = before.value.data().dense_components();
        assert(d.preprocess_spec(d.preprocess_spec(c)) == d.preprocess_spec(c));
    }
}

/// No name occurs twice among the slots.
pub open spec fn names_unique(s: Seq<Slot>) -> bool {
    forall|i: int, j: int| 0 <= i < j < s.len() ==> s[i].name@ != s[j].name@
}

/// Some slot carries this name.
pub open spec fn has_name(s: Seq<Slot>, n: Seq<char>) -> bool {
    exists|i: int| 0 <= i < s.len() && s[i].name@ == n
}

/// The index of the slot carrying this name (meaningful when the name
/// is present and names are unique).
pub open spec fn index_of_name(s: Seq<Slot>, n: Seq<char>) -> int {
    choose|i: int| 0 <= i < s.len() && s[i].name@ == n
}

/// The content stored under this name.
pub open spec fn value_of_name(s: Seq<Slot>, n: Seq<char>) -> VectorData {
    s[index_of_name(s, n)].value.data()
}

/// The (name, content) pairs of a slot sequence, in order.
pub open spec fn slots_view(s: Seq<Slot>) -> Seq<(Seq<char>, VectorData)> {
    s.map(|i: int, slot: Slot| (slot.name@, slot.value.data()))
}

/// A slot sequence as a mathematical mapping from name to content.
pub open spec fn slots_map(s: Seq<Slot>) -> Map<Seq<char>, VectorData> {
    Map::new(|n: Seq<char>| has_name(s, n), |n: Seq<char>| value_of_name(s, n))
}

/// With unique names, any slot that matches a name is the slot
/// `index_of_name` picks.
pub proof fn lemma_name_index_unique(s: Seq<Slot>, n: Seq<char>, i: int)
    requires
        names_unique(s),
        0 <= i < s.len(),
        s[i].name@ == n,
    ensures
        has_name(s, n),
        index_of_name(s, n) == i,
        value_of_name(s, n) == s[i].value.data(),
{
    assert(has_name(s, n));
    let j = index_of_name(s, n);
    assert(0 <= j < s.len() && s[j].name@ == n);
    if i < j {
        assert(s[i].name@ != s[j].name@);
    } else if j < i {
        assert(s[j].name@ != s[i].name@);
    }
}

/// Overwriting the slot that carries a name keeps names unique,
/// rewrites that one name in the map view, and updates one pair of the
/// ordered view.
proof fn lemma_update_same_name(orig: Seq<Slot>, s: Slot, i: int)
    requires
        names_unique(orig),
        0 <= i < orig.len(),
        orig[i].name@ == s.name@,
    ensures
        names_unique(orig.update(i, s)),
        slots_map(orig.update(i, s)) == slots_map(orig).insert(s.name@, s.value.data()),
        slots_view(orig.update(i, s)) == slots_view(orig).update(i, (s.name@, s.value.data())),
{
    let now = orig.update(i, s);
    assert forall|a: int, b: int| 0 <= a < b < now.len() implies now[a].name@
        != now[b].name@ by {
        assert(orig[a].name@ != orig[b].name@);
    }
    assert forall|n: Seq<char>| has_name(now, n) implies has_name(orig, n) by {
        let k = choose|k: int| 0 <= k < now.len() && now[k].name@ == n;
        assert(orig[k].name@ == n);
    }
    assert forall|n: Seq<char>| has_name(orig, n) implies has_name(now, n) by {
        let k = choose|k: int| 0 <= k < orig.len() && orig[k].name@ == n;
        assert(now[k].name@ == n);
    }
    assert forall|n: Seq<char>| has_name(now, n) implies value_of_name(now, n)
        == slots_map(orig).insert(s.name@, s.value.data())[n] by {
        let k = choose|k: int| 0 <= k < now.len() && now[k].name@ == n;
        lemma_name_index_unique(now, n, k);
        if n == s.name@ {
            lemma_name_index_unique(now, n, i);
        } else {
            assert(k != i);
            lemma_name_index_unique(orig, n, k);
        }
    }
    assert(slots_map(now) =~= slots_map(orig).insert(s.name@, s.value.data()));
    assert(slots_view(now) =~= slots_view(orig).update(i, (s.name@, s.value.data())));
}

/// Appending a slot with a fresh name keeps names unique, adds that
/// name to the map view, and appends one pair to the ordered view.
proof fn lemma_push_new_name(orig: Seq<Slot>, s: Slot)
    requires
        names_unique(orig),
        !has_name(orig, s.name@),
    ensures
        names_unique(orig.push(s)),
        slots_map(orig.push(s)) == slots_map(orig).insert(s.name@, s.value.data()),
        slots_view(orig.push(s)) == slots_view(orig).push((s.name@, s.value.data())),
{
    let now = orig.push(s);
    assert forall|a: int, b: int| 0 <= a < b < now.len() implies now[a].name@
        != now[b].name@ by {
        if b < orig.len() {
            assert(orig[a].name@ != orig[b].name@);
        } else {
            assert(now[b] == s);
            assert(now[a] == orig[a]);
        }
    }
    assert forall|n: Seq<char>| has_name(now, n) implies slots_map(orig).insert(
        s.name@,
        s.value.data(),
    ).dom().contains(n) by {
        let k = choose|k: int| 0 <= k < now.len() && now[k].name@ == n;
        if k < orig.len() {
            assert(orig[k].name@ == n);
        }
    }
    assert forall|n: Seq<char>| has_name(orig, n) || n == s.name@ implies has_name(
        now,
        n,
    ) by {
        if n == s.name@ {
            assert(now[orig.len() as int].name@ == n);
        } else {
            let k = choose|k: int| 0 <= k < orig.len() && orig[k].name@ == n;
            assert(now[k].name@ == n);
        }
    }
    assert forall|n: Seq<char>| has_name(now, n) implies value_of_name(now, n)
        == slots_map(orig).insert(s.name@, s.value.data())[n] by {
        if n == s.name@ {
            lemma_name_index_unique(now, n, orig.len() as int);
        } else {
            let k = choose|k: int| 0 <= k < now.len() && now[k].name@ == n;
            assert(k < orig.len());
            lemma_name_index_unique(now, n, k);
            lemma_name_index_unique(orig, n, k);
        }
    }
    assert(slots_map(now) =~= slots_map(orig).insert(s.name@, s.value.data()));
    assert(slots_view(now) =~= slots_view(orig).push((s.name@, s.value.data())));
}

/// The mapping that a list of (name, content) pairs builds up when
/// inserted in order: a later pair overwrites an earlier one.
pub open spec fn pairs_map(s: Seq<(Seq<char>, VectorData)>) -> Map<Seq<char>, VectorData>
    decreases s.len(),
{
    if s.len() == 0 {
        Map::empty()
    } else {
        pairs_map(s.drop_last()).insert(s.last().0, s.last().1)
    }
}

/// Round-trip preservation across the ownership boundary: the owned
/// (name, content) pairs a map hands out, re-inserted in order into a
/// fresh map, build exactly the original mapping.
pub proof fn lemma_owned_pairs_rebuild(s: Seq<Slot>)
    requires
        names_unique(s),
    ensures
        pairs_map(slots_view(s)) == slots_map(s),
    decreases s.len(),
{
    if s.len() == 0 {
        assert(pairs_map(slots_view(s)) =~= slots_map(s));
    } else {
        let front = s.drop_last();
        let last = s.last();
        assert(names_unique(front));
        lemma_owned_pairs_rebuild(front);
        assert(!has_name(front, last.name@));
        lemma_push_new_name(front, last);
        assert(front.push(last) =~= s);
        assert(slots_view(s).drop_last() =~= slots_view(front));
        assert(slots_view(s).last() == (last.name@, last.value.data()));
    }
}

/// Inserting a pair and then looking its name up returns exactly the
/// inserted content, whether the value went in owned or borrowed: both
/// insertion paths rewrite the mapping the same way.
pub proof fn lemma_insert_then_get(m: Map<Seq<char>, VectorData>, n: Seq<char>, d: VectorData)
    ensures
        m.insert(n, d).dom().contains(n),
        m.insert(n, d)[n] == d,
{
}

/// A small, insertion-ordered map from vector name to a borrowed or
/// owned vector value.
pub struct NamedVectors<'a> {
    store: Store<'a>,
}

impl<'a> View for NamedVectors<'a> {
    type V = Map<Seq<char>, VectorData>;

    /// The map as a mathematical mapping from name to vector content.
    open spec fn view(&self) -> Map<Seq<char>, VectorData> {
        slots_map(self.entries())
    }
}

impl<'a> NamedVectors<'a> {
    /// The slots of the map, in insertion order.
    pub closed spec fn entries(self) -> Seq<Slot<'a>> {
        store_entries(self.store)
    }

    /// The names of the map, in insertion order.
    pub open spec fn names(self) -> Seq<Seq<char>> {
        self.entries().map(|i: int, slot: Slot<'a>| slot.name@)
    }

    /// The (name, content) pairs of the map, in insertion order.
    pub open spec fn entries_view(self) -> Seq<(Seq<char>, VectorData)> {
        slots_view(self.entries())
    }

    /// Names are unique: the invariant every constructor establishes
    /// and every mutation preserves.
    pub open spec fn wf(self) -> bool {
        names_unique(self.entries())
    }

    /// Whether this name is present.
    pub open spec fn contains_name(self, n: Seq<char>) -> bool {
        has_name(self.entries(), n)
    }

    /// An empty map.
    pub fn new() -> (r: Self)
        ensures
            r.wf(),
            r.entries() == Seq::<Slot<'a>>::empty(),
            r@ == Map::<Seq<char>, VectorData>::empty(),
    {
        let r = NamedVectors { store: store_new() };
        proof {
            assert(r@ =~= Map::<Seq<char>, VectorData>::empty());
        }
        r
    }

    /// A single-entry map holding a borrowed view; the vector data is
    /// not cloned.
    pub fn from_ref(key: &str, value: VectorRef<'a>) -> (r: Self)
        ensures
            r.wf(),
            r.entries_view() == seq![(key@, value.data())],
            r@ == Map::<Seq<char>, VectorData>::empty().insert(key@, value.data()),
    {
        let mut r = NamedVectors::new();
        r.insert_ref(key, value);
        proof {
            assert(r.entries_view() =~= seq![(key@, value.data())]);
        }
        r
    }

    /// Bulk constructor from owned (name, dense components) pairs; a
    /// later pair overwrites an earlier one with the same name.
    #[verifier::loop_isolation(false)]
    pub fn from(pairs: Vec<(String, Vec<VectorElement>)>) -> (r: Self)
        ensures
            r.wf(),
            r@ == dense_pairs_map(dense_pairs_view(pairs@)),
    {
        let ghost pview = dense_pairs_view(pairs@);
        let mut r = NamedVectors::new();
        let n = pairs.len();
        let mut rest = pairs;
        let mut i: usize = 0;
        while i < n
            invariant
                n == pview.len(),
                i <= n,
                rest@.len() + i == n,
                forall|k: int|
                    0 <= k < rest@.len() ==> (#[trigger] rest@[k]).0@ == pview[k + i].0
                        && rest@[k].1@ == pview[k + i].1,
                r.wf(),
                r@ == dense_pairs_map(pview.take(i as int)),
            decreases n - i,
        {
            let p = rest.remove(0);
            r.insert(p.0, Vector::Dense(p.1));
            proof {
                assert(pview.take(i as int + 1).drop_last() =~= pview.take(i as int));
                assert(pview.take(i as int + 1).last() == pview[i as int]);
            }
            i += 1;
        }
        proof {
            assert(pview.take(n as int) =~= pview);
        }
        r
    }

    /// Bulk constructor from an owned mapping, given as dense pairs.
    pub fn from_map(map: Vec<(String, Vec<VectorElement>)>) -> (r: Self)
        ensures
            r.wf(),
            r@ == dense_pairs_map(dense_pairs_view(map@)),
    {
        Self::from(map)
    }

    /// Bulk constructor borrowing every dense component list from the
    /// given mapping, without cloning vector data.
    #[verifier::loop_isolation(false)]
    pub fn from_map_ref(map: &'a Vec<(String, Vec<VectorElement>)>) -> (r: Self)
        ensures
            r.wf(),
            r@ == dense_pairs_map(dense_pairs_view(map@)),
    {
        let ghost pview = dense_pairs_view(map@);
        let mut r = NamedVectors::new();
        let n = map.len();
        let mut i: usize = 0;
        while i < n
            invariant
                n == pview.len(),
                n == map@.len(),
                i <= n,
                r.wf(),
                r@ == dense_pairs_map(pview.take(i as int)),
            decreases n - i,
        {
            let pair = &map[i];
            r.insert_ref(pair.0.as_str(), VectorRef::Dense(pair.1.as_slice()));
            proof {
                assert(pview.take(i as int + 1).drop_last() =~= pview.take(i as int));
                assert(pview.take(i as int + 1).last() == pview[i as int]);
            }
            i += 1;
        }
        proof {
            assert(pview.take(n as int) =~= pview);
        }
        r
    }

    /// Rewrite every dense entry in place through the distance strategy
    /// chosen for its name; sparse entries are left untouched. This is
    /// the one operation that turns a borrowed dense entry into an
    /// owned one.
    #[verifier::loop_isolation(false)]
    pub fn preprocess<D: DistanceStrategy, F: Fn(&str) -> D>(&mut self, distance_map: F)
        requires
            old(self).wf(),
            forall|s: &str| call_requires(distance_map, (s,)),
        ensures
            final(self).wf(),
            final(self).entries().len() == old(self).entries().len(),
            forall|k: int|
                0 <= k < old(self).entries().len() ==> (#[trigger] final(self).entries()[k]).name@
                    == old(self).entries()[k].name@,
            forall|k: int|
                0 <= k < old(self).entries().len() && (#[trigger] old(
                    self,
                ).entries()[k]).value.data() is Sparse ==> final(self).entries()[k] == old(
                    self,
                ).entries()[k],
            forall|k: int|
                0 <= k < old(self).entries().len() && (#[trigger] old(
                    self,
                ).entries()[k]).value.data() is Dense ==> exists|s: &str, d: D|
                    s@ == old(self).entries()[k].name@ && #[trigger] call_ensures(
                        distance_map,
                        (s,),
                        d,
                    ) && preprocessed_with(d, old(self).entries()[k], final(self).entries()[k]),
    {
        let ghost orig = self.entries();
        let n = store_len(&self.store);
        let mut i: usize = 0;
        while i < n
            invariant
                n == self.entries().len(),
                orig.len() == n,
                i <= n,
                forall|k: int| i <= k < n ==> self.entries()[k] == orig[k],
                forall|k: int|
                    0 <= k < i ==> (#[trigger] self.entries()[k]).name@ == orig[k].name@,
                forall|k: int|
                    0 <= k < i && (#[trigger] orig[k]).value.data() is Sparse
                        ==> self.entries()[k] == orig[k],
                forall|k: int|
                    0 <= k < i && (#[trigger] orig[k]).value.data() is Dense ==> exists|
                        s: &str,
                        d: D,
                    |
                        s@ == orig[k].name@ && #[trigger] call_ensures(distance_map, (s,), d)
                            && preprocessed_with(d, orig[k], self.entries()[k]),
            decreases n - i,
        {
            let slot = store_get(&self.store, i);
            let comps_opt: Option<Vec<VectorElement>> = match &slot.value {
                CowValue::DenseOwned(v) => Some(clone_components(v.as_slice())),
                CowValue::DenseBorrowed(s2) => Some(clone_components(s2)),
                CowValue::SparseOwned(_) => None,
                CowValue::SparseBorrowed(_) => None,
            };
            match comps_opt {
                Some(comps) => {
                    let name2 = slot.name.clone();
                    let name_str = name2.as_str();
                    let d = distance_map(name_str);
                    let newv = d.preprocess_vector(comps);
                    store_set(
                        &mut self.store,
                        i,
                        Slot { name: name2, value: CowValue::DenseOwned(newv) },
                    );
                    proof {
                        assert(preprocessed_with(d, orig[i as int], self.entries()[i as int]));
                        assert(call_ensures(distance_map, (name_str,), d));
                    }
                },
                None => {},
            }
            i += 1;
        }
    }

    /// Number of named vectors.
    pub fn len(&self) -> (r: usize)
        ensures
            r == self.entries().len(),
    {
        store_len(&self.store)
    }

    /// Whether the map has no entries.
    pub fn is_empty(&self) -> (r: bool)
        ensures
            r == (self.entries().len() == 0),
    {
        self.len() == 0
    }

    /// Whether a vector is stored under this name.
    pub fn contains_key(&self, key: &str) -> (r: bool)
        ensures
            r == self.contains_name(key@),
    {
        let n = store_len(&self.store);
        let mut i: usize = 0;
        while i < n
            invariant
                n == self.entries().len(),
                i <= n,
                forall|k: int| 0 <= k < i ==> (#[trigger] self.entries()[k]).name@ != key@,
            decreases n - i,
        {
            let slot = store_get(&self.store, i);
            if str_eq(slot.name.as_str(), key) {
                return true;
            }
            i += 1;
        }
        false
    }

    /// A read-only view of the vector stored under this name,
    /// independent of whether the entry is owned or borrowed.
    pub fn get(&self, key: &str) -> (r: Option<VectorRef<'_>>)
        requires
            self.wf(),
        ensures
            match r {
                Some(v) => self.contains_name(key@) && v.data() == self@[key@],
                None => !self.contains_name(key@),
            },
    {
        let n = store_len(&self.store);
        let mut i: usize = 0;
        while i < n
            invariant
                n == self.entries().len(),
                i <= n,
                self.wf(),
                forall|k: int| 0 <= k < i ==> (#[trigger] self.entries()[k]).name@ != key@,
            decreases n - i,
        {
            let slot = store_get(&self.store, i);
            if str_eq(slot.name.as_str(), key) {
                proof {
                    lemma_name_index_unique(self.entries(), key@, i as int);
                }
                return Some(slot.value.as_vec_ref());
            }
            i += 1;
        }
        None
    }

    /// The names, in insertion order.
    pub fn keys(&self) -> (r: Vec<&str>)
        ensures
            r@.len() == self.entries().len(),
            forall|k: int| 0 <= k < r@.len() ==> (#[trigger] r@[k])@ == self.names()[k],
    {
        let n = store_len(&self.store);
        let mut out: Vec<&str> = Vec::new();
        let mut i: usize = 0;
        while i < n
            invariant
                n == self.entries().len(),
                i <= n,
                out@.len() == i,
                forall|k: int| 0 <= k < i ==> (#[trigger] out@[k])@ == self.names()[k],
            decreases n - i,
        {
            let slot = store_get(&self.store, i);
            out.push(slot.name.as_str());
            i += 1;
        }
        out
    }

    /// The (name, vector view) pairs in insertion order, without
    /// cloning any vector data.
    pub fn iter(&self) -> (r: Vec<(&str, VectorRef<'_>)>)
        ensures
            r@.len() == self.entries_view().len(),
            forall|k: int|
                0 <= k < r@.len() ==> (#[trigger] r@[k]).0@ == self.entries_view()[k].0
                    && r@[k].1.data() == self.entries_view()[k].1,
    {
        let n = store_len(&self.store);
        let mut out: Vec<(&str, VectorRef<'_>)> = Vec::new();
        let mut i: usize = 0;
        while i < n
            invariant
                n == self.entries().len(),
                i <= n,
                out@.len() == i,
                forall|k: int|
                    0 <= k < i ==> (#[trigger] out@[k]).0@ == self.entries_view()[k].0
                        && out@[k].1.data() == self.entries_view()[k].1,
            decreases n - i,
        {
            let slot = store_get(&self.store, i);
            out.push((slot.name.as_str(), slot.value.as_vec_ref()));
            i += 1;
        }
        out
    }

    /// Insert or overwrite by owned name and owned vector.
    pub fn insert(&mut self, name: String, vector: Vector)
        requires
            old(self).wf(),
        ensures
            final(self).wf(),
            final(self)@ == old(self)@.insert(name@, vector.data()),
            old(self).contains_name(name@) ==> final(self).entries_view()
                == old(self).entries_view().update(
                index_of_name(old(self).entries(), name@),
                (name@, vector.data()),
            ),
            !old(self).contains_name(name@) ==> final(self).entries_view()
                == old(self).entries_view().push((name@, vector.data())),
    {
        let value = match vector {
            Vector::Dense(v) => CowValue::DenseOwned(v),
            Vector::Sparse(v) => CowValue::SparseOwned(v),
        };
        self.insert_slot(Slot { name, value });
    }

    /// Insert or overwrite by borrowed name and borrowed vector view;
    /// the view's lifetime bounds the map's validity.
    pub fn insert_ref(&mut self, name: &str, vector: VectorRef<'a>)
        requires
            old(self).wf(),
        ensures
            final(self).wf(),
            final(self)@ == old(self)@.insert(name@, vector.data()),
            old(self).contains_name(name@) ==> final(self).entries_view()
                == old(self).entries_view().update(
                index_of_name(old(self).entries(), name@),
                (name@, vector.data()),
            ),
            !old(self).contains_name(name@) ==> final(self).entries_view()
                == old(self).entries_view().push((name@, vector.data())),
    {
        let value = match vector {
            VectorRef::Dense(v) => CowValue::DenseBorrowed(v),
            VectorRef::Sparse(v) => CowValue::SparseBorrowed(v),
        };
        self.insert_slot(Slot { name: name.to_owned(), value });
    }

    /// Shared insert path: overwrite the slot with the same name, or
    /// append at the end.
    #[verifier::loop_isolation(false)]
    fn insert_slot(&mut self, slot: Slot<'a>)
        requires
            old(self).wf(),
        ensures
            final(self).wf(),
            final(self)@ == old(self)@.insert(slot.name@, slot.value.data()),
            old(self).contains_name(slot.name@) ==> final(self).entries_view()
                == old(self).entries_view().update(
                index_of_name(old(self).entries(), slot.name@),
                (slot.name@, slot.value.data()),
            ),
            !old(self).contains_name(slot.name@) ==> final(self).entries_view()
                == old(self).entries_view().push((slot.name@, slot.value.data())),
    {
        let ghost orig = self.entries();
        let n = store_len(&self.store);
        let mut i: usize = 0;
        while i < n
            invariant
                n == self.entries().len(),
                i <= n,
                self.wf(),
                self.entries() == orig,
                forall|k: int| 0 <= k < i ==> (#[trigger] self.entries()[k]).name@ != slot.name@,
            decreases n - i,
        {
            let here = store_get(&self.store, i);
            if str_eq(here.name.as_str(), slot.name.as_str()) {
                proof {
                    lemma_name_index_unique(orig, slot.name@, i as int);
                    lemma_update_same_name(orig, slot, i as int);
                }
                store_set(&mut self.store, i, slot);
                return;
            }
            i += 1;
        }
        proof {
            lemma_push_new_name(orig, slot);
        }
        store_push(&mut self.store, slot);
    }

    /// Consume the map into owned (name, vector) pairs; every borrowed
    /// entry is cloned here, and this is the point where zero-copy
    /// entries end and persistence-ready data begins.
    pub fn into_owned_map(self) -> (r: Vec<(String, Vector)>)
        ensures
            r@.len() == self.entries_view().len(),
            forall|k: int|
                0 <= k < r@.len() ==> (#[trigger] r@[k]).0@ == self.entries_view()[k].0
                    && r@[k].1.data() == self.entries_view()[k].1,
    {
        let slots = store_into_vec(self.store);
        let ghost view = slots_view(slots@);
        let mut out: Vec<(String, Vector)> = Vec::new();
        let n = slots.len();
        let mut i: usize = 0;
        let mut rest = slots;
        while i < n
            invariant
                n == view.len(),
                i <= n,
                rest@.len() + i == n,
                forall|k: int|
                    0 <= k < rest@.len() ==> (#[trigger] rest@[k]).name@ == view[k + i].0
                        && rest@[k].value.data() == view[k + i].1,
                out@.len() == i,
                forall|k: int|
                    0 <= k < i ==> (#[trigger] out@[k]).0@ == view[k].0
                        && out@[k].1.data() == view[k].1,
            decreases n - i,
        {
            let slot = rest.remove(0);
            out.push((slot.name, slot.value.to_owned()));
            i += 1;
        }
        out
    }
}

/// Compare two string slices by content.
pub fn str_eq(a: &str, b: &str) -> (r: bool)
    ensures
        r == (a@ == b@),
{
    let sa: String = a.to_owned();
    let sb: String = b.to_owned();
    sa == sb
}

} // verus!
