use vstd::prelude::*;

use std::collections::btree_map::Iter;
use std::collections::BTreeMap;

use crate::ring::owned;
use crate::std_ops::last_key;

verus! {

use vstd::std_specs::iter::IteratorSpec;

broadcast use vstd::std_specs::btree::group_btree_axioms;

/// Whether every key of `entries` lies below `counter`.
pub open spec fn keys_below<T>(entries: Map<u64, T>, counter: int) -> bool {
    forall|k: u64| #[trigger] entries.contains_key(k) ==> k < counter
}

/// The greatest key of `entries` with its value; `None` if there is none.
pub open spec fn greatest<T>(entries: Map<u64, T>) -> Option<(u64, T)> {
    if entries.dom() == Set::<u64>::empty() {
        None
    } else {
        let k = choose|k: u64| #[trigger] entries.contains_key(k) && forall|j: u64| #[trigger] entries.contains_key(j) ==> j <= k;
        Some((k, entries[k]))
    }
}

/// The values after each of `vals` is kept in turn, starting at version `counter`:
/// the `i`-th goes under version `counter + i`.
pub open spec fn updated_all<T>(entries: Map<u64, T>, counter: int, vals: Seq<T>) -> Map<u64, T>
    decreases vals.len(),
{
    if vals.len() == 0 {
        entries
    } else {
        updated_all(entries, counter, vals.drop_last()).insert((counter + vals.len() - 1) as u64, vals.last())
    }
}

/// Starting from an empty store, `k` updates take the versions `0` to `k - 1`, in
/// order, each keeping its own value.
pub proof fn lemma_versions_in_sequence<T>(vals: Seq<T>)
    requires
        vals.len() < u64::MAX,
    ensures
        forall|v: u64| #[trigger] updated_all(Map::empty(), 0, vals).contains_key(v) <==> v < vals.len(),
        forall|i: int| 0 <= i < vals.len() ==> #[trigger] updated_all(Map::empty(), 0, vals)[i as u64] == vals[i],
    decreases vals.len(),
{
    if vals.len() > 0 {
        lemma_versions_in_sequence(vals.drop_last());
        let before = updated_all(Map::<u64, T>::empty(), 0, vals.drop_last());
        assert forall|i: int| 0 <= i < vals.len() implies #[trigger] updated_all(Map::empty(), 0, vals)[i as u64] == vals[i] by {
            if i < vals.len() - 1 {
                assert(before[i as u64] == vals.drop_last()[i]);
            }
        }
    }
}

/// A version that is gone (removed, or never kept) and below the counter stays gone
/// through any later updates: they take versions from the counter on. Removals
/// only take keys out, and leave the counter as it is.
pub proof fn lemma_removed_stays_removed<T>(entries: Map<u64, T>, counter: int, version: u64, vals: Seq<T>)
    requires
        !entries.contains_key(version),
        version < counter,
        counter + vals.len() <= u64::MAX,
    ensures
        !updated_all(entries, counter, vals).contains_key(version),
        forall|other: u64| !(#[trigger] entries.remove(other)).contains_key(version),
    decreases vals.len(),
{
    if vals.len() > 0 {
        lemma_removed_stays_removed(entries, counter, version, vals.drop_last());
    }
}

/// After the value under `version` is removed, nothing is kept under it.
pub proof fn lemma_removal_forgets<T>(entries: Map<u64, T>, version: u64)
    ensures
        !entries.remove(version).contains_key(version),
{
}

/// The greatest key of `entries` is the one that every key lies at or below.
pub proof fn lemma_greatest<T>(entries: Map<u64, T>, k: u64)
    requires
        entries.contains_key(k),
        forall|j: u64| #[trigger] entries.contains_key(j) ==> j <= k,
    ensures
        greatest(entries) == Some((k, entries[k])),
{
    assert(entries.dom() != Set::<u64>::empty()) by {
        assert(entries.dom().contains(k));
    }
}

/// Values kept under increasing version numbers.
///
/// Each update takes the counter's value as its version and moves the counter on;
/// versions are never handed out twice, not even after a removal.
pub struct Versioned<T> {
    store: BTreeMap<u64, T>,
    count: u64,
}

impl<T> Versioned<T> {
    #[verifier::type_invariant]
    closed spec fn inv(&self) -> bool {
        keys_below(self.store@, self.count as int)
    }

    /// The version the next update takes.
    pub closed spec fn counter(&self) -> u64 {
        self.count
    }
}

impl<T> View for Versioned<T> {
    /// The values by version.
    type V = Map<u64, T>;

    closed spec fn view(&self) -> Map<u64, T> {
        self.store@
    }
}

impl<T> Versioned<T> {
    /// An empty store whose first version is 0.
    pub fn new() -> (r: Self)
        ensures
            r@ == Map::<u64, T>::empty(),
            r.counter() == 0,
    {
        Versioned { store: BTreeMap::new(), count: 0 }
    }

    /// Rebuilds a store from its values and counter, as [`Versioned::store`] and
    /// [`Versioned::count`] hand them out; `None` if a version is not below the counter.
    pub fn from_snapshot(store: BTreeMap<u64, T>, count: u64) -> (r: Option<Self>)
        ensures
            r is Some <==> keys_below(store@, count as int),
            r matches Some(v) ==> v@ == store@ && v.counter() == count,
    {
        let ok = match last_key(&store) {
            None => true,
            Some(k) => *k < count,
        };
        if ok {
            Some(Versioned { store, count })
        } else {
            None
        }
    }

    /// The values by version and the counter, taking the store apart.
    pub fn into_parts(self) -> (r: (BTreeMap<u64, T>, u64))
        ensures
            r.0@ == self@,
            r.1 == self.counter(),
            keys_below(r.0@, r.1 as int),
    {
        proof {
            use_type_invariant(&self);
        }
        (self.store, self.count)
    }

    /// The version the next update takes.
    pub fn count(&self) -> (r: &u64)
        ensures
            *r == self.counter(),
            keys_below(self@, self.counter() as int),
    {
        proof {
            use_type_invariant(self);
        }
        &self.count
    }

    /// The values by version.
    pub fn store(&self) -> (r: &BTreeMap<u64, T>)
        ensures
            r@ == self@,
            keys_below(self@, self.counter() as int),
    {
        proof {
            use_type_invariant(self);
        }
        &self.store
    }

    /// How many values are kept.
    pub fn len(&self) -> (r: usize)
        ensures
            r == self@.len(),
    {
        self.store.len()
    }

    /// Keeps `value` under the next version and hands that version back.
    pub fn update(&mut self, value: T) -> (r: u64)
        requires
            old(self).counter() < u64::MAX,
        ensures
            r == old(self).counter(),
            final(self).counter() == old(self).counter() + 1,
            final(self)@ == old(self)@.insert(r, value),
    {
        proof {
            use_type_invariant(&*self);
        }
        let version = self.count;
        let mut whole = Versioned { store: BTreeMap::new(), count: 0 };
        std::mem::swap(self, &mut whole);
        let Versioned { mut store, count } = whole;
        store.insert(version, value);
        *self = Versioned { store, count: count + 1 };
        version
    }

    /// Takes out the value kept under `version`; `None` if there is none. The
    /// counter stays as it is.
    pub fn remove(&mut self, version: &u64) -> (r: Option<T>)
        ensures
            final(self).counter() == old(self).counter(),
            final(self)@ == old(self)@.remove(*version),
            r == (if old(self)@.contains_key(*version) { Some(old(self)@[*version]) } else { None }),
    {
        proof {
            use_type_invariant(&*self);
        }
        let mut whole = Versioned { store: BTreeMap::new(), count: 0 };
        std::mem::swap(self, &mut whole);
        let Versioned { mut store, count } = whole;
        let r = store.remove(version);
        *self = Versioned { store, count };
        r
    }

    /// The value kept under `version`; `None` if there is none.
    pub fn get(&self, version: &u64) -> (r: Option<&T>)
        ensures
            owned(r) == (if self@.contains_key(*version) { Some(self@[*version]) } else { None }),
    {
        self.store.get(version)
    }

    /// The value under the greatest version kept; `None` if there is none.
    pub fn latest(&self) -> (r: Option<&T>)
        ensures
            owned(r) == (match greatest(self@) {
                Some(e) => Some(e.1),
                None => None,
            }),
    {
        match self.latest_version() {
            Some(e) => Some(e.1),
            None => None,
        }
    }

    /// The greatest version kept, with its value; `None` if there is none.
    pub fn latest_version(&self) -> (r: Option<(&u64, &T)>)
        ensures
            r is None <==> self@.dom() == Set::<u64>::empty(),
            r matches Some(e) ==> self@.contains_key(*e.0) && self@[*e.0] == *e.1,
            r matches Some(e) ==> forall|k: u64| #[trigger] self@.contains_key(k) ==> k <= *e.0,
            (match r {
                Some(e) => greatest(self@) == Some((*e.0, *e.1)),
                None => greatest(self@) is None,
            }),
    {
        match last_key(&self.store) {
            Some(k) => match self.store.get(k) {
                Some(v) => Some((k, v)),
                None => None,
            },
            None => None,
        }
    }

    /// A traversal of the versions and their values, in increasing version order.
    pub fn iter(&self) -> (r: Iter<'_, u64, T>)
        ensures
            IteratorSpec::remaining(&r).len() == self@.len(),
            forall|i: int| 0 <= i < IteratorSpec::remaining(&r).len() ==> self@.contains_key(*(#[trigger] IteratorSpec::remaining(&r)[i]).0)
                && self@[*IteratorSpec::remaining(&r)[i].0] == *IteratorSpec::remaining(&r)[i].1,
            forall|i: int, j: int| 0 <= i < j < IteratorSpec::remaining(&r).len() ==> *(#[trigger] IteratorSpec::remaining(&r)[i]).0 < *(
                #[trigger] IteratorSpec::remaining(&r)[j]).0,
    {
        broadcast use vstd::laws_cmp::group_laws_cmp;
        let r = self.store.iter();
        proof {
            let keys = IteratorSpec::remaining(&r).map_values(|kv: (&u64, &T)| *kv.0);
            assert(vstd::laws_cmp::obeys_cmp::<u64>());
            assert(vstd::std_specs::btree::key_obeys_cmp_spec::<u64>());
            assert(vstd::std_specs::btree::increasing_seq(keys));
            vstd::std_specs::btree::axiom_increasing_seq_meaning(keys);
            assert forall|i: int, j: int| 0 <= i < j < IteratorSpec::remaining(&r).len() implies *(#[trigger] IteratorSpec::remaining(&r)[i]).0 < *(
                #[trigger] IteratorSpec::remaining(&r)[j]).0 by {
                assert(keys[i] == *IteratorSpec::remaining(&r)[i].0);
                assert(keys[j] == *IteratorSpec::remaining(&r)[j].0);
                assert(vstd::std_specs::cmp::OrdSpec::cmp_spec(&keys[i], &keys[j]) is Less);
            }
        }
        r
    }
}

} // verus!
