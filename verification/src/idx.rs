//! Indexed multimap: keys resolve to values through an intermediate integer
//! handle.
//!
//! The container keeps two maps: one from keys to handles and one from
//! handles to values, plus a counter that mints each fresh handle. Many keys
//! can be bound to the same handle, so a heavyweight value is stored once
//! however many keys resolve to it.

use core::hash::Hash;
use vstd::hash_map::HashMapWithView;
use vstd::prelude::*;
use vstd::std_specs::hash::obeys_key_model;

verus! {

broadcast use vstd::std_specs::hash::group_hash_axioms;

/// A handle minted by [`MultiMap::new_v`]: the position of a stored value
/// in the handle-to-value map.
pub type Idx = usize;

/// What a key resolves to under the two-level scheme: follow the key to its
/// handle, then the handle to its value; absence at either level is a miss.
pub open spec fn lookup<KV, V>(keys: Map<KV, Idx>, vals: Map<Idx, V>, k: KV) -> Option<V> {
    if keys.contains_key(k) && vals.contains_key(keys[k]) {
        Some(vals[keys[k]])
    } else {
        None
    }
}

/// A container that stores each value once and lets arbitrarily many keys
/// resolve to it through an integer handle.
#[verifier::reject_recursive_types(K)]
#[verifier::reject_recursive_types(V)]
pub struct MultiMap<K, V> where K: View + Eq + Hash {
    main: HashMapWithView<K, Idx>,
    refs: HashMapWithView<Idx, V>,
    counter: Idx,
}

impl<K, V> MultiMap<K, V> where K: View + Eq + Hash {
    /// The key-to-handle bindings the container holds.
    pub closed spec fn key_map(&self) -> Map<<K as View>::V, Idx> {
        self.main@
    }

    /// The handle-to-value bindings the container holds.
    pub closed spec fn val_map(&self) -> Map<Idx, V> {
        self.refs@
    }

    /// The handle the next call of [`Self::new_v`] will mint.
    pub closed spec fn spec_next_handle(&self) -> Idx {
        self.counter
    }

    /// The handle the next call of [`Self::new_v`] will mint; also the
    /// number of values stored so far, since handles start at zero and
    /// advance by one per value.
    #[verifier::when_used_as_spec(spec_next_handle)]
    pub fn next_handle(&self) -> (r: Idx)
        ensures
            r == self.spec_next_handle(),
    {
        self.counter
    }

    /// Every handle that holds a value lies below the counter, so the
    /// counter's current value was never minted before.
    pub open spec fn wf(&self) -> bool {
        forall|h: Idx| #[trigger] self.val_map().contains_key(h) ==> h < self.spec_next_handle()
    }

    /// Creates an empty container whose handle counter starts at zero.
    pub fn new() -> (m: MultiMap<K, V>)
        requires
            obeys_key_model::<K>(),
            forall|k1: K, k2: K| k1@ == k2@ ==> k1 == k2,
        ensures
            m.key_map() == Map::<<K as View>::V, Idx>::empty(),
            m.val_map() == Map::<Idx, V>::empty(),
            m.spec_next_handle() == 0,
            m.wf(),
    {
        MultiMap { main: HashMapWithView::new(), refs: HashMapWithView::new(), counter: 0 }
    }

    /// Returns the value `key` resolves to, or `None` when the key is
    /// unbound or its handle holds no value.
    pub fn get(&self, key: &K) -> (r: Option<&V>)
        ensures
            match r {
                Some(v) => lookup(self.key_map(), self.val_map(), key@) == Some(*v),
                None => lookup(self.key_map(), self.val_map(), key@) is None,
            },
    {
        match self.main.get(key) {
            Some(handle) => self.refs.get(handle),
            None => None,
        }
    }

    /// Stores `value` under a freshly minted handle, advances the counter,
    /// and returns the handle. No key is bound to the value yet. The
    /// counter must not be exhausted; it never wraps around.
    pub fn new_v(&mut self, value: V) -> (handle: Idx)
        requires
            old(self).spec_next_handle() < usize::MAX,
        ensures
            handle == old(self).spec_next_handle(),
            final(self).spec_next_handle() == handle + 1,
            final(self).val_map() == old(self).val_map().insert(handle, value),
            final(self).key_map() == old(self).key_map(),
            old(self).wf() ==> final(self).wf(),
            old(self).wf() ==> !old(self).val_map().contains_key(handle),
    {
        let idx: Idx = self.counter;
        self.counter = idx + 1;
        self.refs.insert(idx, value);
        proof {
            if old(self).wf() {
                assert forall|h: Idx| #[trigger] self.val_map().contains_key(h)
                    implies h < self.spec_next_handle() by {
                    if h != idx {
                        assert(old(self).val_map().contains_key(h));
                    }
                }
            }
        }
        idx
    }

    /// Binds `k` to `index`, overwriting any earlier binding of `k`. The
    /// handle is not checked against the stored values: resolving a key
    /// bound to a never-minted handle is a miss, not an error.
    pub fn insert(&mut self, k: K, index: Idx)
        ensures
            final(self).key_map() == old(self).key_map().insert(k@, index),
            final(self).val_map() == old(self).val_map(),
            final(self).spec_next_handle() == old(self).spec_next_handle(),
    {
        self.main.insert(k, index);
    }
}

/// Law: storing a value under a fresh handle and then binding a key to that
/// handle makes the key resolve to exactly that value.
pub proof fn lemma_new_value_then_insert_then_get<KV, V>(
    keys: Map<KV, Idx>,
    vals: Map<Idx, V>,
    handle: Idx,
    k: KV,
    v: V,
)
    ensures
        lookup(keys.insert(k, handle), vals.insert(handle, v), k) == Some(v),
{
}

/// Law: binding the same key to two handles in turn leaves only the later
/// binding visible; the key resolves as if the first binding never happened.
pub proof fn lemma_second_insert_wins<KV, V>(
    keys: Map<KV, Idx>,
    vals: Map<Idx, V>,
    k: KV,
    h1: Idx,
    h2: Idx,
)
    ensures
        lookup(keys.insert(k, h1).insert(k, h2), vals, k) == lookup(keys.insert(k, h2), vals, k),
{
}

/// Law: a key that was never bound resolves to nothing.
pub proof fn lemma_get_absent<KV, V>(keys: Map<KV, Idx>, vals: Map<Idx, V>, k: KV)
    requires
        !keys.contains_key(k),
    ensures
        lookup(keys, vals, k) is None,
{
}

/// Law: in a well-formed container the handle about to be minted holds no
/// value yet, so handles never repeat.
pub proof fn lemma_next_handle_fresh<K, V>(m: MultiMap<K, V>) where K: View + Eq + Hash
    requires
        m.wf(),
    ensures
        !m.val_map().contains_key(m.spec_next_handle()),
{
}

} // verus!
