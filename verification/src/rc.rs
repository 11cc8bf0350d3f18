//! Shared-value multimap: keys map straight to a reference-counted handle.
//!
//! Instead of the integer indirection of [`crate::idx`], every key holds a
//! shared handle to its value. The value is stored once and jointly owned
//! by all keys bound to it plus any handle the caller retains; it is freed
//! when the last such holder is dropped or overwritten.

use core::hash::Hash;
use std::rc::Rc;
use vstd::hash_map::HashMapWithView;
use vstd::prelude::*;

verus! {

/// The shared-value multimap is the plain map from keys to shared handles;
/// lookups go through the map's own `get`.
pub type MultiMap<K, V> = HashMapWithView<K, Rc<V>>;

/// Relies on `Rc::clone`: the returned handle points at the same
/// allocation as the argument, so it carries the same value.
#[verifier::external_body]
fn clone_handle<V>(handle: &Rc<V>) -> (r: Rc<V>)
    ensures
        r == *handle,
{
    Rc::clone(handle)
}

/// The two operations that make a key-to-handle map a shared-value
/// multimap: minting a fresh shared handle and binding a key to an
/// existing one.
pub trait Ext<K: View, V>: Sized {
    /// The key-to-handle bindings the container holds.
    spec fn contents(&self) -> Map<<K as View>::V, Rc<V>>;

    /// Wraps `value` in a fresh shared handle and returns it; no key is
    /// bound to it yet and the container is untouched.
    fn new_v(&mut self, value: V) -> (r: Rc<V>)
        ensures
            r == value,
            final(self).contents() == old(self).contents();

    /// Binds `k` to the shared handle behind `idx`, overwriting any
    /// earlier binding of `k`; the handle's reference count grows by one
    /// while the overwritten handle, if any, loses a holder.
    fn insert_r(&mut self, k: K, idx: &Rc<V>)
        ensures
            final(self).contents() == old(self).contents().insert(k@, *idx);
}

impl<K, V> Ext<K, V> for MultiMap<K, V> where K: View + Eq + Hash {
    open spec fn contents(&self) -> Map<<K as View>::V, Rc<V>> {
        self@
    }

    fn new_v(&mut self, value: V) -> (r: Rc<V>) {
        Rc::new(value)
    }

    fn insert_r(&mut self, k: K, idx: &Rc<V>) {
        self.insert(k, clone_handle(idx));
    }
}

/// Law: binding a key to a shared handle makes the key resolve to exactly
/// that handle's value.
pub proof fn lemma_insert_then_get<KV, V>(m: Map<KV, Rc<V>>, k: KV, h: Rc<V>)
    ensures
        m.insert(k, h).contains_key(k),
        m.insert(k, h)[k] == h,
{
}

/// Law: binding the same key to two handles in turn leaves only the later
/// binding visible.
pub proof fn lemma_second_insert_wins<KV, V>(m: Map<KV, Rc<V>>, k: KV, h1: Rc<V>, h2: Rc<V>)
    ensures
        m.insert(k, h1).insert(k, h2)[k] == h2,
        m.insert(k, h1).insert(k, h2) == m.insert(k, h2),
{
    assert(m.insert(k, h1).insert(k, h2) =~= m.insert(k, h2));
}

/// Law: binding one key never disturbs what another key resolves to, so a
/// key that was never bound stays absent however many other keys are bound.
pub proof fn lemma_insert_preserves_others<KV, V>(m: Map<KV, Rc<V>>, k: KV, other: KV, h: Rc<V>)
    requires
        k != other,
    ensures
        m.insert(k, h).contains_key(other) == m.contains_key(other),
        m.contains_key(other) ==> m.insert(k, h)[other] == m[other],
{
}

} // verus!
