//! The measured body of the workload that compares the two containers:
//! mint one value, then bind a single key to it a fixed number of times.
//!
//! Each round leaves exactly one new value in the container and at most one
//! new key binding, however many times the key is rebound, so repeated
//! rounds measure steady-state overwrite cost rather than growth.

use std::rc::Rc;
use vstd::prelude::*;

use crate::idx;
use crate::rc::Ext;

verus! {

/// One round of the indexed workload: store `value` under a fresh handle,
/// then bind `key` to that handle `n` times over. Returns the handle.
pub fn indexed_round(
    m: &mut idx::MultiMap<String, String>,
    key: &str,
    value: String,
    n: usize,
) -> (h: idx::Idx)
    requires
        old(m).spec_next_handle() < usize::MAX,
    ensures
        h == old(m).spec_next_handle(),
        final(m).spec_next_handle() == h + 1,
        final(m).val_map() == old(m).val_map().insert(h, value),
        n > 0 ==> final(m).key_map() == old(m).key_map().insert(key@, h),
        n == 0 ==> final(m).key_map() == old(m).key_map(),
        old(m).wf() ==> final(m).wf(),
{
    let ghost m0 = *m;
    let h = m.new_v(value);
    let mut i: usize = 0;
    while i < n
        invariant
            i <= n,
            h == m0.spec_next_handle(),
            m.spec_next_handle() == h + 1,
            m.val_map() == m0.val_map().insert(h, value),
            i == 0 ==> m.key_map() == m0.key_map(),
            i > 0 ==> m.key_map() == m0.key_map().insert(key@, h),
        decreases n - i,
    {
        m.insert(key.to_owned(), h);
        proof {
            assert(m.key_map() =~= m0.key_map().insert(key@, h));
        }
        i = i + 1;
    }
    h
}

/// One round of the shared-value workload: wrap `value` in a fresh shared
/// handle, then bind `key` to that handle `n` times over. Returns the
/// handle, which the caller still holds alongside the container.
pub fn shared_round(
    m: &mut crate::rc::MultiMap<String, String>,
    key: &str,
    value: String,
    n: usize,
) -> (h: Rc<String>)
    ensures
        h == value,
        n > 0 ==> final(m)@ == old(m)@.insert(key@, h),
        n == 0 ==> final(m)@ == old(m)@,
{
    let ghost m0 = *m;
    let h = m.new_v(value);
    let mut i: usize = 0;
    while i < n
        invariant
            i <= n,
            h == value,
            i == 0 ==> m@ == m0@,
            i > 0 ==> m@ == m0@.insert(key@, h),
        decreases n - i,
    {
        m.insert_r(key.to_owned(), &h);
        proof {
            assert(m@ =~= m0@.insert(key@, h));
        }
        i = i + 1;
    }
    h
}

} // verus!
