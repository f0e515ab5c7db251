//! A small set of keys compared by view, kept as a vector.

use vstd::prelude::*;

use crate::cursor::{key_views, CursorKey};

verus! {

/// A set of keys; two keys are the same element when their views are equal.
///
/// The keys are the library's own structs (navigation paths, hide keys),
/// for which Verus models no hashing, so the set is a vector searched by
/// key view rather than a `HashSet`.
#[derive(Debug)]
pub struct KeySet<K> {
    items: Vec<K>,
}

impl<K: CursorKey> KeySet<K> {
    /// The set of key views.
    pub closed spec fn set(&self) -> Set<K::V> {
        key_views(self.items@).to_set()
    }

    /// Creates an empty set.
    pub fn new() -> (r: Self)
        ensures
            r.set() == Set::<K::V>::empty(),
    {
        let r = KeySet { items: Vec::new() };
        assert(key_views(r.items@) =~= Seq::<K::V>::empty());
        assert(r.set() =~= Set::<K::V>::empty());
        r
    }

    /// Whether the set holds `key`.
    pub fn contains(&self, key: &K) -> (r: bool)
        ensures
            r == self.set().contains(key@),
    {
        let ghost vs = key_views(self.items@);
        let mut i: usize = 0;
        while i < self.items.len()
            invariant
                i <= self.items@.len(),
                vs == key_views(self.items@),
                forall|j: int| 0 <= j < i ==> vs[j] != key@,
            decreases self.items@.len() - i,
        {
            if self.items[i].key_eq(key) {
                assert(vs[i as int] == key@);
                assert(vs.to_set().contains(key@));
                return true;
            }
            i = i + 1;
        }
        assert(!vs.contains(key@));
        false
    }

    /// Adds `key`; returns whether it was absent.
    pub fn insert(&mut self, key: K) -> (r: bool)
        ensures
            final(self).set() == old(self).set().insert(key@),
            r == !old(self).set().contains(key@),
    {
        if self.contains(&key) {
            assert(old(self).set().insert(key@) =~= old(self).set());
            return false;
        }
        let ghost kv = key@;
        self.items.push(key);
        assert(key_views(self.items@) =~= key_views(old(self).items@).push(kv));
        proof {
            key_views(old(self).items@).lemma_push_to_set_commute(kv);
        }
        assert(self.set() =~= old(self).set().insert(kv));
        true
    }

    /// Removes `key`; returns whether it was present.
    pub fn remove(&mut self, key: &K) -> (r: bool)
        ensures
            final(self).set() == old(self).set().remove(key@),
            r == old(self).set().contains(key@),
    {
        let found = self.contains(key);
        let mut kept: Vec<K> = Vec::new();
        let mut old_items: Vec<K> = Vec::new();
        std::mem::swap(&mut old_items, &mut self.items);
        let ghost ov = key_views(old_items@);
        let mut i: usize = 0;
        while i < old_items.len()
            invariant
                i <= old_items@.len(),
                ov == key_views(old_items@),
                forall|j: int| 0 <= j < kept@.len() ==> #[trigger] key_views(kept@)[j] != key@,
                forall|v: K::V| key_views(kept@).contains(v) <==> (v != key@ && exists|j: int|
                    0 <= j < i && ov[j] == v),
            decreases old_items@.len() - i,
        {
            if !old_items[i].key_eq(key) {
                let ghost before = key_views(kept@);
                let k = old_items[i].key_copy();
                kept.push(k);
                assert(key_views(kept@) =~= before.push(ov[i as int]));
                assert forall|v: K::V| key_views(kept@).contains(v) <==> (v != key@ && exists|j: int|
                    0 <= j < i + 1 && ov[j] == v) by {
                    if key_views(kept@).contains(v) {
                        let t = choose|t: int| 0 <= t < key_views(kept@).len() && key_views(kept@)[t] == v;
                        if t < before.len() {
                            assert(before.contains(v));
                        }
                    }
                    if v != key@ && exists|j: int| 0 <= j < i + 1 && ov[j] == v {
                        let j = choose|j: int| 0 <= j < i + 1 && ov[j] == v;
                        if j < i {
                            assert(before.contains(v));
                            let t = choose|t: int| 0 <= t < before.len() && before[t] == v;
                            assert(key_views(kept@)[t] == v);
                        } else {
                            assert(key_views(kept@)[before.len() as int] == v);
                        }
                    }
                }
            } else {
                assert forall|v: K::V| key_views(kept@).contains(v) <==> (v != key@ && exists|j: int|
                    0 <= j < i + 1 && ov[j] == v) by {
                    if v != key@ && exists|j: int| 0 <= j < i + 1 && ov[j] == v {
                        let j = choose|j: int| 0 <= j < i + 1 && ov[j] == v;
                        assert(j < i);
                    }
                }
            }
            i = i + 1;
        }
        self.items = kept;
        assert forall|v: K::V| self.set().contains(v) <==> old(self).set().remove(key@).contains(v) by {
            if old(self).set().remove(key@).contains(v) {
                assert(ov.contains(v));
            }
        }
        assert(self.set() =~= old(self).set().remove(key@));
        found
    }
}

} // verus!
