use vstd::prelude::*;

pub mod laws;
pub mod model;
pub mod queue;
pub mod s3fifo;
pub mod scan;
pub mod shared;
pub mod stats;
pub mod weight;
pub mod wellformed;

verus! {

/// A bounded store of values by key that may drop entries on its own.
///
/// `contents` is what the cache holds for its callers: the keys with a value
/// and those values. A cache may drop any key but the one being inserted, and
/// never changes a value it still holds.
pub trait Cache<K, V> {
    /// The invariant that every operation expects and keeps.
    spec fn wf(&self) -> bool;

    /// The keys that hold a value, each with its value.
    spec fn contents(&self) -> Map<K, V>;

    /// Looks `key` up. The contents stay as they are.
    fn get(&mut self, key: &K) -> (found: Option<&V>)
        requires
            old(self).wf(),
        ensures
            final(self).wf(),
            final(self).contents() == old(self).contents(),
            match found {
                Some(v) => old(self).contents().contains_key(*key) && *v == old(self).contents()[*key],
                None => !old(self).contents().contains_key(*key),
            },
    ;

    /// Stores `value` under `key` and hands back the value it replaces.
    fn insert(&mut self, key: K, value: V) -> (previous: Option<V>)
        requires
            old(self).wf(),
        ensures
            final(self).wf(),
            match previous {
                Some(v) => old(self).contents().contains_key(key) && v == old(self).contents()[key],
                None => !old(self).contents().contains_key(key),
            },
            final(self).contents().contains_key(key),
            final(self).contents()[key] == value,
            forall|k: K|
                k != key && #[trigger] final(self).contents().contains_key(k) ==> old(
                    self,
                ).contents().contains_key(k) && final(self).contents()[k] == old(self).contents()[k],
    ;

    /// Whether `key` holds a value.
    fn contains(&self, key: &K) -> (held: bool)
        requires
            self.wf(),
        ensures
            held == self.contents().contains_key(*key),
    ;

    /// The number of keys that hold a value.
    fn len(&self) -> (count: usize)
        requires
            self.wf(),
        ensures
            self.contents().dom().finite(),
            count == self.contents().len(),
    ;

    /// Drops every key.
    fn clear(&mut self)
        requires
            old(self).wf(),
        ensures
            final(self).wf(),
            final(self).contents() == Map::<K, V>::empty(),
    ;
}

} // verus!
