use vstd::prelude::*;
use vstd::rwlock::RwLock;
use crate::cache::laws::law_queue_bounds;
use crate::cache::laws::law_reset_stats;
use crate::cache::s3fifo::S3Fifo;
use crate::cache::stats::CacheStats;
use crate::cache::wellformed::lemma_insert;
use crate::cache::Cache;

verus! {

/// One cache for many callers: every operation takes the one exclusive
/// lock, works on the cache and gives the lock back, so the operations of
/// all callers happen one after the other.
///
/// What a call finds depends on what the other callers did before it, so
/// the contracts here promise what holds in every order: the cache behind
/// the lock is always well formed, has the capacity it was made with, and
/// holds under a key only values that the cache's rule admits under that
/// key. The rule is chosen when the cache is made; it is how callers that
/// share a cache know that what one of them finds under a key is what
/// another was allowed to put there. What one operation does to a given
/// state is stated on [`S3Fifo`].
///
/// No operation of the cache can fail half way, so the lock is never left
/// behind by a caller that gave up: there is nothing here to poison.
#[verifier::reject_recursive_types(V)]
pub struct SharedCache<V> {
    lock: RwLock<S3Fifo<V>, spec_fn(S3Fifo<V>) -> bool>,
    capacity: usize,
    rule: Ghost<spec_fn(u64, V) -> bool>,
}

impl<V> SharedCache<V> {
    /// The total capacity the cache was made with.
    pub closed spec fn spec_capacity(&self) -> usize {
        self.capacity
    }

    /// The rule of the cache admits `value` under `key`.
    pub closed spec fn admits(&self, key: u64, value: V) -> bool {
        (self.rule@)(key, value)
    }

    /// `copy` is a copy of a value that the rule admits under `key`.
    pub open spec fn may_hand_out(&self, key: u64, copy: V) -> bool where V: Clone {
        exists|held: V| #[trigger] self.admits(key, held) && cloned(held, copy)
    }

    /// What the lock lets in: a well-formed cache of this capacity in which
    /// every key that holds a value holds one that the rule admits.
    pub closed spec fn guards(&self, cache: S3Fifo<V>) -> bool {
        &&& cache.wf()
        &&& cache@.ghost_capacity == self.capacity
        &&& cache@.small_capacity == self.capacity / 10
        &&& cache@.main_capacity == self.capacity - self.capacity / 10
        &&& forall|k: u64| #[trigger]
            cache.contents().contains_key(k) ==> self.admits(k, cache.contents()[k])
    }

    /// The lock admits exactly the caches that `guards` describes.
    pub closed spec fn wf(&self) -> bool {
        forall|cache: S3Fifo<V>| #[trigger] self.lock.inv(cache) <==> self.guards(cache)
    }

    /// A shared empty cache for `capacity` values whose rule admits every
    /// value under every key.
    pub fn new(capacity: usize) -> (shared: Self)
        ensures
            shared.wf(),
            shared.spec_capacity() == capacity,
            forall|key: u64, value: V| shared.admits(key, value),
    {
        Self::with_rule(capacity, Ghost(|key: u64, value: V| true))
    }

    /// A shared empty cache for `capacity` values with the given rule.
    pub fn with_rule(capacity: usize, Ghost(rule): Ghost<spec_fn(u64, V) -> bool>) -> (shared: Self)
        ensures
            shared.wf(),
            shared.spec_capacity() == capacity,
            forall|key: u64, value: V| shared.admits(key, value) == rule(key, value),
    {
        let cache: S3Fifo<V> = S3Fifo::new(capacity);
        let ghost pred: spec_fn(S3Fifo<V>) -> bool = |c: S3Fifo<V>|
            {
                &&& c.wf()
                &&& c@.ghost_capacity == capacity
                &&& c@.small_capacity == capacity / 10
                &&& c@.main_capacity == capacity - capacity / 10
                &&& forall|k: u64| #[trigger]
                    c.contents().contains_key(k) ==> rule(k, c.contents()[k])
            };
        SharedCache { lock: RwLock::new(cache, Ghost(pred)), capacity, rule: Ghost(rule) }
    }

    /// The total capacity the cache was made with.
    pub fn capacity(&self) -> (capacity: usize)
        ensures
            capacity == self.spec_capacity(),
    {
        self.capacity
    }

    /// Looks `key` up and hands out a copy of its value: a copy of a value
    /// that the rule admits under `key`.
    pub fn get(&self, key: &u64) -> (found: Option<V>) where V: Clone
        requires
            self.wf(),
        ensures
            found matches Some(copy) ==> self.may_hand_out(*key, copy),
    {
        let (mut cache, handle) = self.lock.acquire_write();
        let ghost before = cache.contents();
        let found = match cache.get(key) {
            Some(value) => {
                let copy = value.clone();
                proof {
                    let held = *value;
                    assert(before.contains_key(*key) && before[*key] == held);
                    assert(self.admits(*key, held) && cloned(held, copy));
                }
                Some(copy)
            },
            None => None,
        };
        handle.release_write(cache);
        found
    }

    /// Stores `value` under `key` and hands back the value it replaces, one
    /// that the rule admits under `key`.
    pub fn insert(&self, key: u64, value: V) -> (previous: Option<V>)
        requires
            self.wf(),
            self.admits(key, value),
        ensures
            previous matches Some(replaced) ==> self.admits(key, replaced),
    {
        let (mut cache, handle) = self.lock.acquire_write();
        proof {
            lemma_insert(cache@, key, value);
        }
        let previous = cache.insert(key, value);
        handle.release_write(cache);
        previous
    }

    /// Whether `key` holds a value. It holds one only if the rule admits
    /// some value under it.
    pub fn contains(&self, key: &u64) -> (held: bool)
        requires
            self.wf(),
        ensures
            held ==> exists|value: V| self.admits(*key, value),
    {
        let (cache, handle) = self.lock.acquire_write();
        let held = cache.contains(key);
        proof {
            if held {
                assert(cache.contents().contains_key(*key));
                assert(self.admits(*key, cache.contents()[*key]));
            }
        }
        handle.release_write(cache);
        held
    }

    /// The number of keys that hold a value. It is never above the
    /// capacity, where that is 10 or more.
    pub fn len(&self) -> (count: usize)
        requires
            self.wf(),
        ensures
            self.spec_capacity() >= 10 ==> count <= self.spec_capacity(),
    {
        let (cache, handle) = self.lock.acquire_write();
        proof {
            law_queue_bounds(cache@);
        }
        let count = cache.len();
        handle.release_write(cache);
        count
    }

    /// Drops every key.
    pub fn clear(&self)
        requires
            self.wf(),
    {
        let (mut cache, handle) = self.lock.acquire_write();
        cache.clear();
        handle.release_write(cache);
    }

    /// The counters, the number of values held and the room for values.
    pub fn stats(&self) -> (stats: CacheStats)
        requires
            self.wf(),
        ensures
            stats.capacity == self.spec_capacity(),
            self.spec_capacity() >= 10 ==> stats.size <= stats.capacity,
    {
        let (cache, handle) = self.lock.acquire_write();
        proof {
            law_queue_bounds(cache@);
        }
        let stats = cache.stats();
        handle.release_write(cache);
        stats
    }

    /// Sets both counters back to zero.
    pub fn reset_stats(&self)
        requires
            self.wf(),
    {
        let (mut cache, handle) = self.lock.acquire_write();
        let ghost met = cache;
        cache.reset_stats();
        proof {
            law_reset_stats(met@);
            assert(cache.contents() == met.contents());
        }
        handle.release_write(cache);
    }
}

} // verus!
