use std::collections::HashMap;
use std::collections::VecDeque;
use vstd::prelude::*;
use crate::cache::Cache;
use crate::cache::model::CacheEntry;
use crate::cache::model::CacheModel;
use crate::cache::model::MAX_FREQ;
use crate::cache::model::QueueLocation;
use crate::cache::queue::without;
use crate::cache::stats::CacheStats;
use crate::cache::weight::lemma_weight_pop;
use crate::cache::weight::lemma_weight_recycle;
use crate::cache::weight::queue_weight;
use crate::cache::wellformed::lemma_clear_reset;
use crate::cache::wellformed::lemma_contents_len;
use crate::cache::wellformed::lemma_empty_wf;
use crate::cache::wellformed::lemma_insert;
use crate::cache::wellformed::lemma_touch;

verus! {

/// A cache with three FIFO queues: new keys wait in the small queue, keys
/// that were asked for again move on to the main queue, and the ghost queue
/// remembers, without their values, the keys that were evicted last.
///
/// The view of a cache is its [`CacheModel`]; every operation states the
/// model after it in terms of the model before it.
pub struct S3Fifo<V> {
    cache: HashMap<u64, CacheEntry<V>>,
    small: VecDeque<u64>,
    main: VecDeque<u64>,
    ghosts: VecDeque<u64>,
    small_capacity: usize,
    main_capacity: usize,
    ghost_capacity: usize,
    hits: u64,
    misses: u64,
}

impl<V> View for S3Fifo<V> {
    type V = CacheModel<V>;

    closed spec fn view(&self) -> CacheModel<V> {
        CacheModel {
            table: self.cache@,
            small: self.small@,
            main: self.main@,
            ghosts: self.ghosts@,
            small_capacity: self.small_capacity,
            main_capacity: self.main_capacity,
            ghost_capacity: self.ghost_capacity,
            hits: self.hits,
            misses: self.misses,
        }
    }
}

impl<V> S3Fifo<V> {
    /// An empty cache for `capacity` values: a tenth of the capacity, rounded
    /// down, for the small queue, the rest for the main queue, and the whole
    /// again for the ghost queue.
    pub fn new(capacity: usize) -> (cache: Self)
        ensures
            cache.wf(),
            cache@ == CacheModel::<V>::empty(capacity),
    {
        let small_capacity = capacity / 10;
        let main_capacity = capacity - small_capacity;
        proof {
            lemma_empty_wf::<V>(capacity);
        }
        S3Fifo {
            cache: HashMap::new(),
            small: VecDeque::new(),
            main: VecDeque::new(),
            ghosts: VecDeque::new(),
            small_capacity,
            main_capacity,
            ghost_capacity: capacity,
            hits: 0,
            misses: 0,
        }
    }

    /// The counters, the number of values held and the room for values.
    pub fn stats(&self) -> (stats: CacheStats)
        requires
            self.wf(),
        ensures
            stats.hits == self@.hits,
            stats.misses == self@.misses,
            stats.size == self@.len(),
            stats.capacity == self@.small_capacity + self@.main_capacity,
    {
        CacheStats {
            hits: self.hits,
            misses: self.misses,
            size: self.small.len() + self.main.len(),
            capacity: self.small_capacity + self.main_capacity,
        }
    }

    /// Sets both counters back to zero and touches nothing else.
    pub fn reset_stats(&mut self)
        requires
            old(self).wf(),
        ensures
            final(self).wf(),
            final(self)@ == old(self)@.reset_stats(),
    {
        proof {
            lemma_clear_reset(self@);
        }
        self.hits = 0;
        self.misses = 0;
    }

    /// Takes `key` out of the ghost queue, wherever it stands there.
    fn leave_ghosts(&mut self, key: u64)
        ensures
            final(self)@.ghosts == without(old(self)@.ghosts, key),
            final(self)@.table == old(self)@.table,
            final(self)@.small == old(self)@.small,
            final(self)@.main == old(self)@.main,
            final(self)@.small_capacity == old(self)@.small_capacity,
            final(self)@.main_capacity == old(self)@.main_capacity,
            final(self)@.ghost_capacity == old(self)@.ghost_capacity,
            final(self)@.hits == old(self)@.hits,
            final(self)@.misses == old(self)@.misses,
    {
        let mut kept: VecDeque<u64> = VecDeque::new();
        let count = self.ghosts.len();
        let mut i: usize = 0;
        proof {
            reveal(Seq::filter);
        }
        while i < count
            invariant
                i <= count,
                count == self.ghosts@.len(),
                self@ == old(self)@,
                kept@ == without(self.ghosts@.take(i as int), key),
            decreases count - i,
        {
            let k = self.ghosts[i];
            proof {
                reveal(Seq::filter);
                assert(self.ghosts@.take(i + 1).drop_last() =~= self.ghosts@.take(i as int));
            }
            if k != key {
                kept.push_back(k);
            }
            i += 1;
        }
        proof {
            assert(self.ghosts@.take(count as int) =~= self.ghosts@);
        }
        self.ghosts = kept;
    }

    /// Sends `key` to the ghost queue and forgets the oldest ghost if the
    /// queue has grown past its capacity.
    fn move_to_ghost(&mut self, key: u64)
        ensures
            final(self)@ == old(self)@.move_to_ghost(key),
    {
        if self.cache.contains_key(&key) {
            self.cache.insert(
                key,
                CacheEntry { value: None, freq: 0, location: QueueLocation::InGhost },
            );
            self.ghosts.push_back(key);
            if self.ghosts.len() > self.ghost_capacity {
                if let Some(oldest) = self.ghosts.pop_front() {
                    self.cache.remove(&oldest);
                }
            }
        }
    }

    /// The frequency recorded for `key`, if it has an entry.
    pub fn frequency(&self, key: u64) -> (freq: Option<u8>)
        ensures
            freq == if self@.table.contains_key(key) {
                Some(self@.table[key].freq)
            } else {
                None
            },
    {
        match self.cache.get(&key) {
            Some(entry) => Some(entry.freq),
            None => None,
        }
    }

    /// The queue that `key` is filed under, if it has an entry.
    pub fn location(&self, key: u64) -> (location: Option<QueueLocation>)
        ensures
            location == if self@.table.contains_key(key) {
                Some(self@.table[key].location)
            } else {
                None
            },
    {
        match self.cache.get(&key) {
            Some(entry) => Some(entry.location),
            None => None,
        }
    }

    /// Rewrites the frequency of `key`'s entry and, where `location` names
    /// one, the queue it is filed under.
    fn retag(&mut self, key: u64, freq: u8, location: Option<QueueLocation>)
        ensures
            final(self)@ == old(self)@.retag(key, freq, location),
    {
        match self.cache.remove(&key) {
            Some(entry) => {
                let location = match location {
                    Some(l) => l,
                    None => entry.location,
                };
                let rewritten = CacheEntry { value: entry.value, freq, location };
                self.cache.insert(key, rewritten);
                proof {
                    assert(self.cache@ =~= old(self)@.table.insert(key, rewritten));
                }
            },
            None => {
                proof {
                    assert(self.cache@ =~= old(self)@.table);
                }
            },
        }
    }

    /// Frees one place in the main queue.
    fn evict_from_main(&mut self)
        ensures
            final(self)@ == old(self)@.evict_from_main(),
    {
        loop
            invariant
                self@.evict_from_main() == old(self)@.evict_from_main(),
            decreases queue_weight(self.main@, self.cache@),
        {
            let ghost before = self@;
            let key = match self.main.pop_front() {
                Some(key) => key,
                None => {
                    return ;
                },
            };
            match self.frequency(key) {
                None => {
                    proof {
                        lemma_weight_pop(before.main, before.table);
                        assert(self@ =~= before.drop_main_head());
                    }
                },
                Some(freq) => {
                    if freq == 0 {
                        proof {
                            assert(self@ =~= before.drop_main_head());
                        }
                        self.move_to_ghost(key);
                        return ;
                    } else {
                        proof {
                            lemma_weight_recycle(
                                before.main,
                                before.table,
                                CacheEntry { freq: (freq - 1) as u8, ..before.table[key] },
                            );
                        }
                        self.retag(key, freq - 1, None);
                        self.main.push_back(key);
                    }
                },
            }
        }
    }

    /// Frees one place in the small queue.
    fn evict_from_small(&mut self)
        ensures
            final(self)@ == old(self)@.evict_from_small(),
    {
        loop
            invariant
                self@.evict_from_small() == old(self)@.evict_from_small(),
            decreases queue_weight(self.small@, self.cache@),
        {
            let ghost before = self@;
            let key = match self.small.pop_front() {
                Some(key) => key,
                None => {
                    return ;
                },
            };
            proof {
                assert(self@ =~= before.drop_small_head());
            }
            match self.frequency(key) {
                None => {
                    proof {
                        lemma_weight_pop(before.small, before.table);
                    }
                },
                Some(freq) => {
                    if freq == 0 {
                        self.move_to_ghost(key);
                        return ;
                    } else if freq == 1 {
                        proof {
                            lemma_weight_recycle(
                                before.small,
                                before.table,
                                CacheEntry { freq: 0, ..before.table[key] },
                            );
                        }
                        self.retag(key, 0, None);
                        self.small.push_back(key);
                    } else {
                        if self.main.len() >= self.main_capacity {
                            self.evict_from_main();
                        }
                        self.retag(key, freq - 1, Some(QueueLocation::InMain));
                        self.main.push_back(key);
                        return ;
                    }
                },
            }
        }
    }
}

impl<V> Cache<u64, V> for S3Fifo<V> {
    open spec fn wf(&self) -> bool {
        self@.wf()
    }

    open spec fn contents(&self) -> Map<u64, V> {
        self@.contents()
    }

    /// A key that holds a value is a hit: its frequency goes up by one, up
    /// to the ceiling, and the value is handed out. Any other key, a ghost
    /// too, is a miss.
    fn get(&mut self, key: &u64) -> (found: Option<&V>)
        ensures
            final(self)@ == old(self)@.touch(*key),
            match found {
                Some(v) => old(self)@.lookup(*key) == Some(*v),
                None => old(self)@.lookup(*key).is_none(),
            },
    {
        proof {
            lemma_touch(self@, *key);
            lemma_contents_len(self@);
            assert(self@.touch(*key).contents() =~= self@.contents());
        }
        let resident = match self.cache.get(key) {
            Some(entry) => match entry.location {
                QueueLocation::InGhost => false,
                _ => true,
            },
            None => false,
        };
        if resident {
            self.hits = self.hits.wrapping_add(1);
            let freq = self.cache.get(key).unwrap().freq;
            if freq < MAX_FREQ {
                self.retag(*key, freq + 1, None);
            } else {
                proof {
                    assert(self@.table.insert(*key, self@.table[*key]) =~= self@.table);
                }
            }
            match self.cache.get(key) {
                Some(entry) => entry.value.as_ref(),
                None => None,
            }
        } else {
            self.misses = self.misses.wrapping_add(1);
            None
        }
    }

    /// See [`CacheModel::insert`] for the three cases.
    fn insert(&mut self, key: u64, value: V) -> (previous: Option<V>)
        ensures
            final(self)@ == old(self)@.insert(key, value),
            previous == old(self)@.replaced(key),
    {
        proof {
            lemma_insert(self@, key, value);
            lemma_contents_len(self@);
            lemma_contents_len(self@.insert(key, value));
        }
        match self.cache.remove(&key) {
            Some(entry) => {
                match entry.location {
                    QueueLocation::InGhost => {
                        self.leave_ghosts(key);
                        proof {
                            assert(self@ =~= old(self)@.forget_ghost(key));
                        }
                        if self.main.len() >= self.main_capacity {
                            self.evict_from_main();
                        }
                        self.main.push_back(key);
                        self.cache.insert(
                            key,
                            CacheEntry {
                                value: Some(value),
                                freq: 1,
                                location: QueueLocation::InMain,
                            },
                        );
                        None
                    },
                    location => {
                        self.cache.insert(
                            key,
                            CacheEntry { value: Some(value), freq: 1, location },
                        );
                        proof {
                            assert(self.cache@ =~= old(self)@.table.insert(
                                key,
                                CacheEntry { value: Some(value), freq: 1, location },
                            ));
                        }
                        entry.value
                    },
                }
            },
            None => {
                proof {
                    assert(self.cache@ =~= old(self)@.table);
                }
                if self.small.len() >= self.small_capacity {
                    self.evict_from_small();
                }
                self.small.push_back(key);
                self.cache.insert(
                    key,
                    CacheEntry { value: Some(value), freq: 0, location: QueueLocation::InSmall },
                );
                None
            },
        }
    }

    /// Ghost keys do not count.
    fn contains(&self, key: &u64) -> (held: bool)
        ensures
            held == self@.resident(*key),
    {
        match self.cache.get(key) {
            Some(entry) => match entry.location {
                QueueLocation::InGhost => false,
                _ => true,
            },
            None => false,
        }
    }

    /// The length of the small queue and that of the main queue together.
    fn len(&self) -> (count: usize)
        ensures
            count == self@.len(),
    {
        proof {
            lemma_contents_len(self@);
        }
        self.small.len() + self.main.len()
    }

    /// Empties the table and the three queues. The counters stay.
    fn clear(&mut self)
        ensures
            final(self)@ == old(self)@.clear(),
    {
        proof {
            lemma_clear_reset(self@);
            assert(self@.clear().contents() =~= Map::<u64, V>::empty());
        }
        self.cache.clear();
        self.small.clear();
        self.main.clear();
        self.ghosts.clear();
    }
}

} // verus!
