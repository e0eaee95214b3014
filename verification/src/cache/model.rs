use vstd::prelude::*;
use crate::cache::queue::tail_of;
use crate::cache::queue::without;
use crate::cache::weight::lemma_weight_pop;
use crate::cache::weight::lemma_weight_recycle;
use crate::cache::weight::queue_weight;

verus! {

/// The queue that currently references a key.
#[derive(Clone, Copy, Debug, PartialEq, Eq, Structural)]
pub enum QueueLocation {
    InSmall,
    InMain,
    InGhost,
}

/// What the entry table records for one key.
///
/// A key that sits in the ghost queue keeps its slot in the table but no
/// value: `value` is `None` exactly for ghost entries.
pub struct CacheEntry<V> {
    pub value: Option<V>,
    pub freq: u8,
    pub location: QueueLocation,
}

/// The highest frequency an entry can reach.
pub const MAX_FREQ: u8 = 3;

/// The mathematical state of the cache: the entry table, the three FIFO
/// queues (head at index 0), the capacities and the two counters.
#[verifier::ext_equal]
pub struct CacheModel<V> {
    pub table: Map<u64, CacheEntry<V>>,
    pub small: Seq<u64>,
    pub main: Seq<u64>,
    pub ghosts: Seq<u64>,
    pub small_capacity: usize,
    pub main_capacity: usize,
    pub ghost_capacity: usize,
    pub hits: u64,
    pub misses: u64,
}

impl<V> CacheModel<V> {
    /// The state of a freshly built cache of the given total capacity.
    pub open spec fn empty(capacity: usize) -> Self {
        CacheModel {
            table: Map::empty(),
            small: Seq::empty(),
            main: Seq::empty(),
            ghosts: Seq::empty(),
            small_capacity: (capacity / 10) as usize,
            main_capacity: (capacity - capacity / 10) as usize,
            ghost_capacity: capacity,
            hits: 0,
            misses: 0,
        }
    }

    /// `key` holds a value: it is in the table and not a ghost.
    pub open spec fn resident(self, key: u64) -> bool {
        self.table.contains_key(key) && self.table[key].location != QueueLocation::InGhost
    }

    /// The keys that hold a value, each with its value.
    pub open spec fn contents(self) -> Map<u64, V> {
        Map::new(|k: u64| self.resident(k), |k: u64| self.table[k].value.unwrap())
    }

    /// What a lookup of `key` yields.
    pub open spec fn lookup(self, key: u64) -> Option<V> {
        if self.resident(key) {
            self.table[key].value
        } else {
            None
        }
    }

    /// The state after a lookup of `key`: a hit raises the frequency up to
    /// the ceiling, a miss only counts. A counter that stands at the highest
    /// number a `u64` holds starts again at 0.
    pub open spec fn touch(self, key: u64) -> Self {
        if self.resident(key) {
            let e = self.table[key];
            let freq = if e.freq < MAX_FREQ { (e.freq + 1) as u8 } else { e.freq };
            CacheModel {
                table: self.table.insert(key, CacheEntry { freq, ..e }),
                hits: if self.hits == u64::MAX { 0 } else { (self.hits + 1) as u64 },
                ..self
            }
        } else {
            CacheModel {
                misses: if self.misses == u64::MAX { 0 } else { (self.misses + 1) as u64 },
                ..self
            }
        }
    }

    /// The number of keys that hold a value.
    pub open spec fn len(self) -> nat {
        self.small.len() + self.main.len()
    }

    /// `self` without its head of the small queue.
    pub open spec fn drop_small_head(self) -> Self {
        CacheModel { small: tail_of(self.small), ..self }
    }

    /// `self` without its head of the main queue.
    pub open spec fn drop_main_head(self) -> Self {
        CacheModel { main: tail_of(self.main), ..self }
    }

    /// `self` with the entry of `key` rewritten: a new frequency and, where
    /// `location` names one, a new queue. The value stays. A key without an
    /// entry is left alone.
    pub open spec fn retag(self, key: u64, freq: u8, location: Option<QueueLocation>) -> Self {
        if self.table.contains_key(key) {
            let e = self.table[key];
            let location = match location {
                Some(l) => l,
                None => e.location,
            };
            CacheModel { table: self.table.insert(key, CacheEntry { freq, location, ..e }), ..self }
        } else {
            self
        }
    }

    /// `key` leaves the resident part of the cache for the ghost queue: its
    /// entry loses value and frequency and the key joins the ghost tail. If
    /// that takes the ghost queue over its capacity, the ghost head is
    /// forgotten altogether. A key without an entry is left alone.
    pub open spec fn move_to_ghost(self, key: u64) -> Self {
        if !self.table.contains_key(key) {
            self
        } else {
            let table = self.table.insert(
                key,
                CacheEntry { value: None, freq: 0, location: QueueLocation::InGhost },
            );
            let ghosts = self.ghosts.push(key);
            if ghosts.len() > self.ghost_capacity {
                CacheModel {
                    table: table.remove(ghosts[0]),
                    ghosts: tail_of(ghosts),
                    ..self
                }
            } else {
                CacheModel { table, ghosts, ..self }
            }
        }
    }

    /// Main eviction: walk the main queue from its head. A key without an
    /// entry is skipped; a key with frequency 0 moves to the ghost queue and
    /// the walk ends; any other key loses one unit of frequency and goes back
    /// to the tail.
    pub open spec fn evict_from_main(self) -> Self
        decreases queue_weight(self.main, self.table),
    {
        if self.main.len() == 0 {
            self
        } else {
            let key = self.main[0];
            if !self.table.contains_key(key) {
                proof {
                    lemma_weight_pop(self.main, self.table);
                }
                self.drop_main_head().evict_from_main()
            } else {
                let e = self.table[key];
                if e.freq == 0 {
                    self.drop_main_head().move_to_ghost(key)
                } else {
                    let again = CacheEntry { freq: (e.freq - 1) as u8, ..e };
                    proof {
                        lemma_weight_recycle(self.main, self.table, again);
                    }
                    CacheModel {
                        main: tail_of(self.main).push(key),
                        ..self.retag(key, (e.freq - 1) as u8, None)
                    }.evict_from_main()
                }
            }
        }
    }

    /// `key`, taken off the small queue with frequency `freq`, joins the main
    /// tail with one unit of frequency less. A full main queue first gives up
    /// one of its own keys.
    pub open spec fn promote(self, key: u64, freq: u8) -> Self {
        let room = if self.main.len() >= self.main_capacity {
            self.evict_from_main()
        } else {
            self
        };
        CacheModel {
            main: room.main.push(key),
            ..room.retag(key, (freq - 1) as u8, Some(QueueLocation::InMain))
        }
    }

    /// Small eviction: walk the small queue from its head until one key has
    /// left it for good. A key without an entry is skipped; frequency 0 sends
    /// the key to the ghost queue; frequency 1 is a second chance, the key
    /// goes back to the tail with frequency 0; anything higher promotes the
    /// key to the main queue.
    pub open spec fn evict_from_small(self) -> Self
        decreases queue_weight(self.small, self.table),
    {
        if self.small.len() == 0 {
            self
        } else {
            let key = self.small[0];
            if !self.table.contains_key(key) {
                proof {
                    lemma_weight_pop(self.small, self.table);
                }
                self.drop_small_head().evict_from_small()
            } else {
                let e = self.table[key];
                if e.freq == 0 {
                    self.drop_small_head().move_to_ghost(key)
                } else if e.freq == 1 {
                    let again = CacheEntry { freq: 0, ..e };
                    proof {
                        lemma_weight_recycle(self.small, self.table, again);
                    }
                    CacheModel {
                        small: tail_of(self.small).push(key),
                        ..self.retag(key, 0, None)
                    }.evict_from_small()
                } else {
                    self.drop_small_head().promote(key, e.freq)
                }
            }
        }
    }

    /// `self` with `key` appended to the small queue under `entry`.
    pub open spec fn admit_small(self, key: u64, entry: CacheEntry<V>) -> Self {
        CacheModel { small: self.small.push(key), table: self.table.insert(key, entry), ..self }
    }

    /// `self` with `key` appended to the main queue under `entry`.
    pub open spec fn admit_main(self, key: u64, entry: CacheEntry<V>) -> Self {
        CacheModel { main: self.main.push(key), table: self.table.insert(key, entry), ..self }
    }

    /// `self` without `key`: neither an entry nor a place in the ghost queue.
    pub open spec fn forget_ghost(self, key: u64) -> Self {
        CacheModel { ghosts: without(self.ghosts, key), table: self.table.remove(key), ..self }
    }

    /// What an insert of `key` hands back: the value it replaces.
    pub open spec fn replaced(self, key: u64) -> Option<V> {
        self.lookup(key)
    }

    /// The state after an insert of `key` with `value`.
    ///
    /// A resident key keeps its place and gets the new value and frequency 1.
    /// A ghost key leaves the ghost queue and enters the main queue with
    /// frequency 1, after a main eviction if the main queue is full. Any
    /// other key enters the small queue with frequency 0, after a small
    /// eviction if the small queue is full.
    pub open spec fn insert(self, key: u64, value: V) -> Self {
        if self.resident(key) {
            CacheModel {
                table: self.table.insert(
                    key,
                    CacheEntry { value: Some(value), freq: 1, location: self.table[key].location },
                ),
                ..self
            }
        } else if self.table.contains_key(key) {
            let forgotten = self.forget_ghost(key);
            let room = if forgotten.main.len() >= forgotten.main_capacity {
                forgotten.evict_from_main()
            } else {
                forgotten
            };
            room.admit_main(
                key,
                CacheEntry { value: Some(value), freq: 1, location: QueueLocation::InMain },
            )
        } else {
            let room = if self.small.len() >= self.small_capacity {
                self.evict_from_small()
            } else {
                self
            };
            room.admit_small(
                key,
                CacheEntry { value: Some(value), freq: 0, location: QueueLocation::InSmall },
            )
        }
    }

    /// The state after `clear`: no entries, empty queues, counters kept.
    pub open spec fn clear(self) -> Self {
        CacheModel {
            table: Map::empty(),
            small: Seq::empty(),
            main: Seq::empty(),
            ghosts: Seq::empty(),
            ..self
        }
    }

    /// The state after the counters are set back to zero.
    pub open spec fn reset_stats(self) -> Self {
        CacheModel { hits: 0, misses: 0, ..self }
    }
}

} // verus!
