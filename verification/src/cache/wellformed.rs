use vstd::prelude::*;
use crate::cache::model::CacheEntry;
use crate::cache::model::CacheModel;
use crate::cache::model::QueueLocation;
use crate::cache::model::MAX_FREQ;
use crate::cache::queue::lemma_push_members;
use crate::cache::queue::lemma_rotate_members;
use crate::cache::queue::lemma_tail_members;
use crate::cache::queue::lemma_without_members;
use crate::cache::queue::tail_of;
use crate::cache::weight::lemma_weight_recycle;
use crate::cache::weight::queue_weight;

verus! {

impl<V> CacheModel<V> {
    /// Every key of a queue has an entry, filed under that queue.
    pub open spec fn filed(self) -> bool {
        &&& forall|k: u64| #[trigger]
            self.small.contains(k) ==> self.table.contains_key(k) && self.table[k].location
                == QueueLocation::InSmall
        &&& forall|k: u64| #[trigger]
            self.main.contains(k) ==> self.table.contains_key(k) && self.table[k].location
                == QueueLocation::InMain
        &&& forall|k: u64| #[trigger]
            self.ghosts.contains(k) ==> self.table.contains_key(k) && self.table[k].location
                == QueueLocation::InGhost
    }

    /// The queue for the entry of `key` holds `key`.
    pub open spec fn queued(self, key: u64) -> bool {
        match self.table[key].location {
            QueueLocation::InSmall => self.small.contains(key),
            QueueLocation::InMain => self.main.contains(key),
            QueueLocation::InGhost => self.ghosts.contains(key),
        }
    }

    /// No frequency is above the ceiling, and an entry holds a value exactly
    /// when it is not a ghost; a ghost has frequency 0.
    pub open spec fn entries_sound(self) -> bool {
        forall|k: u64| #[trigger]
            self.table.contains_key(k) ==> {
                let e = self.table[k];
                &&& e.freq <= MAX_FREQ
                &&& e.location == QueueLocation::InGhost ==> e.freq == 0 && e.value.is_none()
                &&& e.location != QueueLocation::InGhost ==> e.value.is_some()
            }
    }

    /// Every entry sits in the queue it is filed under, but for the keys in
    /// `flying`.
    pub open spec fn queued_except(self, flying: Set<u64>) -> bool {
        forall|k: u64| #[trigger] self.table.contains_key(k) && !flying.contains(k) ==> self.queued(k)
    }

    /// The keys in `flying` have left their queue in the middle of an
    /// eviction: each still has its entry and its value, and no queue
    /// holds it.
    pub open spec fn in_flight(self, flying: Set<u64>) -> bool {
        forall|k: u64| #[trigger]
            flying.contains(k) ==> {
                &&& self.table.contains_key(k)
                &&& self.table[k].location != QueueLocation::InGhost
                &&& !self.small.contains(k)
                &&& !self.main.contains(k)
            }
    }

    /// The three capacities stand in the relation that construction gives
    /// them.
    pub open spec fn capacities_sound(self) -> bool {
        &&& self.small_capacity == self.ghost_capacity / 10
        &&& self.main_capacity == self.ghost_capacity - self.small_capacity
    }

    /// The most keys the small queue ever holds: its capacity, and one key
    /// where the capacity is 0.
    pub open spec fn small_bound(self) -> int {
        if self.small_capacity == 0 {
            1
        } else {
            self.small_capacity as int
        }
    }

    /// The most keys the main queue ever holds: its capacity, and one key
    /// where the capacity is 0.
    pub open spec fn main_bound(self) -> int {
        if self.main_capacity == 0 {
            1
        } else {
            self.main_capacity as int
        }
    }

    /// The invariant of the cache while the keys in `flying` are between two
    /// queues.
    pub open spec fn inv(self, flying: Set<u64>) -> bool {
        &&& self.table.dom().finite()
        &&& self.capacities_sound()
        &&& self.small.no_duplicates()
        &&& self.main.no_duplicates()
        &&& self.ghosts.no_duplicates()
        &&& self.filed()
        &&& self.entries_sound()
        &&& self.queued_except(flying)
        &&& self.in_flight(flying)
        &&& self.ghosts.len() <= self.ghost_capacity
        &&& self.small.len() <= self.small_bound()
        &&& self.main.len() <= self.main_bound()
    }

    /// The invariant of the cache between two operations: every entry is
    /// referenced by exactly the queue it is filed under, no queue holds a
    /// key twice or a key without an entry, frequencies stay in range, and
    /// no queue is longer than its bound.
    pub open spec fn wf(self) -> bool {
        self.inv(Set::empty())
    }

    /// `self` came out of `before` by evictions alone: capacities and
    /// counters are the same, no key has gained an entry, and every key that
    /// holds a value held the same value before.
    pub open spec fn thinned_from(self, before: Self) -> bool {
        &&& self.small_capacity == before.small_capacity
        &&& self.main_capacity == before.main_capacity
        &&& self.ghost_capacity == before.ghost_capacity
        &&& self.hits == before.hits
        &&& self.misses == before.misses
        &&& forall|k: u64| #[trigger] self.table.contains_key(k) ==> before.table.contains_key(k)
        &&& forall|k: u64| #[trigger]
            self.resident(k) ==> before.resident(k) && self.table[k].value
                == before.table[k].value
    }
}

/// A fresh cache is well formed.
pub proof fn lemma_empty_wf<V>(capacity: usize)
    ensures
        CacheModel::<V>::empty(capacity).wf(),
{
}

/// A key in flight that moves to the ghost queue lands: the invariant holds
/// again without it.
pub proof fn lemma_move_to_ghost<V>(s: CacheModel<V>, key: u64, flying: Set<u64>)
    requires
        s.inv(flying),
        flying.contains(key),
    ensures
        s.move_to_ghost(key).inv(flying.remove(key)),
        s.move_to_ghost(key).thinned_from(s),
        s.move_to_ghost(key).small == s.small,
        s.move_to_ghost(key).main == s.main,
{
    let ghosts = s.ghosts.push(key);
    lemma_push_members(s.ghosts, key);
    if ghosts.len() > s.ghost_capacity {
        lemma_tail_members(ghosts);
    }
}

/// Main eviction keeps the invariant, whatever keys are in flight, and takes
/// exactly one key off a main queue that holds any.
pub proof fn lemma_evict_from_main<V>(s: CacheModel<V>, flying: Set<u64>)
    requires
        s.inv(flying),
    ensures
        s.evict_from_main().inv(flying),
        s.evict_from_main().thinned_from(s),
        s.evict_from_main().small == s.small,
        s.main.len() == 0 ==> s.evict_from_main() == s,
        s.main.len() > 0 ==> s.evict_from_main().main.len() == s.main.len() - 1,
    decreases queue_weight(s.main, s.table),
{
    if s.main.len() > 0 {
        let key = s.main[0];
        assert(s.main.contains(key));
        let e = s.table[key];
        lemma_tail_members(s.main);
        if e.freq == 0 {
            let popped = s.drop_main_head();
            assert(popped.inv(flying.insert(key)));
            lemma_move_to_ghost(popped, key, flying.insert(key));
            assert(flying.insert(key).remove(key) =~= flying);
        } else {
            let turned = CacheModel {
                main: tail_of(s.main).push(key),
                ..s.retag(key, (e.freq - 1) as u8, None)
            };
            lemma_rotate_members(s.main);
            assert(turned.inv(flying));
            lemma_weight_recycle(s.main, s.table, CacheEntry { freq: (e.freq - 1) as u8, ..e });
            lemma_evict_from_main(turned, flying);
        }
    }
}

/// A key in flight from the small queue, with a frequency of 2 or more,
/// lands in the main queue: the cache is well formed again.
pub proof fn lemma_promote<V>(s: CacheModel<V>, key: u64, freq: u8)
    requires
        s.inv(Set::<u64>::empty().insert(key)),
        2 <= freq <= MAX_FREQ,
    ensures
        s.promote(key, freq).wf(),
        s.promote(key, freq).thinned_from(s),
        s.promote(key, freq).small == s.small,
{
    let lone = Set::<u64>::empty().insert(key);
    let room = if s.main.len() >= s.main_capacity {
        s.evict_from_main()
    } else {
        s
    };
    lemma_evict_from_main(s, lone);
    assert(lone.contains(key));
    lemma_push_members(room.main, key);
    assert forall|k: u64| #[trigger] s.promote(key, freq).resident(k) implies room.resident(k) by {}
}

/// Small eviction keeps a well-formed cache well formed and takes exactly
/// one key off a small queue that holds any.
pub proof fn lemma_evict_from_small<V>(s: CacheModel<V>)
    requires
        s.wf(),
    ensures
        s.evict_from_small().wf(),
        s.evict_from_small().thinned_from(s),
        s.small.len() == 0 ==> s.evict_from_small() == s,
        s.small.len() > 0 ==> s.evict_from_small().small.len() == s.small.len() - 1,
    decreases queue_weight(s.small, s.table),
{
    let none = Set::<u64>::empty();
    if s.small.len() > 0 {
        let key = s.small[0];
        assert(s.small.contains(key));
        let e = s.table[key];
        lemma_tail_members(s.small);
        if e.freq == 1 {
            let turned = CacheModel { small: tail_of(s.small).push(key), ..s.retag(key, 0, None) };
            lemma_rotate_members(s.small);
            assert(turned.wf());
            lemma_weight_recycle(s.small, s.table, CacheEntry { freq: 0, ..e });
            lemma_evict_from_small(turned);
        } else {
            let popped = s.drop_small_head();
            let lone = none.insert(key);
            assert(popped.inv(lone));
            assert(lone.remove(key) =~= none);
            if e.freq == 0 {
                lemma_move_to_ghost(popped, key, lone);
            } else {
                lemma_promote(popped, key, e.freq);
            }
        }
    }
}

/// A lookup keeps a well-formed cache well formed.
pub proof fn lemma_touch<V>(s: CacheModel<V>, key: u64)
    requires
        s.wf(),
    ensures
        s.touch(key).wf(),
{
}

/// A fresh key, one without an entry, joins the tail of the small or the
/// main queue of a well-formed cache that has room for it there.
proof fn lemma_admit<V>(s: CacheModel<V>, key: u64, entry: CacheEntry<V>)
    requires
        s.wf(),
        !s.table.contains_key(key),
        entry.location != QueueLocation::InGhost,
        entry.value.is_some(),
        entry.freq <= MAX_FREQ,
        entry.location == QueueLocation::InSmall ==> s.small.len() < s.small_bound(),
        entry.location == QueueLocation::InMain ==> s.main.len() < s.main_bound(),
    ensures
        entry.location == QueueLocation::InSmall ==> s.admit_small(key, entry).wf(),
        entry.location == QueueLocation::InMain ==> s.admit_main(key, entry).wf(),
{
    lemma_push_members(s.small, key);
    lemma_push_members(s.main, key);
}

/// Forgetting a ghost key, entry and queue position both, keeps a
/// well-formed cache well formed.
proof fn lemma_forget_ghost<V>(s: CacheModel<V>, key: u64)
    requires
        s.wf(),
        s.table.contains_key(key),
        !s.resident(key),
    ensures
        s.forget_ghost(key).wf(),
{
    lemma_without_members(s.ghosts, key);
}

/// An insert keeps a well-formed cache well formed. Afterwards the key
/// holds the new value; every other key that holds a value held the same
/// one before, and no other key has gained an entry.
pub proof fn lemma_insert<V>(s: CacheModel<V>, key: u64, value: V)
    requires
        s.wf(),
    ensures
        s.insert(key, value).wf(),
        s.insert(key, value).lookup(key) == Some(value),
        s.insert(key, value).small_capacity == s.small_capacity,
        s.insert(key, value).main_capacity == s.main_capacity,
        s.insert(key, value).ghost_capacity == s.ghost_capacity,
        s.insert(key, value).hits == s.hits,
        s.insert(key, value).misses == s.misses,
        forall|k: u64|
            k != key && #[trigger] s.insert(key, value).table.contains_key(k)
                ==> s.table.contains_key(k),
        forall|k: u64|
            k != key && #[trigger] s.insert(key, value).resident(k) ==> s.resident(k) && s.insert(
                key,
                value,
            ).lookup(k) == s.lookup(k),
{
    let none = Set::<u64>::empty();
    if s.resident(key) {
    } else if s.table.contains_key(key) {
        let forgotten = s.forget_ghost(key);
        lemma_forget_ghost(s, key);
        lemma_evict_from_main(forgotten, none);
        let room = if forgotten.main.len() >= forgotten.main_capacity {
            forgotten.evict_from_main()
        } else {
            forgotten
        };
        lemma_admit(
            room,
            key,
            CacheEntry { value: Some(value), freq: 1, location: QueueLocation::InMain },
        );
        assert forall|k: u64| k != key && #[trigger] s.insert(key, value).resident(
            k,
        ) implies s.resident(k) && s.insert(key, value).lookup(k) == s.lookup(k) by {
            assert(room.resident(k));
            assert(forgotten.resident(k));
        }
    } else {
        lemma_evict_from_small(s);
        let room = if s.small.len() >= s.small_capacity {
            s.evict_from_small()
        } else {
            s
        };
        lemma_admit(
            room,
            key,
            CacheEntry { value: Some(value), freq: 0, location: QueueLocation::InSmall },
        );
        assert forall|k: u64| k != key && #[trigger] s.insert(key, value).resident(
            k,
        ) implies s.resident(k) && s.insert(key, value).lookup(k) == s.lookup(k) by {
            assert(room.resident(k));
        }
    }
}

/// Clearing leaves a well-formed cache, and so does setting the counters
/// back.
pub proof fn lemma_clear_reset<V>(s: CacheModel<V>)
    requires
        s.wf(),
    ensures
        s.clear().wf(),
        s.reset_stats().wf(),
{
}

/// In a well-formed cache the keys that hold a value are those of the small
/// and the main queue, each counted once.
pub proof fn lemma_contents_len<V>(s: CacheModel<V>)
    requires
        s.wf(),
    ensures
        s.contents().dom().finite(),
        s.contents().len() == s.len(),
        forall|k: u64| #[trigger] s.resident(k) ==> s.lookup(k) == Some(s.contents()[k]),
{
    let small = s.small.to_set();
    let main = s.main.to_set();
    assert(s.contents().dom() =~= small + main) by {
        assert forall|k: u64| s.contents().dom().contains(k) <==> (small + main).contains(k) by {
            if s.resident(k) {
                assert(s.queued(k));
            }
        }
    }
    assert(small.disjoint(main));
    s.small.unique_seq_to_set();
    s.main.unique_seq_to_set();
    vstd::seq_lib::seq_to_set_is_finite(s.small);
    vstd::seq_lib::seq_to_set_is_finite(s.main);
    vstd::set_lib::lemma_set_disjoint_lens(small, main);
}

} // verus!
