use vstd::prelude::*;
use crate::cache::model::CacheModel;
use crate::cache::model::QueueLocation;
use crate::cache::model::MAX_FREQ;
use crate::cache::wellformed::lemma_clear_reset;
use crate::cache::wellformed::lemma_empty_wf;
use crate::cache::wellformed::lemma_insert;
use crate::cache::wellformed::lemma_touch;

verus! {

/// One call of a cache operation that changes the state.
pub enum Operation<V> {
    Get(u64),
    Insert(u64, V),
    Clear,
    ResetStats,
}

impl<V> CacheModel<V> {
    /// The state after one operation.
    pub open spec fn apply(self, op: Operation<V>) -> Self {
        match op {
            Operation::Get(key) => self.touch(key),
            Operation::Insert(key, value) => self.insert(key, value),
            Operation::Clear => self.clear(),
            Operation::ResetStats => self.reset_stats(),
        }
    }

    /// The state after a series of operations, the first of `ops` first.
    pub open spec fn run(self, ops: Seq<Operation<V>>) -> Self
        decreases ops.len(),
    {
        if ops.len() == 0 {
            self
        } else {
            self.run(ops.drop_last()).apply(ops.last())
        }
    }

    /// The state after `count` lookups of `key` in a row.
    pub open spec fn touch_times(self, key: u64, count: nat) -> Self
        decreases count,
    {
        if count == 0 {
            self
        } else {
            self.touch_times(key, (count - 1) as nat).touch(key)
        }
    }
}

/// Every operation keeps a well-formed cache well formed.
pub proof fn law_apply_keeps_wf<V>(s: CacheModel<V>, op: Operation<V>)
    requires
        s.wf(),
    ensures
        s.apply(op).wf(),
{
    match op {
        Operation::Get(key) => lemma_touch(s, key),
        Operation::Insert(key, value) => lemma_insert(s, key, value),
        Operation::Clear => lemma_clear_reset(s),
        Operation::ResetStats => lemma_clear_reset(s),
    }
}

/// Whatever is done to a cache from its construction on, it is well formed:
/// every entry is referenced by exactly the queue it is filed under, and
/// every frequency is at most 3.
pub proof fn law_always_wf<V>(capacity: usize, ops: Seq<Operation<V>>)
    ensures
        CacheModel::<V>::empty(capacity).run(ops).wf(),
    decreases ops.len(),
{
    if ops.len() == 0 {
        lemma_empty_wf::<V>(capacity);
    } else {
        law_always_wf::<V>(capacity, ops.drop_last());
        law_apply_keeps_wf(CacheModel::<V>::empty(capacity).run(ops.drop_last()), ops.last());
    }
}

/// In a well-formed cache the ghost queue is never longer than its
/// capacity, and neither are the main and the small queue where their
/// capacity is not 0. A queue of capacity 0 holds at most one key.
pub proof fn law_queue_bounds<V>(s: CacheModel<V>)
    requires
        s.wf(),
    ensures
        s.ghosts.len() <= s.ghost_capacity,
        s.main_capacity > 0 ==> s.main.len() <= s.main_capacity,
        s.small_capacity > 0 ==> s.small.len() <= s.small_capacity,
        s.main_capacity == 0 ==> s.main.len() <= 1,
        s.small_capacity == 0 ==> s.small.len() <= 1,
{
}

/// In a well-formed cache no key is referenced twice: not twice by one
/// queue, and not by two queues. A key has an entry exactly when a queue
/// references it.
pub proof fn law_one_queue_per_key<V>(s: CacheModel<V>, key: u64)
    requires
        s.wf(),
    ensures
        s.small.no_duplicates() && s.main.no_duplicates() && s.ghosts.no_duplicates(),
        !(s.small.contains(key) && s.main.contains(key)),
        !(s.small.contains(key) && s.ghosts.contains(key)),
        !(s.main.contains(key) && s.ghosts.contains(key)),
        s.table.contains_key(key) <==> s.small.contains(key) || s.main.contains(key)
            || s.ghosts.contains(key),
        s.resident(key) <==> s.small.contains(key) || s.main.contains(key),
        s.table.contains_key(key) ==> s.table[key].freq <= MAX_FREQ,
{
    if s.table.contains_key(key) {
        assert(s.queued(key));
    }
}

/// A lookup right after an insert of the same key finds the inserted value.
pub proof fn law_insert_then_get<V>(s: CacheModel<V>, key: u64, value: V)
    requires
        s.wf(),
    ensures
        s.insert(key, value).wf(),
        s.insert(key, value).resident(key),
        s.insert(key, value).lookup(key) == Some(value),
{
    lemma_insert(s, key, value);
}

/// A key whose entry is a ghost holds no value, and neither does a key
/// without an entry.
pub proof fn law_ghost_or_absent_not_held<V>(s: CacheModel<V>, key: u64)
    requires
        !s.table.contains_key(key) || s.table[key].location == QueueLocation::InGhost,
    ensures
        !s.resident(key),
        s.lookup(key).is_none(),
        !s.contents().contains_key(key),
{
}

/// Only an insert of `key` itself gives `key` an entry.
pub proof fn law_entry_needs_insert<V>(s: CacheModel<V>, op: Operation<V>, key: u64)
    requires
        s.wf(),
        !s.table.contains_key(key),
        !(op matches Operation::Insert(k, _) && k == key),
    ensures
        !s.apply(op).table.contains_key(key),
{
    match op {
        Operation::Insert(other, value) => lemma_insert(s, other, value),
        _ => {},
    }
}

/// A key that was never inserted since construction holds no value.
pub proof fn law_never_inserted_not_held<V>(capacity: usize, ops: Seq<Operation<V>>, key: u64)
    requires
        forall|i: int|
            0 <= i < ops.len() ==> !(#[trigger] ops[i] matches Operation::Insert(k, _) && k == key),
    ensures
        !CacheModel::<V>::empty(capacity).run(ops).table.contains_key(key),
        !CacheModel::<V>::empty(capacity).run(ops).resident(key),
    decreases ops.len(),
{
    if ops.len() > 0 {
        let earlier = ops.drop_last();
        assert forall|i: int| 0 <= i < earlier.len() implies !(#[trigger] earlier[i] matches Operation::Insert(
            k,
            _,
        ) && k == key) by {
            assert(earlier[i] == ops[i]);
        }
        law_never_inserted_not_held::<V>(capacity, earlier, key);
        law_always_wf::<V>(capacity, earlier);
        law_entry_needs_insert(
            CacheModel::<V>::empty(capacity).run(earlier),
            ops.last(),
            key,
        );
    }
}

/// A lookup of a key that holds a value counts one hit, leaves the misses
/// alone and raises the key's frequency by one, but never above 3.
pub proof fn law_hit<V>(s: CacheModel<V>, key: u64)
    requires
        s.wf(),
        s.resident(key),
        s.hits < u64::MAX,
    ensures
        s.touch(key).hits == s.hits + 1,
        s.touch(key).misses == s.misses,
        s.touch(key).resident(key),
        s.touch(key).lookup(key) == s.lookup(key),
        s.touch(key).table[key].freq == if s.table[key].freq < MAX_FREQ {
            s.table[key].freq + 1
        } else {
            MAX_FREQ as int
        },
        s.touch(key).table[key].freq <= MAX_FREQ,
{
}

/// `count` lookups in a row of a key that holds a value count `count` hits;
/// the key's frequency rises by `count` and stops at 3.
pub proof fn law_repeated_get<V>(s: CacheModel<V>, key: u64, count: nat)
    requires
        s.wf(),
        s.resident(key),
        s.hits + count <= u64::MAX,
    ensures
        s.touch_times(key, count).wf(),
        s.touch_times(key, count).hits == s.hits + count,
        s.touch_times(key, count).misses == s.misses,
        s.touch_times(key, count).resident(key),
        s.touch_times(key, count).lookup(key) == s.lookup(key),
        s.touch_times(key, count).table[key].freq == if s.table[key].freq + count < MAX_FREQ {
            s.table[key].freq + count
        } else {
            MAX_FREQ as int
        },
    decreases count,
{
    if count > 0 {
        let earlier = s.touch_times(key, (count - 1) as nat);
        law_repeated_get(s, key, (count - 1) as nat);
        lemma_touch(earlier, key);
        law_hit(earlier, key);
    }
}

/// A lookup of a key that holds no value counts one miss and changes
/// nothing else.
pub proof fn law_miss<V>(s: CacheModel<V>, key: u64)
    requires
        !s.resident(key),
        s.misses < u64::MAX,
    ensures
        s.touch(key).misses == s.misses + 1,
        s.touch(key).hits == s.hits,
        s.touch(key).table == s.table,
        s.touch(key).small == s.small,
        s.touch(key).main == s.main,
        s.touch(key).ghosts == s.ghosts,
{
}

/// Setting the counters back zeroes both and leaves queue membership,
/// frequencies and values as they are.
pub proof fn law_reset_stats<V>(s: CacheModel<V>)
    ensures
        s.reset_stats().hits == 0,
        s.reset_stats().misses == 0,
        s.reset_stats().table == s.table,
        s.reset_stats().small == s.small,
        s.reset_stats().main == s.main,
        s.reset_stats().ghosts == s.ghosts,
        s.reset_stats().contents() == s.contents(),
        s.reset_stats().len() == s.len(),
{
    assert(s.reset_stats().contents() =~= s.contents());
}

/// After a clear the cache holds nothing: its length is 0 and no key holds
/// a value.
pub proof fn law_clear<V>(s: CacheModel<V>, key: u64)
    ensures
        s.clear().len() == 0,
        !s.clear().resident(key),
        !s.clear().table.contains_key(key),
        s.clear().lookup(key).is_none(),
{
}

} // verus!
