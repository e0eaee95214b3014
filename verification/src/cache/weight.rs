use vstd::prelude::*;
use crate::cache::model::CacheEntry;

verus! {

/// The frequency the table records for `key`, 0 where it records none.
pub open spec fn entry_freq<V>(table: Map<u64, CacheEntry<V>>, key: u64) -> nat {
    if table.contains_key(key) {
        table[key].freq as nat
    } else {
        0
    }
}

/// The work an eviction scan can still spend on a queue: one step for each
/// position, plus one more for each unit of frequency recorded for the key
/// at that position.
pub open spec fn queue_weight<V>(queue: Seq<u64>, table: Map<u64, CacheEntry<V>>) -> nat
    decreases queue.len(),
{
    if queue.len() == 0 {
        0
    } else {
        queue_weight(queue.drop_last(), table) + 1 + entry_freq(table, queue.last())
    }
}

/// Appending a key adds its own share to the weight.
pub proof fn lemma_weight_push<V>(queue: Seq<u64>, table: Map<u64, CacheEntry<V>>, key: u64)
    ensures
        queue_weight(queue.push(key), table) == queue_weight(queue, table) + 1 + entry_freq(
            table,
            key,
        ),
{
    assert(queue.push(key).drop_last() =~= queue);
}

/// Taking the head off removes the head's share from the weight.
pub proof fn lemma_weight_pop<V>(queue: Seq<u64>, table: Map<u64, CacheEntry<V>>)
    requires
        queue.len() > 0,
    ensures
        queue_weight(queue, table) == 1 + entry_freq(table, queue[0]) + queue_weight(
            queue.subrange(1, queue.len() as int),
            table,
        ),
    decreases queue.len(),
{
    let tail = queue.subrange(1, queue.len() as int);
    if queue.len() == 1 {
        assert(queue_weight(queue.drop_last(), table) == 0);
        assert(queue_weight(tail, table) == 0);
    } else {
        lemma_weight_pop(queue.drop_last(), table);
        assert(queue.drop_last().subrange(1, queue.len() - 1) =~= tail.drop_last());
        assert(tail.last() == queue.last());
        assert(queue.drop_last()[0] == queue[0]);
        assert(queue_weight(tail, table) == queue_weight(tail.drop_last(), table) + 1
            + entry_freq(table, tail.last()));
    }
}

/// Lowering frequencies in the table never raises the weight of a queue.
pub proof fn lemma_weight_monotone<V>(
    queue: Seq<u64>,
    before: Map<u64, CacheEntry<V>>,
    after: Map<u64, CacheEntry<V>>,
)
    requires
        forall|k: u64| entry_freq(after, k) <= entry_freq(before, k),
    ensures
        queue_weight(queue, after) <= queue_weight(queue, before),
    decreases queue.len(),
{
    if queue.len() > 0 {
        lemma_weight_monotone(queue.drop_last(), before, after);
    }
}

/// One turn of an eviction scan: the head's frequency drops by one and the
/// head moves to the tail. The weight of the queue strictly falls.
pub proof fn lemma_weight_recycle<V>(
    queue: Seq<u64>,
    table: Map<u64, CacheEntry<V>>,
    entry: CacheEntry<V>,
)
    requires
        queue.len() > 0,
        table.contains_key(queue[0]),
        entry.freq < table[queue[0]].freq,
    ensures
        queue_weight(
            queue.subrange(1, queue.len() as int).push(queue[0]),
            table.insert(queue[0], entry),
        ) < queue_weight(queue, table),
{
    let head = queue[0];
    let tail = queue.subrange(1, queue.len() as int);
    let after = table.insert(head, entry);
    lemma_weight_pop(queue, table);
    lemma_weight_push(tail, after, head);
    assert forall|k: u64| entry_freq(after, k) <= entry_freq(table, k) by {}
    lemma_weight_monotone(tail, table, after);
}

} // verus!
