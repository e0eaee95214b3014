use vstd::prelude::*;

verus! {

/// `queue` without its head.
pub open spec fn tail_of(queue: Seq<u64>) -> Seq<u64> {
    queue.subrange(1, queue.len() as int)
}

/// Taking the head off a queue of distinct keys leaves distinct keys, none
/// of them the head, and loses no other key.
pub proof fn lemma_tail_members(queue: Seq<u64>)
    requires
        queue.len() > 0,
        queue.no_duplicates(),
    ensures
        tail_of(queue).no_duplicates(),
        tail_of(queue).len() == queue.len() - 1,
        queue.contains(queue[0]),
        !tail_of(queue).contains(queue[0]),
        forall|k: u64|
            #![trigger tail_of(queue).contains(k)]
            #![trigger queue.contains(k)]
            tail_of(queue).contains(k) <==> queue.contains(k) && k != queue[0],
{
    let tail = tail_of(queue);
    assert(queue[0] == queue[0]);
    assert forall|i: int, j: int| 0 <= i < tail.len() && 0 <= j < tail.len() && i != j implies tail[i]
        != tail[j] by {
        assert(tail[i] == queue[i + 1]);
        assert(tail[j] == queue[j + 1]);
    }
    assert forall|k: u64| tail.contains(k) <==> queue.contains(k) && k != queue[0] by {
        if tail.contains(k) {
            let i = choose|i: int| 0 <= i < tail.len() && tail[i] == k;
            assert(queue[i + 1] == k);
        }
        if queue.contains(k) && k != queue[0] {
            let i = choose|i: int| 0 <= i < queue.len() && queue[i] == k;
            assert(tail[i - 1] == k);
        }
    }
}

/// Appending a key that a queue of distinct keys does not hold leaves
/// distinct keys and adds that key only.
pub proof fn lemma_push_members(queue: Seq<u64>, key: u64)
    requires
        queue.no_duplicates(),
        !queue.contains(key),
    ensures
        queue.push(key).no_duplicates(),
        queue.push(key).len() == queue.len() + 1,
        queue.push(key).contains(key),
        forall|k: u64|
            #![trigger queue.push(key).contains(k)]
            #![trigger queue.contains(k)]
            queue.push(key).contains(k) <==> queue.contains(k) || k == key,
{
    let longer = queue.push(key);
    assert forall|i: int, j: int| 0 <= i < longer.len() && 0 <= j < longer.len() && i
        != j implies longer[i] != longer[j] by {
        if i < queue.len() {
            assert(queue.contains(queue[i]));
        }
        if j < queue.len() {
            assert(queue.contains(queue[j]));
        }
    }
    assert forall|k: u64| longer.contains(k) <==> queue.contains(k) || k == key by {
        if longer.contains(k) {
            let i = choose|i: int| 0 <= i < longer.len() && longer[i] == k;
            if i < queue.len() {
                assert(queue[i] == k);
            }
        }
        if queue.contains(k) {
            let i = choose|i: int| 0 <= i < queue.len() && queue[i] == k;
            assert(longer[i] == k);
        }
        if k == key {
            assert(longer[queue.len() as int] == k);
        }
    }
}

/// Moving the head of a queue of distinct keys to its tail keeps the keys
/// distinct and the same.
pub proof fn lemma_rotate_members(queue: Seq<u64>)
    requires
        queue.len() > 0,
        queue.no_duplicates(),
    ensures
        tail_of(queue).push(queue[0]).no_duplicates(),
        tail_of(queue).push(queue[0]).len() == queue.len(),
        forall|k: u64|
            #![trigger tail_of(queue).push(queue[0]).contains(k)]
            #![trigger queue.contains(k)]
            tail_of(queue).push(queue[0]).contains(k) <==> queue.contains(k),
{
    lemma_tail_members(queue);
    lemma_push_members(tail_of(queue), queue[0]);
    assert(queue.contains(queue[0]));
}

/// The keys of `queue` other than `key`, in their order.
pub open spec fn without(queue: Seq<u64>, key: u64) -> Seq<u64> {
    queue.filter(|k: u64| k != key)
}

/// Dropping `key` from a queue of distinct keys leaves distinct keys: all
/// the others and never `key`.
pub proof fn lemma_without_members(queue: Seq<u64>, key: u64)
    requires
        queue.no_duplicates(),
    ensures
        without(queue, key).no_duplicates(),
        without(queue, key).len() <= queue.len(),
        forall|k: u64|
            #![trigger without(queue, key).contains(k)]
            #![trigger queue.contains(k)]
            without(queue, key).contains(k) <==> queue.contains(k) && k != key,
    decreases queue.len(),
{
    reveal(Seq::filter);
    if queue.len() > 0 {
        let front = queue.drop_last();
        let last = queue.last();
        assert forall|i: int, j: int| 0 <= i < front.len() && 0 <= j < front.len() && i
            != j implies front[i] != front[j] by {
            assert(front[i] == queue[i]);
            assert(front[j] == queue[j]);
        }
        lemma_without_members(front, key);
        assert(!front.contains(last)) by {
            if front.contains(last) {
                let i = choose|i: int| 0 <= i < front.len() && front[i] == last;
                assert(queue[i] == queue[queue.len() - 1]);
            }
        }
        assert forall|k: u64| queue.contains(k) <==> front.contains(k) || k == last by {
            if queue.contains(k) {
                let i = choose|i: int| 0 <= i < queue.len() && queue[i] == k;
                if i < front.len() {
                    assert(front[i] == k);
                }
            }
            if front.contains(k) {
                let i = choose|i: int| 0 <= i < front.len() && front[i] == k;
                assert(queue[i] == k);
            }
            if k == last {
                assert(queue[queue.len() - 1] == k);
            }
        }
        if last != key {
            lemma_push_members(without(front, key), last);
        }
    }
}

} // verus!
