use vstd::prelude::*;
use crate::cache::model::CacheEntry;
use crate::cache::model::CacheModel;
use crate::cache::queue::lemma_rotate_members;
use crate::cache::queue::lemma_tail_members;
use crate::cache::queue::tail_of;
use crate::cache::weight::lemma_weight_recycle;
use crate::cache::weight::queue_weight;

verus! {

/// The coldest key of `queue` stands at `at`: no key of the queue has a
/// lower frequency, and every key before it has a higher one.
pub open spec fn is_coldest<V>(queue: Seq<u64>, table: Map<u64, CacheEntry<V>>, at: int) -> bool {
    &&& 0 <= at < queue.len()
    &&& forall|i: int| 0 <= i < queue.len() ==> table[queue[at]].freq <= (#[trigger] table[queue[i]]).freq
    &&& forall|i: int| 0 <= i < at ==> table[queue[at]].freq < (#[trigger] table[queue[i]]).freq
}

/// Where the coldest key of a queue stands.
pub open spec fn coldest<V>(queue: Seq<u64>, table: Map<u64, CacheEntry<V>>) -> int
    decreases queue.len(),
{
    if queue.len() <= 1 {
        0
    } else {
        let before = coldest(queue.drop_last(), table);
        if table[queue.last()].freq < table[queue[before]].freq {
            queue.len() - 1
        } else {
            before
        }
    }
}

/// A queue that holds a key has a coldest key, and `coldest` finds it.
pub proof fn lemma_coldest<V>(queue: Seq<u64>, table: Map<u64, CacheEntry<V>>)
    requires
        queue.len() > 0,
    ensures
        is_coldest(queue, table, coldest(queue, table)),
    decreases queue.len(),
{
    if queue.len() > 1 {
        let front = queue.drop_last();
        lemma_coldest(front, table);
        let before = coldest(front, table);
        assert forall|i: int| 0 <= i < front.len() implies front[i] == queue[i] by {}
        assert(front[before] == queue[before]);
        let at = coldest(queue, table);
        assert forall|i: int| 0 <= i < queue.len() implies table[queue[at]].freq <= (
        #[trigger] table[queue[i]]).freq by {
            if i < front.len() {
                assert(table[front[before]].freq <= table[front[i]].freq);
            }
        }
        assert forall|i: int| 0 <= i < at implies table[queue[at]].freq < (
        #[trigger] table[queue[i]]).freq by {
            if i < front.len() {
                assert(table[front[before]].freq <= table[front[i]].freq);
                if i < before {
                    assert(table[front[before]].freq < table[front[i]].freq);
                }
            }
        }
    }
}

impl<V> CacheModel<V> {
    /// The main queue after the scan that ends at the key at `at`: the keys
    /// behind it have come to the front, the keys before it have gone round
    /// to the back, and the key itself has left. Every key of the queue has
    /// lost as much frequency as the key at `at` had, and those that went
    /// round one unit more.
    pub open spec fn cooled_to(self, at: int) -> Self {
        let lowest = self.table[self.main[at]].freq;
        CacheModel {
            main: self.main.subrange(at + 1, self.main.len() as int) + self.main.subrange(0, at),
            table: Map::new(
                |k: u64| self.table.contains_key(k),
                |k: u64|
                    {
                        let e = self.table[k];
                        if self.main.contains(k) {
                            let round: int = if self.main.index_of(k) < at {
                                1
                            } else {
                                0
                            };
                            CacheEntry { freq: (e.freq - lowest - round) as u8, ..e }
                        } else {
                            e
                        }
                    },
            ),
            ..self
        }
    }
}

/// In a queue of distinct keys each key stands at one place only.
proof fn lemma_index_of(queue: Seq<u64>, i: int)
    requires
        queue.no_duplicates(),
        0 <= i < queue.len(),
    ensures
        queue.contains(queue[i]),
        queue.index_of(queue[i]) == i,
{
    assert(queue[i] == queue[i]);
}

/// Main eviction, said at once: of the keys in the main queue the coldest
/// one leaves for the ghost queue, the first of them if several are as
/// cold. The scan that finds it cools the others down and leaves them in
/// the order in which it passed them last.
pub proof fn law_main_eviction_takes_coldest<V>(s: CacheModel<V>, flying: Set<u64>, at: int)
    requires
        s.inv(flying),
        is_coldest(s.main, s.table, at),
    ensures
        s.evict_from_main() == s.cooled_to(at).move_to_ghost(s.main[at]),
    decreases queue_weight(s.main, s.table),
{
    let count = s.main.len() as int;
    let head = s.main[0];
    let e = s.table[head];
    assert(s.main.contains(head));
    lemma_tail_members(s.main);
    assert forall|i: int| 0 <= i < count implies s.main.contains(#[trigger] s.main[i])
        && s.main.index_of(s.main[i]) == i by {
        lemma_index_of(s.main, i);
    }
    if e.freq == 0 {
        assert(at == 0) by {
            if at > 0 {
                assert(s.table[s.main[at]].freq < s.table[s.main[0]].freq);
            }
        }
        let cooled = s.cooled_to(0);
        assert(cooled.main =~= tail_of(s.main));
        assert(cooled.table =~= s.table) by {
            assert forall|k: u64| s.table.contains_key(k) implies #[trigger] cooled.table[k]
                == s.table[k] by {
                if s.main.contains(k) {
                    let i = s.main.index_of(k);
                    assert(s.table[s.main[0]].freq <= s.table[s.main[i]].freq);
                }
            }
        }
        assert(cooled =~= s.drop_main_head());
    } else {
        let turned = CacheModel {
            main: tail_of(s.main).push(head),
            ..s.retag(head, (e.freq - 1) as u8, None)
        };
        lemma_rotate_members(s.main);
        assert(turned.inv(flying));
        lemma_weight_recycle(s.main, s.table, CacheEntry { freq: (e.freq - 1) as u8, ..e });
        let next = if at == 0 {
            count - 1
        } else {
            at - 1
        };
        assert forall|i: int| 0 <= i < count implies #[trigger] turned.main[i] == s.main[if i
            == count - 1 {
            0
        } else {
            i + 1
        }] by {}
        assert forall|i: int| 1 <= i < count implies #[trigger] turned.table[s.main[i]]
            == s.table[s.main[i]] by {}
        assert(is_coldest(turned.main, turned.table, next)) by {
            assert forall|i: int| 0 <= i < count implies turned.table[turned.main[next]].freq <= (
            #[trigger] turned.table[turned.main[i]]).freq by {
                if i == count - 1 {
                    assert(s.table[s.main[at]].freq <= s.table[s.main[0]].freq);
                    if at > 0 {
                        assert(s.table[s.main[at]].freq < s.table[s.main[0]].freq);
                    }
                } else {
                    assert(s.table[s.main[at]].freq <= s.table[s.main[i + 1]].freq);
                }
            }
            assert forall|i: int| 0 <= i < next implies turned.table[turned.main[next]].freq < (
            #[trigger] turned.table[turned.main[i]]).freq by {
                assert(s.table[s.main[at]].freq <= s.table[s.main[i + 1]].freq);
                if at > 0 {
                    assert(s.table[s.main[at]].freq < s.table[s.main[i + 1]].freq);
                }
            }
        }
        law_main_eviction_takes_coldest(turned, flying, next);
        assert(turned.main[next] == s.main[at]);
        let cooled = s.cooled_to(at);
        let cooled_next = turned.cooled_to(next);
        assert forall|i: int| 0 <= i < count implies turned.main.contains(#[trigger] turned.main[i])
            && turned.main.index_of(turned.main[i]) == i by {
            lemma_index_of(turned.main, i);
        }
        assert(cooled_next.main =~= cooled.main);
        assert(cooled_next.table =~= cooled.table) by {
            assert forall|k: u64| s.table.contains_key(k) implies #[trigger] cooled_next.table[k]
                == cooled.table[k] by {
                if s.main.contains(k) {
                    let i = s.main.index_of(k);
                    assert(s.main[i] == k);
                    assert(s.table[s.main[at]].freq <= s.table[s.main[i]].freq);
                    if i == 0 {
                        assert(turned.main[count - 1] == k);
                        assert(turned.main.index_of(k) == count - 1);
                    } else {
                        assert(turned.main[i - 1] == k);
                        assert(turned.main.index_of(k) == i - 1);
                        if i < at {
                            assert(s.table[s.main[at]].freq < s.table[s.main[i]].freq);
                        }
                    }
                }
            }
        }
        assert(cooled_next =~= cooled);
    }
}

/// The first key of `queue` that a small scan does not send round stands at
/// `at`: its frequency is not 1, and that of every key before it is.
pub open spec fn is_first_settled<V>(
    queue: Seq<u64>,
    table: Map<u64, CacheEntry<V>>,
    at: int,
) -> bool {
    &&& 0 <= at < queue.len()
    &&& table[queue[at]].freq != 1
    &&& forall|i: int| 0 <= i < at ==> (#[trigger] table[queue[i]]).freq == 1
}

impl<V> CacheModel<V> {
    /// The small queue after the scan has passed the first `passed` keys
    /// and taken out the key behind them, if there is one: the keys behind
    /// that one have come to the front, the keys passed have gone round to
    /// the back, with frequency 0.
    pub open spec fn passed_over(self, passed: int) -> Self {
        CacheModel {
            small: self.small.subrange(
                if passed < self.small.len() {
                    passed + 1
                } else {
                    passed
                },
                self.small.len() as int,
            ) + self.small.subrange(0, passed),
            table: Map::new(
                |k: u64| self.table.contains_key(k),
                |k: u64|
                    {
                        let e = self.table[k];
                        if self.small.contains(k) && self.small.index_of(k) < passed {
                            CacheEntry { freq: 0, ..e }
                        } else {
                            e
                        }
                    },
            ),
            ..self
        }
    }
}

/// Small eviction, said at once, where some key of the small queue has a
/// frequency other than 1: the first such key leaves, for the ghost queue
/// if its frequency is 0 and for the main queue if it is 2 or more. The
/// keys before it lose their one unit of frequency and go to the back.
pub proof fn law_small_eviction_takes_first_settled<V>(s: CacheModel<V>, at: int)
    requires
        s.wf(),
        is_first_settled(s.small, s.table, at),
    ensures
        s.evict_from_small() == if s.table[s.small[at]].freq == 0 {
            s.passed_over(at).move_to_ghost(s.small[at])
        } else {
            s.passed_over(at).promote(s.small[at], s.table[s.small[at]].freq)
        },
    decreases at,
{
    let count = s.small.len() as int;
    let head = s.small[0];
    let e = s.table[head];
    assert(s.small.contains(head));
    lemma_tail_members(s.small);
    assert forall|i: int| 0 <= i < count implies s.small.contains(#[trigger] s.small[i])
        && s.small.index_of(s.small[i]) == i by {
        lemma_index_of(s.small, i);
    }
    if at == 0 {
        let passed = s.passed_over(0);
        assert(passed.small =~= tail_of(s.small));
        assert(passed.table =~= s.table);
        assert(passed =~= s.drop_small_head());
    } else {
        assert(s.table[s.small[0]].freq == 1);
        let turned = CacheModel { small: tail_of(s.small).push(head), ..s.retag(head, 0, None) };
        lemma_rotate_members(s.small);
        assert(turned.wf());
        assert forall|i: int| 0 <= i < count implies #[trigger] turned.small[i] == s.small[if i
            == count - 1 {
            0
        } else {
            i + 1
        }] by {}
        assert forall|i: int| 1 <= i < count implies #[trigger] turned.table[s.small[i]]
            == s.table[s.small[i]] by {}
        assert(is_first_settled(turned.small, turned.table, at - 1)) by {
            assert forall|i: int| 0 <= i < at - 1 implies (
            #[trigger] turned.table[turned.small[i]]).freq == 1 by {
                assert(s.table[s.small[i + 1]].freq == 1);
            }
        }
        law_small_eviction_takes_first_settled(turned, at - 1);
        assert forall|i: int|
            0 <= i < count implies turned.small.contains(#[trigger] turned.small[i])
            && turned.small.index_of(turned.small[i]) == i by {
            lemma_index_of(turned.small, i);
        }
        let passed = s.passed_over(at);
        let passed_next = turned.passed_over(at - 1);
        assert(passed_next.small =~= passed.small);
        assert(passed_next.table =~= passed.table) by {
            assert forall|k: u64| s.table.contains_key(k) implies #[trigger] passed_next.table[k]
                == passed.table[k] by {
                if s.small.contains(k) {
                    let i = s.small.index_of(k);
                    assert(s.small[i] == k);
                    if i == 0 {
                        assert(turned.small[count - 1] == k);
                        assert(turned.small.index_of(k) == count - 1);
                    } else {
                        assert(turned.small[i - 1] == k);
                        assert(turned.small.index_of(k) == i - 1);
                    }
                }
            }
        }
        assert(passed_next =~= passed);
    }
}

/// Small eviction, said at once, where every key of the small queue has
/// frequency 1: the scan goes round once, takes the one unit from every
/// key, and the head leaves for the ghost queue.
pub proof fn law_small_eviction_of_warm_queue<V>(s: CacheModel<V>)
    requires
        s.wf(),
        s.small.len() > 0,
        forall|i: int| 0 <= i < s.small.len() ==> (#[trigger] s.table[s.small[i]]).freq == 1,
    ensures
        s.evict_from_small() == s.passed_over(s.small.len() as int).drop_small_head().move_to_ghost(
            s.small[0],
        ),
{
    let count = s.small.len() as int;
    let head = s.small[0];
    assert(s.small.contains(head));
    assert(s.table[s.small[0]].freq == 1);
    lemma_tail_members(s.small);
    assert forall|i: int| 0 <= i < count implies s.small.contains(#[trigger] s.small[i])
        && s.small.index_of(s.small[i]) == i by {
        lemma_index_of(s.small, i);
    }
    let turned = CacheModel { small: tail_of(s.small).push(head), ..s.retag(head, 0, None) };
    lemma_rotate_members(s.small);
    assert(turned.wf());
    assert forall|i: int| 0 <= i < count implies #[trigger] turned.small[i] == s.small[if i == count
        - 1 {
        0
    } else {
        i + 1
    }] by {}
    assert forall|i: int| 1 <= i < count implies #[trigger] turned.table[s.small[i]]
        == s.table[s.small[i]] by {}
    assert(is_first_settled(turned.small, turned.table, count - 1)) by {
        assert forall|i: int| 0 <= i < count - 1 implies (
        #[trigger] turned.table[turned.small[i]]).freq == 1 by {
            assert(s.table[s.small[i + 1]].freq == 1);
        }
    }
    law_small_eviction_takes_first_settled(turned, count - 1);
    assert forall|i: int| 0 <= i < count implies turned.small.contains(#[trigger] turned.small[i])
        && turned.small.index_of(turned.small[i]) == i by {
        lemma_index_of(turned.small, i);
    }
    let all = s.passed_over(count).drop_small_head();
    let passed_next = turned.passed_over(count - 1);
    assert(passed_next.small =~= all.small);
    assert(passed_next.table =~= all.table) by {
        assert forall|k: u64| s.table.contains_key(k) implies #[trigger] passed_next.table[k]
            == all.table[k] by {
            if s.small.contains(k) {
                let i = s.small.index_of(k);
                assert(s.small[i] == k);
                if i == 0 {
                    assert(turned.small[count - 1] == k);
                    assert(turned.small.index_of(k) == count - 1);
                } else {
                    assert(turned.small[i - 1] == k);
                    assert(turned.small.index_of(k) == i - 1);
                }
            }
        }
    }
    assert(passed_next =~= all);
}

} // verus!
