use nano_image_server::cache::model::QueueLocation;
use nano_image_server::cache::s3fifo::S3Fifo;
use nano_image_server::cache::stats::CacheStats;
use nano_image_server::cache::Cache;

/// A small deterministic stream of numbers.
fn next(state: &mut u64) -> u64 {
    *state = state.wrapping_mul(6364136223846793005).wrapping_add(1442695040888963407);
    *state >> 33
}

#[test]
fn get_after_insert_finds_the_value() {
    let mut cache: S3Fifo<Vec<u8>> = S3Fifo::new(30);
    let mut state = 7u64;
    for round in 0..500u64 {
        let key = next(&mut state) % 64;
        let value = vec![round as u8, (round >> 8) as u8];
        cache.insert(key, value.clone());
        assert_eq!(cache.get(&key), Some(&value));
        assert!(cache.contains(&key));
    }
}

#[test]
fn never_inserted_key_is_not_contained() {
    let mut cache: S3Fifo<Vec<u8>> = S3Fifo::new(10);
    assert!(!cache.contains(&99));
    for key in 0..40u64 {
        cache.insert(key, vec![1]);
        cache.get(&(key / 2));
        assert!(!cache.contains(&99));
        assert_eq!(cache.location(99), None);
    }
    assert_eq!(cache.get(&99), None);
}

#[test]
fn ghost_key_is_not_contained() {
    let mut cache: S3Fifo<Vec<u8>> = S3Fifo::new(10);
    cache.insert(1, vec![1]);
    cache.insert(2, vec![2]);
    assert_eq!(cache.location(1), Some(QueueLocation::InGhost));
    assert!(!cache.contains(&1));
    assert_eq!(cache.get(&1), None);
    assert_eq!(cache.location(1), Some(QueueLocation::InGhost));
}

#[test]
fn size_never_exceeds_capacity() {
    for capacity in [10usize, 11, 20, 37, 100] {
        let mut cache: S3Fifo<Vec<u8>> = S3Fifo::new(capacity);
        let mut state = capacity as u64;
        for _ in 0..2000 {
            let key = next(&mut state) % 300;
            if next(&mut state) % 3 == 0 {
                cache.get(&key);
            } else {
                cache.insert(key, vec![key as u8]);
            }
            let stats = cache.stats();
            assert_eq!(stats.capacity, capacity);
            assert!(stats.size <= stats.capacity);
            assert_eq!(stats.size, cache.len());
        }
    }
}

#[test]
fn frequency_never_exceeds_three() {
    let mut cache: S3Fifo<Vec<u8>> = S3Fifo::new(20);
    let mut state = 3u64;
    for _ in 0..3000 {
        let key = next(&mut state) % 40;
        if next(&mut state) % 2 == 0 {
            cache.get(&key);
        } else {
            cache.insert(key, vec![0]);
        }
        for k in 0..40u64 {
            if let Some(freq) = cache.frequency(k) {
                assert!(freq <= 3);
                if cache.location(k) == Some(QueueLocation::InGhost) {
                    assert_eq!(freq, 0);
                }
            }
        }
    }
}

#[test]
fn each_hit_counts_once_and_frequency_saturates() {
    let mut cache: S3Fifo<Vec<u8>> = S3Fifo::new(10);
    cache.insert(5, vec![5]);
    let expected = [1u8, 2, 3, 3, 3, 3, 3, 3, 3, 3];
    for (calls, freq) in expected.iter().enumerate() {
        assert_eq!(cache.get(&5), Some(&vec![5]));
        assert_eq!(cache.stats().hits, calls as u64 + 1);
        assert_eq!(cache.stats().misses, 0);
        assert_eq!(cache.frequency(5), Some(*freq));
    }
}

#[test]
fn each_miss_counts_once() {
    let mut cache: S3Fifo<Vec<u8>> = S3Fifo::new(10);
    for calls in 1..=4u64 {
        assert_eq!(cache.get(&1), None);
        assert_eq!(cache.stats().misses, calls);
        assert_eq!(cache.stats().hits, 0);
    }
    cache.insert(1, vec![1]);
    assert_eq!(cache.stats().misses, 4);
    assert_eq!(cache.stats().hits, 0);
}

#[test]
fn reset_stats_leaves_the_contents_alone() {
    let mut cache: S3Fifo<Vec<u8>> = S3Fifo::new(10);
    cache.insert(1, vec![1]);
    cache.insert(2, vec![2]);
    cache.insert(1, vec![3]);
    cache.get(&1);
    cache.get(&1);
    cache.get(&77);
    assert_eq!(cache.stats().hits, 2);
    assert_eq!(cache.stats().misses, 1);

    cache.reset_stats();
    let stats = cache.stats();
    assert_eq!(stats, CacheStats { hits: 0, misses: 0, size: 2, capacity: 10 });
    assert_eq!(cache.location(1), Some(QueueLocation::InMain));
    assert_eq!(cache.frequency(1), Some(3));
    assert_eq!(cache.location(2), Some(QueueLocation::InSmall));
    assert_eq!(cache.frequency(2), Some(0));
    assert_eq!(cache.get(&1), Some(&vec![3]));
    assert_eq!(cache.get(&2), Some(&vec![2]));
}

#[test]
fn clear_empties_the_cache() {
    let mut cache: S3Fifo<Vec<u8>> = S3Fifo::new(10);
    for key in 0..15u64 {
        cache.insert(key, vec![key as u8]);
    }
    cache.get(&14);
    cache.clear();
    assert_eq!(cache.len(), 0);
    for key in 0..15u64 {
        assert!(!cache.contains(&key));
        assert_eq!(cache.location(key), None);
    }
    assert_eq!(cache.stats().hits, 1);
    assert_eq!(cache.stats().size, 0);
    cache.insert(3, vec![3]);
    assert_eq!(cache.location(3), Some(QueueLocation::InSmall));
    assert_eq!(cache.len(), 1);
}

#[test]
fn hit_rate_is_the_floor_of_the_percentage() {
    let rate = |hits, misses| CacheStats { hits, misses, size: 0, capacity: 0 }.hit_rate_percent();
    assert_eq!(rate(0, 0), 0);
    assert_eq!(rate(3, 1), 75);
    assert_eq!(rate(1, 2), 33);
    assert_eq!(rate(2, 1), 66);
    assert_eq!(rate(5, 0), 100);
    assert_eq!(rate(0, 5), 0);
    assert_eq!(rate(u64::MAX, u64::MAX), 50);
    assert_eq!(rate(u64::MAX, 0), 100);
}

#[test]
fn hit_rate_of_a_running_cache() {
    let mut cache: S3Fifo<Vec<u8>> = S3Fifo::new(10);
    cache.insert(1, vec![1]);
    cache.get(&1);
    cache.get(&1);
    cache.get(&1);
    cache.get(&2);
    let stats = cache.stats();
    assert_eq!(stats.hits, 3);
    assert_eq!(stats.misses, 1);
    assert_eq!(stats.hit_rate_percent(), 75);
}

#[test]
fn queues_stay_within_their_capacities() {
    for capacity in [10usize, 25, 40] {
        let mut cache: S3Fifo<Vec<u8>> = S3Fifo::new(capacity);
        let mut state = 11 * capacity as u64;
        for _ in 0..3000 {
            let key = next(&mut state) % 120;
            if next(&mut state) % 3 == 0 {
                cache.get(&key);
            } else {
                cache.insert(key, vec![1]);
            }
            let (mut small, mut main, mut ghosts) = (0usize, 0usize, 0usize);
            for k in 0..120u64 {
                match cache.location(k) {
                    Some(QueueLocation::InSmall) => small += 1,
                    Some(QueueLocation::InMain) => main += 1,
                    Some(QueueLocation::InGhost) => ghosts += 1,
                    None => {}
                }
            }
            assert!(small <= capacity / 10);
            assert!(main <= capacity - capacity / 10);
            assert!(ghosts <= capacity);
            assert_eq!(small + main, cache.len());
        }
    }
}
