use nano_image_server::cache::model::QueueLocation;
use nano_image_server::cache::s3fifo::S3Fifo;
use nano_image_server::cache::Cache;

const A: u64 = 0xA;
const B: u64 = 0xB;
const C: u64 = 0xC;

/// Brings `key` into the main queue of a cache of capacity 10 whose small
/// queue holds one key: `filler` pushes `key` out to the ghost queue, and
/// the second insert brings it back.
fn admit_to_main(cache: &mut S3Fifo<Vec<u8>>, key: u64, filler: u64) {
    cache.insert(key, vec![key as u8]);
    cache.insert(filler, vec![filler as u8]);
    assert_eq!(cache.location(key), Some(QueueLocation::InGhost));
    cache.insert(key, vec![key as u8]);
    assert_eq!(cache.location(key), Some(QueueLocation::InMain));
}

#[test]
fn capacities_of_ten() {
    let cache: S3Fifo<Vec<u8>> = S3Fifo::new(10);
    let stats = cache.stats();
    assert_eq!(stats.capacity, 10);
    assert_eq!(stats.size, 0);
    assert_eq!(stats.hits, 0);
    assert_eq!(stats.misses, 0);
    assert_eq!(cache.len(), 0);
}

#[test]
fn second_insert_sends_cold_key_to_ghost() {
    let mut cache: S3Fifo<Vec<u8>> = S3Fifo::new(10);
    assert_eq!(cache.insert(A, vec![1]), None);
    assert_eq!(cache.location(A), Some(QueueLocation::InSmall));
    assert_eq!(cache.frequency(A), Some(0));

    assert_eq!(cache.insert(B, vec![2]), None);
    assert_eq!(cache.location(A), Some(QueueLocation::InGhost));
    assert_eq!(cache.location(B), Some(QueueLocation::InSmall));

    let misses_before = cache.stats().misses;
    assert_eq!(cache.get(&A), None);
    assert!(!cache.contains(&A));
    assert_eq!(cache.stats().misses, misses_before + 1);
    assert_eq!(cache.len(), 1);
}

#[test]
fn ghost_key_reenters_through_main() {
    let mut cache: S3Fifo<Vec<u8>> = S3Fifo::new(10);
    cache.insert(A, vec![1]);
    cache.insert(B, vec![2]);
    assert_eq!(cache.location(A), Some(QueueLocation::InGhost));

    assert_eq!(cache.insert(A, vec![3]), None);
    assert_eq!(cache.location(A), Some(QueueLocation::InMain));
    assert_eq!(cache.frequency(A), Some(1));
    assert!(cache.contains(&A));
    assert_eq!(cache.get(&A), Some(&vec![3]));
    assert_eq!(cache.location(B), Some(QueueLocation::InSmall));
    assert_eq!(cache.len(), 2);
}

#[test]
fn warm_key_is_promoted_not_ghosted() {
    let mut cache: S3Fifo<Vec<u8>> = S3Fifo::new(10);
    cache.insert(C, vec![7]);
    assert_eq!(cache.get(&C), Some(&vec![7]));
    assert_eq!(cache.get(&C), Some(&vec![7]));
    assert_eq!(cache.frequency(C), Some(2));

    cache.insert(1, vec![1]);
    assert_eq!(cache.location(C), Some(QueueLocation::InMain));
    assert_eq!(cache.frequency(C), Some(1));
    assert!(cache.contains(&C));
    assert_eq!(cache.get(&C), Some(&vec![7]));
    assert_eq!(cache.location(1), Some(QueueLocation::InSmall));
}

#[test]
fn once_touched_key_gets_a_second_chance_in_small() {
    let mut cache: S3Fifo<Vec<u8>> = S3Fifo::new(20);
    cache.insert(1, vec![1]);
    cache.insert(2, vec![2]);
    assert_eq!(cache.get(&1), Some(&vec![1]));
    assert_eq!(cache.frequency(1), Some(1));

    cache.insert(3, vec![3]);
    assert_eq!(cache.location(1), Some(QueueLocation::InSmall));
    assert_eq!(cache.frequency(1), Some(0));
    assert_eq!(cache.location(2), Some(QueueLocation::InGhost));
    assert_eq!(cache.location(3), Some(QueueLocation::InSmall));
    assert_eq!(cache.len(), 2);
}

#[test]
fn full_main_queue_gives_up_its_oldest_cold_key() {
    let mut cache: S3Fifo<Vec<u8>> = S3Fifo::new(10);
    for key in 1..=9u64 {
        admit_to_main(&mut cache, key, 100 + key);
    }
    for key in 1..=9u64 {
        assert_eq!(cache.location(key), Some(QueueLocation::InMain));
        assert_eq!(cache.frequency(key), Some(1));
    }
    assert_eq!(cache.len(), 10);

    admit_to_main(&mut cache, 10, 110);
    assert_eq!(cache.location(1), Some(QueueLocation::InGhost));
    assert_eq!(cache.frequency(1), Some(0));
    assert!(!cache.contains(&1));
    for key in 2..=9u64 {
        assert_eq!(cache.location(key), Some(QueueLocation::InMain));
        assert_eq!(cache.frequency(key), Some(0));
    }
    assert_eq!(cache.frequency(10), Some(1));
    assert_eq!(cache.len(), 10);
}

#[test]
fn oldest_ghost_is_forgotten_when_ghost_queue_overflows() {
    let mut cache: S3Fifo<Vec<u8>> = S3Fifo::new(10);
    for key in 1..=11u64 {
        cache.insert(key, vec![key as u8]);
    }
    for key in 1..=10u64 {
        assert_eq!(cache.location(key), Some(QueueLocation::InGhost));
    }
    cache.insert(12, vec![12]);
    assert_eq!(cache.location(1), None);
    assert_eq!(cache.frequency(1), None);
    for key in 2..=11u64 {
        assert_eq!(cache.location(key), Some(QueueLocation::InGhost));
    }
    assert_eq!(cache.location(12), Some(QueueLocation::InSmall));
    assert_eq!(cache.insert(1, vec![1]), None);
    assert_eq!(cache.location(1), Some(QueueLocation::InSmall));
}

#[test]
fn overwrite_keeps_place_and_resets_frequency() {
    let mut cache: S3Fifo<Vec<u8>> = S3Fifo::new(10);
    cache.insert(A, vec![1]);
    for _ in 0..3 {
        cache.get(&A);
    }
    assert_eq!(cache.frequency(A), Some(3));
    assert_eq!(cache.insert(A, vec![2]), Some(vec![1]));
    assert_eq!(cache.frequency(A), Some(1));
    assert_eq!(cache.location(A), Some(QueueLocation::InSmall));
    assert_eq!(cache.get(&A), Some(&vec![2]));
    assert_eq!(cache.len(), 1);
}

#[test]
fn small_capacity_of_zero_still_admits_one_key() {
    let mut cache: S3Fifo<Vec<u8>> = S3Fifo::new(5);
    assert_eq!(cache.stats().capacity, 5);
    cache.insert(1, vec![1]);
    assert_eq!(cache.location(1), Some(QueueLocation::InSmall));
    assert_eq!(cache.len(), 1);
    cache.insert(2, vec![2]);
    assert_eq!(cache.location(1), Some(QueueLocation::InGhost));
    assert_eq!(cache.location(2), Some(QueueLocation::InSmall));
    assert_eq!(cache.len(), 1);
}

#[test]
fn capacity_of_zero_never_keeps_a_ghost() {
    let mut cache: S3Fifo<Vec<u8>> = S3Fifo::new(0);
    cache.insert(1, vec![1]);
    assert!(cache.contains(&1));
    cache.insert(2, vec![2]);
    assert_eq!(cache.location(1), None);
    assert!(cache.contains(&2));
    assert_eq!(cache.stats().capacity, 0);
}

#[test]
fn main_eviction_takes_the_coldest_key() {
    let mut cache: S3Fifo<Vec<u8>> = S3Fifo::new(10);
    for key in 1..=9u64 {
        admit_to_main(&mut cache, key, 100 + key);
    }
    for key in [1u64, 2, 3, 5, 6, 7, 8, 9] {
        cache.get(&key);
        assert_eq!(cache.frequency(key), Some(2));
    }
    assert_eq!(cache.frequency(4), Some(1));

    admit_to_main(&mut cache, 10, 110);
    assert_eq!(cache.location(4), Some(QueueLocation::InGhost));
    for key in [1u64, 2, 3] {
        assert_eq!(cache.location(key), Some(QueueLocation::InMain));
        assert_eq!(cache.frequency(key), Some(0));
    }
    for key in [5u64, 6, 7, 8, 9] {
        assert_eq!(cache.location(key), Some(QueueLocation::InMain));
        assert_eq!(cache.frequency(key), Some(1));
    }

    // The keys that went round stand behind those that did not: of the
    // keys with frequency 0 the next to leave is 1, after 5 to 9 cooled.
    admit_to_main(&mut cache, 11, 111);
    assert_eq!(cache.location(1), Some(QueueLocation::InGhost));
    for key in [5u64, 6, 7, 8, 9] {
        assert_eq!(cache.frequency(key), Some(0));
    }
    assert_eq!(cache.frequency(2), Some(0));
    assert_eq!(cache.location(2), Some(QueueLocation::InMain));
}

#[test]
fn small_eviction_of_a_warm_queue_takes_the_head() {
    let mut cache: S3Fifo<Vec<u8>> = S3Fifo::new(30);
    for key in 1..=3u64 {
        cache.insert(key, vec![key as u8]);
    }
    for key in 1..=3u64 {
        cache.get(&key);
        assert_eq!(cache.frequency(key), Some(1));
    }
    cache.insert(4, vec![4]);
    assert_eq!(cache.location(1), Some(QueueLocation::InGhost));
    for key in [2u64, 3] {
        assert_eq!(cache.location(key), Some(QueueLocation::InSmall));
        assert_eq!(cache.frequency(key), Some(0));
    }
    assert_eq!(cache.location(4), Some(QueueLocation::InSmall));
    assert_eq!(cache.len(), 3);
}

#[test]
fn small_eviction_passes_warm_keys_and_takes_the_first_other() {
    let mut cache: S3Fifo<Vec<u8>> = S3Fifo::new(30);
    for key in 1..=3u64 {
        cache.insert(key, vec![key as u8]);
    }
    cache.get(&1);
    cache.get(&2);
    cache.get(&2);
    cache.insert(4, vec![4]);
    assert_eq!(cache.location(1), Some(QueueLocation::InSmall));
    assert_eq!(cache.frequency(1), Some(0));
    assert_eq!(cache.location(2), Some(QueueLocation::InMain));
    assert_eq!(cache.frequency(2), Some(1));
    assert_eq!(cache.location(3), Some(QueueLocation::InSmall));
    assert_eq!(cache.frequency(3), Some(0));

    // The small queue now reads 3, 1, 4: the next to leave is 3.
    cache.insert(5, vec![5]);
    assert_eq!(cache.location(3), Some(QueueLocation::InGhost));
    assert_eq!(cache.location(1), Some(QueueLocation::InSmall));
    assert_eq!(cache.len(), 4);
}
