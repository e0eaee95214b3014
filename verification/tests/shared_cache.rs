use nano_image_server::cache::shared::SharedCache;

#[test]
fn shared_cache_serves_values() {
    let cache: SharedCache<Vec<u8>> = SharedCache::new(10);
    assert_eq!(cache.capacity(), 10);
    assert_eq!(cache.get(&1), None);
    assert_eq!(cache.insert(1, vec![1, 2]), None);
    assert_eq!(cache.get(&1), Some(vec![1, 2]));
    assert_eq!(cache.insert(1, vec![3]), Some(vec![1, 2]));
    assert!(cache.contains(&1));
    assert!(!cache.contains(&2));
    assert_eq!(cache.len(), 1);
    let stats = cache.stats();
    assert_eq!(stats.hits, 1);
    assert_eq!(stats.misses, 1);
    assert_eq!(stats.size, 1);
    assert_eq!(stats.capacity, 10);
}

#[test]
fn shared_cache_resets_and_clears() {
    let cache: SharedCache<Vec<u8>> = SharedCache::new(20);
    for key in 0..50u64 {
        cache.insert(key, vec![key as u8]);
        assert!(cache.len() <= 20);
    }
    cache.get(&49);
    cache.reset_stats();
    assert_eq!(cache.stats().hits, 0);
    assert_eq!(cache.stats().misses, 0);
    assert!(cache.contains(&49));
    cache.clear();
    assert_eq!(cache.len(), 0);
    assert!(!cache.contains(&49));
}

#[test]
fn shared_cache_can_be_used_through_references() {
    let cache: SharedCache<Vec<u8>> = SharedCache::new(10);
    let first = &cache;
    let second = &cache;
    first.insert(7, vec![7]);
    assert_eq!(second.get(&7), Some(vec![7]));
    second.insert(8, vec![8]);
    assert_eq!(first.stats().hits, 1);
}
