use nano_image_server::image_cache::ImageCache;
use nano_image_server::image_cache::MemoryCache;
use nano_image_server::image_cache::StoredFile;
use nano_image_server::storage::CacheError;

fn file(name: &str, data: Option<Vec<u8>>) -> StoredFile {
    StoredFile { name: name.to_string(), data }
}

#[test]
fn image_cache_holds_what_was_set() {
    let mut cache = ImageCache::init_cache(100);
    assert_eq!(cache.get(1), None);
    cache.set(1, vec![1, 2, 3]);
    cache.set(2, vec![4]);
    assert_eq!(cache.get(1), Some(vec![1, 2, 3]));
    assert_eq!(cache.get(2), Some(vec![4]));
    cache.set(1, vec![9]);
    assert_eq!(cache.get(1), Some(vec![9]));
    assert_eq!(cache.get(3), None);
}

#[test]
fn image_cache_has_room_for_its_size() {
    for size in [0usize, 1, 31, 32, 100, 1000, 12345, 1 << 20] {
        let mut cache = ImageCache::init_cache(size);
        assert!(cache.get_size() >= size as u64);
        cache.set(7, vec![7]);
        assert!(cache.get_size() >= size as u64);
    }
}

#[test]
fn image_cache_never_hands_out_what_was_not_set() {
    let mut cache = ImageCache::init_cache(8);
    for key in 0..200u64 {
        cache.set(key, vec![key as u8]);
    }
    for key in 0..200u64 {
        match cache.get(key) {
            Some(bytes) => assert_eq!(bytes, vec![key as u8]),
            None => {}
        }
    }
    assert_eq!(cache.get(1000), None);
}

#[test]
fn preload_takes_the_files_that_were_read() {
    let files = vec![
        file("a.png", Some(vec![1])),
        file("b.png", None),
        file("c.png", Some(vec![3, 3])),
    ];
    let (cache, taken) = ImageCache::init_cache(100).preload(&files);
    assert_eq!(taken, 3);
    assert_eq!(cache.get(ImageCache::hash("a.png".to_string())), Some(vec![1]));
    assert_eq!(cache.get(ImageCache::hash("b.png".to_string())), None);
    assert_eq!(cache.get(ImageCache::hash("c.png".to_string())), Some(vec![3, 3]));
}

#[test]
fn preload_stops_at_the_size_of_the_cache() {
    let files: Vec<StoredFile> =
        (0..10u8).map(|n| file(&format!("{n}.png"), Some(vec![n]))).collect();
    let (cache, taken) = ImageCache::init_cache(4).preload(&files);
    assert_eq!(taken, 4);
    for n in 4..10u8 {
        assert_eq!(cache.get(ImageCache::hash(format!("{n}.png"))), None);
    }
    let (_, taken) = ImageCache::init_cache(0).preload(&files);
    assert_eq!(taken, 0);
    let (_, taken) = ImageCache::init_cache(4).preload(&Vec::new());
    assert_eq!(taken, 0);
}

#[test]
fn memory_cache_retrieves_or_names_the_key() {
    let mut cache = MemoryCache::init(100);
    assert_eq!(cache.retrieve(5), Err(CacheError::KeyNotFound(5)));
    cache.insert(5, vec![5, 5]);
    assert_eq!(cache.retrieve(5), Ok(vec![5, 5]));
    assert_eq!(cache.retrieve(6), Err(CacheError::KeyNotFound(6)));
}

#[test]
fn memory_cache_clear_takes_the_image_out() {
    let mut cache = MemoryCache::init(100);
    cache.insert(5, vec![5, 5]);
    cache.insert(6, vec![6]);
    assert_eq!(cache.clear(5), Ok(vec![5, 5]));
    assert_eq!(cache.retrieve(5), Err(CacheError::KeyNotFound(5)));
    assert_eq!(cache.clear(5), Err(CacheError::KeyNotFound(5)));
    assert_eq!(cache.retrieve(6), Ok(vec![6]));
}
