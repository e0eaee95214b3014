use vstd::prelude::*;
use crate::request::seeded_hash;
use crate::request::FINGERPRINT_SEED;
use crate::storage::CacheError;

verus! {

/// A bounded in-memory store of encoded images by key, kept by the
/// `quick_cache` crate, which decides on its own what to drop.
#[verifier::external_body]
pub struct ImageStore {
    store: quick_cache::sync::Cache<u64, Vec<u8>>,
}

/// The images that a store holds: for each key that has one, the bytes.
pub uninterp spec fn held_images(store: ImageStore) -> Map<u64, Seq<u8>>;

/// The number of images that a store was made for.
pub uninterp spec fn store_limit(store: ImageStore) -> usize;

/// `after` is what a store may hold once `bytes` went in under `key` on top
/// of `before`: nothing but what it held, with the same bytes, and under
/// `key` nothing but `bytes`. The store may have dropped anything.
pub open spec fn may_follow_insert(
    before: Map<u64, Seq<u8>>,
    after: Map<u64, Seq<u8>>,
    key: u64,
    bytes: Seq<u8>,
) -> bool {
    forall|k: u64| #[trigger]
        after.contains_key(k) ==> if k == key {
            after[k] == bytes
        } else {
            before.contains_key(k) && after[k] == before[k]
        }
}

/// Calls `quick_cache::sync::Cache::new`, which builds a cache without
/// items for the number of items it is given.
#[verifier::external_body]
fn store_new(items: usize) -> (made: ImageStore)
    ensures
        held_images(made) == (Map::<u64, Seq<u8>>::empty()),
        store_limit(made) == items,
{
    ImageStore { store: quick_cache::sync::Cache::new(items) }
}

/// Calls `quick_cache::sync::Cache::insert`. The crate replaces what stood
/// under the key and may evict other items to make room; where the item
/// does not fit at all it drops it, and what stood under the key with it.
/// So the contract promises no more than `may_follow_insert`. What the
/// store was made for stays. The call does not unwind: the crate's lock
/// cannot be poisoned, and an item that leaves is only dropped.
#[verifier::external_body]
fn store_insert(store: &mut ImageStore, key: u64, bytes: Vec<u8>)
    ensures
        may_follow_insert(held_images(*old(store)), held_images(*final(store)), key, bytes@),
        store_limit(*final(store)) == store_limit(*old(store)),
    no_unwind
{
    store.store.insert(key, bytes)
}

/// Calls `quick_cache::sync::Cache::get`, which hands out a copy of the
/// item under the key, if there is one, and keeps what it holds.
#[verifier::external_body]
fn store_get(store: &ImageStore, key: u64) -> (found: Option<Vec<u8>>)
    ensures
        found.is_some() == held_images(*store).contains_key(key),
        found.is_some() ==> found.unwrap()@ == held_images(*store)[key],
{
    store.store.get(&key)
}

/// Calls `quick_cache::sync::Cache::remove`, which takes the item under the
/// key out, if there is one, and hands it back with its key. What the
/// store was made for stays.
#[verifier::external_body]
fn store_remove(store: &mut ImageStore, key: u64) -> (taken: Option<(u64, Vec<u8>)>)
    ensures
        held_images(*final(store)) == held_images(*old(store)).remove(key),
        store_limit(*final(store)) == store_limit(*old(store)),
        taken.is_some() == held_images(*old(store)).contains_key(key),
        taken.is_some() ==> taken.unwrap().0 == key && taken.unwrap().1@ == held_images(
            *old(store),
        )[key],
{
    store.store.remove(&key)
}

/// Calls `quick_cache::sync::Cache::capacity`, the room that the crate has
/// given its shards together. The crate splits what the cache was made for
/// evenly over its shards and rounds each share up, so the shares together
/// are never less than the whole; how many shards there are, and so how
/// much more room there is, depends on the machine. The rounding adds the
/// number of shards to what the cache was made for and stops at the highest
/// `u64`: the contract leaves out what is so large that this could be
/// reached.
#[verifier::external_body]
fn store_capacity(store: &ImageStore) -> (room: u64)
    ensures
        store_limit(*store) <= u64::MAX / 2 ==> room >= store_limit(*store),
{
    store.store.capacity()
}

/// A file of the image directory as it was found: its name, and its bytes
/// where it could be read.
pub struct StoredFile {
    pub name: String,
    pub data: Option<Vec<u8>>,
}

/// The in-memory cache of stored images, keyed by the hash of their file
/// names.
pub struct ImageCache {
    image_cache: ImageStore,
    preloaded: bool,
    size: usize,
}

impl ImageCache {
    /// The cache remembers the number of images that its store was made for.
    #[verifier::type_invariant]
    spec fn keeps_limit(&self) -> bool {
        self.size == store_limit(self.image_cache)
    }

    /// The images in the cache.
    pub closed spec fn images(&self) -> Map<u64, Seq<u8>> {
        held_images(self.image_cache)
    }

    /// Whether the cache has been filled from the image directory.
    pub closed spec fn is_preloaded(&self) -> bool {
        self.preloaded
    }

    /// The number of images the cache was made for.
    pub closed spec fn limit(&self) -> usize {
        self.size
    }

    /// An empty cache for `size` images.
    pub fn init_cache(size: usize) -> (cache: Self)
        ensures
            cache.images() == (Map::<u64, Seq<u8>>::empty()),
            !cache.is_preloaded(),
            cache.limit() == size,
    {
        ImageCache { image_cache: store_new(size), preloaded: false, size }
    }

    /// The key of a stored image: the hash of its file name under the fixed
    /// seed.
    pub fn hash(name: String) -> (key: u64)
        ensures
            key == seeded_hash(FINGERPRINT_SEED, name@),
    {
        crate::request::hash(name)
    }

    /// Puts an image into the cache.
    pub fn set(&mut self, hash: u64, image_data: Vec<u8>)
        ensures
            may_follow_insert(old(self).images(), final(self).images(), hash, image_data@),
            final(self).is_preloaded() == old(self).is_preloaded(),
            final(self).limit() == old(self).limit(),
    {
        proof {
            use_type_invariant(&*self);
        }
        store_insert(&mut self.image_cache, hash, image_data)
    }

    /// The image under a key, if the cache holds one.
    pub fn get(&self, hash: u64) -> (found: Option<Vec<u8>>)
        ensures
            found.is_some() == self.images().contains_key(hash),
            found.is_some() ==> found.unwrap()@ == self.images()[hash],
    {
        store_get(&self.image_cache, hash)
    }

    /// The room that the store has made, in images: at least as much as
    /// the cache was made for, unless that is more than half of what a
    /// `u64` can count.
    pub fn get_size(&self) -> (room: u64)
        ensures
            self.limit() <= u64::MAX / 2 ==> room >= self.limit(),
    {
        proof {
            use_type_invariant(self);
        }
        store_capacity(&self.image_cache)
    }

    /// Whether `key` may hold `bytes` after the first `count` of `files`
    /// went into a cache that held `before`: it held them before, or one of
    /// those files was read and has that hash and those bytes.
    pub open spec fn explained(
        before: Map<u64, Seq<u8>>,
        files: Seq<StoredFile>,
        count: int,
        key: u64,
        bytes: Seq<u8>,
    ) -> bool {
        ||| before.contains_key(key) && before[key] == bytes
        ||| exists|i: int|
            0 <= i < count && #[trigger] files[i].data.is_some() && key == seeded_hash(
                FINGERPRINT_SEED,
                files[i].name@,
            ) && files[i].data.unwrap()@ == bytes
    }

    /// Fills the cache from the files of the image directory, the first
    /// `limit()` of them at most, each under the hash of its name; a file
    /// that could not be read is counted and left out. Hands back the cache
    /// and the number of files taken up.
    pub fn preload(self, files: &Vec<StoredFile>) -> (loaded: (Self, usize))
        ensures
            loaded.0.is_preloaded(),
            loaded.0.limit() == self.limit(),
            loaded.1 == if files@.len() <= self.limit() {
                files@.len()
            } else {
                self.limit() as nat
            },
            forall|k: u64| #[trigger]
                loaded.0.images().contains_key(k) ==> Self::explained(
                    self.images(),
                    files@,
                    loaded.1 as int,
                    k,
                    loaded.0.images()[k],
                ),
    {
        let mut cache = self;
        proof {
            use_type_invariant(&cache);
        }
        cache.preloaded = true;
        let mut total_entries: usize = 0;
        while total_entries < files.len() && total_entries < cache.size
            invariant
                total_entries <= files@.len(),
                total_entries <= cache.size,
                cache.size == self.size,
                cache.preloaded,
                forall|k: u64| #[trigger]
                    cache.images().contains_key(k) ==> Self::explained(
                        self.images(),
                        files@,
                        total_entries as int,
                        k,
                        cache.images()[k],
                    ),
            decreases files@.len() - total_entries,
        {
            let file = &files[total_entries];
            let ghost before = cache.images();
            match &file.data {
                Some(image_data) => {
                    let key = Self::hash(file.name.clone());
                    cache.set(key, image_data.clone());
                    proof {
                        assert forall|k: u64| #[trigger]
                            cache.images().contains_key(k) implies Self::explained(
                            self.images(),
                            files@,
                            total_entries + 1,
                            k,
                            cache.images()[k],
                        ) by {
                            if k == key {
                                assert(files@[total_entries as int].data.is_some());
                            } else {
                                assert(before.contains_key(k));
                            }
                        }
                    }
                },
                None => {},
            }
            total_entries += 1;
        }
        (cache, total_entries)
    }
}

/// The in-memory store of rendered images, by key.
pub struct MemoryCache {
    cache: ImageStore,
}

impl MemoryCache {
    /// The images in the store.
    pub closed spec fn images(&self) -> Map<u64, Seq<u8>> {
        held_images(self.cache)
    }

    /// An empty store for `size` images.
    pub fn init(size: usize) -> (store: Self)
        ensures
            store.images() == (Map::<u64, Seq<u8>>::empty()),
    {
        MemoryCache { cache: store_new(size) }
    }

    /// Puts an image into the store.
    pub fn insert(&mut self, key: u64, image_stream: Vec<u8>)
        ensures
            may_follow_insert(old(self).images(), final(self).images(), key, image_stream@),
    {
        store_insert(&mut self.cache, key, image_stream)
    }

    /// The image under `key`, or the error that names the key where the
    /// store holds none.
    pub fn retrieve(&self, key: u64) -> (found: Result<Vec<u8>, CacheError>)
        ensures
            match found {
                Ok(bytes) => self.images().contains_key(key) && bytes@ == self.images()[key],
                Err(e) => !self.images().contains_key(key) && e == CacheError::KeyNotFound(key),
            },
    {
        match store_get(&self.cache, key) {
            None => Err(CacheError::KeyNotFound(key)),
            Some(val) => Ok(val),
        }
    }

    /// Takes the image under `key` out of the store and hands it back, or
    /// the error that names the key where the store holds none.
    pub fn clear(&mut self, key: u64) -> (taken: Result<Vec<u8>, CacheError>)
        ensures
            final(self).images() == old(self).images().remove(key),
            match taken {
                Ok(bytes) => old(self).images().contains_key(key) && bytes@ == old(
                    self,
                ).images()[key],
                Err(e) => !old(self).images().contains_key(key) && e == CacheError::KeyNotFound(
                    key,
                ),
            },
    {
        match store_remove(&mut self.cache, key) {
            None => Err(CacheError::KeyNotFound(key)),
            Some(val) => Ok(val.1),
        }
    }
}

} // verus!
