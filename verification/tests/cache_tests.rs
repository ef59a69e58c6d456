//! Tests of the popularity-aware in-memory cache.

use std::marker::PhantomData;

use festival_api::cache::{Cachable, Cache, CacheError, Info};
use priority_queue::DoublePriorityQueue;

#[derive(Debug, PartialEq, Clone)]
struct Item {
    data: i64,
}

impl Cachable<i64> for Item {
    fn load_underlying(&self) -> Result<i64, String> {
        Ok(self.data)
    }

    fn size_on_disk(&self) -> Result<usize, String> {
        Ok(1)
    }

    fn save_on_disk(&self) -> Result<(), String> {
        Ok(()) // For the purposes of testing, we aren't going to save to the disk
    }

    fn remove_from_disk(&self) -> Result<(), String> {
        Ok(()) // For the purposes of testing, we aren't going to save to the disk
    }
}

/// Test that an initially inserted item which has been cached can be
/// decached by a newer more popular item.
#[test]
fn popularity_caching() {
    let mut cache: Cache<Item, i64> = Cache::new(1, 1000);

    cache.set_threshold(2); // Needs at least 2 uses more than the minimum item to become most popular!

    cache.insert("Item1".to_string(), Item { data: 5 }).unwrap();

    // Assert that the item has been cached
    assert!(cache.get_info(&String::from("Item1")).unwrap().cached);

    // Use the item 5 times, so it has 5 "uses"
    for i in 0..5 {
        let item = cache.load(String::from("Item1")).unwrap().unwrap();
        assert_eq!(item, 5);
        assert!(cache.get_info(&String::from("Item1")).unwrap().cached); // Still cached!
        assert_eq!(cache.get_info(&String::from("Item1")).unwrap().uses, i + 1);
        // Check uses match
    }

    // Assert that the minimum number required is now 5
    assert_eq!(*cache.priority.peek_min().unwrap().1, 5);

    // Create a new item, use it enough to become cached
    cache.insert("Item2".to_string(), Item { data: 3 }).unwrap();
    for i in 0..5 {
        let item = cache.load(String::from("Item2")).unwrap().unwrap();
        assert_eq!(item, 3);
        assert!(!cache.get_info(&String::from("Item2")).unwrap().cached); // Not cached!
        assert_eq!(cache.get_info(&String::from("Item2")).unwrap().uses, i + 1);
    }

    // Using 1 more time should make this item become cached, and decache the other item
    let item = cache.load(String::from("Item2")).unwrap().unwrap();
    assert_eq!(item, 3);
    assert!(cache.get_info(&String::from("Item2")).unwrap().cached); // Cached!

    // Check the other item has been decached
    let item = cache.load(String::from("Item1")).unwrap().unwrap();
    assert_eq!(item, 5);
    assert!(!cache.get_info(&String::from("Item1")).unwrap().cached); // Not cached!

    // Check that the minimum required uses has increased
    let min_cached_val = *cache.priority.peek_min().unwrap().1;
    let expected_min_cached_val =
        cache.get_info(&String::from("Item2")).unwrap().uses + cache.uses_threshold;
    assert_eq!(min_cached_val, expected_min_cached_val);
}

/// Ensure cache size limits work correctly for the number of items.
/// Will create a cache that can store 5 files, of up to 100 bytes total.
#[test]
fn size_limits_num_items() {
    let mut cache: Cache<Item, i64> = Cache::new(5, 100);

    // We should be able to insert 100 items, but only the first 5 should be cached.
    for i in 0..100 {
        let item = Item { data: i };
        cache.insert(format!("Number{}", i), item).unwrap();
    }

    assert!(!cache.space_available());

    // Check how many are cached
    let mut total = 0;
    for (_key, info) in cache.get_underlying().iter() {
        if info.cached {
            total += 1;
        }
    }
    assert_eq!(total, 5);
}

/// Validate that we will not store too great a size of files.
#[test]
fn test_size_limits_total_size() {
    let mut cache: Cache<Item, i64> = Cache::new(1000, 5);

    // We should be able to insert 100 items, but only the first 5 should be cached.
    for i in 0..100 {
        let item = Item { data: i };
        cache.insert(format!("Number{}", i), item).unwrap();
    }

    assert!(!cache.space_available());

    // Check how many are cached
    let mut total = 0;
    for (_key, info) in cache.get_underlying().iter() {
        if info.cached {
            total += 1;
        }
    }
    assert_eq!(total, 5);
}

/// Ensures the basic functionality of the caching system.
/// Inserting items, checking that those items exist, and so on.
#[test]
fn basic_functionality() {
    let mut cache: Cache<Item, i64> = Cache::default();

    // Check that we can insert items
    cache.insert(String::from("Item1"), Item { data: 6 }).unwrap();

    // Validate inserted item
    let info = cache.get_info(&String::from("Item1")).expect("an item");
    assert_eq!(info.uses, 0);
    assert_eq!(info.cached, true);
    assert_eq!(info._return_type, PhantomData);

    // Check for an item that exists and one that doesn't exist
    let exists: bool = cache.contains_item(&String::from("Item1"));
    assert!(exists);

    let exists: bool = cache.contains_item(&String::from("Item2"));
    assert!(!exists);

    // Attempt to collect a (raw) item and the information on it
    let item: Option<&Item> = cache.get_raw(&String::from("Item1"));
    assert_eq!(item.unwrap().data.to_owned(), 6);

    // Attempt to collect a (raw) item that doesn't exist
    let item: Option<&Item> = cache.get_raw(&String::from("Item5"));
    assert_eq!(item, None);

    // Collect information on an item that exists
    let item: Option<&Info<Item, i64>> = cache.get_info(&String::from("Item1"));
    assert!(item.is_some());
    let info = item.unwrap();
    assert_eq!(info.uses, 0);
    assert_eq!(info.cached, true);
    assert_eq!(info.wrapped, Item { data: 6 });

    // Collect information on an item that doesn't exist
    let item: Option<&Info<Item, i64>> = cache.get_info(&String::from("Item5"));
    assert!(item.is_none());

    // Attempt to load an item's true data that we want.
    let true_data: Option<i64> = cache.load(String::from("Item1")).unwrap();
    assert_eq!(true_data.unwrap(), 6);

    // Attempt to load an item which doesn't exist
    let doesnt_exist = cache.load(String::from("Item5")).unwrap();
    assert!(doesnt_exist.is_none());
}

/// Ensure that inserting a duplicate key into the cache causes a failure.
#[test]
fn duplicate_key() {
    let mut cache: Cache<Item, i64> = Cache::default();

    // Should be fine
    cache.insert(String::from("Item2"), Item { data: 8 }).unwrap();

    // Check that inserting a duplicate item works as intended
    let err = cache.insert(String::from("Item2"), Item { data: 9 }).unwrap_err();

    assert!(matches!(err, CacheError::DuplicateKey));
    assert_eq!(err.message(), "Key already exists in cache");

    assert_eq!(cache.load(String::from("Item2")).unwrap().unwrap(), 8);
}

/// Test getting the backing store.
#[test]
fn underlying() {
    let mut cache: Cache<Item, i64> = Cache::default();

    cache.insert(String::from("Item2"), Item { data: 92 }).unwrap();

    let underlying: &Vec<(String, Info<Item, i64>)> = cache.get_underlying();

    assert_eq!(underlying.len(), 1);
    assert_eq!(underlying.last().unwrap().0, String::from("Item2"));
    assert_eq!(underlying.last().unwrap().1.wrapped.data, 92);
}

/// Test that default spawns with the expected values
#[test]
fn test_default() {
    let cache: Cache<Item, i64> = Cache::default();
    assert_eq!(cache.max_to_cache, 100);
    assert_eq!(cache.max_size_of_cache_bytes, 10_000_000);
    assert_eq!(cache.count, 0);
    assert_eq!(cache.uses_threshold, 5);
    assert!(cache.cache.len() == 0);
    assert_eq!(cache.priority, DoublePriorityQueue::new());
}

/// Test that the default insertion is good
#[test]
fn test_inserted_defaults() {
    let mut cache: Cache<Item, i64> = Cache::new(0, 0);

    cache.insert(String::from("Item2"), Item { data: 92 }).unwrap();

    let info = cache.get_info(&String::from("Item2")).expect("a valid item");
    assert_eq!(info.cached, false);
    assert_eq!(info.uses, 0);
    assert_eq!(info._return_type, PhantomData);
}

/// Inserting one more distinct key than the cache has slots leaves exactly
/// the slot count cached, and the extra key present but uncached.
#[test]
fn admission_stops_at_capacity() {
    let mut cache: Cache<Item, i64> = Cache::new(3, 1000);
    for i in 0..4 {
        cache.insert(format!("Key{}", i), Item { data: i }).unwrap();
    }
    let mut cached = 0;
    for (_key, info) in cache.get_underlying().iter() {
        if info.cached {
            cached += 1;
        }
    }
    assert_eq!(cached, 3);
    assert!(cache.contains_item(&String::from("Key3")));
    assert!(!cache.get_info(&String::from("Key3")).unwrap().cached);
    // The rejected entry can still be read; being uncached only means it
    // is not persisted.
    assert_eq!(cache.load(String::from("Key3")).unwrap().unwrap(), 3);
}

/// A one-slot cache with the default threshold: the resident with 5 uses
/// falls only once the challenger has 6, and the bar then moves to 6 + 5.
#[test]
fn promotion_respects_hysteresis() {
    let mut cache: Cache<Item, i64> = Cache::new(1, 1000);
    cache.insert(String::from("Item1"), Item { data: 1 }).unwrap();
    for _ in 0..5 {
        cache.load(String::from("Item1")).unwrap();
    }
    cache.insert(String::from("Item2"), Item { data: 2 }).unwrap();
    for _ in 0..5 {
        cache.load(String::from("Item2")).unwrap();
        assert!(!cache.get_info(&String::from("Item2")).unwrap().cached);
    }
    cache.load(String::from("Item2")).unwrap();
    assert!(cache.get_info(&String::from("Item2")).unwrap().cached);
    assert!(!cache.get_info(&String::from("Item1")).unwrap().cached);
    assert_eq!(*cache.priority.peek_min().unwrap().1, 6 + 5);
}

#[derive(Debug, PartialEq, Clone)]
struct BrokenDisk {}

impl Cachable<i64> for BrokenDisk {
    fn load_underlying(&self) -> Result<i64, String> {
        Ok(0)
    }

    fn size_on_disk(&self) -> Result<usize, String> {
        Err(String::from("disk unreadable"))
    }

    fn save_on_disk(&self) -> Result<(), String> {
        Err(String::from("disk full"))
    }

    fn remove_from_disk(&self) -> Result<(), String> {
        Err(String::from("disk gone"))
    }
}

/// A failed save surfaces as a storage error and leaves the budget
/// counters untouched; the entry stays, uncached.
#[test]
fn failed_save_leaves_counters_alone() {
    let mut cache: Cache<BrokenDisk, i64> = Cache::new(5, 100);
    let err = cache.insert(String::from("Item1"), BrokenDisk {}).unwrap_err();
    match err {
        CacheError::Storage(m) => assert_eq!(m, "disk full"),
        _ => panic!("expected a storage error"),
    }
    assert_eq!(cache.count, 0);
    assert_eq!(cache.size_on_disk, 0);
    assert!(cache.contains_item(&String::from("Item1")));
    assert!(!cache.get_info(&String::from("Item1")).unwrap().cached);
    assert!(cache.priority.is_empty());
}

/// Loading an already-cached entry never changes the byte total.
#[test]
fn cached_load_keeps_size() {
    let mut cache: Cache<Item, i64> = Cache::new(10, 100);
    cache.insert(String::from("Item1"), Item { data: 4 }).unwrap();
    let size = cache.size_on_disk;
    for _ in 0..10 {
        cache.load(String::from("Item1")).unwrap();
        assert_eq!(cache.size_on_disk, size);
    }
}
