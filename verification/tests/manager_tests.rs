//! Tests of the disk-quota evictor and its helpers.

use festival_api::cache_manager::{
    cache_file_name, used_action, CacheAction, CacheManager, ScanOutcome,
};
use festival_api::hexstr::{decode_hash_hex, encode_hash_hex};
use festival_api::utils::sha_256_hash;

fn hash_of(n: u8) -> [u8; 32] {
    let mut h = [0u8; 32];
    h[0] = n;
    h
}

/// Test that the caching actually works as intended: the cache should not
/// allow a buildup over a certain size to occur.
#[test]
fn test_size_limits() {
    // 1 MB budget; report plenty of 200 kB files used.
    let mut mgr = CacheManager::new(String::from("./cache"), 1);
    assert_eq!(mgr.max_allowed_size_bytes, 1_000_000);
    for n in 0..10 {
        mgr.handle_used(hash_of(n), 200_000);
    }
    assert_eq!(mgr.current_size_bytes, 2_000_000);

    // One enforcement pass with every deletion succeeding.
    let before = mgr.current_size_bytes;
    let mut pass = mgr.begin_enforcement().expect("over budget");
    assert_eq!(pass.target, before / 4);
    while let Some((_hash, (_pri, size))) = mgr.next_candidate(&pass) {
        CacheManager::record_removed(&mut pass, size);
    }
    assert!(pass.freed >= pass.target);
    let freed = pass.freed;
    mgr.finish_enforcement(pass);
    assert_eq!(mgr.current_size_bytes, before - freed);
    assert!(mgr.current_size_bytes < before);
}

/// An enforcement pass run while the total is within budget is a no-op.
#[test]
fn enforcement_within_budget_is_noop() {
    let mut mgr = CacheManager::new(String::from("./cache"), 1);
    mgr.handle_used(hash_of(1), 500);
    assert!(mgr.begin_enforcement().is_none());
}

/// A repeated `Used` report bumps favourability without recounting bytes.
#[test]
fn used_twice_counts_once() {
    let mut mgr = CacheManager::new(String::from("./cache"), 1);
    mgr.handle_used(hash_of(7), 1000);
    assert_eq!(mgr.current_size_bytes, 1000);
    mgr.handle_used(hash_of(7), 1000);
    assert_eq!(mgr.current_size_bytes, 1000);
    assert_eq!(mgr.cache.get_priority(&hash_of(7)), Some(&(i32::MAX - 1, 1000)));
}

/// The cadence: every second `Used` message asks for an enforcement pass.
#[test]
fn enforcement_cadence() {
    let mut mgr = CacheManager::new(String::from("./cache"), 1);
    assert!(!mgr.handle_used(hash_of(1), 10));
    assert!(mgr.handle_used(hash_of(2), 10));
    assert!(!mgr.handle_used(hash_of(3), 10));
    assert!(mgr.handle_used(hash_of(4), 10));
}

/// The startup scan: reserved names, directories and undecodable names are
/// skipped; a hex-named file is counted.
#[test]
fn bootstrap_scan_decisions() {
    let mut mgr = CacheManager::new(String::from("./cache"), 10);
    assert_eq!(
        mgr.bootstrap_file(".gitkeep", ".gitkeep", false, 5),
        ScanOutcome::Restricted
    );
    assert_eq!(mgr.current_size_bytes, 0);
    assert_eq!(mgr.bootstrap_file("subdir", "subdir", true, 5), ScanOutcome::Directory);
    assert_eq!(mgr.bootstrap_file("notes.txt", "notes", false, 5), ScanOutcome::BadName);
    assert_eq!(mgr.current_size_bytes, 0);

    let stem = sha_256_hash("Long input string");
    let name = format!("{}.wav", stem);
    assert_eq!(mgr.bootstrap_file(&name, &stem, false, 444), ScanOutcome::Added);
    assert_eq!(mgr.current_size_bytes, 444);
    assert_eq!(mgr.cache.len(), 1);
}

/// Entries used more than the retention bound survive a pass in the index
/// even though their files are gone; cold entries do not.
#[test]
fn retention_keeps_popular_entries() {
    let mut mgr = CacheManager::new(String::from("./cache"), 0);
    // A popular entry: used 7 times beyond insertion.
    mgr.handle_used(hash_of(1), 600);
    for _ in 0..7 {
        mgr.handle_used(hash_of(1), 600);
    }
    // A cold entry.
    mgr.handle_used(hash_of(2), 600);

    let mut pass = mgr.begin_enforcement().expect("over budget");
    pass.target = u64::MAX; // exhaust the index
    let mut popped = 0;
    while let Some((hash, pri)) = mgr.next_candidate(&pass) {
        popped += 1;
        CacheManager::record_removed(&mut pass, pri.1);
        CacheManager::consider_retention(&mut pass, hash, pri);
    }
    assert_eq!(popped, 2);
    mgr.finish_enforcement(pass);
    assert_eq!(mgr.cache.len(), 1);
    assert!(mgr.cache.get_priority(&hash_of(1)).is_some());
    assert!(mgr.cache.get_priority(&hash_of(2)).is_none());
}

/// should_retain draws the line at more than five uses beyond insertion.
#[test]
fn retention_threshold() {
    assert!(!CacheManager::should_retain(i32::MAX));
    assert!(!CacheManager::should_retain(i32::MAX - 5));
    assert!(CacheManager::should_retain(i32::MAX - 6));
    assert!(CacheManager::should_retain(i32::MIN));
}

/// Eviction pops the least-used entry first, and the larger file among
/// ties.
#[test]
fn eviction_order() {
    let mut mgr = CacheManager::new(String::from("./cache"), 0);
    mgr.handle_used(hash_of(1), 100); // used twice: warmer
    mgr.handle_used(hash_of(1), 100);
    mgr.handle_used(hash_of(2), 100); // cold, small
    mgr.handle_used(hash_of(3), 900); // cold, big
    let mut pass = mgr.begin_enforcement().expect("over budget");
    pass.target = u64::MAX;
    let first = mgr.next_candidate(&pass).unwrap();
    assert_eq!(first.0, hash_of(3));
    let second = mgr.next_candidate(&pass).unwrap();
    assert_eq!(second.0, hash_of(2));
    let third = mgr.next_candidate(&pass).unwrap();
    assert_eq!(third.0, hash_of(1));
    assert!(mgr.next_candidate(&pass).is_none());
}

/// Hex round trip, the on-disk name, and the `Used` message derivation.
#[test]
fn hex_names_round_trip() {
    let hash = [0xabu8; 32];
    let encoded = encode_hash_hex(&hash);
    assert_eq!(encoded, "ab".repeat(32));
    assert_eq!(decode_hash_hex(&encoded), Some(hash));
    assert_eq!(decode_hash_hex("zz"), None);
    assert_eq!(decode_hash_hex(&"AB".repeat(32)), Some(hash));

    assert_eq!(cache_file_name(&hash), format!("{}.wav", "ab".repeat(32)));

    match used_action(&encoded, 77) {
        Some(CacheAction::Used((h, size))) => {
            assert_eq!(h, hash);
            assert_eq!(size, 77);
        }
        _ => panic!("expected a Used action"),
    }
    assert!(used_action("not-a-hash", 77).is_none());
}
