use happy_remote::cache::MemoryCache;
use std::time::{Duration, Instant};

#[test]
fn test_basic_operations() {
    let mut cache = MemoryCache::new();

    cache.set("key1".to_string(), vec![1, 2, 3]);
    assert_eq!(cache.get("key1"), Some(vec![1, 2, 3]));

    assert_eq!(cache.get("nonexistent"), None);

    cache.delete("key1");
    assert_eq!(cache.get("key1"), None);
}

#[test]
fn test_ttl() {
    let mut cache = MemoryCache::new();

    cache.set_with_ttl("key1".to_string(), vec![1, 2, 3], Duration::from_millis(10));
    assert_eq!(cache.get("key1"), Some(vec![1, 2, 3]));

    let start = Instant::now();
    while start.elapsed() < Duration::from_millis(20) {}
    assert_eq!(cache.get("key1"), None);
}

#[test]
fn test_take() {
    let mut cache = MemoryCache::new();

    cache.set("key1".to_string(), vec![1, 2, 3]);
    let value = cache.take("key1");
    assert_eq!(value, Some(vec![1, 2, 3]));
    assert_eq!(cache.get("key1"), None);
}

#[test]
fn ttl_boundary_on_an_explicit_clock() {
    let mut cache = MemoryCache::new();
    cache.set_with_ttl_at("k".to_string(), vec![9], 100, 1_000);
    assert_eq!(cache.get_at("k", 1_099), Some(vec![9]));
    assert!(cache.key_exists_at("k", 1_100));
    assert_eq!(cache.get_at("k", 1_100), Some(vec![9]));
    assert_eq!(cache.get_at("k", 1_101), None);
    assert!(!cache.key_exists_at("k", 1_101));
}

#[test]
fn overwrite_replaces_value_and_expiry() {
    let mut cache = MemoryCache::new();
    cache.set_with_ttl_at("k".to_string(), vec![1], 10, 0);
    cache.set("k".to_string(), vec![2]);
    assert_eq!(cache.get_at("k", 1_000_000), Some(vec![2]));
}

#[test]
fn sweep_drops_only_expired_entries() {
    let mut cache = MemoryCache::new();
    cache.set_with_ttl_at("old".to_string(), vec![1], 5, 0);
    cache.set_with_ttl_at("young".to_string(), vec![2], 500, 0);
    cache.set("forever".to_string(), vec![3]);
    cache.remove_expired_at(100);
    assert_eq!(cache.get_at("old", 100), None);
    assert_eq!(cache.get_at("young", 100), Some(vec![2]));
    assert_eq!(cache.get_at("forever", 100), Some(vec![3]));
}

#[test]
fn take_of_missing_key_is_none() {
    let mut cache = MemoryCache::new();
    assert_eq!(cache.take("absent"), None);
    assert!(!cache.key_exists("absent"));
}

#[test]
fn remove_expired_keeps_fresh_entries() {
    let mut cache = MemoryCache::new();
    cache.set("a".to_string(), vec![7]);
    cache.set_with_ttl("b".to_string(), vec![8], Duration::from_secs(3600));
    cache.remove_expired();
    assert_eq!(cache.get("a"), Some(vec![7]));
    assert_eq!(cache.get("b"), Some(vec![8]));
}

#[test]
fn take_of_expired_entry_reads_absent_and_removes_it() {
    let mut cache = MemoryCache::new();
    cache.set_with_ttl_at("k".to_string(), vec![7], 10, 0);
    assert_eq!(cache.take_at("k", 11), None);
    assert_eq!(cache.get_at("k", 0), None);
    cache.set_with_ttl_at("k".to_string(), vec![8], 10, 0);
    assert_eq!(cache.take_at("k", 10), Some(vec![8]));
    assert_eq!(cache.get_at("k", 0), None);
}
