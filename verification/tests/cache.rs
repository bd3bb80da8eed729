use caching_proxy::cache::{CacheEntry, MemoryCache};

fn entry(body: &[u8], status: u16, created_at: u64) -> CacheEntry {
    CacheEntry::new(
        body.to_vec(),
        status,
        vec![("content-type".to_string(), b"text/plain".to_vec())],
        created_at,
    )
}

#[test]
fn stored_entry_round_trips_within_ttl() {
    let mut cache = MemoryCache::new(60, 100);
    let key = "http://localhost:9009/widgets".to_string();
    cache.set(key.clone(), entry(b"{\"id\":1}", 200, 10));
    let got = cache.get(&key, 40).expect("entry stored moments ago must be returned");
    assert_eq!(got.response_body, b"{\"id\":1}".to_vec());
    assert_eq!(got.status_code, 200);
    assert_eq!(got.headers, vec![("content-type".to_string(), b"text/plain".to_vec())]);
    assert_eq!(got.created_at, 10);
}

#[test]
fn get_at_exact_ttl_boundary_still_returns_entry() {
    let mut cache = MemoryCache::new(60, 100);
    let key = "k".to_string();
    cache.set(key.clone(), entry(b"v", 200, 0));
    assert!(cache.get(&key, 60).is_some());
}

#[test]
fn expired_entry_reads_as_absent_but_stays_resident() {
    let mut cache = MemoryCache::new(60, 100);
    let key = "k".to_string();
    cache.set(key.clone(), entry(b"v", 200, 0));
    assert!(cache.get(&key, 61).is_none());
    // lazy expiry: the record still occupies its slot
    assert_eq!(cache.size(), 1);
}

#[test]
fn absent_key_reads_as_absent() {
    let mut cache = MemoryCache::new(60, 100);
    cache.set("a".to_string(), entry(b"v", 200, 0));
    assert!(cache.get(&"b".to_string(), 0).is_none());
}

#[test]
fn entry_is_expired_only_strictly_after_ttl() {
    let e = entry(b"v", 200, 100);
    assert!(!e.is_expired(50, 100));
    assert!(!e.is_expired(50, 150));
    assert!(e.is_expired(50, 151));
    // a clock reading before the creation time never counts as expired
    assert!(!e.is_expired(50, 0));
}

#[test]
fn set_overwrites_entry_under_same_key() {
    let mut cache = MemoryCache::new(60, 100);
    let key = "k".to_string();
    cache.set(key.clone(), entry(b"old", 200, 0));
    cache.set(key.clone(), entry(b"new", 201, 5));
    assert_eq!(cache.size(), 1);
    let got = cache.get(&key, 10).unwrap();
    assert_eq!(got.response_body, b"new".to_vec());
    assert_eq!(got.status_code, 201);
}

#[test]
fn capacity_flush_leaves_only_newest_entry() {
    let mut cache = MemoryCache::new(60, 3);
    cache.set("a".to_string(), entry(b"1", 200, 0));
    cache.set("b".to_string(), entry(b"2", 200, 0));
    cache.set("c".to_string(), entry(b"3", 200, 0));
    assert_eq!(cache.size(), 3);
    cache.set("d".to_string(), entry(b"4", 200, 0));
    assert_eq!(cache.size(), 1);
    assert!(cache.get(&"a".to_string(), 0).is_none());
    assert!(cache.get(&"b".to_string(), 0).is_none());
    assert!(cache.get(&"c".to_string(), 0).is_none());
    let got = cache.get(&"d".to_string(), 0).unwrap();
    assert_eq!(got.response_body, b"4".to_vec());
}

#[test]
fn store_never_exceeds_capacity_across_many_sets() {
    let mut cache = MemoryCache::new(60, 5);
    for i in 0..37 {
        cache.set(format!("key-{i}"), entry(b"v", 200, 0));
        assert!(cache.size() <= 5);
    }
}

#[test]
fn clear_reports_count_and_leaves_size_zero() {
    let mut cache = MemoryCache::new(60, 100);
    for i in 0..5 {
        cache.set(format!("key-{i}"), entry(b"v", 200, 0));
    }
    assert_eq!(cache.size(), 5);
    assert_eq!(cache.clear(), 5);
    assert_eq!(cache.size(), 0);
    assert_eq!(cache.clear(), 0);
}

#[test]
fn get_hands_out_a_copy_not_the_stored_entry() {
    let mut cache = MemoryCache::new(60, 100);
    let key = "k".to_string();
    cache.set(key.clone(), entry(b"v", 200, 0));
    let mut got = cache.get(&key, 0).unwrap();
    got.response_body.push(b'!');
    let again = cache.get(&key, 0).unwrap();
    assert_eq!(again.response_body, b"v".to_vec());
}
