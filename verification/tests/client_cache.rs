use rsntp::client_cache::{count_or_zero, next_client_count, ClientCache, ClientIp};

#[test]
fn counts_per_cache() {
    let mut cache = ClientCache::new(&[(10, 60), (0, 60), (5, 3600)]);
    let ip = ClientIp::V4(0x0A00_0001);
    assert_eq!(cache.inc_client(ip), vec![1, 0, 1]);
    assert_eq!(cache.inc_client(ip), vec![2, 0, 2]);
    assert_eq!(cache.get_client(ip), vec![2, 0, 2]);
    assert_eq!(cache.get_client(ClientIp::V4(0x0A00_0002)), vec![0, 0, 0]);
}

#[test]
fn versions_are_distinct_clients() {
    let mut cache = ClientCache::new(&[(10, 60)]);
    assert_eq!(cache.inc_client(ClientIp::V4(1)), vec![1]);
    assert_eq!(cache.inc_client(ClientIp::V6(1)), vec![1]);
}

#[test]
fn disabled_caches_report_zero() {
    let mut cache = ClientCache::new(&[(0, 60), (0, 0)]);
    let ip = ClientIp::V6(7);
    assert_eq!(cache.inc_client(ip), vec![0, 0]);
    assert_eq!(cache.get_client(ip), vec![0, 0]);
    assert_eq!(cache.get_counts(), vec![0, 0]);
}

#[test]
fn counts_have_one_entry_per_config() {
    let mut cache = ClientCache::new(&[(3, 1), (0, 1), (4, 2)]);
    let counts = cache.get_counts();
    assert_eq!(counts.len(), 3);
    assert_eq!(counts[1], 0);
    let mut empty = ClientCache::new(&[]);
    assert!(empty.get_counts().is_empty());
    assert!(empty.inc_client(ClientIp::V4(3)).is_empty());
}

#[test]
fn count_helpers() {
    assert_eq!(count_or_zero(None), 0);
    assert_eq!(count_or_zero(Some(5)), 5);
    assert_eq!(next_client_count(None), 1);
    assert_eq!(next_client_count(Some(5)), 6);
    assert_eq!(next_client_count(Some(u64::MAX)), u64::MAX);
}

#[test]
fn fresh_caches_hold_nothing() {
    let cache = ClientCache::new(&[(100, 60), (0, 3600)]);
    assert_eq!(cache.get_client(ClientIp::V4(0xC0A8_0101)), vec![0, 0]);
    assert_eq!(cache.get_counts(), vec![0, 0]);
}

#[test]
fn second_sighting_counts_two() {
    let mut cache = ClientCache::new(&[(100, 60), (0, 3600)]);
    let ip = ClientIp::V4(0xC0A8_0101);
    assert_eq!(cache.inc_client(ip), vec![1, 0]);
    assert_eq!(cache.inc_client(ip), vec![2, 0]);
    assert_eq!(cache.get_client(ip), vec![2, 0]);
}

#[test]
fn never_written_caches_count_nothing() {
    let cache = ClientCache::new(&[(3, 60), (0, 60), (4, 3600)]);
    assert_eq!(cache.get_counts(), vec![0, 0, 0]);
}
