use git_nexus::cache::{CacheEntry, CacheStats, ScanCache};

#[test]
fn test_cache_creation() {
    let _ = ScanCache::default();
}

#[test]
fn test_cache_stats_format() {
    let stats = CacheStats { total_entries: 10, total_size_bytes: 1024 * 1024 };

    let formatted = stats.size_human_readable();
    assert!(formatted.contains("MB"));
}

fn human(n: usize) -> String {
    CacheStats { total_entries: 0, total_size_bytes: n }.size_human_readable()
}

#[test]
fn human_sizes_match_float_formatting() {
    for n in [0usize, 1, 1023, 1024, 1152, 1536, 5000, 1048575, 1048576, 3 * 1048576 + 5243, 1073741824, 123456789012] {
        let size = n as f64;
        let expected = if size < 1024.0 {
            format!("{} B", size)
        } else if size < 1024.0 * 1024.0 {
            format!("{:.2} KB", size / 1024.0)
        } else if size < 1024.0 * 1024.0 * 1024.0 {
            format!("{:.2} MB", size / (1024.0 * 1024.0))
        } else {
            format!("{:.2} GB", size / (1024.0 * 1024.0 * 1024.0))
        };
        assert_eq!(human(n), expected, "size {}", n);
    }
    assert_eq!(human(1024 * 1024), "1.00 MB");
    assert_eq!(human(512), "512 B");
}

#[test]
fn store_get_and_replace() {
    let mut cache = ScanCache::new("/tmp/cache".to_string());
    cache.store("/r1".to_string(), vec![1, 2, 3], "h1".to_string(), 100);
    cache.store("/r2".to_string(), vec![4], "h2".to_string(), 100);
    cache.store("/r1".to_string(), vec![9], "h3".to_string(), 200);
    assert_eq!(cache.entries().len(), 2);
    let e = cache.get("/r1").unwrap();
    assert_eq!(e.data, vec![9]);
    assert_eq!(e.timestamp, 200);
    assert!(cache.get("/nope").is_none());
    let stats = cache.stats();
    assert_eq!(stats.total_entries, 2);
    assert_eq!(stats.total_size_bytes, 2);
}

#[test]
fn validity_needs_age_and_fingerprint() {
    let mut cache = ScanCache::default();
    cache.store("/r".to_string(), vec![], "abc".to_string(), 1000);
    assert!(cache.is_valid("/r", 60, 1060, Some("abc")));
    assert!(!cache.is_valid("/r", 60, 1061, Some("abc")));
    assert!(!cache.is_valid("/r", 60, 1010, Some("xyz")));
    assert!(!cache.is_valid("/r", 60, 1010, None));
    assert!(!cache.is_valid("/r", 60, 999, Some("abc")));
    assert!(!cache.is_valid("/other", 60, 1010, Some("abc")));
}

#[test]
fn invalidate_clear_and_prune() {
    let mut cache = ScanCache::default();
    cache.store("/old".to_string(), vec![], "a".to_string(), 0);
    cache.store("/new".to_string(), vec![], "b".to_string(), 900);
    cache.store("/future".to_string(), vec![], "c".to_string(), 5000);
    assert_eq!(cache.prune(100, 1000), 1);
    assert!(cache.get("/old").is_none());
    assert!(cache.get("/future").is_some());
    cache.invalidate("/new");
    assert!(cache.get("/new").is_none());
    cache.clear();
    assert_eq!(cache.stats().total_entries, 0);
}

#[test]
fn lookup_takes_first_entry_and_store_keeps_others() {
    let e = |p: &str, t: u64| CacheEntry { timestamp: t, path: p.to_string(), data: vec![], state_hash: String::new() };
    let mut cache = ScanCache::with_entries("/c".to_string(), vec![e("/a", 1), e("/b", 2), e("/a", 3)]);
    assert_eq!(cache.get("/a").unwrap().timestamp, 1);
    cache.store("/b".to_string(), vec![7], "h".to_string(), 9);
    assert_eq!(cache.get("/a").unwrap().timestamp, 1);
    assert_eq!(cache.get("/b").unwrap().timestamp, 9);
    cache.invalidate("/a");
    assert!(cache.get("/a").is_none());
    assert_eq!(cache.get("/b").unwrap().data, vec![7]);
}
