use cyberpunk::cache::{Cache, CacheEntry, FileSystemCache, RedisCache, StoreCommand};
use cyberpunk::config::{CacheSettings, FilesystemCacheSettings};

#[test]
fn cache_files_live_under_the_base_path() {
    let cache = FileSystemCache::new("/var/cache".to_string());
    assert_eq!(cache.get_file_path("req_cache:GET:a.mp3"), "/var/cache/req_cache:GET:a.mp3");
    assert_eq!(cache.get_meta_path("k"), "/var/cache/k.meta");
}

#[test]
fn an_entry_expires_after_its_time_to_live() {
    // Set at second 1000 for one second, looked up two seconds later.
    let entry = FileSystemCache::set(vec![1, 2, 3], Some(1), 1000);
    assert_eq!(entry.expiry, Some(1001));
    let meta = entry.meta_text().unwrap();
    assert_eq!(meta, "1001");
    assert_eq!(
        FileSystemCache::get(Some(vec![1, 2, 3]), Some(&meta), 1002),
        None
    );
    assert_eq!(
        FileSystemCache::get(Some(vec![1, 2, 3]), Some(&meta), 1001),
        Some(vec![1, 2, 3])
    );
    assert_eq!(
        FileSystemCache::get(Some(vec![1, 2, 3]), Some(&meta), 1000),
        Some(vec![1, 2, 3])
    );
    assert!(!FileSystemCache::is_expired(Some(&meta), 1001));
    assert!(FileSystemCache::is_expired(Some(&meta), 1002));
}

#[test]
fn entries_without_expiry_stay() {
    let entry = FileSystemCache::set(vec![7], None, 5);
    assert_eq!(entry.expiry, None);
    assert_eq!(entry.meta_text(), None);
    assert_eq!(FileSystemCache::get(Some(vec![7]), None, u64::MAX), Some(vec![7]));
    assert_eq!(FileSystemCache::get(None, None, 0), None);
    assert_eq!(FileSystemCache::get(None, Some("5"), 0), None);
    // A malformed expiry file means no expiry.
    assert!(!FileSystemCache::is_expired(Some("soon"), u64::MAX));
    assert!(!FileSystemCache::is_expired(Some(""), u64::MAX));
    assert!(!FileSystemCache::is_expired(Some("-1"), u64::MAX));
    assert!(!FileSystemCache::is_expired(Some("18446744073709551616"), u64::MAX));
    assert!(FileSystemCache::is_expired(Some("+5"), 6));
    assert!(FileSystemCache::is_expired(Some("18446744073709551614"), u64::MAX));
}

#[test]
fn the_expiry_stops_at_the_last_second() {
    let entry = FileSystemCache::set(vec![], Some(10), u64::MAX - 3);
    assert_eq!(entry.expiry, Some(u64::MAX));
    let entry = CacheEntry { bytes: vec![], expiry: Some(0) };
    assert_eq!(entry.meta_text(), Some("0".to_string()));
}

#[test]
fn the_key_value_store_is_written_with_or_without_expiry() {
    assert_eq!(RedisCache::set_command(Some(3600)), StoreCommand::Expire(3600));
    assert_eq!(RedisCache::set_command(None), StoreCommand::Keep);
    assert_eq!(RedisCache::new("redis://localhost").uri, "redis://localhost");
}

#[test]
fn the_cache_follows_the_settings() {
    match Cache::new(CacheSettings::Redis { uri: "redis://h".to_string() }) {
        Cache::Redis(c) => assert_eq!(c.uri, "redis://h"),
        _ => panic!("a key-value cache was asked for"),
    }
    match Cache::new(CacheSettings::Filesystem(FilesystemCacheSettings {
        base_dir: "d".to_string(),
    })) {
        Cache::Filesystem(c) => assert_eq!(c.base_path, "d"),
        _ => panic!("a file-system cache was asked for"),
    }
    match Cache::new(CacheSettings::default()) {
        Cache::Filesystem(c) => assert_eq!(c.base_path, "cache"),
        _ => panic!("the file system is the default"),
    }
}
