use tui_kit::cache::{CacheEntry, MemoryCacheBackend};

const MIB: u64 = 1_048_576;

fn cache() -> MemoryCacheBackend<String> {
    MemoryCacheBackend::new(1)
}

#[test]
fn a_new_cache_is_empty() {
    let mut c = cache();
    let s = c.stats_at(0);
    assert_eq!(s.total_entries, 0);
    assert_eq!(s.total_size_bytes, 0);
    assert_eq!(s.hit_count, 0);
    assert_eq!(s.miss_count, 0);
    assert_eq!(s.eviction_count, 0);
    assert_eq!(s.oldest_entry_age_ms, None);
    assert_eq!(s.newest_entry_age_ms, None);
}

#[test]
fn a_stored_value_reads_back_until_it_expires() {
    let mut c = cache();
    c.store_bytes_at("k", b"hello", 500, 1000);
    assert_eq!(c.retrieve_bytes_at("k", 1499), Some(b"hello".to_vec()));
    let s = c.stats_at(1499);
    assert_eq!(s.hit_count, 1);
    assert_eq!(s.total_entries, 1);
    assert_eq!(s.total_size_bytes, 5);
    assert_eq!(c.retrieve_bytes_at("k", 1500), None);
    let s = c.stats_at(1500);
    assert_eq!(s.miss_count, 1);
    assert_eq!(s.eviction_count, 1);
    assert_eq!(s.total_entries, 0);
    assert_eq!(s.total_size_bytes, 0);
}

#[test]
fn a_missing_key_is_a_miss() {
    let mut c = cache();
    assert_eq!(c.retrieve_bytes_at("nothing", 5), None);
    assert_eq!(c.stats_at(5).miss_count, 1);
    assert!(!c.key_exists_at("nothing", 5));
}

#[test]
fn storing_again_replaces_the_value_and_adds_its_bytes() {
    let mut c = cache();
    c.store_bytes_at("a", &[1u8; 10], 1000, 0);
    c.store_bytes_at("a", &[2u8; 5], 1000, 0);
    assert_eq!(c.retrieve_bytes_at("a", 1), Some(vec![2u8; 5]));
    let s = c.stats_at(1);
    assert_eq!(s.total_entries, 1);
    assert_eq!(s.total_size_bytes, 15);
}

#[test]
fn the_least_read_entry_makes_room_first() {
    let mut c = cache();
    let big = vec![0u8; 400_000];
    c.store_bytes_at("a", &big, 10_000, 0);
    c.store_bytes_at("b", &big, 10_000, 0);
    assert!(c.retrieve_bytes_at("a", 1).is_some());
    c.store_bytes_at("c", &big, 10_000, 2);
    assert!(c.key_exists_at("a", 3));
    assert!(!c.key_exists_at("b", 3));
    assert!(c.key_exists_at("c", 3));
    let s = c.stats_at(3);
    assert_eq!(s.eviction_count, 1);
    assert_eq!(s.total_entries, 2);
    assert_eq!(s.total_size_bytes, 800_000);
}

#[test]
fn among_entries_read_as_often_the_first_stored_goes_first() {
    let mut c = cache();
    let big = vec![0u8; 400_000];
    c.store_bytes_at("a", &big, 10_000, 0);
    c.store_bytes_at("b", &big, 10_000, 0);
    c.store_bytes_at("c", &big, 10_000, 0);
    assert!(!c.key_exists_at("a", 1));
    assert!(c.key_exists_at("b", 1));
    assert!(c.key_exists_at("c", 1));
}

#[test]
fn a_value_larger_than_the_cache_is_still_stored() {
    let mut c = cache();
    c.store_bytes_at("small", b"x", 10_000, 0);
    let huge = vec![7u8; (MIB + 1) as usize];
    c.store_bytes_at("huge", &huge, 10_000, 0);
    assert!(!c.key_exists_at("small", 1));
    assert!(c.key_exists_at("huge", 1));
    assert_eq!(c.stats_at(1).total_size_bytes, MIB + 1);
}

#[test]
fn removing_and_clearing() {
    let mut c = cache();
    c.store_bytes_at("a", b"123", 1000, 0);
    c.store_bytes_at("b", b"45", 1000, 0);
    c.remove("a");
    c.remove("zzz");
    assert!(!c.key_exists_at("a", 1));
    let s = c.stats_at(1);
    assert_eq!(s.total_entries, 1);
    assert_eq!(s.total_size_bytes, 2);
    c.clear();
    let s = c.stats_at(1);
    assert_eq!(s.total_entries, 0);
    assert_eq!(s.total_size_bytes, 0);
    assert_eq!(s.eviction_count, 1);
}

#[test]
fn stats_tell_the_oldest_and_newest_ages() {
    let mut c = cache();
    c.store_bytes_at("old", b"1", 10_000, 100);
    c.store_bytes_at("new", b"2", 10_000, 300);
    let s = c.stats_at(500);
    assert_eq!(s.oldest_entry_age_ms, Some(400));
    assert_eq!(s.newest_entry_age_ms, Some(200));
    assert_eq!(s.expired_entries, 0);
}

#[test]
fn keys_are_listed_by_pattern() {
    let mut c = cache();
    c.store_bytes_at("user:1", b"a", 1000, 0);
    c.store_bytes_at("group:1", b"b", 1000, 0);
    c.store_bytes_at("user:2", b"c", 1000, 0);
    assert_eq!(c.list_keys_at(Some("user"), 1), vec!["user:1".to_string(), "user:2".to_string()]);
    assert_eq!(c.list_keys_at(None, 1).len(), 3);
    assert!(c.list_keys_at(Some("x"), 1).is_empty());
}

#[test]
fn extending_the_time_to_live_keeps_an_entry_longer() {
    let mut c = cache();
    c.store_bytes_at("k", b"v", 100, 0);
    assert!(c.extend_ttl("k", 100));
    assert!(!c.extend_ttl("other", 100));
    assert_eq!(c.retrieve_bytes_at("k", 150), Some(b"v".to_vec()));
    assert_eq!(c.retrieve_bytes_at("k", 200), None);
}

#[test]
fn metadata_comes_back_with_the_bytes() {
    let mut c = cache();
    c.store_bytes_with_metadata_at("k", b"v", 1000, "tag".to_string(), 0);
    c.store_bytes_at("plain", b"p", 1000, 0);
    assert_eq!(
        c.retrieve_bytes_with_metadata_at("k", 1),
        Some((b"v".to_vec(), Some("tag".to_string())))
    );
    assert_eq!(c.retrieve_bytes_with_metadata_at("plain", 1), Some((b"p".to_vec(), None)));
    assert_eq!(c.retrieve_bytes_with_metadata_at("none", 1), None);
    assert_eq!(c.get_metadata_at("k", 1), Some("tag".to_string()));
    assert_eq!(c.get_metadata_at("plain", 1), None);
    let s = c.stats_at(1);
    assert_eq!(s.hit_count, 2);
    assert_eq!(s.miss_count, 1);
}

#[test]
fn export_and_import_carry_the_entries() {
    let mut c = cache();
    c.store_bytes_at("a", b"12", 1000, 0);
    c.store_bytes_at("gone", b"3", 10, 0);
    let saved = c.export_at(100);
    assert_eq!(saved.len(), 1);
    assert_eq!(saved[0].0, "a");
    assert_eq!(saved[0].1.data, b"12".to_vec());
    let mut other = cache();
    other.store_bytes_at("z", b"zz", 1000, 0);
    other.import(saved);
    assert!(!other.key_exists_at("z", 100));
    assert_eq!(other.retrieve_bytes_at("a", 100), Some(b"12".to_vec()));
    let s = other.stats_at(100);
    assert_eq!(s.total_entries, 1);
    assert_eq!(s.total_size_bytes, 2);
}

#[test]
fn imported_entries_keep_their_times() {
    let mut c = cache();
    let entry = CacheEntry { data: vec![9u8], expires_at_ms: 50, created_at_ms: 10, access_count: 3, metadata: None };
    c.import(vec![("k".to_string(), entry)]);
    assert!(c.key_exists_at("k", 49));
    assert!(!c.key_exists_at("k", 50));
}

#[test]
fn compaction_tells_what_is_left() {
    let mut c = cache();
    c.store_bytes("k", b"abc", 60_000);
    let r = c.compact();
    assert_eq!(r.entries_removed, 0);
    assert_eq!(r.bytes_freed, 0);
    assert_eq!(r.entries_remaining, 1);
    assert_eq!(r.size_after_bytes, 3);
}

#[test]
fn the_default_cache_holds_a_hundred_mebibytes() {
    let mut c: MemoryCacheBackend<String> = MemoryCacheBackend::default();
    let big = vec![0u8; (60 * MIB) as usize];
    c.store_bytes_at("a", &big, 1000, 0);
    c.store_bytes_at("b", &big, 1000, 0);
    assert!(!c.key_exists_at("a", 1));
    assert!(c.key_exists_at("b", 1));
}

#[test]
fn clock_versions_store_and_read() {
    let mut c = cache();
    c.store_bytes("k", b"now", 60_000);
    assert!(c.key_exists("k"));
    assert_eq!(c.retrieve_bytes("k"), Some(b"now".to_vec()));
    c.store_bytes_with_metadata("m", b"x", 60_000, "meta".to_string());
    assert_eq!(c.retrieve_bytes_with_metadata("m"), Some((b"x".to_vec(), Some("meta".to_string()))));
    assert_eq!(c.get_metadata("m"), Some("meta".to_string()));
    assert_eq!(c.list_keys(None).len(), 2);
    assert_eq!(c.export().len(), 2);
    assert_eq!(c.stats().hit_count, 2);
}
