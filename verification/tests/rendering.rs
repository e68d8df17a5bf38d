use tui_kit::layout::Rect;
use tui_kit::performance::{
    cache_key_of, select_evictions, CacheLookup, DirtyRegion, RenderOperation, RenderingConfig,
    RenderingPerformanceManager,
};

fn rect(x: u16, y: u16, width: u16, height: u16) -> Rect {
    Rect { x, y, width, height }
}

/// A manager caching rendered rows of cells, here plain bytes.
fn manager_with(config: RenderingConfig) -> RenderingPerformanceManager<Vec<u8>> {
    RenderingPerformanceManager::new(config)
}

#[test]
fn test_rendering_performance_manager_creation() {
    let manager = manager_with(RenderingConfig::default());
    assert_eq!(manager.get_cache_stats(), (0, 0));
    assert_eq!(manager.get_config().target_fps, 60);
    assert_eq!(manager.get_config().max_cache_entries, 1000);
}

#[test]
fn test_render_caching() {
    let mut manager = manager_with(RenderingConfig::default());
    let area = rect(0, 0, 80, 24);
    let buffer = vec![b' '; 80 * 24];
    let content_hash = 12345u64;
    // Cache should be empty initially
    assert!(manager.get_cached_render("test_widget", area, content_hash).is_none());
    // Cache the content
    manager.cache_render("test_widget", area, buffer.clone(), content_hash);
    // Should now be able to retrieve from cache
    assert_eq!(manager.get_cached_render("test_widget", area, content_hash), Some(buffer));
    let (hits, misses) = manager.get_cache_stats();
    assert_eq!(hits, 1);
    assert_eq!(misses, 1);
}

#[test]
fn cached_content_expires_and_follows_its_hash() {
    let mut manager = manager_with(RenderingConfig::default());
    let area = rect(0, 0, 80, 24);
    manager.cache_render_at("w", area, vec![1], 7, 1000);
    assert_eq!(manager.get_cached_render_at("w", area, 7, 2000), Some(vec![1]));
    assert_eq!(manager.get_cached_render_at("w", area, 7, 2001), None);
    // the expired entry was dropped
    assert_eq!(manager.get_cached_render_at("w", area, 7, 1500), None);
    manager.cache_render_at("w", area, vec![2], 7, 3000);
    assert_eq!(manager.get_cached_render_at("w", area, 8, 3000), None);
    assert_eq!(manager.get_cached_render_at("w", area, 8, 3000), None);
    // another area is another key
    manager.cache_render_at("w", rect(0, 0, 80, 23), vec![3], 7, 3000);
    assert_eq!(manager.get_cached_render_at("w", area, 7, 3000), None);
    assert_eq!(manager.get_cached_render_at("w", rect(0, 0, 80, 23), 7, 3000), Some(vec![3]));
    assert_eq!(manager.get_cache_stats(), (2, 5));
}

#[test]
fn a_full_cache_drops_its_least_recently_used_quarter() {
    let mut config = RenderingConfig::default();
    config.max_cache_entries = 4;
    let mut manager = manager_with(config);
    for (i, name) in ["a", "b", "c", "d"].iter().enumerate() {
        manager.cache_render_at(name, rect(0, 0, 80, 24), vec![i as u8], 1, 100 + i as u64);
    }
    // "a" is used again, so "b" is the least recently used
    assert!(manager.get_cached_render_at("a", rect(0, 0, 80, 24), 1, 200).is_some());
    assert!(!manager.should_cache_render("e", rect(0, 0, 80, 24)));
    manager.cache_render_at("e", rect(0, 0, 80, 24), vec![9], 1, 300);
    assert!(manager.get_cached_render_at("b", rect(0, 0, 80, 24), 1, 300).is_none());
    for name in ["a", "c", "d", "e"] {
        assert!(manager.get_cached_render_at(name, rect(0, 0, 80, 24), 1, 300).is_some(), "{}", name);
    }
}

#[test]
fn cache_lookup_expired_and_changed_are_misses() {
    let mut manager = manager_with(RenderingConfig::default());
    assert_eq!(manager.record_cache_lookup(Some((0, 7)), 7, 1001), CacheLookup::Expired);
    assert_eq!(manager.record_cache_lookup(Some((0, 7)), 7, 1000), CacheLookup::Hit);
    assert_eq!(manager.record_cache_lookup(Some((0, 7)), 8, 10), CacheLookup::Changed);
    // a clock that went back counts no time
    assert_eq!(manager.record_cache_lookup(Some((5000, 7)), 7, 10), CacheLookup::Hit);
    assert_eq!(manager.get_cache_stats(), (2, 2));
    manager.clear_cache();
    assert_eq!(manager.get_cache_stats(), (0, 0));
}

#[test]
fn cache_lookup_with_cache_off_counts_nothing() {
    let mut config = RenderingConfig::default();
    config.enable_cache = false;
    let mut manager = manager_with(config);
    assert_eq!(manager.record_cache_lookup(None, 1, 1), CacheLookup::Disabled);
    assert_eq!(manager.get_cache_stats(), (0, 0));
    assert!(!manager.should_cache_render("w", rect(0, 0, 80, 24)));
    manager.cache_render_at("w", rect(0, 0, 80, 24), vec![1], 1, 0);
    assert_eq!(manager.get_cached_render_at("w", rect(0, 0, 80, 24), 1, 0), None);
}

#[test]
fn small_areas_and_full_cache_are_not_cached() {
    let mut config = RenderingConfig::default();
    config.max_cache_entries = 1;
    let mut manager = manager_with(config);
    assert!(!manager.should_cache_render("w", rect(0, 0, 9, 24)));
    assert!(!manager.should_cache_render("w", rect(0, 0, 80, 2)));
    assert!(manager.should_cache_render("w", rect(0, 0, 10, 3)));
    manager.cache_render_at("w", rect(0, 0, 10, 3), vec![0], 1, 0);
    assert!(!manager.should_cache_render("v", rect(0, 0, 10, 3)));
}

#[test]
fn evictions_take_the_least_recently_then_least_often_used() {
    let entries = vec![(30u64, 1u64), (10, 5), (10, 2), (40, 0), (20, 9)];
    let picked = select_evictions(&entries, 3);
    assert_eq!(picked, vec![2, 1, 4]);
    assert_eq!(select_evictions(&entries, 10).len(), 5);
    assert!(select_evictions(&entries, 0).is_empty());
}

#[test]
fn cache_key_lists_widget_and_area() {
    assert_eq!(cache_key_of("list", rect(1, 2, 80, 24)), "list:1:2:80:24");
}

#[test]
fn test_dirty_region_tracking() {
    let mut manager = manager_with(RenderingConfig::default());
    manager.mark_dirty("widget1".to_string(), rect(0, 0, 10, 10), 1);
    manager.mark_dirty("widget1".to_string(), rect(5, 5, 10, 10), 2);
    let regions: Vec<DirtyRegion> = manager.get_dirty_regions();
    assert_eq!(regions.len(), 1);
    assert_eq!(regions[0].priority, 2);
    assert_eq!(regions[0].area, rect(0, 0, 15, 15));
    assert!(manager.get_dirty_regions().is_empty());
}

#[test]
fn dirty_regions_come_by_priority_and_stay_apart_when_disjoint() {
    let mut manager = manager_with(RenderingConfig::default());
    manager.mark_dirty("a".to_string(), rect(0, 0, 5, 5), 1);
    manager.mark_dirty("b".to_string(), rect(0, 0, 5, 5), 3);
    manager.mark_dirty("a".to_string(), rect(20, 20, 5, 5), 3);
    manager.mark_dirty("c".to_string(), rect(0, 0, 5, 5), 2);
    let regions = manager.get_dirty_regions();
    let order: Vec<(String, u8)> = regions.iter().map(|r| (r.widget_id.clone(), r.priority)).collect();
    assert_eq!(
        order,
        vec![("b".to_string(), 3), ("a".to_string(), 3), ("c".to_string(), 2), ("a".to_string(), 1)]
    );
}

#[test]
fn dirty_regions_untracked_when_off() {
    let mut config = RenderingConfig::default();
    config.dirty_region_tracking = false;
    let mut manager = manager_with(config);
    manager.mark_dirty("a".to_string(), rect(0, 0, 5, 5), 1);
    assert!(manager.get_dirty_regions().is_empty());
}

#[test]
fn test_incremental_rendering() {
    let mut manager = manager_with(RenderingConfig::default());
    assert!(manager.should_use_incremental_rendering("test_widget", 12345));
    assert!(!manager.should_use_incremental_rendering("test_widget", 12345));
    assert!(manager.should_use_incremental_rendering("test_widget", 54321));
    assert!(manager.should_use_incremental_rendering("other", 12345));
}

#[test]
fn batches_are_drawn_when_full() {
    let mut config = RenderingConfig::default();
    config.batch_size = 2;
    let mut manager = manager_with(config);
    let op = |n: &str| RenderOperation { widget_id: n.to_string(), area: rect(0, 0, 1, 1), priority: 1, timestamp_ms: 0 };
    manager.queue_render_operation(op("a"));
    manager.queue_render_operation(op("b"));
    manager.queue_render_operation(op("c"));
    // nothing observable but that the calls complete; the third waits alone
}

#[test]
fn a_first_region_may_reach_past_the_coordinates() {
    let mut manager = manager_with(RenderingConfig::default());
    manager.mark_dirty("wide".to_string(), rect(65_000, 0, 1_000, 5), 1);
    manager.mark_dirty("other".to_string(), rect(0, 0, 5, 5), 2);
    let regions = manager.get_dirty_regions();
    assert_eq!(regions.len(), 2);
    assert_eq!(regions[1].area, rect(65_000, 0, 1_000, 5));
}
