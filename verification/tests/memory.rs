use tui_kit::memory::{LeakAction, TuiMemoryConfig, TuiMemoryManager};

fn untracked() -> TuiMemoryConfig {
    let mut c = TuiMemoryConfig::default();
    c.track_widget_memory = false;
    c
}

#[test]
fn test_tui_memory_manager_creation() {
    let manager = TuiMemoryManager::new(TuiMemoryConfig::default());
    let (current, peak, allocations, deallocations) = manager.get_memory_counts();
    assert_eq!(current, 0);
    assert_eq!(allocations, 0);
    assert_eq!((peak, deallocations), (0, 0));
}

#[test]
fn test_widget_memory_tracking() {
    let mut manager = TuiMemoryManager::new(TuiMemoryConfig::default());
    manager.track_widget_allocation("test_widget", "TestWidget", 1024, 0);
    let (current, _, allocations, _) = manager.get_memory_counts();
    assert_eq!(current, 1024);
    assert_eq!(allocations, 1);
    assert!(manager.get_widget_usage("test_widget").is_some());
    manager.track_widget_deallocation("test_widget", 512, 5);
    let (current, peak, _, deallocations) = manager.get_memory_counts();
    assert_eq!(current, 512);
    assert_eq!(peak, 1024);
    assert_eq!(deallocations, 1);
}

#[test]
fn freeing_more_than_allocated_stops_at_zero() {
    let mut manager = TuiMemoryManager::new(TuiMemoryConfig::default());
    manager.track_widget_allocation("w", "W", 10, 0);
    manager.track_widget_deallocation("w", 100, 1);
    assert_eq!(manager.get_memory_counts(), (0, 10, 1, 1));
}

#[test]
fn untracked_memory_counts_nothing() {
    let mut manager = TuiMemoryManager::new(untracked());
    manager.track_widget_allocation("w", "W", 10, 0);
    manager.track_widget_deallocation("w", 5, 1);
    assert_eq!(manager.get_memory_counts(), (0, 0, 0, 0));
}


#[test]
fn stale_widgets_stop_being_tracked() {
    let mut manager = TuiMemoryManager::new(TuiMemoryConfig::default());
    manager.track_widget_allocation("old", "W", 10, 1_000);
    manager.track_widget_allocation("fresh", "W", 10, 250_000);
    manager.track_widget_allocation("edge", "W", 10, 1_001);
    assert_eq!(manager.cleanup_widget_tracking_at(301_001), vec!["old".to_string()]);
    assert_eq!(manager.cleanup_widget_tracking_at(301_001), Vec::<String>::new());
    assert_eq!(manager.cleanup_widget_tracking_at(400_000), vec!["edge".to_string()]);
    assert_eq!(manager.get_memory_counts().0, 30);
}

#[test]
fn a_widget_keeps_its_identity_and_type() {
    let mut manager = TuiMemoryManager::new(TuiMemoryConfig::default());
    manager.track_widget_allocation("w", "List", 100, 3);
    manager.track_widget_allocation("w", "Other", 50, 9);
    let u = manager.get_widget_usage("w").unwrap();
    assert_eq!((u.widget_id.as_str(), u.widget_type.as_str()), ("w", "List"));
    assert_eq!((u.current_usage, u.peak_usage, u.allocation_count, u.last_updated_ms), (150, 150, 2, 9));
    manager.track_widget_deallocation("w", 100, 12);
    let u = manager.get_widget_usage("w").unwrap();
    assert_eq!((u.current_usage, u.peak_usage, u.last_updated_ms), (50, 150, 12));
    assert!(manager.get_widget_usage("none").is_none());
}

#[test]
fn test_buffer_pooling() {
    let mut manager = TuiMemoryManager::new(TuiMemoryConfig::default());
    let buffer = manager.get_render_buffer(80, 24);
    assert_eq!(buffer, (80, 24));
    manager.return_render_buffer(buffer);
    let buffer2 = manager.get_render_buffer(70, 20);
    assert!(buffer2.0 >= 70);
    assert!(buffer2.1 >= 20);
    assert_eq!(buffer2, (80, 24));
    assert_eq!(manager.get_render_buffer(70, 20), (70, 20));
}

#[test]
fn cached_buffers_expire_after_thirty_seconds() {
    let mut manager = TuiMemoryManager::new(TuiMemoryConfig::default());
    manager.cache_render_buffer_at("k", (10, 5), 1000);
    assert_eq!(manager.get_cached_render_buffer_at("k", 31_000), Some((10, 5)));
    assert_eq!(manager.get_cached_render_buffer_at("k", 31_001), None);
    assert_eq!(manager.get_cached_render_buffer_at("k", 31_000), None);
}

#[test]
fn test_memory_leak_detection() {
    let mut manager = TuiMemoryManager::new(TuiMemoryConfig::default());
    manager.track_widget_allocation("normal_widget", "NormalWidget", 1000, 0);
    manager.track_widget_allocation("leaky_widget", "LeakyWidget", 1000, 0);
    manager.update_baselines();
    manager.track_widget_allocation("leaky_widget", "LeakyWidget", 2000, 1);
    let leaks = manager.detect_memory_leaks();
    let leak = leaks.iter().find(|l| l.widget_id == "leaky_widget").unwrap();
    assert!(leak.leak_detected);
    assert!(leak.current_usage as f64 / leak.baseline_usage as f64 > 1.5);
    assert_eq!((leak.baseline_usage, leak.current_usage), (1000, 3000));
    assert_eq!(leak.recommended_action, LeakAction::ForceCleanup);
    let normal = leaks.iter().find(|l| l.widget_id == "normal_widget").unwrap();
    assert!(!normal.leak_detected);
    assert_eq!(normal.recommended_action, LeakAction::Monitor);
    manager.update_baselines();
    let leaks = manager.detect_memory_leaks();
    let leak = leaks.iter().find(|l| l.widget_id == "leaky_widget").unwrap();
    assert_eq!(leak.baseline_usage, 2000);
    assert!(!leak.leak_detected);
}

#[test]
fn test_force_cleanup() {
    let mut manager = TuiMemoryManager::new(TuiMemoryConfig::default());
    manager.track_widget_allocation("test_widget", "TestWidget", 1024, 0);
    let buffer = manager.get_render_buffer(80, 24);
    manager.cache_render_buffer_at("test_cache", buffer, 0);
    manager.return_render_buffer((40, 10));
    let report = manager.force_cleanup_at(1000);
    assert!(report.success);
    assert_eq!(report.cleared_buffers, 1);
    assert!(report.freed_memory > 0 || report.cleared_buffers > 0);
    assert!(report.cleaned_widgets.is_empty());
    let report = manager.force_cleanup_at(400_000);
    assert_eq!(report.cleared_buffers, 1);
    assert_eq!(report.cleaned_widgets, vec!["test_widget".to_string()]);
}

#[test]
fn memory_pressure_warns_and_cleans_up() {
    let mut config = TuiMemoryConfig::default();
    config.max_tui_memory = 1000;
    let mut manager = TuiMemoryManager::new(config);
    manager.return_render_buffer((10, 10));
    manager.track_widget_allocation("a", "A", 700, 0);
    assert!(!manager.pressure_warning());
    assert_eq!(manager.buffer_counts(), (1, 0));
    manager.track_widget_allocation("b", "B", 100, 1);
    assert!(!manager.pressure_warning());
    assert_eq!(manager.buffer_counts(), (0, 0));
    manager.track_widget_allocation("c", "C", 100, 2);
    assert!(manager.pressure_warning());
    assert_eq!(manager.get_memory_counts().0, 900);
}

#[test]
fn the_configuration_sets_pooling_and_thresholds() {
    let mut config = TuiMemoryConfig::default();
    config.enable_buffer_pooling = false;
    let mut manager = TuiMemoryManager::new(config);
    manager.return_render_buffer((80, 24));
    assert_eq!(manager.buffer_counts(), (0, 0));
    manager.cache_render_buffer_at("k", (1, 1), 0);
    assert_eq!(manager.get_cached_render_buffer_at("k", 0), None);

    let mut config = TuiMemoryConfig::default();
    config.buffer_cache_ttl_ms = 10;
    config.leak_threshold_permille = 3000;
    let mut manager = TuiMemoryManager::new(config);
    manager.cache_render_buffer_at("k", (1, 1), 0);
    assert_eq!(manager.get_cached_render_buffer_at("k", 10), Some((1, 1)));
    assert_eq!(manager.get_cached_render_buffer_at("k", 11), None);
    manager.track_widget_allocation("w", "W", 100, 0);
    manager.update_baselines();
    manager.track_widget_allocation("w", "W", 150, 1);
    let leaks = manager.detect_memory_leaks();
    assert!(!leaks[0].leak_detected);
    assert_eq!(leaks[0].recommended_action, LeakAction::ForceCleanup);
}
