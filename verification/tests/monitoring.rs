use tui_kit::monitoring::{record_profile, AlertSeverity, AlertType, PerformanceAlert, TuiPerformanceMonitor};

#[test]
fn test_frame_recording() {
    let mut monitor = TuiPerformanceMonitor::new(true, 1000);
    monitor.record_frame(16_000_000);
    assert_eq!(monitor.frame_count(), 1);
    assert_eq!(monitor.operation_timings("frame_render"), vec![16_000_000]);
}

#[test]
fn test_error_recording() {
    let mut monitor = TuiPerformanceMonitor::new(true, 1000);
    monitor.record_error("test_component", "test error");
    assert_eq!(monitor.error_count(), 1);
    let notes = monitor.debug_info();
    assert_eq!(notes.len(), 1);
    assert_eq!(notes[0].component, "test_component");
    assert_eq!(notes[0].event_type, "error");
    assert_eq!(notes[0].data, vec![("error".to_string(), "test error".to_string())]);
    assert!(notes[0].stack_trace.is_none());
}

#[test]
fn test_profiling_session() {
    let mut monitor = TuiPerformanceMonitor::new(true, 1000);
    monitor.record_profile_call("test_function", 10_000_000);
    let data = monitor.profiling_data("test_function").unwrap();
    assert_eq!(data.function_name, "test_function");
    assert_eq!(data.call_count, 1);
    assert!(data.total_time_ns >= 10_000_000);
    assert!(monitor.profiling_data("other").is_none());
}

#[test]
fn profiles_accumulate_over_calls() {
    let data = record_profile(None, "f", 10_000_000);
    let data = record_profile(Some(data), "f", 20_000_000);
    assert_eq!(data.call_count, 2);
    assert_eq!(data.total_time_ns, 30_000_000);
    assert_eq!(data.average_time_ns, 15_000_000);
    assert_eq!(data.min_time_ns, 10_000_000);
    assert_eq!(data.max_time_ns, 20_000_000);
    let mut monitor = TuiPerformanceMonitor::new(false, 10);
    monitor.record_profile_call("f", 4);
    monitor.record_profile_call("f", 2);
    let p = monitor.profiling_data("f").unwrap();
    assert_eq!((p.call_count, p.total_time_ns, p.average_time_ns, p.min_time_ns, p.max_time_ns), (2, 6, 3, 2, 4));
}

#[test]
fn timings_keep_the_latest_hundred() {
    let mut monitor = TuiPerformanceMonitor::new(true, 1000);
    for i in 0..105u128 {
        monitor.record_operation_time("draw", i);
    }
    let t = monitor.operation_timings("draw");
    assert_eq!(t.len(), 100);
    assert_eq!(t[0], 5);
    assert_eq!(t[99], 104);
    assert!(monitor.operation_timings("other").is_empty());
}

#[test]
fn notes_stay_within_their_limit_and_can_be_off() {
    let mut monitor = TuiPerformanceMonitor::new(true, 2);
    monitor.record_error_at("a", "1", 10);
    monitor.record_error_at("b", "2", 20);
    monitor.record_error_at("c", "3", 30);
    let notes = monitor.debug_info();
    assert_eq!(notes.len(), 2);
    assert_eq!(notes[0].component, "b");
    assert_eq!(notes[1].timestamp, 30);
    assert_eq!(monitor.error_count(), 3);
    let mut quiet = TuiPerformanceMonitor::new(false, 2);
    quiet.record_error_at("a", "1", 10);
    assert!(quiet.debug_info().is_empty());
    assert_eq!(quiet.error_count(), 1);
}

#[test]
fn events_are_counted_by_kind() {
    let mut monitor = TuiPerformanceMonitor::new(true, 10);
    monitor.record_event("key");
    monitor.record_event("key");
    monitor.record_event("mouse");
    assert_eq!(monitor.event_count("key"), 2);
    assert_eq!(monitor.event_count("mouse"), 1);
    assert_eq!(monitor.event_count("resize"), 0);
}

#[test]
fn a_profile_keeps_its_function_name() {
    let mut monitor = TuiPerformanceMonitor::new(true, 10);
    monitor.record_profile_call("draw", 5);
    monitor.record_profile_call("draw", 7);
    let p = monitor.profiling_data("draw").unwrap();
    assert_eq!(p.function_name, "draw");
    assert_eq!(p.call_count, 2);
    assert_eq!(p.memory_allocated, 0);
    assert!(p.stack_trace.is_empty());
}

fn alert(kind: AlertType, component: &str, timestamp: u64) -> PerformanceAlert {
    PerformanceAlert {
        alert_type: kind,
        severity: AlertSeverity::Warning,
        message: "slow".to_string(),
        timestamp,
        metric_value_milli: 90_000,
        threshold_milli: 80_000,
        component: component.to_string(),
    }
}

#[test]
fn alerts_are_in_force_once_and_history_is_bounded() {
    let mut m = TuiPerformanceMonitor::new(false, 2);
    m.record_alert(alert(AlertType::HighCpuUsage, "system", 1));
    m.record_alert(alert(AlertType::HighCpuUsage, "system", 2));
    m.record_alert(alert(AlertType::LowFrameRate, "renderer", 3));
    assert_eq!(m.get_active_alerts().len(), 2);
    assert_eq!(m.get_active_alerts()[0].timestamp, 1);
    let history: Vec<u64> = m.alert_history().iter().map(|a| a.timestamp).collect();
    assert_eq!(history, vec![2, 3]);
    m.clear_alerts();
    assert!(m.get_active_alerts().is_empty());
    assert_eq!(m.alert_history().len(), 2);
}
