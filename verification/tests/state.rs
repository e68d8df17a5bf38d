use tui_kit::event::EventStats;
use tui_kit::state::{connection_status_string, ConnectionStatus};

#[test]
fn connections_read_as_their_text() {
    assert_eq!(connection_status_string(&ConnectionStatus::Connected), "已连接");
    assert_eq!(connection_status_string(&ConnectionStatus::Connecting), "连接中...");
    assert_eq!(connection_status_string(&ConnectionStatus::Disconnected), "未连接");
    assert_eq!(connection_status_string(&ConnectionStatus::Error("timeout".to_string())), "错误: timeout");
}

#[test]
fn event_statistics_start_at_zero() {
    let stats = EventStats::default();
    assert_eq!(stats.total_events, 0);
    assert_eq!(stats.key_events, 0);
    assert_eq!(stats.filtered_events, 0);
    assert!(stats.last_event_time.is_none());
}
