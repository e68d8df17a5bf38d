use tui_kit::error::{
    handler_insert_position, DefaultRecoveryHandler, ErrorContext, ErrorDisplayWidget, ErrorManager, ErrorSeverity, RecoveryOutcome,
    RecoveryStrategy, TuiError,
};
use tui_kit::help::HelpLineStyle;
use tui_kit::layout::Rect;
use tui_kit::feedback::{
    ConfirmationAction, ConfirmationDialog, DialogType, FeedbackEvent, FeedbackManager, Notification,
    NotificationType, ProgressIndicator, ProgressStatus, StatusMessage, StatusType,
};
use tui_kit::platform::TermColor;

fn render_error() -> TuiError {
    TuiError::RenderError { message: "x".to_string() }
}

#[test]
fn each_error_reads_as_its_text() {
    assert_eq!(render_error().to_text(), "渲染错误: x");
    assert_eq!(TuiError::InputError { message: "a".to_string() }.to_text(), "输入处理错误: a");
    assert_eq!(TuiError::DataError { message: "a".to_string() }.to_text(), "数据同步错误: a");
    assert_eq!(TuiError::ConfigError { message: "a".to_string() }.to_text(), "配置错误: a");
    assert_eq!(TuiError::TerminalError { message: "a".to_string() }.to_text(), "终端操作错误: a");
    assert_eq!(
        TuiError::WidgetError { widget_id: "w".to_string(), message: "a".to_string() }.to_text(),
        "Widget错误: w - a"
    );
    assert_eq!(TuiError::LayoutError { message: "a".to_string() }.to_text(), "布局错误: a");
    assert_eq!(TuiError::ThemeError { message: "a".to_string() }.to_text(), "主题错误: a");
    assert_eq!(TuiError::NetworkError { message: "a".to_string() }.to_text(), "网络连接错误: a");
    assert_eq!(TuiError::PermissionError { message: "a".to_string() }.to_text(), "权限错误: a");
}

#[test]
fn error_context_follows_the_kind_of_error() {
    let c = ErrorContext::new_at(render_error(), "ui".to_string(), 42);
    assert_eq!(c.severity, ErrorSeverity::Warning);
    assert_eq!(c.recovery_strategy, RecoveryStrategy::Retry { max_attempts: 3, delay_ms: 100 });
    assert_eq!(c.timestamp_ms, 42);
    assert_eq!(c.technical_details, "RenderError { message: \"x\" }");
    assert_eq!(c.recovery_suggestions, vec!["检查终端大小".to_string(), "重启应用程序".to_string()]);
    let c = ErrorContext::new_at(TuiError::PermissionError { message: "p".to_string() }, "fs".to_string(), 0);
    assert_eq!(c.recovery_strategy, RecoveryStrategy::Manual);
    let c = ErrorContext::new_at(TuiError::ThemeError { message: "t".to_string() }, "t".to_string(), 0);
    assert_eq!(c.recovery_strategy, RecoveryStrategy::ShowDialog);
    assert_eq!(c.user_message, "发生未知错误");
}

#[test]
fn retries_back_off_exponentially_up_to_thirty_seconds() {
    let mut c = ErrorContext::new_at(TuiError::NetworkError { message: "n".to_string() }, "net".to_string(), 0);
    assert_eq!(c.retry_delay(), 2000);
    c.increment_retry();
    assert_eq!(c.retry_delay(), 4000);
    c.increment_retry();
    c.increment_retry();
    c.increment_retry();
    assert_eq!(c.retry_delay(), 30000);
    assert!(!c.should_retry());
}

#[test]
fn the_default_handler_retries_while_allowed() {
    let h = DefaultRecoveryHandler;
    let mut c = ErrorContext::new_at(render_error(), "ui".to_string(), 0);
    assert_eq!(h.handle_error(&mut c), RecoveryOutcome::RetryAfter { delay_ms: 200 });
    assert_eq!(h.handle_error(&mut c), RecoveryOutcome::RetryAfter { delay_ms: 400 });
    assert_eq!(h.handle_error(&mut c), RecoveryOutcome::RetryAfter { delay_ms: 800 });
    assert_eq!(h.handle_error(&mut c), RecoveryOutcome::NotRecovered);
    let mut skip = ErrorContext::new_at(TuiError::InputError { message: "i".to_string() }, "in".to_string(), 0);
    assert_eq!(h.handle_error(&mut skip), RecoveryOutcome::Recovered);
}

#[test]
fn the_history_keeps_the_latest_errors() {
    let mut m = ErrorManager::new();
    m.add_to_history(ErrorContext::new_at(render_error(), "a".to_string(), 1));
    m.add_to_history(ErrorContext::new_at(TuiError::DataError { message: "d".to_string() }, "b".to_string(), 2));
    let recent = m.get_recent_errors(1);
    assert_eq!(recent.len(), 1);
    assert_eq!(recent[0].component, "b");
    assert_eq!(m.get_errors_by_severity(ErrorSeverity::Warning).len(), 1);
    assert_eq!(m.get_errors_by_severity(ErrorSeverity::Critical).len(), 0);
    m.clear_history();
    assert!(m.get_recent_errors(5).is_empty());
}

#[test]
fn progress_estimates_its_completion() {
    let mut p = ProgressIndicator::new_at("p".to_string(), "copy".to_string(), 100, 0);
    p.start_at(1000);
    p.update_at(25, Some("a quarter".to_string()), 2000);
    // a quarter in one second: three more seconds to go
    assert_eq!(p.eta_at(2000), Some(3000));
    assert_eq!(p.eta_at(10000), Some(0));
    p.update_at(150, None, 3000);
    assert_eq!(p.current, 100);
    assert_eq!(p.status, ProgressStatus::Completed);
    assert_eq!(p.message, "a quarter");
}

#[test]
fn dialogs_choose_by_key() {
    let mut d = ConfirmationDialog::new("Quit".to_string(), "Sure?".to_string(), DialogType::Confirmation);
    assert_eq!(d.select_by_key('n'), Some(ConfirmationAction::Cancel));
    assert_eq!(d.selected_option, 1);
    assert_eq!(d.select_by_key('q'), None);
    assert_eq!(d.selected_option, 1);
}

#[test]
fn messages_expire() {
    let n = Notification::new_at("n".to_string(), "t".to_string(), "m".to_string(), NotificationType::Info, 0);
    assert!(!n.is_expired_at(1));
    let s = StatusMessage::new_at("loading".to_string(), StatusType::Loading, 0).with_duration(100);
    assert_eq!(s.remaining_time_at(40), 60);
    assert!(s.is_expired_at(100) || s.remaining_time_at(100) == 0);
}

#[test]
fn the_feedback_manager_follows_its_events() {
    let mut m = FeedbackManager::new();
    let p = ProgressIndicator::new_at("job".to_string(), "Job".to_string(), 10, 0);
    m.handle_feedback_event(FeedbackEvent::ShowProgress(p), 0);
    m.handle_feedback_event(FeedbackEvent::CompleteProgress("job".to_string()), 1);
    let list = m.get_progress_indicators();
    assert_eq!(list.len(), 1);
    assert_eq!(list[0].status, ProgressStatus::Completed);
    m.cleanup_completed_progress_at(10_000);
    assert!(m.get_progress_indicators().is_empty());
    m.handle_feedback_event(
        FeedbackEvent::ShowDialog(ConfirmationDialog::new("t".to_string(), "m".to_string(), DialogType::Info)),
        2,
    );
    assert!(m.get_current_dialog().is_some());
    m.handle_feedback_event(FeedbackEvent::DismissDialog, 3);
    assert!(m.get_current_dialog().is_none());
}

#[test]
fn kinds_are_drawn_in_their_colors() {
    assert_eq!(ProgressStatus::NotStarted.color(), TermColor::Grey);
    assert_eq!(DialogType::Question.color(), TermColor::DarkCyan);
    assert_eq!(NotificationType::Success.color(), TermColor::DarkGreen);
    assert_eq!(StatusType::Loading.color(), TermColor::DarkCyan);
    assert_eq!(ErrorSeverity::Critical.color(), TermColor::DarkMagenta);
}

#[test]
fn the_manager_shows_progress_by_identifier() {
    let mut m = FeedbackManager::new();
    m.show_progress_at("job".to_string(), "Job".to_string(), 10, 0);
    m.show_progress_at("other".to_string(), "Other".to_string(), 5, 0);
    m.show_progress_at("job".to_string(), "Job again".to_string(), 20, 0);
    let p = m.get_progress_indicators();
    assert_eq!(p.len(), 2);
    assert_eq!(p[0].id, "other");
    assert_eq!(p[1].title, "Job again");
    assert_eq!(p[1].total, 20);
    assert_eq!(p[1].status, ProgressStatus::NotStarted);
    m.update_progress_at("job".to_string(), 7, Some("seven".to_string()), 100);
    let p = m.get_progress_indicators();
    assert_eq!(p[1].current, 7);
    assert_eq!(p[1].message, "seven");
    m.complete_progress("job".to_string());
    let p = m.get_progress_indicators();
    assert_eq!(p[1].status, ProgressStatus::Completed);
    assert_eq!(p[1].current, 20);
    m.complete_progress("missing".to_string());
    assert_eq!(m.get_progress_indicators().len(), 2);
}

#[test]
fn the_manager_keeps_the_five_latest_notifications() {
    let mut m = FeedbackManager::new();
    for i in 0..7u64 {
        m.show_notification_at(format!("n{}", i), "t".to_string(), "m".to_string(), NotificationType::Error, i);
    }
    let n = m.get_notifications_at(10);
    assert_eq!(n.len(), 5);
    assert_eq!(n[0].id, "n2");
    assert_eq!(n[4].id, "n6");
}

#[test]
fn shortcuts_show_notifications_of_each_kind() {
    let mut m = FeedbackManager::new();
    m.show_info_at("T".to_string(), "i".to_string(), 0);
    m.show_success_at("T".to_string(), "s".to_string(), 0);
    m.show_warning_at("T".to_string(), "w".to_string(), 0);
    m.show_error_at("T".to_string(), "e".to_string(), 0);
    let n = m.get_notifications_at(0);
    assert_eq!(n.len(), 4);
    assert_eq!(n[0].id, "info");
    assert_eq!(n[0].notification_type, NotificationType::Info);
    assert_eq!(n[1].id, "success");
    assert_eq!(n[2].id, "warning");
    assert_eq!(n[3].id, "error");
    assert_eq!(n[3].duration_ms, None);
    let later = m.get_notifications_at(4000);
    assert_eq!(later.len(), 2);
    assert_eq!(later[0].id, "warning");
    assert_eq!(later[1].id, "error");
}

#[test]
fn dialogs_and_status_messages_are_shown_and_cleared() {
    let mut m = FeedbackManager::new();
    m.confirm_action("Delete?".to_string(), "Really".to_string());
    let d = m.get_current_dialog().unwrap();
    assert_eq!(d.dialog_type, DialogType::Confirmation);
    assert_eq!(d.options.len(), 2);
    assert_eq!(d.title, "Delete?");
    m.dismiss_dialog();
    assert!(m.get_current_dialog().is_none());
    m.show_confirmation("Oops".to_string(), "x".to_string(), DialogType::Error);
    assert_eq!(m.get_current_dialog().unwrap().options.len(), 1);
    m.show_loading_at("Loading".to_string(), 0);
    let s = m.get_status_message_at(29_999).unwrap();
    assert_eq!(s.status_type, StatusType::Loading);
    assert_eq!(s.message, "Loading");
    assert!(m.get_status_message_at(30_000).is_none());
    m.show_status_at("Saved".to_string(), StatusType::Success, 0);
    assert!(m.get_status_message_at(2_999).is_some());
}

#[test]
fn clock_versions_show_feedback() {
    let mut m = FeedbackManager::new();
    m.show_progress("p".to_string(), "P".to_string(), 3);
    m.update_progress("p".to_string(), 1, None);
    assert_eq!(m.get_progress_indicators()[0].current, 1);
    m.show_notification("n".to_string(), "t".to_string(), "m".to_string(), NotificationType::Error);
    m.show_info("a".to_string(), "b".to_string());
    m.show_success("a".to_string(), "b".to_string());
    m.show_warning("a".to_string(), "b".to_string());
    m.show_error("a".to_string(), "b".to_string());
    assert_eq!(m.get_notifications().len(), 5);
    m.show_status("s".to_string(), StatusType::Info);
    assert!(m.get_status_message().is_some());
    m.show_loading("l".to_string());
    assert_eq!(m.get_status_message().unwrap().status_type, StatusType::Loading);
}

#[test]
fn recovery_handlers_go_after_those_of_their_priority() {
    let priorities = vec![9u32, 5, 5, 1];
    assert_eq!(handler_insert_position(&priorities, 5), 3);
    assert_eq!(handler_insert_position(&priorities, 10), 0);
    assert_eq!(handler_insert_position(&priorities, 0), 4);
    assert_eq!(handler_insert_position(&Vec::new(), 3), 0);
}

#[test]
fn a_network_error_context_is_complete() {
    let c = ErrorContext::new_at(TuiError::NetworkError { message: "timeout".to_string() }, "net".to_string(), 7);
    assert_eq!(c.severity, ErrorSeverity::Error);
    assert_eq!(c.recovery_strategy, RecoveryStrategy::Retry { max_attempts: 3, delay_ms: 2000 });
    assert_eq!(c.user_message, "网络连接失败，正在重试");
    assert_eq!(c.recovery_suggestions, vec!["检查网络连接".to_string(), "切换到离线模式".to_string()]);
    assert_eq!(c.technical_details, "NetworkError { message: \"timeout\" }");
    assert_eq!(c.component, "net");
    assert_eq!(c.retry_count, 0);
}

#[test]
fn counted_retries_change_only_the_count() {
    let mut c = ErrorContext::new_at(TuiError::DataError { message: "x".to_string() }, "sync".to_string(), 0);
    for k in 0..7u32 {
        assert_eq!(c.retry_count, k);
        assert_eq!(c.should_retry(), k < 5);
        assert_eq!(c.retry_delay(), std::cmp::min(1000 * 2u64.pow(k.min(10)), 30000));
        c.increment_retry();
    }
    assert_eq!(c.component, "sync");
    assert_eq!(c.user_message, "数据同步失败，正在重试");
}

fn warning() -> ErrorContext {
    ErrorContext::new_at(TuiError::RenderError { message: "x".to_string() }, "ui".to_string(), 0)
}

#[test]
fn dismissing_undoes_showing() {
    let mut w = ErrorDisplayWidget::new();
    w.show_error_at(warning(), 100);
    w.toggle_details();
    w.toggle_details();
    w.toggle_details();
    assert!(w.has_error());
    w.dismiss_error();
    assert!(!w.has_error());
    assert!(!w.is_showing_details());
    assert!(!w.should_auto_dismiss_at(1_000_000));
    w.dismiss_error();
    assert!(!w.has_error());
}

#[test]
fn drawing_dismisses_a_warning_once_its_time_has_come() {
    let mut w = ErrorDisplayWidget::new();
    w.show_error_at(warning(), 1000);
    assert!(!w.auto_dismiss_at(5999));
    assert!(w.has_error());
    assert!(w.auto_dismiss_at(6000));
    assert!(!w.has_error());
    let mut e = ErrorDisplayWidget::new();
    e.show_error_at(ErrorContext::new_at(TuiError::NetworkError { message: "n".to_string() }, "net".to_string(), 0), 0);
    assert!(!e.auto_dismiss_at(1_000_000));
    assert!(e.has_error());
}

#[test]
fn the_error_dialog_is_centered_and_bounded() {
    let mut w = ErrorDisplayWidget::new();
    w.show_error_at(warning(), 0);
    let area = Rect { x: 0, y: 0, width: 100, height: 40 };
    assert_eq!(w.error_dialog_area(area), Rect { x: 10, y: 15, width: 80, height: 10 });
    w.toggle_details();
    assert_eq!(w.error_dialog_area(area), Rect { x: 10, y: 10, width: 80, height: 20 });
    assert_eq!(w.error_dialog_area(Rect { x: 0, y: 0, width: 50, height: 8 }), Rect { x: 0, y: 0, width: 50, height: 8 });
    assert_eq!(w.error_dialog_title(), "⚠ 警告");
}

#[test]
fn the_error_dialog_lists_suggestions_or_details() {
    let mut w = ErrorDisplayWidget::new();
    assert!(w.error_dialog_lines().is_empty());
    w.show_error_at(warning(), 0);
    let lines: Vec<(HelpLineStyle, String, String)> =
        w.error_dialog_lines().into_iter().map(|l| (l.style, l.styled, l.plain)).collect();
    assert_eq!(lines.len(), 6);
    assert_eq!(lines[0], (HelpLineStyle::Heading, "组件: ".to_string(), "ui".to_string()));
    assert_eq!(lines[2], (HelpLineStyle::Heading, "建议操作:".to_string(), String::new()));
    assert_eq!(lines[3].2, "1. 检查终端大小");
    assert_eq!(lines[4].2, "2. 重启应用程序");
    assert_eq!(lines[5].2, "按 'd' 显示详情 | 按 Esc 关闭");
    w.toggle_details();
    let lines: Vec<(HelpLineStyle, String, String)> =
        w.error_dialog_lines().into_iter().map(|l| (l.style, l.styled, l.plain)).collect();
    assert_eq!(lines.len(), 7);
    assert_eq!(lines[3].2, "RenderError { message: \"x\" }");
    assert_eq!(lines[5], (HelpLineStyle::Heading, "重试次数:".to_string(), " 0".to_string()));
    assert_eq!(lines[6].2, "按 'd' 隐藏详情 | 按 Esc 关闭");
}
