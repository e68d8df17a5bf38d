use tui_kit::action::{Action, ViewType};
use tui_kit::navigation::{EscKeyBehavior, ModalDialog, NavigationStack, NavigationTrigger};

#[test]
fn back_after_push_returns_to_the_view_before() {
    let mut nav = NavigationStack::new();
    assert!(nav.current_view().is_none());
    assert!(!nav.can_go_back());
    nav.push_state_at(ViewType::WorkflowList, NavigationTrigger::Startup, 0);
    nav.push_state_at(ViewType::LogViewer, NavigationTrigger::UserInitiated, 10);
    assert_eq!(nav.current_view(), Some(ViewType::LogViewer));
    assert!(nav.can_go_back());
    assert_eq!(nav.pop_state_at(20), Some(ViewType::WorkflowList));
    assert_eq!(nav.current_view(), Some(ViewType::WorkflowList));
    // the last state cannot be popped
    assert_eq!(nav.pop_state_at(30), None);
    assert_eq!(nav.current_view(), Some(ViewType::WorkflowList));
}

#[test]
fn closing_a_modal_returns_its_action_and_shows_the_one_below() {
    let mut nav = NavigationStack::new();
    let mut confirm = ModalDialog::confirmation_at(
        "c".to_string(),
        "Confirm".to_string(),
        "Sure?".to_string(),
        Action::Quit,
        0,
    );
    assert!(matches!(confirm.buttons[0].action, Action::Quit));
    confirm.on_close = Some(Action::Quit);
    let message = ModalDialog::message_at("m".to_string(), "Note".to_string(), "Hello".to_string(), 0);
    nav.open_modal_at(confirm, 1);
    nav.open_modal_at(message, 2);
    assert!(nav.has_modal());
    assert_eq!(nav.current_modal().unwrap().id, "m");
    assert!(nav.close_modal_at(3).is_none());
    assert_eq!(nav.current_modal().unwrap().id, "c");
    assert!(matches!(nav.close_modal_at(4), Some(Action::Quit)));
    assert!(!nav.has_modal());
    assert!(nav.close_modal_at(5).is_none());
}

#[test]
fn modal_timeouts() {
    let mut m = ModalDialog::message_at("m".to_string(), "t".to_string(), "x".to_string(), 1000);
    assert!(!m.is_timed_out_at(100_000));
    m.timeout_ms = Some(500);
    assert!(!m.is_timed_out_at(1499));
    assert!(m.is_timed_out_at(1500));
}

#[test]
fn error_dialogs_carry_the_message_as_data() {
    let e = ModalDialog::error_at("e".to_string(), "Error".to_string(), "disk full".to_string(), 0);
    let data = e.data.unwrap();
    assert_eq!(data["error"], "disk full");
}

#[test]
fn esc_closes_a_modal_first_then_goes_back() {
    let mut nav = NavigationStack::new();
    nav.push_state_at(ViewType::WorkflowList, NavigationTrigger::Startup, 0);
    nav.push_state_at(ViewType::ToolManager, NavigationTrigger::UserInitiated, 1);
    nav.open_modal_at(ModalDialog::message_at("m".to_string(), "t".to_string(), "x".to_string(), 2), 2);
    let behavior = EscKeyBehavior::default();
    nav.handle_esc_key_at(&behavior, 3);
    assert!(!nav.has_modal());
    assert_eq!(nav.current_view(), Some(ViewType::ToolManager));
    nav.handle_esc_key_at(&behavior, 4);
    assert_eq!(nav.current_view(), Some(ViewType::WorkflowList));
}

#[test]
fn stack_and_history_stay_within_their_limits() {
    let mut nav = NavigationStack::new();
    nav.set_max_stack_size(2);
    nav.set_max_history_size(3);
    for (i, v) in [ViewType::WorkflowList, ViewType::LogViewer, ViewType::ToolManager, ViewType::SystemStatus]
        .into_iter()
        .enumerate()
    {
        nav.push_state_at(v, NavigationTrigger::UserInitiated, i as u64);
    }
    let stats = nav.get_navigation_stats();
    assert_eq!(stats.stack_size, 2);
    assert!(stats.history_size <= 3);
    assert_eq!(stats.current_view, Some(ViewType::SystemStatus));
    nav.clear_history();
    assert!(nav.get_history().is_empty());
    nav.reset();
    assert!(nav.current_view().is_none());
}
