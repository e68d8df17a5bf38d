use tui_kit::action::{Action, ViewType};
use tui_kit::app::{AppEffect, KeyOutcome, Router, TuiApp};
use tui_kit::keys::{KeyCode, KeyEvent, MOD_CONTROL, MOD_NONE};
use tui_kit::platform::{ColorSupport, Platform, PlatformManager};

fn env(pairs: &[(&str, &str)]) -> Vec<(String, String)> {
    pairs.iter().map(|(k, v)| (k.to_string(), v.to_string())).collect()
}

fn app() -> TuiApp<String> {
    let platform = PlatformManager::new("linux", (80, 24), env(&[("TERM", "xterm-256color")]));
    let widgets = vec![
        (ViewType::WorkflowList, "workflows".to_string()),
        (ViewType::LogViewer, "logs".to_string()),
    ];
    TuiApp::new_with_config(platform, widgets, "WorkflowList", 30, 0)
}

#[test]
fn router_goes_to_a_view_and_back() {
    let mut r: Router<u32> = Router::new();
    r.register_widget(ViewType::WorkflowList, 1);
    r.register_widget(ViewType::LogViewer, 2);
    assert_eq!(r.current_view(), ViewType::WorkflowList);
    assert_eq!(r.navigate_to(ViewType::LogViewer), Some((ViewType::WorkflowList, ViewType::LogViewer)));
    assert_eq!(*r.get_current_widget_mut().unwrap(), 2);
    // going to the view shown changes nothing
    assert_eq!(r.navigate_to(ViewType::LogViewer), None);
    assert_eq!(r.go_back(), Some((ViewType::LogViewer, ViewType::WorkflowList)));
    assert_eq!(r.go_back(), None);
    assert_eq!(r.current_view_name(), "工作流列表");
}

#[test]
fn views_are_parsed_by_name() {
    assert_eq!(TuiApp::<String>::parse_view_type("LogViewer"), Some(ViewType::LogViewer));
    assert_eq!(TuiApp::<String>::parse_view_type("nowhere"), None);
}

#[test]
fn the_application_starts_on_the_workflow_list() {
    let a = app();
    assert_eq!(a.get_router().current_view(), ViewType::WorkflowList);
    assert!(!a.should_quit());
    assert!(a.tick_rate_ms() > 0);
    assert!(a.get_navigation_stack().current_view().is_some());
}

#[test]
fn ctrl_q_quits() {
    let mut a = app();
    let key = KeyEvent { code: KeyCode::Char('q'), modifiers: MOD_CONTROL };
    match a.handle_key_event(key, 1) {
        KeyOutcome::Handled(action) => {
            assert!(matches!(action, Action::Quit));
            assert!(matches!(a.process_action(action, 1), AppEffect::Nothing));
        }
        KeyOutcome::ToWidget(_) => panic!("Ctrl+Q is a shortcut"),
    }
    assert!(a.should_quit());
}

#[test]
fn plain_letters_go_to_the_widget() {
    let mut a = app();
    let key = KeyEvent { code: KeyCode::Char('j'), modifiers: MOD_NONE };
    assert!(matches!(a.handle_key_event(key, 1), KeyOutcome::ToWidget(k) if k == key));
}

#[test]
fn navigating_changes_the_view_and_going_back_returns() {
    let mut a = app();
    let effect = a.process_action(Action::Navigate(ViewType::LogViewer), 5);
    assert!(matches!(effect, AppEffect::ViewChanged(ViewType::WorkflowList, ViewType::LogViewer)));
    assert_eq!(a.get_router().current_view(), ViewType::LogViewer);
    let effect = a.process_action(Action::GoBack, 6);
    assert!(matches!(effect, AppEffect::ViewChanged(ViewType::LogViewer, ViewType::WorkflowList)));
    assert_eq!(a.get_router().current_view(), ViewType::WorkflowList);
}

#[test]
fn actions_for_the_caller_come_back_as_effects() {
    let mut a = app();
    assert!(matches!(a.process_action(Action::Refresh, 1), AppEffect::RefreshData));
    assert!(matches!(
        a.process_action(Action::ExecuteWorkflow("w".to_string()), 1),
        AppEffect::MarkWorkflowRunning(n) if n == "w"
    ));
    assert!(matches!(a.process_action(Action::ShowError("bad".to_string()), 2), AppEffect::Nothing));
    assert!(a.get_navigation_stack().has_modal());
}

#[test]
fn platform_is_detected_from_the_os_name() {
    assert_eq!(PlatformManager::detect_platform("linux"), Platform::Linux);
    assert_eq!(PlatformManager::detect_platform("windows"), Platform::Windows);
    assert_eq!(PlatformManager::detect_platform("macos"), Platform::MacOS);
    assert_eq!(PlatformManager::detect_platform("haiku"), Platform::Unknown);
}

#[test]
fn terminal_name_comes_from_the_environment() {
    let (name, version) = PlatformManager::parse_terminal_name_version(&env(&[
        ("TERM_PROGRAM", "iTerm.app"),
        ("TERM_PROGRAM_VERSION", "3.4"),
    ]));
    assert_eq!(name, "iTerm.app");
    assert_eq!(version.as_deref(), Some("3.4"));
    let (name, version) = PlatformManager::parse_terminal_name_version(&env(&[("KONSOLE_VERSION", "22")]));
    assert_eq!((name.as_str(), version.as_deref()), ("Konsole", Some("22")));
    let (name, _) = PlatformManager::parse_terminal_name_version(&env(&[("TMUX", "1")]));
    assert_eq!(name, "tmux");
}

#[test]
fn colors_are_detected() {
    let info = PlatformManager::detect_terminal_info((80, 24), env(&[("COLORTERM", "truecolor")]));
    assert_eq!(PlatformManager::detect_color_support(&info), ColorSupport::TrueColor);
    let info = PlatformManager::detect_terminal_info((80, 24), env(&[("TERM", "xterm-256color")]));
    assert_eq!(PlatformManager::detect_color_support(&info), ColorSupport::Extended256);
    assert_eq!(PlatformManager::get_max_colors(&ColorSupport::Extended256), 256);
    assert_eq!(PlatformManager::get_max_colors(&ColorSupport::TrueColor), 16777216);
}

#[test]
fn unicode_comes_from_a_utf_locale_in_any_case() {
    let info = PlatformManager::detect_terminal_info((80, 24), env(&[("LANG", "en_US.utf-8")]));
    assert!(PlatformManager::detect_unicode_support(&info));
    let info = PlatformManager::detect_terminal_info((80, 24), env(&[("LANG", "C")]));
    assert!(!PlatformManager::detect_unicode_support(&info));
}
