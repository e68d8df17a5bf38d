use tui_kit::action::{Action, ViewType};
use tui_kit::event::{format_key_combination, EventHandler, EventResult, KeyBindings, TuiEvent};
use tui_kit::keys::{KeyCode, KeyEvent, MediaKey, ModifierKey, MOD_ALT, MOD_CONTROL, MOD_NONE, MOD_SHIFT};

fn press(code: KeyCode, modifiers: u8) -> KeyEvent {
    KeyEvent { code, modifiers }
}

fn consumed(r: EventResult) -> Option<Action> {
    match r {
        EventResult::Consumed(a) => Some(a),
        _ => None,
    }
}

#[test]
fn default_bindings_hold_the_built_in_shortcuts() {
    let b = KeyBindings::default();
    assert_eq!(b.global_shortcuts.len(), 15);
    assert!(b.context_shortcuts.is_empty() && b.widget_shortcuts.is_empty());
    assert!(matches!(b.global_shortcuts[0], ((KeyCode::Char('q'), MOD_CONTROL), Action::Quit)));
}

#[test]
fn shortcuts_map_keys_to_actions() {
    let h = EventHandler::new();
    assert!(matches!(h.handle_global_shortcuts(&press(KeyCode::Char('q'), MOD_CONTROL)), Some(Action::Quit)));
    assert!(matches!(
        h.handle_global_shortcuts(&press(KeyCode::F(3), MOD_NONE)),
        Some(Action::Navigate(ViewType::ToolManager))
    ));
    assert!(matches!(h.handle_global_shortcuts(&press(KeyCode::Tab, MOD_SHIFT)), Some(Action::FocusPrevious)));
    match h.handle_global_shortcuts(&press(KeyCode::Char('/'), MOD_NONE)) {
        Some(Action::Search(s)) => assert!(s.is_empty()),
        _ => panic!("a search was expected"),
    }
    assert!(h.handle_global_shortcuts(&press(KeyCode::F(3), MOD_SHIFT)).is_none());
    assert!(h.handle_global_shortcuts(&press(KeyCode::Char('x'), MOD_NONE)).is_none());
}

#[test]
fn a_bound_key_reads_back_its_action() {
    let mut h = EventHandler::new();
    h.key_bindings_mut().add_global_shortcut(KeyCode::Char('x'), MOD_CONTROL, Action::ToggleHelp);
    assert!(matches!(h.handle_global_shortcuts(&press(KeyCode::Char('x'), MOD_CONTROL)), Some(Action::ToggleHelp)));
    // rebinding a built-in key replaces it
    h.key_bindings_mut().add_global_shortcut(KeyCode::F(1), MOD_NONE, Action::Refresh);
    assert!(matches!(h.handle_global_shortcuts(&press(KeyCode::F(1), MOD_NONE)), Some(Action::Refresh)));
    let removed = h.key_bindings_mut().remove_global_shortcut(KeyCode::Char('x'), MOD_CONTROL);
    assert!(matches!(removed, Some(Action::ToggleHelp)));
    assert!(h.handle_global_shortcuts(&press(KeyCode::Char('x'), MOD_CONTROL)).is_none());
    assert!(h.key_bindings_mut().remove_global_shortcut(KeyCode::Char('x'), MOD_CONTROL).is_none());
}

#[test]
fn events_become_actions() {
    let mut h = EventHandler::new();
    assert!(matches!(consumed(h.process_event(TuiEvent::Quit, 0)), Some(Action::Quit)));
    assert!(matches!(consumed(h.process_event(TuiEvent::Tick, 0)), Some(Action::NoAction)));
    assert!(matches!(consumed(h.process_event(TuiEvent::FocusGained, 0)), Some(Action::Refresh)));
    assert!(matches!(h.process_event(TuiEvent::FocusLost, 0), EventResult::NotHandled));
    assert!(matches!(h.process_event(TuiEvent::Paste("x".to_string()), 0), EventResult::NotHandled));
    assert!(matches!(h.process_event(TuiEvent::Mouse(1, 1), 0), EventResult::NotHandled));
    assert!(matches!(
        consumed(h.process_event(TuiEvent::Key(press(KeyCode::Char('a'), MOD_NONE)), 0)),
        Some(Action::NoAction)
    ));
    match consumed(h.process_event(TuiEvent::Custom("c".to_string(), serde_json::Value::Null), 0)) {
        Some(Action::Custom(name, value)) => {
            assert_eq!(name, "c");
            assert!(value.is_null());
        }
        _ => panic!("a custom action was expected"),
    }
}

#[test]
fn resizes_closer_than_the_debounce_are_ignored() {
    let mut h = EventHandler::new();
    assert!(matches!(consumed(h.process_resize_event(80, 24, 1000)), Some(Action::NoAction)));
    assert!(matches!(h.process_resize_event(81, 24, 1050), EventResult::NotHandled));
    assert!(matches!(consumed(h.process_resize_event(82, 24, 1100)), Some(Action::NoAction)));
    h.set_resize_debounce(0);
    assert!(matches!(consumed(h.process_resize_event(82, 24, 1100)), Some(Action::NoAction)));
}

#[test]
fn mouse_setting_is_kept() {
    let mut h = EventHandler::new();
    assert!(h.is_mouse_enabled());
    h.set_mouse_enabled(false);
    assert!(!h.is_mouse_enabled());
}

#[test]
fn key_combinations_are_named() {
    assert_eq!(format_key_combination(KeyCode::Char('a'), MOD_CONTROL | MOD_SHIFT), "Ctrl+Shift+A");
    assert_eq!(format_key_combination(KeyCode::Char(' '), MOD_NONE), "Space");
    assert_eq!(format_key_combination(KeyCode::F(12), MOD_ALT), "Alt+F12");
    assert_eq!(format_key_combination(KeyCode::Up, MOD_NONE), "↑");
    assert_eq!(format_key_combination(KeyCode::Char('ß'), MOD_NONE), "SS");
}

#[test]
fn help_lists_the_shortcuts() {
    let b = KeyBindings::default();
    let global = b.get_global_shortcuts_help();
    assert_eq!(global.len(), 3);
    assert_eq!(global[0].category, "应用程序");
    assert_eq!(global[1].shortcuts.len(), 6);
    assert_eq!(global[2].shortcuts[4], ("Shift+Tab".to_string(), "上一个元素".to_string()));
    let view = b.get_view_shortcuts_help(&ViewType::LogViewer);
    assert_eq!(view.len(), 1);
    assert_eq!(view[0].category, "日志操作");
    assert_eq!(view[0].shortcuts[0], ("1-5".to_string(), "按级别过滤日志".to_string()));
}

#[test]
fn widget_help_lists_its_bindings() {
    let mut b = KeyBindings::default();
    assert!(b.get_widget_shortcuts_help("list").is_empty());
    b.add_widget_shortcut("list".to_string(), KeyCode::Enter, MOD_NONE, Action::SelectNext);
    b.add_widget_shortcut("list".to_string(), KeyCode::Char('d'), MOD_CONTROL, Action::ToggleDetails);
    b.add_widget_shortcut("list".to_string(), KeyCode::Enter, MOD_NONE, Action::Refresh);
    let help = b.get_widget_shortcuts_help("list");
    assert_eq!(help.len(), 1);
    assert_eq!(help[0].category, "Widget: list");
    assert_eq!(
        help[0].shortcuts,
        vec![
            ("Ctrl+D".to_string(), "ToggleDetails".to_string()),
            ("Enter".to_string(), "Refresh".to_string()),
        ]
    );
    b.clear_widget_shortcuts("list");
    assert!(b.get_widget_shortcuts_help("list").is_empty());
}

#[test]
fn view_bindings_are_kept_per_view() {
    let mut b = KeyBindings::default();
    b.add_context_shortcut(ViewType::LogViewer, KeyCode::Char('c'), MOD_NONE, Action::ClearLogs);
    b.add_context_shortcut(ViewType::ToolManager, KeyCode::Char('r'), MOD_NONE, Action::RefreshTools);
    b.add_context_shortcut(ViewType::LogViewer, KeyCode::Char('e'), MOD_NONE, Action::ExportLogs);
    let log: Vec<_> = b.context_shortcuts.iter().filter(|(v, _)| *v == ViewType::LogViewer).collect();
    assert_eq!(log.len(), 1);
    assert_eq!(log[0].1.len(), 2);
    b.clear_context_shortcuts(&ViewType::LogViewer);
    assert!(b.context_shortcuts.iter().all(|(v, _)| *v != ViewType::LogViewer));
    assert_eq!(b.context_shortcuts.len(), 1);
}

#[test]
fn other_keys_are_named() {
    assert_eq!(format_key_combination(KeyCode::Insert, MOD_NONE), "Insert");
    assert_eq!(format_key_combination(KeyCode::CapsLock, MOD_CONTROL), "Ctrl+CapsLock");
    assert_eq!(format_key_combination(KeyCode::Media(MediaKey::PlayPause), MOD_NONE), "Media(PlayPause)");
    assert_eq!(format_key_combination(KeyCode::Modifier(ModifierKey::LeftShift), MOD_NONE), "Modifier(LeftShift)");
}
