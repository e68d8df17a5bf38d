use tui_kit::layout::{FocusManager, FocusState, LayoutError, LayoutManager, ResponsiveBreakpoint};
use tui_kit::widget::WidgetId;

fn id(s: &str) -> WidgetId {
    WidgetId(s.to_string())
}

fn state(priority: i32) -> FocusState {
    let mut s = FocusState::default();
    s.priority = priority;
    s
}

#[test]
fn tab_goes_by_priority_and_wraps() {
    let mut f = FocusManager::new();
    f.register_widget(id("low"), state(0));
    f.register_widget(id("high"), state(5));
    f.register_widget(id("mid"), state(2));
    let available = vec![id("low"), id("high"), id("mid"), id("unknown")];
    assert!(f.focus_next_at(&available, 1));
    assert_eq!(f.focused_widget().unwrap().0, "high");
    f.focus_next_at(&available, 2);
    assert_eq!(f.focused_widget().unwrap().0, "mid");
    f.focus_next_at(&available, 3);
    f.focus_next_at(&available, 4);
    assert_eq!(f.focused_widget().unwrap().0, "high");
    f.focus_previous_at(&available, 5);
    assert_eq!(f.focused_widget().unwrap().0, "low");
    assert!(!f.focus_next_at(&[id("unknown")], 6));
}

#[test]
fn going_back_returns_to_the_widget_before() {
    let mut f = FocusManager::new();
    assert!(f.set_focus_at(id("a"), 1));
    assert!(f.set_focus_at(id("b"), 2));
    assert!(f.focus_back_at(3));
    assert_eq!(f.focused_widget().unwrap().0, "a");
    assert_eq!(f.get_widget_state(&id("a")).unwrap().last_focused_ms, Some(3));
    assert!(!f.get_widget_state(&id("b")).unwrap().focused);
}

#[test]
fn unfocusable_widgets_are_refused() {
    let mut f = FocusManager::new();
    let mut s = FocusState::default();
    s.focusable = false;
    f.register_widget(id("x"), s);
    assert!(!f.is_focusable(&id("x")));
    assert!(f.is_focusable(&id("never_seen")));
    assert!(!f.set_focus_at(id("x"), 1));
    assert!(f.focused_widget().is_none());
}

#[test]
fn making_the_focused_widget_unfocusable_clears_the_focus() {
    let mut f = FocusManager::new();
    f.set_focus_at(id("a"), 1);
    f.set_focusable(&id("a"), false);
    assert!(f.focused_widget().is_none());
    assert_eq!(f.get_focus_stats().history_size, 1);
    assert_eq!(f.get_focus_stats().focusable_widgets, 0);
}

#[test]
fn a_layout_change_keeps_the_focus_on_an_available_widget() {
    let mut f = FocusManager::new();
    f.set_focus_at(id("a"), 1);
    f.set_focus_at(id("b"), 2);
    f.set_focus_at(id("c"), 3);
    // c is gone: the most recent widget of the history still there is b
    f.handle_layout_change_at(&[id("a"), id("b")], 4);
    assert_eq!(f.focused_widget().unwrap().0, "b");
    // nothing of the history is there: the first available widget
    f.handle_layout_change_at(&[id("z")], 5);
    assert_eq!(f.focused_widget().unwrap().0, "z");
    // nothing at all: the focus is cleared
    f.handle_layout_change_at(&[], 6);
    assert!(f.focused_widget().is_none());
}

#[test]
fn unregistering_forgets_a_widget() {
    let mut f = FocusManager::new();
    f.set_focus_at(id("a"), 1);
    f.set_focus_at(id("b"), 2);
    f.unregister_widget(&id("a"));
    assert!(f.get_widget_state(&id("a")).is_none());
    assert!(!f.focus_back_at(3));
    f.unregister_widget(&id("b"));
    assert!(f.focused_widget().is_none());
}

#[test]
fn fullscreen_is_entered_once_and_toggled() {
    let mut m = LayoutManager::new();
    assert!(!m.is_fullscreen());
    assert!(m.enter_fullscreen(id("log")).is_ok());
    match m.enter_fullscreen(id("other")) {
        Err(LayoutError::ConfigError { message }) => assert_eq!(message, "Another widget is already in fullscreen mode"),
        _ => panic!("a second widget cannot fill the screen"),
    }
    assert!(m.toggle_fullscreen(id("log")).is_ok());
    assert!(!m.is_fullscreen());
    match m.exit_fullscreen() {
        Err(LayoutError::ConfigError { message }) => assert_eq!(message, "No widget is currently in fullscreen mode"),
        _ => panic!("nothing fills the screen"),
    }
    assert!(m.toggle_fullscreen(id("a")).is_ok());
    assert!(m.toggle_fullscreen(id("b")).is_ok());
    assert_eq!(m.fullscreen_widget().unwrap().0, "b");
}

#[test]
fn the_compact_mode_follows_the_width() {
    let mut m = LayoutManager::new();
    assert_eq!(m.terminal_size(), (80, 24));
    assert!(m.update_terminal_size(60, 20).is_ok());
    assert!(m.is_compact_mode());
    assert!(m.update_terminal_size(100, 30).is_ok());
    assert!(!m.is_compact_mode());
    match m.update_terminal_size(30, 30) {
        Err(e) => assert_eq!(e.to_text(), "Terminal too small: minimum 40x10, current 30x30"),
        Ok(()) => panic!("30 columns are too few"),
    }
    assert_eq!(m.terminal_size(), (100, 30));
    m.set_compact_mode_threshold(120);
    assert!(m.is_compact_mode());
    m.set_auto_compact_mode(false);
    m.toggle_compact_mode();
    assert!(!m.is_compact_mode());
}

#[test]
fn breakpoints_are_removed_by_name() {
    let mut m = LayoutManager::new();
    assert!(m.remove_breakpoint("ultra-compact"));
    assert!(!m.remove_breakpoint("ultra-compact"));
}

#[test]
fn breakpoints_are_added_and_removed_by_name() {
    let mut layout = LayoutManager::new();
    layout.add_breakpoint(ResponsiveBreakpoint {
        name: "tiny".to_string(),
        min_width: 10,
        min_height: 2,
        layout_adjustments: Vec::new(),
    });
    assert!(layout.remove_breakpoint("tiny"));
    assert!(!layout.remove_breakpoint("tiny"));
    assert!(layout.remove_breakpoint("medium"));
}
