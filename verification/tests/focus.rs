use tui_kit::action::ViewType;
use tui_kit::focus::{FocusCapability, FocusManager, FocusTrigger};
use tui_kit::widget::WidgetId;

fn id(s: &str) -> WidgetId {
    WidgetId(s.to_string())
}

fn manager_with(names: &[&str], view: ViewType) -> FocusManager {
    let mut f = FocusManager::new();
    for n in names {
        f.register_focusable_widget(id(n), FocusCapability::new());
    }
    f.set_focus_order(view, names.iter().map(|n| id(n)).collect());
    f
}

#[test]
fn tab_moves_through_the_order_and_wraps() {
    let view = ViewType::WorkflowList;
    let mut f = manager_with(&["a", "b", "c"], view);
    assert!(f.focus_next_at(&view, 0));
    assert_eq!(f.current_focus().unwrap().0, "a");
    f.focus_next_at(&view, 1);
    f.focus_next_at(&view, 2);
    assert_eq!(f.current_focus().unwrap().0, "c");
    f.focus_next_at(&view, 3);
    assert_eq!(f.current_focus().unwrap().0, "a");
}

#[test]
fn previous_undoes_next() {
    let view = ViewType::LogViewer;
    let mut f = manager_with(&["a", "b", "c"], view);
    f.set_focus_at(Some(id("b")), FocusTrigger::Direct, 0);
    f.focus_next_at(&view, 1);
    assert_eq!(f.current_focus().unwrap().0, "c");
    f.focus_previous_at(&view, 2);
    assert_eq!(f.current_focus().unwrap().0, "b");
}

#[test]
fn focus_back_returns_to_the_widget_before() {
    let view = ViewType::ToolManager;
    let mut f = manager_with(&["a", "b"], view);
    f.set_focus_at(Some(id("a")), FocusTrigger::Direct, 0);
    f.set_focus_at(Some(id("b")), FocusTrigger::Direct, 1);
    assert!(f.focus_back_at(2));
    assert_eq!(f.current_focus().unwrap().0, "a");
}

#[test]
fn unknown_or_locked_focus_is_refused() {
    let view = ViewType::ToolManager;
    let mut f = manager_with(&["a"], view);
    assert!(!f.set_focus_at(Some(id("zz")), FocusTrigger::Direct, 0));
    f.lock_focus(Some("modal".to_string()));
    assert!(f.is_focus_locked());
    assert_eq!(f.focus_lock_reason().map(|s| s.as_str()), Some("modal"));
    assert!(!f.set_focus_at(Some(id("a")), FocusTrigger::Direct, 1));
    f.unlock_focus();
    assert!(f.set_focus_at(Some(id("a")), FocusTrigger::Direct, 2));
    assert!(f.clear_focus_at(3));
    assert!(f.current_focus().is_none());
}

#[test]
fn focus_order_keeps_only_registered_widgets() {
    let view = ViewType::SystemStatus;
    let mut f = FocusManager::new();
    f.register_focusable_widget(id("a"), FocusCapability::new());
    f.set_focus_order(view, vec![id("ghost"), id("a")]);
    let order: Vec<String> = f.get_focusable_widgets(&view).into_iter().map(|w| w.0).collect();
    assert_eq!(order, vec!["a".to_string()]);
    assert!(!f.is_widget_focusable(&id("ghost")));
}
