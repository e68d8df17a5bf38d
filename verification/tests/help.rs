use tui_kit::action::{Action, ViewType};
use tui_kit::help::{sort_shortcuts, HelpSystem, ShortcutInfo, ShortcutScope};
use tui_kit::keys::{KeyCode, KeyEvent, MOD_NONE, MOD_SHIFT};
use tui_kit::widget::WidgetId;

fn shortcut(key: &str, category: &str, priority: i32) -> ShortcutInfo {
    ShortcutInfo {
        key: key.to_string(),
        description: format!("does {}", key),
        category: category.to_string(),
        available: true,
        priority,
        primary: false,
    }
}

#[test]
fn shortcuts_are_listed_by_priority_then_category_then_key() {
    let list = vec![
        shortcut("b", "Nav", 1),
        shortcut("a", "Nav", 1),
        shortcut("z", "App", 5),
        shortcut("c", "App", 1),
    ];
    let sorted = sort_shortcuts(&list);
    let keys: Vec<&str> = sorted.iter().map(|s| s.key.as_str()).collect();
    assert_eq!(keys, vec!["z", "c", "a", "b"]);
}

#[test]
fn help_starts_hidden_with_the_default_shortcuts() {
    let help = HelpSystem::new();
    assert!(!help.is_help_visible());
    let stats = help.get_help_stats();
    assert!(stats.global_shortcuts_count > 0);
    assert!(stats.help_content_count > 0);
    assert!(!stats.is_visible);
}

#[test]
fn question_mark_toggles_the_help_and_esc_hides_it() {
    let mut help = HelpSystem::new();
    let question = KeyEvent { code: KeyCode::Char('?'), modifiers: MOD_NONE };
    let esc = KeyEvent { code: KeyCode::Esc, modifiers: MOD_NONE };
    assert!(matches!(help.handle_key_event(question, 0), Some(Action::ToggleHelp)));
    assert!(help.is_help_visible());
    assert!(matches!(help.handle_key_event(esc, 10), Some(Action::ToggleHelp)));
    assert!(!help.is_help_visible());
    // Esc with the help hidden is not the help's
    assert!(help.handle_key_event(esc, 20).is_none());
    let shift_f1 = KeyEvent { code: KeyCode::F(1), modifiers: MOD_SHIFT };
    assert!(matches!(help.handle_key_event(shift_f1, 30), Some(Action::ToggleHelp)));
    assert!(help.is_help_visible());
    assert_eq!(help.get_help_stats().current_context.as_deref(), Some("getting_started"));
}

#[test]
fn added_shortcuts_show_in_their_context_and_removal_undoes_it() {
    let mut help = HelpSystem::new();
    let view = ViewType::PluginManager;
    let before = help.get_current_shortcuts(&view, None).len();
    help.add_shortcut(shortcut("x", "Plugins", 100), ShortcutScope::View(view));
    let now = help.get_current_shortcuts(&view, None);
    assert_eq!(now.len(), before + 1);
    assert!(now.iter().any(|s| s.key == "x"));
    assert!(help.remove_shortcut("x", ShortcutScope::View(view)));
    assert_eq!(help.get_current_shortcuts(&view, None).len(), before);
    assert!(!help.remove_shortcut("x", ShortcutScope::View(view)));
}

#[test]
fn widget_shortcuts_join_the_listing_for_that_widget() {
    let mut help = HelpSystem::new();
    let id = WidgetId("list".to_string());
    help.add_shortcut(shortcut("k", "List", 0), ShortcutScope::Widget(id.clone()));
    let with = help.get_current_shortcuts(&ViewType::LogViewer, Some(&id));
    let without = help.get_current_shortcuts(&ViewType::LogViewer, None);
    assert_eq!(with.len(), without.len() + 1);
    assert!(help.remove_shortcut("k", ShortcutScope::Widget(id.clone())));
    assert_eq!(help.get_current_shortcuts(&ViewType::LogViewer, Some(&id)).len(), without.len());
}

#[test]
fn help_texts_are_found_by_context() {
    let help = HelpSystem::new();
    assert!(help.get_help_content("getting_started").is_some());
    assert!(help.get_help_content("no_such_context").is_none());
}
