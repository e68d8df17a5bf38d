use tui_kit::action::{input_mode_debug_text, sort_order_debug_text, Action, InputMode, LogLevel, SortOrder, ViewType};
use tui_kit::error::{debug_text, TuiError};
use tui_kit::text::quoted_text;

#[test]
fn action_debug_text_matches_the_derived_debug() {
    let actions = vec![
        Action::NoAction,
        Action::Quit,
        Action::Navigate(ViewType::ToolManager),
        Action::FocusWidget("list \"a\"\n".to_string()),
        Action::SelectItem(42),
        Action::StartInput(InputMode::PluginUrl),
        Action::StartInput(InputMode::Custom("名字".to_string())),
        Action::Sort(SortOrder::DateDesc),
        Action::Sort(SortOrder::Custom("by size".to_string())),
        Action::FilterLogs(LogLevel::Warn),
        Action::ShowError("boom\\".to_string()),
        Action::Custom("plug".to_string(), serde_json::Value::Bool(true)),
    ];
    for a in &actions {
        assert_eq!(a.debug_text(), format!("{:?}", a));
    }
}

#[test]
fn input_modes_and_sort_orders_print_as_derived() {
    for m in [InputMode::Search, InputMode::Filter, InputMode::Command, InputMode::WorkflowName, InputMode::Custom("x".to_string())] {
        assert_eq!(input_mode_debug_text(&m), format!("{:?}", m));
    }
    for o in [SortOrder::NameAsc, SortOrder::StatusDesc, SortOrder::Custom("y\t".to_string())] {
        assert_eq!(sort_order_debug_text(&o), format!("{:?}", o));
    }
    assert_eq!(Action::StartInput(InputMode::Filter).to_display_string(), "StartInput(Filter)");
    assert_eq!(Action::Sort(SortOrder::NameAsc).to_display_string(), "Sort(NameAsc)");
}

#[test]
fn errors_print_as_derived() {
    let errors = vec![
        TuiError::NetworkError { message: "timeout".to_string() },
        TuiError::WidgetError { widget_id: "w\"1".to_string(), message: "bad".to_string() },
        TuiError::ThemeError { message: String::new() },
    ];
    for e in &errors {
        assert_eq!(debug_text(e), format!("{:?}", e));
    }
    assert_eq!(debug_text(&errors[0]), "NetworkError { message: \"timeout\" }");
}

#[test]
fn plain_text_is_quoted_as_it_is() {
    assert_eq!(quoted_text("abc 1"), "\"abc 1\"");
    assert_eq!(quoted_text("a\"b"), "\"a\\\"b\"");
}
