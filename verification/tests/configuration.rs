use tui_kit::config::{validate_config, ConfigPresetManager, TuiConfig};
use tui_kit::layout::{
    apply_margin, apply_padding, default_breakpoints, find_active_breakpoint, sort_by_priority, LayoutError,
    LayoutPriorityManager, Margin, Padding, Rect,
};
use tui_kit::widget::WidgetId;

#[test]
fn the_default_configuration_is_valid() {
    assert!(validate_config(&TuiConfig::default()).is_ok());
}

#[test]
fn each_invalid_configuration_gets_its_message() {
    let mut c = TuiConfig::default();
    c.performance.target_fps = 0;
    assert_eq!(validate_config(&c), Err("Frame rate must be between 1 and 120 FPS".to_string()));
    c.performance.target_fps = 121;
    assert_eq!(validate_config(&c), Err("Frame rate must be between 1 and 120 FPS".to_string()));
    let mut c = TuiConfig::default();
    c.performance.buffer_size = 1023;
    assert_eq!(validate_config(&c), Err("Buffer size must be at least 1024 bytes".to_string()));
    let mut c = TuiConfig::default();
    c.layout.responsive_breakpoints.medium = c.layout.responsive_breakpoints.small;
    assert_eq!(validate_config(&c), Err("Responsive breakpoints must be in ascending order".to_string()));
    let mut c = TuiConfig::default();
    c.user_preferences.notification_settings.notification_duration = 0;
    assert_eq!(validate_config(&c), Err("Notification duration must be greater than 0".to_string()));
}

#[test]
fn presets_are_listed_and_replaced() {
    let mut m = ConfigPresetManager::new();
    let names = m.list_presets();
    for n in ["default", "performance", "accessibility", "minimal"] {
        assert!(names.iter().any(|x| x == n));
    }
    assert_eq!(m.get_preset("performance").unwrap().performance.target_fps, 30);
    assert_eq!(m.get_preset("minimal").unwrap().performance.target_fps, 15);
    assert!(m.get_preset("accessibility").unwrap().accessibility.high_contrast_mode);
    let mut mine = TuiConfig::default();
    mine.performance.target_fps = 99;
    m.add_preset("performance".to_string(), mine);
    assert_eq!(m.get_preset("performance").unwrap().performance.target_fps, 99);
    assert_eq!(m.remove_preset("performance").unwrap().performance.target_fps, 99);
    assert!(m.get_preset("performance").is_none());
    assert!(m.remove_preset("performance").is_none());
}

#[test]
fn margins_and_padding_shrink_an_area() {
    let area = Rect { x: 0, y: 0, width: 80, height: 24 };
    assert_eq!(apply_margin(area, &Margin::uniform(2)), Rect { x: 2, y: 2, width: 76, height: 20 });
    assert_eq!(apply_padding(area, &Padding::new(1, 2, 3, 4)), Rect { x: 4, y: 1, width: 74, height: 20 });
    // a margin wider than the area leaves nothing
    let small = Rect { x: 0, y: 0, width: 3, height: 3 };
    let r = apply_margin(small, &Margin::uniform(2));
    assert_eq!((r.width, r.height), (0, 0));
}

#[test]
fn layout_errors_read_as_text() {
    let e = LayoutError::TerminalTooSmall { min_width: 80, min_height: 24, current_width: 40, current_height: 10 };
    assert_eq!(e.to_text(), "Terminal too small: minimum 80x24, current 40x10");
    assert_eq!(LayoutError::ConfigError { message: "x".to_string() }.to_text(), "Configuration error: x");
    assert_eq!(
        LayoutError::CalculationError { message: "y".to_string() }.to_text(),
        "Layout calculation error: y"
    );
}

#[test]
fn widgets_sort_by_descending_priority_keeping_ties_in_order() {
    let w = |s: &str, p: i32| (WidgetId(s.to_string()), p);
    let sorted = sort_by_priority(vec![w("a", 1), w("b", 3), w("c", 1), w("d", 2)]);
    let names: Vec<String> = sorted.into_iter().map(|(id, _)| id.0).collect();
    assert_eq!(names, vec!["b", "d", "a", "c"]);
}

#[test]
fn group_priorities_apply_to_their_widgets() {
    let mut m = LayoutPriorityManager::new();
    let a = WidgetId("a".to_string());
    let b = WidgetId("b".to_string());
    m.set_widget_priority(a.clone(), 5);
    assert_eq!(m.get_widget_priority(&a), 5);
    assert_eq!(m.get_widget_priority(&b), 0);
    m.create_priority_group("g".to_string(), vec![b.clone()]);
    m.set_group_priority("g", 9);
    assert_eq!(m.get_widget_priority(&b), 9);
    let sorted = m.get_sorted_widgets(&[a.clone(), b.clone()]);
    assert_eq!(sorted[0].0 .0, "b");
}

#[test]
fn the_largest_fitting_breakpoint_is_active() {
    let bps = default_breakpoints();
    assert!(find_active_breakpoint(&bps, (1, 1)).is_none() || !bps.is_empty());
    let big = find_active_breakpoint(&bps, (300, 100));
    assert!(big.is_some());
}
