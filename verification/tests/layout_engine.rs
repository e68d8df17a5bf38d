use tui_kit::engine::{priority_areas, scale_by_priority, scale_ratio, LayoutResult};
use tui_kit::layout::{
    count_widgets_in_node, evaluate_adjustment_condition, AdjustmentCondition, AdvancedSizeConstraints, DynamicAdjustment,
    LayoutAdjustment, LayoutConstraints, LayoutDirection, LayoutError, LayoutManager, LayoutNode, LayoutPriorityManager,
    Margin, Rect,
};
use tui_kit::widget::WidgetId;

fn id(s: &str) -> WidgetId {
    WidgetId(s.to_string())
}

fn rect(x: u16, y: u16, width: u16, height: u16) -> Rect {
    Rect { x, y, width, height }
}

fn leaf(name: &str) -> LayoutNode {
    LayoutNode::widget(name.to_string(), id(name))
}

fn two_rows() -> LayoutNode {
    LayoutNode::new("root".to_string(), LayoutDirection::Vertical)
        .add_child(leaf("header"), LayoutConstraints::Length(5))
        .add_child(leaf("body"), LayoutConstraints::Min(0))
}

fn names(v: &[WidgetId]) -> Vec<String> {
    v.iter().map(|w| w.0.clone()).collect()
}

fn area(r: &LayoutResult, name: &str) -> Option<Rect> {
    r.area_of(&id(name))
}

#[test]
fn no_root_is_refused() {
    let mut m = LayoutManager::new();
    let err = m.calculate_layout().unwrap_err();
    match &err {
        LayoutError::ConfigError { message } => assert_eq!(message, "No root layout node configured"),
        _ => panic!("wrong error"),
    }
    assert_eq!(err.to_text(), "Configuration error: No root layout node configured");
    assert_eq!(m.performance_metrics().cache_misses, 1);
}

#[test]
fn root_with_missing_constraint_is_refused() {
    let mut m = LayoutManager::new();
    let mut node = LayoutNode::new("root".to_string(), LayoutDirection::Vertical);
    node.children.push(leaf("a"));
    node.children.push(leaf("b"));
    node.constraints.push(LayoutConstraints::Fill);
    match m.set_root_node(node) {
        Err(LayoutError::ConfigError { message }) => assert_eq!(message, "Node 'root' has 2 children but 1 constraints"),
        _ => panic!("expected a configuration error"),
    }
    assert!(m.root_node().is_none());
}

#[test]
fn rows_split_by_constraints() {
    let mut m = LayoutManager::new();
    m.set_root_node(two_rows()).unwrap();
    let r = m.calculate_layout().unwrap();
    assert_eq!(r.total_area, rect(0, 0, 80, 24));
    assert_eq!(area(&r, "header"), Some(rect(0, 0, 80, 5)));
    assert_eq!(area(&r, "body"), Some(rect(0, 5, 80, 19)));
    assert!(r.overflow_widgets.is_empty());
    assert!(r.hidden_widgets.is_empty());
}

#[test]
fn second_layout_comes_from_the_cache() {
    let mut m = LayoutManager::new();
    m.set_root_node(two_rows()).unwrap();
    let first = m.calculate_layout().unwrap();
    let second = m.calculate_layout().unwrap();
    assert_eq!(area(&first, "body"), area(&second, "body"));
    assert_eq!(area(&first, "header"), area(&second, "header"));
    let metrics = m.performance_metrics();
    assert_eq!(metrics.total_calculations, 2);
    assert_eq!(metrics.cache_hits, 1);
    assert_eq!(metrics.cache_misses, 1);
}

#[test]
fn invisible_widget_is_hidden() {
    let mut m = LayoutManager::new();
    let root = LayoutNode::new("root".to_string(), LayoutDirection::Vertical)
        .add_child(leaf("a"), LayoutConstraints::Fill)
        .add_child(leaf("b").with_visibility(false), LayoutConstraints::Fill);
    m.set_root_node(root).unwrap();
    assert_eq!(names(&m.get_hidden_widgets().unwrap()), vec!["b"]);
    assert!(!m.is_widget_visible(&id("b")).unwrap());
    assert!(m.is_widget_visible(&id("a")).unwrap());
}

#[test]
fn small_widget_overflows_or_hides() {
    let mut m = LayoutManager::new();
    let hideable = AdvancedSizeConstraints::default().hideable();
    let root = LayoutNode::new("root".to_string(), LayoutDirection::Vertical)
        .add_child(leaf("tiny"), LayoutConstraints::Length(2))
        .add_child(leaf("small").with_advanced_constraints(hideable), LayoutConstraints::Length(1))
        .add_child(leaf("rest"), LayoutConstraints::Min(0));
    m.set_root_node(root).unwrap();
    let r = m.calculate_layout().unwrap();
    assert_eq!(names(&r.overflow_widgets), vec!["tiny"]);
    assert_eq!(names(&r.hidden_widgets), vec!["small"]);
    assert_eq!(area(&r, "rest"), Some(rect(0, 3, 80, 21)));
    assert_eq!(names(&m.get_visible_widgets().unwrap()), vec!["rest"]);
}

#[test]
fn priority_gives_more_space() {
    let mut m = LayoutManager::new();
    m.priority_manager_mut().set_widget_priority(id("main"), 2);
    let mut c = AdvancedSizeConstraints::default();
    c.basic.preferred_width = Some(10);
    let root = LayoutNode::new("root".to_string(), LayoutDirection::Horizontal)
        .add_child(leaf("side"), LayoutConstraints::Fill)
        .add_child(leaf("main").with_advanced_constraints(c), LayoutConstraints::Fill);
    m.set_root_node(root).unwrap();
    let r = m.calculate_layout().unwrap();
    assert_eq!(area(&r, "main"), Some(rect(0, 0, 12, 24)));
    assert_eq!(area(&r, "side"), Some(rect(12, 0, 68, 24)));
}

#[test]
fn priority_based_layout_of_a_node() {
    let mut pm = LayoutPriorityManager::new();
    pm.set_widget_priority(id("b"), -4);
    let mut c = AdvancedSizeConstraints::default();
    c.basic.preferred_height = Some(10);
    let node = LayoutNode::new("col".to_string(), LayoutDirection::Vertical)
        .add_child(leaf("a"), LayoutConstraints::Fill)
        .add_child(leaf("b").with_advanced_constraints(c), LayoutConstraints::Fill);
    let areas = priority_areas(&pm, &node, rect(0, 0, 40, 30)).unwrap();
    assert_eq!(areas, vec![rect(0, 0, 40, 15), rect(0, 15, 40, 8)]);
    let m = LayoutManager::new();
    let same = m.calculate_priority_based_layout(&node, rect(0, 0, 40, 30)).unwrap();
    assert_eq!(same, vec![rect(0, 0, 40, 15), rect(0, 15, 40, 10)]);
}

#[test]
fn fullscreen_takes_the_whole_terminal() {
    let mut m = LayoutManager::new();
    m.set_root_node(two_rows()).unwrap();
    m.enter_fullscreen(id("body")).unwrap();
    let r = m.calculate_layout().unwrap();
    assert_eq!(r.widget_areas.len(), 1);
    assert_eq!(area(&r, "body"), Some(rect(0, 0, 80, 24)));
    assert_eq!(m.performance_metrics().total_calculations, 0);
}

#[test]
fn dynamic_adjustment_hides_a_widget() {
    let mut m = LayoutManager::new();
    m.set_root_node(two_rows()).unwrap();
    m.add_dynamic_adjustment(DynamicAdjustment {
        id: "narrow".to_string(),
        condition: AdjustmentCondition::TerminalSize { min_width: 0, max_width: 100, min_height: 0, max_height: 100 },
        adjustment: LayoutAdjustment::HideWidgets(vec![id("header")]),
        priority: 0,
        enabled: true,
    });
    assert_eq!(names(&m.get_hidden_widgets().unwrap()), vec!["header"]);
    assert!(m.remove_dynamic_adjustment("narrow"));
    assert!(!m.remove_dynamic_adjustment("narrow"));
    assert!(m.get_hidden_widgets().unwrap().is_empty());
}

#[test]
fn compact_mode_halves_the_margin() {
    let mut m = LayoutManager::new();
    let root = LayoutNode::new("main".to_string(), LayoutDirection::Vertical)
        .with_margin(Margin::uniform(4))
        .add_child(leaf("only"), LayoutConstraints::Fill);
    m.set_root_node(root).unwrap();
    m.set_compact_mode(true);
    let r = m.calculate_layout().unwrap();
    assert_eq!(area(&r, "only"), Some(rect(2, 2, 76, 20)));
    m.set_compact_mode(false);
    let r = m.calculate_layout().unwrap();
    assert_eq!(area(&r, "only"), Some(rect(4, 4, 72, 16)));
}

#[test]
fn widget_area_and_counts() {
    let mut m = LayoutManager::new();
    m.set_root_node(two_rows()).unwrap();
    assert_eq!(m.get_widget_area(&id("header")).unwrap(), Some(rect(0, 0, 80, 5)));
    assert_eq!(m.get_widget_area(&id("missing")).unwrap(), None);
    assert_eq!(count_widgets_in_node(&two_rows()), 2);
    let cond = AdjustmentCondition::WidgetCount { min_count: 1, max_count: 2 };
    assert!(evaluate_adjustment_condition(&cond, (80, 24), 2));
    assert!(!evaluate_adjustment_condition(&cond, (80, 24), 3));
    let never = AdjustmentCondition::Custom("x".to_string());
    assert!(!evaluate_adjustment_condition(&never, (80, 24), 0));
}

#[test]
fn scaling_is_exact() {
    assert_eq!(scale_by_priority(10, 2), 12);
    assert_eq!(scale_by_priority(20, -4), 16);
    assert_eq!(scale_by_priority(20, -30), 0);
    assert_eq!(scale_by_priority(60000, 10), 65535);
    assert_eq!(scale_ratio(9, 16, 9), 16);
    assert_eq!(scale_ratio(5, 1, 0), 65535);
    assert_eq!(scale_ratio(0, 1, 0), 0);
}

#[test]
fn fullscreen_capable_widgets_leave_out_hideable_ones() {
    let mut m = LayoutManager::new();
    assert!(m.get_fullscreen_capable_widgets().is_empty());
    let hideable = AdvancedSizeConstraints::default().hideable();
    let root = LayoutNode::new("root".to_string(), LayoutDirection::Vertical)
        .add_child(leaf("a"), LayoutConstraints::Fill)
        .add_child(leaf("b").with_advanced_constraints(hideable), LayoutConstraints::Fill)
        .add_child(leaf("c"), LayoutConstraints::Fill);
    m.set_root_node(root).unwrap();
    assert_eq!(names(&m.get_fullscreen_capable_widgets()), vec!["a", "c"]);
}

#[test]
fn layout_stats_and_spacing_factor() {
    let mut m = LayoutManager::new();
    m.set_root_node(two_rows()).unwrap();
    let stats = m.get_layout_stats().unwrap();
    assert_eq!(stats.total_widgets, 2);
    assert_eq!(stats.visible_widgets, 2);
    assert_eq!(stats.hidden_widgets, 0);
    assert_eq!(stats.overflow_widgets, 0);
    assert_eq!(stats.terminal_size, (80, 24));
    assert_eq!(stats.active_breakpoint, Some("small".to_string()));
    assert_eq!(stats.cache_size, 1);
    assert!(!stats.compact_mode);
    assert!(stats.fullscreen_widget.is_none());
    assert_eq!(m.compact_spacing_factor(), (1, 2));
    m.set_compact_spacing_factor(3, 2);
    assert_eq!(m.compact_spacing_factor(), (1, 1));
    m.set_compact_spacing_factor(1, 4);
    assert_eq!(m.compact_spacing_factor(), (1, 4));
}
