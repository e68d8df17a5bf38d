use tui_kit::layout::{ConfigFormat, LayoutDirection, LayoutError, LayoutNode};
use tui_kit::templates::{LayoutConfigManager, LayoutTemplate};

fn template(name: &str, tags: &[&str]) -> LayoutTemplate {
    LayoutTemplate {
        name: name.to_string(),
        description: format!("{} layout", name),
        root_node: LayoutNode::new("root".to_string(), LayoutDirection::Vertical),
        breakpoints: Vec::new(),
        dynamic_adjustments: Vec::new(),
        created_at_ms: 0,
        modified_at_ms: 0,
        version: "1.0".to_string(),
        tags: tags.iter().map(|t| t.to_string()).collect(),
    }
}

#[test]
fn templates_are_found_by_name_and_tag() {
    let mut m = LayoutConfigManager::new();
    m.insert_template(template("dev", &["code", "wide"]));
    m.insert_template(template("ops", &["monitor"]));
    m.insert_template(template("review", &["code"]));
    assert_eq!(m.get_template_names(), vec!["dev", "ops", "review"]);
    let code: Vec<&str> = m.get_templates_by_tag("code").iter().map(|t| t.name.as_str()).collect();
    assert_eq!(code, vec!["dev", "review"]);
    assert!(m.get_templates_by_tag("none").is_empty());
    assert_eq!(m.get_template("ops").unwrap().description, "ops layout");
    assert!(m.get_template("missing").is_none());
}

#[test]
fn a_template_of_the_same_name_replaces_it() {
    let mut m = LayoutConfigManager::new();
    m.insert_template(template("dev", &["old"]));
    m.insert_template(template("dev", &["new"]));
    assert_eq!(m.get_template_names(), vec!["dev"]);
    assert_eq!(m.get_template("dev").unwrap().tags, vec!["new".to_string()]);
}

#[test]
fn active_template_must_exist() {
    let mut m = LayoutConfigManager::new();
    m.insert_template(template("dev", &[]));
    match m.set_active_template(Some("nope".to_string())) {
        Err(LayoutError::ConfigError { message }) => assert_eq!(message, "Template 'nope' not found"),
        _ => panic!("expected a configuration error"),
    }
    assert!(m.get_active_template_name().is_none());
    m.set_active_template(Some("dev".to_string())).unwrap();
    assert_eq!(m.get_active_template().unwrap().name, "dev");
    assert!(m.remove_template("dev"));
    assert!(!m.remove_template("dev"));
    assert!(m.get_active_template_name().is_none());
    m.set_format(ConfigFormat::Toml);
    assert_eq!(m.format(), ConfigFormat::Toml);
}
