use tui_kit::startup::{
    dependency_precedence, init_outcome, outcome_error, ComponentInfo, ComponentRequest, DependencyCheck, InitOutcome, InitializationPriority,
    InitializationStatus, Precedence, StartupConfig, StartupOptimizationType, StartupPerformanceManager, WaitCheck,
};

fn component(name: &str, priority: InitializationPriority) -> ComponentInfo {
    ComponentInfo {
        name: name.to_string(),
        priority,
        status: InitializationStatus::NotStarted,
        dependencies: Vec::new(),
        initialization_time_ms: None,
        lazy_loadable: priority == InitializationPriority::Low,
        essential: priority == InitializationPriority::Critical,
        preloadable: priority <= InitializationPriority::High,
    }
}

#[test]
fn test_startup_manager_creation() {
    let manager = StartupPerformanceManager::new(StartupConfig::default());
    assert_eq!(manager.get_component("anything"), ComponentRequest::Absent);
    assert!(manager.components_with_priority(InitializationPriority::Normal).is_empty());
}

#[test]
fn test_component_registration() {
    let mut manager = StartupPerformanceManager::new(StartupConfig::default());
    manager.register_component(component("test_component", InitializationPriority::Normal));
    assert_eq!(manager.components_with_priority(InitializationPriority::Normal), vec!["test_component".to_string()]);
    assert_eq!(manager.get_component("test_component"), ComponentRequest::LazyLoad);
}

#[test]
fn test_component_initialization() {
    let mut manager = StartupPerformanceManager::new(StartupConfig::default());
    manager.register_component(component("critical", InitializationPriority::Critical));
    manager.register_component(component("normal", InitializationPriority::Normal));
    manager.start_startup(0);
    for name in ["critical", "normal"] {
        manager.set_component_status(name, InitializationStatus::Initializing);
        assert_eq!(manager.get_component(name), ComponentRequest::Wait);
        manager.set_component_status(name, InitializationStatus::Initialized);
        manager.record_initialization_time(name, 10);
    }
    let metrics = manager.generate_startup_metrics(25);
    assert_eq!(metrics.component_init_times.len(), 2);
    assert!(metrics.component_init_times.iter().any(|(n, _)| n == "critical"));
    assert!(metrics.component_init_times.iter().any(|(n, _)| n == "normal"));
    assert_eq!(manager.get_component("critical"), ComponentRequest::Ready);
}

#[test]
fn test_lazy_loading() {
    let mut manager = StartupPerformanceManager::new(StartupConfig::default());
    manager.register_component(component("lazy", InitializationPriority::Low));
    assert_eq!(manager.lazy_loadable_components(), vec!["lazy".to_string()]);
    assert_eq!(manager.setup_lazy_loading(), vec!["lazy".to_string()]);
    assert_eq!(manager.get_component("lazy"), ComponentRequest::LazyLoad);
    // The component is initialized when first asked for, and the outcome
    // is reported back.
    manager.record_outcome("lazy", InitOutcome::Succeeded(10));
    assert_eq!(manager.get_component("lazy"), ComponentRequest::Ready);
    assert_eq!(manager.get_component("lazy"), ComponentRequest::Ready);
}

#[test]
fn failed_components_are_reported() {
    let mut manager = StartupPerformanceManager::new(StartupConfig::default());
    manager.register_component(component("a", InitializationPriority::High));
    manager.register_component(component("b", InitializationPriority::High));
    manager.set_component_status("a", InitializationStatus::Failed("boom".to_string()));
    manager.set_component_status("b", InitializationStatus::Failed("bang".to_string()));
    assert_eq!(manager.get_component("a"), ComponentRequest::Failed);
    let metrics = manager.generate_startup_metrics(0);
    assert_eq!(metrics.failed_components, vec!["a".to_string(), "b".to_string()]);
    let advice = manager.optimize_startup(&metrics);
    let last = advice.last().unwrap();
    assert_eq!(last.optimization_type, StartupOptimizationType::FixFailedComponents);
    assert_eq!(last.description, "Components failed to initialize: a, b. Fix initialization errors.");
}

#[test]
fn test_startup_metrics() {
    let mut manager = StartupPerformanceManager::new(StartupConfig::default());
    manager.register_component(component("test", InitializationPriority::Normal));
    manager.start_startup(1000);
    manager.set_component_status("test", InitializationStatus::Initialized);
    manager.record_initialization_time("test", 50);
    manager.end_phase("initialization", 1060);
    let metrics = manager.generate_startup_metrics(1070);
    assert_eq!(metrics.total_startup_time_ms, 70);
    assert_eq!(metrics.component_init_times, vec![("test".to_string(), 50)]);
    assert_eq!(metrics.startup_phases, vec![("initialization".to_string(), 60)]);
    assert!(metrics.target_met);
    assert_eq!(metrics.parallel_efficiency_permille, 800);
}

#[test]
fn missed_target_suggests_fast_boot() {
    let mut manager = StartupPerformanceManager::new(StartupConfig::default());
    manager.start_startup(0);
    let metrics = manager.generate_startup_metrics(4500);
    assert!(!metrics.target_met);
    let advice = manager.optimize_startup(&metrics);
    assert_eq!(advice[0].optimization_type, StartupOptimizationType::EnableFastBoot);
    assert_eq!(advice[0].description, "Startup time (4.5s) exceeded target (3000ms). Enable fast boot mode.");
    assert_eq!(advice[0].estimated_improvement_us, 1_500_000);
    // the cache is on and never hit
    assert_eq!(advice[1].optimization_type, StartupOptimizationType::ImproveCaching);
    assert_eq!(
        advice[1].description,
        "Startup cache hit rate is low (0.0%). Increase cache TTL or improve cache strategy."
    );
}

#[test]
fn test_startup_optimization() {
    let mut manager = StartupPerformanceManager::new(StartupConfig::default());
    manager.register_component(component("slow", InitializationPriority::Normal));
    manager.start_startup(0);
    manager.set_component_status("slow", InitializationStatus::Initialized);
    manager.record_initialization_time("slow", 600);
    let metrics = manager.generate_startup_metrics(700);
    let advice = manager.optimize_startup(&metrics);
    assert!(!advice.is_empty());
    let slow = advice
        .iter()
        .find(|o| o.optimization_type == StartupOptimizationType::OptimizeSlowComponent)
        .unwrap();
    assert_eq!(slow.description, "Component 'slow' takes 600ms to initialize. Consider lazy loading or optimization.");
    assert_eq!(slow.estimated_improvement_us, 300_000);
}

#[test]
fn phases_follow_the_configuration() {
    let manager = StartupPerformanceManager::new(StartupConfig::default());
    assert_eq!(
        manager.startup_phase_names(),
        vec!["cache_loading", "critical_init", "high_priority_init", "normal_init", "lazy_setup", "background_init"]
    );
    let mut config = StartupConfig::default();
    config.enable_fast_boot = true;
    config.enable_startup_cache = false;
    config.enable_lazy_loading = false;
    let manager = StartupPerformanceManager::new(config);
    assert_eq!(manager.startup_phase_names(), vec!["critical_init", "high_priority_init", "background_init"]);
}

#[test]
fn default_startup_configuration() {
    let config = StartupConfig::default();
    assert_eq!(config.target_startup_time, 3000);
    assert_eq!(config.preload_components, vec!["theme", "layout", "event_handler"]);
    assert_eq!(config.essential_components, vec!["theme", "layout", "event_handler", "action_dispatcher"]);
    assert_eq!(config.max_parallel_tasks, 4);
}

#[test]
fn ending_an_unknown_phase_changes_nothing() {
    let mut manager = StartupPerformanceManager::new(StartupConfig::default());
    manager.start_phase("a", 10);
    manager.end_phase("b", 20);
    assert!(manager.generate_startup_metrics(0).startup_phases.is_empty());
    manager.end_phase("a", 5);
    assert_eq!(manager.generate_startup_metrics(0).startup_phases, vec![("a".to_string(), 0)]);
}

#[test]
fn outcomes_set_the_status_and_the_time() {
    let mut manager = StartupPerformanceManager::new(StartupConfig::default());
    manager.register_component(component("a", InitializationPriority::High));
    manager.register_component(component("b", InitializationPriority::High));
    manager.register_component(component("c", InitializationPriority::High));
    manager.record_outcome("a", InitOutcome::Succeeded(12));
    manager.record_outcome("b", InitOutcome::Failed("broken".to_string()));
    manager.record_outcome("c", InitOutcome::TimedOut);
    assert_eq!(manager.get_component("a"), ComponentRequest::Ready);
    assert_eq!(manager.get_component("b"), ComponentRequest::Failed);
    assert!(matches!(
        manager.wait_check("c", 0),
        WaitCheck::Failed(m) if m == "Component 'c' failed: Component 'c' initialization timed out"
    ));
    let metrics = manager.generate_startup_metrics(100);
    assert_eq!(metrics.component_init_times, vec![("a".to_string(), 12)]);
}

#[test]
fn dependencies_decide_whether_a_component_may_start() {
    let mut manager = StartupPerformanceManager::new(StartupConfig::default());
    for name in ["db", "net", "cache"] {
        manager.register_component(component(name, InitializationPriority::High));
    }
    let deps = vec!["db".to_string(), "net".to_string()];
    assert!(matches!(manager.check_dependencies(&deps), DependencyCheck::Waiting));
    manager.record_outcome("db", InitOutcome::Succeeded(1));
    assert!(matches!(manager.check_dependencies(&deps), DependencyCheck::Waiting));
    manager.record_outcome("net", InitOutcome::Failed("down".to_string()));
    assert!(matches!(
        manager.check_dependencies(&deps),
        DependencyCheck::Failed(m) if m == "Dependency 'net' failed to initialize"
    ));
    manager.record_outcome("net", InitOutcome::Succeeded(2));
    assert!(matches!(manager.check_dependencies(&deps), DependencyCheck::Ready));
    assert!(matches!(manager.check_dependencies(&Vec::new()), DependencyCheck::Ready));
}

#[test]
fn waiting_for_a_component_ends_after_thirty_seconds() {
    let mut manager = StartupPerformanceManager::new(StartupConfig::default());
    manager.register_component(component("slow", InitializationPriority::Background));
    manager.set_component_status("slow", InitializationStatus::Initializing);
    assert!(matches!(manager.wait_check("slow", 30_000), WaitCheck::Waiting));
    assert!(matches!(
        manager.wait_check("slow", 30_001),
        WaitCheck::Failed(m) if m == "Timeout waiting for component 'slow'"
    ));
    manager.record_outcome("slow", InitOutcome::Succeeded(5));
    assert!(matches!(manager.wait_check("slow", 10), WaitCheck::Ready));
}

#[test]
fn components_a_dependency_needs_come_first() {
    let none: Vec<String> = Vec::new();
    let needs_a = vec!["a".to_string()];
    assert_eq!(dependency_precedence("b", &needs_a, "a", &none), Precedence::After);
    assert_eq!(dependency_precedence("a", &none, "b", &needs_a), Precedence::Before);
    assert_eq!(dependency_precedence("a", &none, "b", &none), Precedence::Either);
}

#[test]
fn lazy_components_are_skipped_at_setup() {
    let mut manager = StartupPerformanceManager::new(StartupConfig::default());
    manager.register_component(component("later", InitializationPriority::Low));
    manager.register_component(component("now", InitializationPriority::High));
    manager.set_component_status("now", InitializationStatus::Initialized);
    assert_eq!(manager.setup_lazy_loading(), vec!["later".to_string()]);
    assert_eq!(manager.get_component("later"), ComponentRequest::LazyLoad);
    assert_eq!(manager.get_component("now"), ComponentRequest::Ready);
}

#[test]
fn initialization_outcome_follows_time_and_result() {
    assert!(matches!(init_outcome(Ok(()), 10, 100), InitOutcome::Succeeded(10)));
    assert!(matches!(init_outcome(Ok(()), 101, 100), InitOutcome::TimedOut));
    assert!(matches!(init_outcome(Err("boom".to_string()), 101, 100), InitOutcome::TimedOut));
    match init_outcome(Err("boom".to_string()), 5, 100) {
        InitOutcome::Failed(m) => assert_eq!(m, "boom"),
        _ => panic!("expected a failure"),
    }
    assert_eq!(outcome_error("db", &InitOutcome::TimedOut), Some("Component 'db' initialization timed out".to_string()));
    assert_eq!(outcome_error("db", &InitOutcome::Succeeded(3)), None);
    assert_eq!(outcome_error("db", &InitOutcome::Failed("x".to_string())), Some("x".to_string()));
}
