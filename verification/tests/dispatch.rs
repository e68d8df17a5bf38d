use tui_kit::action::{Action, ActionPriority, ActionResult, InputMode};
use tui_kit::dispatch::{handler_order, handler_step, unhandled, ActionWithMetadata, DispatchStep};

#[test]
fn handlers_are_tried_by_priority_then_in_the_order_registered() {
    let handlers = vec![
        (true, ActionPriority::Low),
        (true, ActionPriority::High),
        (false, ActionPriority::Critical),
        (true, ActionPriority::High),
        (true, ActionPriority::Normal),
        (true, ActionPriority::Critical),
    ];
    assert_eq!(handler_order(&handlers), vec![5, 1, 3, 4, 0]);
    assert!(handler_order(&vec![(false, ActionPriority::Normal)]).is_empty());
}

#[test]
fn a_handler_answer_decides_what_comes_next() {
    assert!(matches!(handler_step(Ok(ActionResult::Success)), DispatchStep::Finish(ActionResult::Success)));
    assert!(matches!(handler_step(Ok(ActionResult::Ignored)), DispatchStep::Finish(ActionResult::Ignored)));
    assert!(matches!(
        handler_step(Ok(ActionResult::Forward(Action::Quit))),
        DispatchStep::Forward(Action::Quit)
    ));
    assert!(matches!(handler_step(Err("failed".to_string())), DispatchStep::TryNext));
}

#[test]
fn an_action_that_no_handler_takes_is_an_error() {
    match unhandled(&Action::Quit) {
        ActionResult::Error(m) => assert_eq!(m, "No handler found for action: Quit"),
        other => panic!("unexpected {:?}", other),
    }
    match unhandled(&Action::Search("x".to_string())) {
        ActionResult::Error(m) => assert_eq!(m, "No handler found for action: Search(\"x\")"),
        other => panic!("unexpected {:?}", other),
    }
}

#[test]
fn actions_carry_their_metadata() {
    let a = ActionWithMetadata::new_at(Action::Refresh, 100)
        .with_priority(ActionPriority::High)
        .with_source("keyboard".to_string())
        .with_context("view".to_string(), "logs".to_string())
        .with_context("view".to_string(), "tools".to_string());
    assert!(matches!(a.action, Action::Refresh));
    assert_eq!(a.priority, ActionPriority::High);
    assert_eq!(a.source, Some("keyboard".to_string()));
    assert_eq!(a.context, vec![("view".to_string(), "tools".to_string())]);
    assert_eq!(a.age_at(150), 50);
    assert_eq!(a.age_at(50), 0);
    let b = ActionWithMetadata::new(Action::Quit);
    assert_eq!(b.priority, ActionPriority::Normal);
    assert!(b.source.is_none());
}

#[test]
fn results_and_actions_read_as_text() {
    assert_eq!(ActionResult::Success.to_display_string(), "Success");
    assert_eq!(ActionResult::Error("bad".to_string()).to_display_string(), "Error: bad");
    assert_eq!(
        ActionResult::RequiresInput(InputMode::Search, "find".to_string()).to_display_string(),
        "RequiresInput(Search): find"
    );
    assert_eq!(ActionResult::Forward(Action::SelectItem(3)).to_display_string(), "Forward(SelectItem(3))");
    assert_eq!(Action::FocusWidget("w".to_string()).to_display_string(), "FocusWidget(w)");
}
