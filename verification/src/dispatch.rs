//! Dispatching actions to handlers: actions with their metadata, the order
//! in which handlers are tried, and what each handler's answer means. The
//! handlers themselves, and the queue of actions, are the caller's.

use vstd::prelude::*;
use crate::action::{Action, ActionPriority, ActionResult, action_debug};
use crate::error::clock_now_ms;
use crate::named::{entry_of, set_entry};

verus! {

/// An action with its priority, when it was made (in milliseconds), where
/// it came from, and further context by name.
#[derive(Debug)]
pub struct ActionWithMetadata {
    pub action: Action,
    pub priority: ActionPriority,
    pub timestamp_ms: u64,
    pub source: Option<String>,
    pub context: Vec<(String, String)>,
}

impl ActionWithMetadata {
    /// An action of normal priority made at `now`, from nowhere in
    /// particular, without context.
    pub fn new_at(action: Action, now: u64) -> (res: Self)
        ensures
            res.action == action,
            res.priority == ActionPriority::Normal,
            res.timestamp_ms == now,
            res.source is None,
            res.context@.len() == 0,
    {
        ActionWithMetadata { action, priority: ActionPriority::Normal, timestamp_ms: now, source: None, context: Vec::new() }
    }

    /// An action of normal priority made now, by the system clock.
    pub fn new(action: Action) -> (res: Self)
        ensures
            res.action == action,
            res.priority == ActionPriority::Normal,
            res.source is None,
            res.context@.len() == 0,
    {
        Self::new_at(action, clock_now_ms())
    }

    /// The same action with priority `priority`.
    pub fn with_priority(self, priority: ActionPriority) -> (res: Self)
        ensures
            res == (ActionWithMetadata { priority, ..self }),
    {
        ActionWithMetadata { priority, ..self }
    }

    /// The same action coming from `source`.
    pub fn with_source(self, source: String) -> (res: Self)
        ensures
            res == (ActionWithMetadata { source: Some(source), ..self }),
    {
        ActionWithMetadata { source: Some(source), ..self }
    }

    /// The same action with the context `key` set to `value`.
    pub fn with_context(self, key: String, value: String) -> (res: Self)
        ensures
            res.action == self.action && res.priority == self.priority,
            res.timestamp_ms == self.timestamp_ms && res.source == self.source,
            forall|k: Seq<char>|
                #[trigger] entry_of(res.context@, k) == if k == key@ {
                    Some(value)
                } else {
                    entry_of(self.context@, k)
                },
    {
        let mut res = self;
        set_entry(&mut res.context, key.as_str(), value);
        res
    }

    /// How long ago, at `now`, the action was made; no time if the clock
    /// went back.
    pub fn age_at(&self, now: u64) -> (res: u64)
        ensures
            res == if now >= self.timestamp_ms {
                (now - self.timestamp_ms) as u64
            } else {
                0u64
            },
    {
        if now >= self.timestamp_ms {
            now - self.timestamp_ms
        } else {
            0
        }
    }
}

/// The rank of a priority: higher is tried first.
pub open spec fn priority_rank(p: ActionPriority) -> int {
    match p {
        ActionPriority::Low => 0,
        ActionPriority::Normal => 1,
        ActionPriority::High => 2,
        ActionPriority::Critical => 3,
    }
}

/// The positions, in order, of the first `n` handlers that can handle the
/// action and have the priority of rank `r`.
pub open spec fn capable_with_rank(handlers: Seq<(bool, ActionPriority)>, r: int, n: int) -> Seq<usize>
    decreases n,
{
    if n <= 0 {
        Seq::empty()
    } else {
        let rest = capable_with_rank(handlers, r, n - 1);
        if handlers[n - 1].0 && priority_rank(handlers[n - 1].1) == r {
            rest.push((n - 1) as usize)
        } else {
            rest
        }
    }
}

/// The order in which handlers are tried: those that can handle the action,
/// the highest priority first, and in the order they were registered within
/// a priority.
pub open spec fn handler_order_of(handlers: Seq<(bool, ActionPriority)>) -> Seq<usize> {
    capable_with_rank(handlers, 3, handlers.len() as int) + capable_with_rank(handlers, 2, handlers.len() as int)
        + capable_with_rank(handlers, 1, handlers.len() as int) + capable_with_rank(handlers, 0, handlers.len() as int)
}

/// The positions of the handlers that can handle the action and have the
/// priority `p`, in order.
fn capable_positions(handlers: &Vec<(bool, ActionPriority)>, p: ActionPriority) -> (res: Vec<usize>)
    ensures
        res@ == capable_with_rank(handlers@, priority_rank(p), handlers@.len() as int),
{
    let mut res: Vec<usize> = Vec::new();
    let mut i: usize = 0;
    while i < handlers.len()
        invariant
            i <= handlers@.len(),
            res@ == capable_with_rank(handlers@, priority_rank(p), i as int),
        decreases handlers@.len() - i,
    {
        if handlers[i].0 && handlers[i].1 == p {
            res.push(i);
        }
        i = i + 1;
    }
    res
}

/// The order in which to try handlers, each given by whether it can handle
/// the action and its priority: those that can, the highest priority first,
/// in the order given within a priority.
pub fn handler_order(handlers: &Vec<(bool, ActionPriority)>) -> (res: Vec<usize>)
    ensures
        res@ == handler_order_of(handlers@),
{
    let mut res = capable_positions(handlers, ActionPriority::Critical);
    let mut high = capable_positions(handlers, ActionPriority::High);
    let mut normal = capable_positions(handlers, ActionPriority::Normal);
    let mut low = capable_positions(handlers, ActionPriority::Low);
    res.append(&mut high);
    res.append(&mut normal);
    res.append(&mut low);
    res
}

/// What to do after a handler answered.
#[derive(Debug)]
pub enum DispatchStep {
    /// Stop with this result.
    Finish(ActionResult),
    /// Dispatch this action afresh.
    Forward(Action),
    /// The handler failed: try the next one.
    TryNext,
}

/// What a handler's answer means: success or any other result ends the
/// dispatch, a forward dispatches the action it names, a failure moves on
/// to the next handler.
pub fn handler_step(outcome: Result<ActionResult, String>) -> (res: DispatchStep)
    ensures
        res == match outcome {
            Ok(ActionResult::Forward(a)) => DispatchStep::Forward(a),
            Ok(r) => DispatchStep::Finish(r),
            Err(_) => DispatchStep::TryNext,
        },
{
    match outcome {
        Ok(ActionResult::Forward(a)) => DispatchStep::Forward(a),
        Ok(r) => DispatchStep::Finish(r),
        Err(_) => DispatchStep::TryNext,
    }
}

/// The result when no handler took the action.
pub fn unhandled(action: &Action) -> (res: ActionResult)
    ensures
        res matches ActionResult::Error(m) && exists|json: Seq<char>|
            m@ == "No handler found for action: "@ + #[trigger] action_debug(*action, json),
        !(*action is Custom) ==> (res matches ActionResult::Error(m) && m@ == "No handler found for action: "@
            + action_debug(*action, Seq::<char>::empty())),
{
    let mut m = String::from_str("No handler found for action: ");
    let t = action.debug_text();
    m.append(t.as_str());
    proof {
        let json = choose|json: Seq<char>| t@ == #[trigger] action_debug(*action, json);
        assert(m@ == "No handler found for action: "@ + action_debug(*action, json));
    }
    ActionResult::Error(m)
}

} // verus!
