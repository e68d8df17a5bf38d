//! The navigation stack: which views were shown and in what order, the
//! modal dialogs open over them, and what the Esc key does.

use vstd::prelude::*;
use crate::action::{Action, ViewType, json_null};
use crate::error::{clock_now_ms, keep_last};

verus! {

/// What caused a navigation.
#[derive(Debug, Clone, Copy, PartialEq, Eq, Structural)]
pub enum NavigationTrigger {
    UserInitiated,
    Programmatic,
    BackNavigation,
    ModalOpened,
    ModalClosed,
    Startup,
    ErrorRecovery,
}

/// How a view was reached.
#[derive(Debug)]
pub struct NavigationContext {
    pub trigger: NavigationTrigger,
    pub previous_view: Option<ViewType>,
    pub user_action: Option<String>,
    /// Further details, by name.
    pub metadata: Vec<(String, String)>,
}

/// A view shown, as the stack remembers it.
#[derive(Debug)]
pub struct NavigationState {
    pub view: ViewType,
    pub state_data: Option<serde_json::Value>,
    /// When it was shown, in milliseconds.
    pub timestamp_ms: u64,
    /// Whether going back can return to it.
    pub returnable: bool,
    pub context: NavigationContext,
}

/// What a modal dialog shows.
#[derive(Debug)]
pub enum ModalContentType {
    Message,
    Confirmation,
    Input,
    Error,
    Warning,
    Info,
    Progress,
    Custom(String),
}

/// The size of a modal dialog: a share of the screen in percent, within
/// bounds in characters.
#[derive(Debug, Clone, Copy, PartialEq, Eq, Structural)]
pub struct ModalSize {
    pub width_percent: u16,
    pub height_percent: u16,
    pub min_width: Option<u16>,
    pub min_height: Option<u16>,
    pub max_width: Option<u16>,
    pub max_height: Option<u16>,
}

impl ModalSize {
    /// 40% by 30%, from 30 by 10 up to 60 by 20 characters.
    pub fn small() -> (res: Self)
        ensures
            res == (ModalSize {
                width_percent: 40,
                height_percent: 30,
                min_width: Some(30),
                min_height: Some(10),
                max_width: Some(60),
                max_height: Some(20),
            }),
    {
        ModalSize {
            width_percent: 40,
            height_percent: 30,
            min_width: Some(30),
            min_height: Some(10),
            max_width: Some(60),
            max_height: Some(20),
        }
    }

    /// 60% by 50%, from 40 by 15 up to 80 by 30 characters.
    pub fn medium() -> (res: Self)
        ensures
            res == (ModalSize {
                width_percent: 60,
                height_percent: 50,
                min_width: Some(40),
                min_height: Some(15),
                max_width: Some(80),
                max_height: Some(30),
            }),
    {
        ModalSize {
            width_percent: 60,
            height_percent: 50,
            min_width: Some(40),
            min_height: Some(15),
            max_width: Some(80),
            max_height: Some(30),
        }
    }

    /// 80% by 70%, from 60 by 20 up to 120 by 40 characters.
    pub fn large() -> (res: Self)
        ensures
            res == (ModalSize {
                width_percent: 80,
                height_percent: 70,
                min_width: Some(60),
                min_height: Some(20),
                max_width: Some(120),
                max_height: Some(40),
            }),
    {
        ModalSize {
            width_percent: 80,
            height_percent: 70,
            min_width: Some(60),
            min_height: Some(20),
            max_width: Some(120),
            max_height: Some(40),
        }
    }
}

/// How a button of a modal dialog is drawn.
#[derive(Debug, Clone, Copy, PartialEq, Eq, Structural)]
pub enum ModalButtonStyle {
    Primary,
    Secondary,
    Danger,
    Success,
    Warning,
}

/// A button of a modal dialog.
#[derive(Debug)]
pub struct ModalButton {
    pub label: String,
    pub action: Action,
    pub style: ModalButtonStyle,
    /// Chosen with Enter.
    pub is_default: bool,
    /// Chosen with Esc.
    pub is_cancel: bool,
    pub shortcut: Option<char>,
}

/// A modal dialog.
#[derive(Debug)]
pub struct ModalDialog {
    pub id: String,
    pub title: String,
    pub content_type: ModalContentType,
    pub size: ModalSize,
    /// Whether Esc can close it.
    pub closable: bool,
    /// Whether it blocks the views behind it.
    pub blocking: bool,
    pub buttons: Vec<ModalButton>,
    /// When it was opened, in milliseconds.
    pub opened_at_ms: u64,
    /// Closes on its own after this many milliseconds, when set.
    pub timeout_ms: Option<u64>,
    /// The action to take when it is closed.
    pub on_close: Option<Action>,
    pub data: Option<serde_json::Value>,
}

/// The JSON object with the one string member `key: value`.
pub uninterp spec fn json_string_object(key: Seq<char>, value: Seq<char>) -> serde_json::Value;

/// `serde_json::Value::Object` holding the one member `key` with the JSON
/// string `value` (what `serde_json::json!({key: value})` builds). The
/// contract names the value by its key and text.
#[verifier::external_body]
fn json_object_with(key: &str, value: String) -> (res: serde_json::Value)
    ensures
        res == json_string_object(key@, value@),
{
    let mut map = serde_json::Map::new();
    map.insert(key.to_string(), serde_json::Value::String(value));
    serde_json::Value::Object(map)
}

/// One button as given.
pub open spec fn button_is(
    b: ModalButton,
    label: Seq<char>,
    action: Action,
    style: ModalButtonStyle,
    is_default: bool,
    is_cancel: bool,
    shortcut: char,
) -> bool {
    &&& b.label@ == label
    &&& b.action == action
    &&& b.style == style
    &&& b.is_default == is_default
    &&& b.is_cancel == is_cancel
    &&& b.shortcut == Some(shortcut)
}

/// The parts that the three kinds of ready-made dialogs share.
pub open spec fn standard_modal(m: ModalDialog, id: String, title: String, now: u64) -> bool {
    &&& m.id == id
    &&& m.title == title
    &&& m.size == (ModalSize {
        width_percent: 60,
        height_percent: 50,
        min_width: Some(40),
        min_height: Some(15),
        max_width: Some(80),
        max_height: Some(30),
    })
    &&& m.closable
    &&& m.blocking
    &&& m.opened_at_ms == now
    &&& m.timeout_ms is None
    &&& m.on_close is None
}

impl ModalDialog {
    /// A message dialog opened now, by the system clock, with one "OK" button.
    pub fn message(id: String, title: String, message: String) -> (res: Self)
        ensures
            standard_modal(res, id, title, res.opened_at_ms),
            res.content_type == ModalContentType::Message,
            res.buttons@.len() == 1,
            button_is(res.buttons@[0], "确定"@, Action::GoBack, ModalButtonStyle::Primary, true, false, 'o'),
            res.data == Some(json_string_object("message"@, message@)),
    {
        Self::message_at(id, title, message, clock_now_ms())
    }

    /// A message dialog opened at time `now`, with one "OK" button.
    pub fn message_at(id: String, title: String, message: String, now: u64) -> (res: Self)
        ensures
            standard_modal(res, id, title, now),
            res.content_type == ModalContentType::Message,
            res.buttons@.len() == 1,
            button_is(res.buttons@[0], "确定"@, Action::GoBack, ModalButtonStyle::Primary, true, false, 'o'),
            res.data == Some(json_string_object("message"@, message@)),
    {
        let mut buttons: Vec<ModalButton> = Vec::new();
        buttons.push(ModalButton {
            label: String::from_str("确定"),
            action: Action::GoBack,
            style: ModalButtonStyle::Primary,
            is_default: true,
            is_cancel: false,
            shortcut: Some('o'),
        });
        ModalDialog {
            id,
            title,
            content_type: ModalContentType::Message,
            size: ModalSize::medium(),
            closable: true,
            blocking: true,
            buttons,
            opened_at_ms: now,
            timeout_ms: None,
            on_close: None,
            data: Some(json_object_with("message", message)),
        }
    }

    /// A confirmation dialog opened now, by the system clock: "OK" takes `on_confirm`,
    /// "Cancel" goes back.
    pub fn confirmation(id: String, title: String, message: String, on_confirm: Action) -> (res: Self)
        ensures
            standard_modal(res, id, title, res.opened_at_ms),
            res.content_type == ModalContentType::Confirmation,
            res.buttons@.len() == 2,
            button_is(res.buttons@[0], "确定"@, on_confirm, ModalButtonStyle::Primary, true, false, 'y'),
            button_is(res.buttons@[1], "取消"@, Action::GoBack, ModalButtonStyle::Secondary, false, true, 'n'),
            res.data == Some(json_string_object("message"@, message@)),
    {
        Self::confirmation_at(id, title, message, on_confirm, clock_now_ms())
    }

    /// A confirmation dialog opened at time `now`: "OK" takes `on_confirm`,
    /// "Cancel" goes back.
    pub fn confirmation_at(id: String, title: String, message: String, on_confirm: Action, now: u64) -> (res: Self)
        ensures
            standard_modal(res, id, title, now),
            res.content_type == ModalContentType::Confirmation,
            res.buttons@.len() == 2,
            button_is(res.buttons@[0], "确定"@, on_confirm, ModalButtonStyle::Primary, true, false, 'y'),
            button_is(res.buttons@[1], "取消"@, Action::GoBack, ModalButtonStyle::Secondary, false, true, 'n'),
            res.data == Some(json_string_object("message"@, message@)),
    {
        let mut buttons: Vec<ModalButton> = Vec::new();
        buttons.push(ModalButton {
            label: String::from_str("确定"),
            action: on_confirm,
            style: ModalButtonStyle::Primary,
            is_default: true,
            is_cancel: false,
            shortcut: Some('y'),
        });
        buttons.push(ModalButton {
            label: String::from_str("取消"),
            action: Action::GoBack,
            style: ModalButtonStyle::Secondary,
            is_default: false,
            is_cancel: true,
            shortcut: Some('n'),
        });
        ModalDialog {
            id,
            title,
            content_type: ModalContentType::Confirmation,
            size: ModalSize::medium(),
            closable: true,
            blocking: true,
            buttons,
            opened_at_ms: now,
            timeout_ms: None,
            on_close: None,
            data: Some(json_object_with("message", message)),
        }
    }

    /// An error dialog opened now, by the system clock, with one "OK" button that is both
    /// the default and the cancel button.
    pub fn error(id: String, title: String, error_message: String) -> (res: Self)
        ensures
            standard_modal(res, id, title, res.opened_at_ms),
            res.content_type == ModalContentType::Error,
            res.buttons@.len() == 1,
            button_is(res.buttons@[0], "确定"@, Action::GoBack, ModalButtonStyle::Danger, true, true, 'o'),
            res.data == Some(json_string_object("error"@, error_message@)),
    {
        Self::error_at(id, title, error_message, clock_now_ms())
    }

    /// An error dialog opened at time `now`, with one "OK" button that is both
    /// the default and the cancel button.
    pub fn error_at(id: String, title: String, error_message: String, now: u64) -> (res: Self)
        ensures
            standard_modal(res, id, title, now),
            res.content_type == ModalContentType::Error,
            res.buttons@.len() == 1,
            button_is(res.buttons@[0], "确定"@, Action::GoBack, ModalButtonStyle::Danger, true, true, 'o'),
            res.data == Some(json_string_object("error"@, error_message@)),
    {
        let mut buttons: Vec<ModalButton> = Vec::new();
        buttons.push(ModalButton {
            label: String::from_str("确定"),
            action: Action::GoBack,
            style: ModalButtonStyle::Danger,
            is_default: true,
            is_cancel: true,
            shortcut: Some('o'),
        });
        ModalDialog {
            id,
            title,
            content_type: ModalContentType::Error,
            size: ModalSize::medium(),
            closable: true,
            blocking: true,
            buttons,
            opened_at_ms: now,
            timeout_ms: None,
            on_close: None,
            data: Some(json_object_with("error", error_message)),
        }
    }

    /// Whether the dialog has timed out by the system clock; one without a
    /// timeout never does.
    pub fn is_timed_out(&self) -> (res: bool)
        ensures
            exists|now: u64| res == #[trigger] self.timed_out_at(now),
            res ==> self.timeout_ms is Some,
    {
        let now = clock_now_ms();
        let res = self.is_timed_out_at(now);
        assert(res == self.timed_out_at(now));
        res
    }

    /// Whether the dialog has timed out at time `now`: it has a timeout and
    /// at least that long has passed since it was opened.
    pub open spec fn timed_out_at(self, now: u64) -> bool {
        match self.timeout_ms {
            Some(t) => crate::error::elapsed_ms(self.opened_at_ms, now) >= t,
            None => false,
        }
    }

    /// Whether the dialog has timed out at time `now`.
    pub fn is_timed_out_at(&self, now: u64) -> (res: bool)
        ensures
            res == self.timed_out_at(now),
    {
        match self.timeout_ms {
            Some(t) => {
                let age: u64 = if now >= self.opened_at_ms { now - self.opened_at_ms } else { 0 };
                age >= t
            },
            None => false,
        }
    }
}

/// What the Esc key can be set to do in a view. `NoAction` does nothing.
#[derive(Debug, PartialEq, Eq)]
pub enum EscAction {
    GoBack,
    CloseModal,
    ClearFocus,
    CancelOperation,
    NoAction,
    Custom(String),
}

impl Clone for EscAction {
    fn clone(&self) -> (res: Self)
        ensures
            res == *self,
    {
        match self {
            EscAction::GoBack => EscAction::GoBack,
            EscAction::CloseModal => EscAction::CloseModal,
            EscAction::ClearFocus => EscAction::ClearFocus,
            EscAction::CancelOperation => EscAction::CancelOperation,
            EscAction::NoAction => EscAction::NoAction,
            EscAction::Custom(s) => EscAction::Custom(s.clone()),
        }
    }
}

/// The Esc action set for `view`: the last one set for it.
pub open spec fn view_behavior(behaviors: Seq<(ViewType, EscAction)>, view: ViewType) -> Option<EscAction>
    decreases behaviors.len(),
{
    if behaviors.len() == 0 {
        None
    } else if behaviors.last().0 == view {
        Some(behaviors.last().1)
    } else {
        view_behavior(behaviors.drop_last(), view)
    }
}

/// What the Esc key does.
#[derive(Debug)]
pub struct EscKeyBehavior {
    pub closes_modals: bool,
    pub navigates_back: bool,
    pub clears_focus: bool,
    pub cancels_operation: bool,
    /// The actions set for particular views.
    pub view_behaviors: Vec<(ViewType, EscAction)>,
}

impl EscKeyBehavior {
    /// Esc closes dialogs, goes back, clears the focus and cancels.
    pub fn default() -> (res: Self)
        ensures
            res.closes_modals && res.navigates_back && res.clears_focus && res.cancels_operation,
            res.view_behaviors@.len() == 0,
    {
        EscKeyBehavior {
            closes_modals: true,
            navigates_back: true,
            clears_focus: true,
            cancels_operation: true,
            view_behaviors: Vec::new(),
        }
    }

    /// Esc only closes dialogs.
    pub fn strict() -> (res: Self)
        ensures
            res.closes_modals && !res.navigates_back && !res.clears_focus && !res.cancels_operation,
            res.view_behaviors@.len() == 0,
    {
        EscKeyBehavior {
            closes_modals: true,
            navigates_back: false,
            clears_focus: false,
            cancels_operation: false,
            view_behaviors: Vec::new(),
        }
    }

    /// The same behavior with `action` set for `view`.
    pub fn with_view_behavior(self, view: ViewType, action: EscAction) -> (res: Self)
        ensures
            res.closes_modals == self.closes_modals,
            res.navigates_back == self.navigates_back,
            res.clears_focus == self.clears_focus,
            res.cancels_operation == self.cancels_operation,
            forall|v: ViewType| #[trigger] view_behavior(res.view_behaviors@, v) == if v == view {
                Some(action)
            } else {
                view_behavior(self.view_behaviors@, v)
            },
    {
        let mut res = self;
        let ghost before = res.view_behaviors@;
        res.view_behaviors.push((view, action));
        assert(res.view_behaviors@.drop_last() =~= before);
        res
    }

    /// The Esc action set for `view`, if any.
    pub fn behavior_for(&self, view: ViewType) -> (res: Option<&EscAction>)
        ensures
            res is None <==> view_behavior(self.view_behaviors@, view) is None,
            res matches Some(e) ==> view_behavior(self.view_behaviors@, view) == Some(*e),
    {
        let entries = &self.view_behaviors;
        let mut i: usize = entries.len();
        assert(entries@.take(i as int) =~= entries@);
        while i > 0
            invariant
                entries@ == self.view_behaviors@,
                i <= entries@.len(),
                view_behavior(entries@, view) == view_behavior(entries@.take(i as int), view),
            decreases i,
        {
            let k = i - 1;
            assert(entries@.take(i as int).drop_last() =~= entries@.take(k as int));
            if entries[k].0 == view {
                return Some(&entries[k].1);
            }
            i = k;
        }
        None
    }
}

/// Kinds of navigation events.
#[derive(Debug, Clone, Copy, PartialEq, Eq, Structural)]
pub enum NavigationEventType {
    ViewChanged,
    ModalOpened,
    ModalClosed,
    BackNavigation,
    NavigationBlocked,
    NavigationError,
}

/// A navigation event, as the history keeps it.
#[derive(Debug, Clone, Copy, PartialEq, Eq, Structural)]
pub struct NavigationEvent {
    /// When it happened, in milliseconds.
    pub timestamp_ms: u64,
    pub event_type: NavigationEventType,
    pub from_view: Option<ViewType>,
    pub to_view: Option<ViewType>,
    pub trigger: NavigationTrigger,
    /// How long it lasted, in milliseconds, for timed events.
    pub duration_ms: Option<u64>,
}

/// The event recorded for a navigation at `now`.
pub open spec fn event_at(
    event_type: NavigationEventType,
    from_view: Option<ViewType>,
    to_view: Option<ViewType>,
    trigger: NavigationTrigger,
    now: u64,
) -> NavigationEvent {
    NavigationEvent { timestamp_ms: now, event_type, from_view, to_view, trigger, duration_ms: None }
}

/// Figures of a navigation stack.
#[derive(Debug, Clone, Copy, PartialEq, Eq, Structural)]
pub struct NavigationStats {
    pub stack_size: usize,
    pub can_go_back: bool,
    pub has_modal: bool,
    pub modal_stack_size: usize,
    pub history_size: usize,
    pub current_view: Option<ViewType>,
}

/// The last view of a sequence, if any.
pub open spec fn last_view(views: Seq<ViewType>) -> Option<ViewType> {
    if views.len() > 0 {
        Some(views.last())
    } else {
        None
    }
}

/// The last dialog of a sequence, if any.
pub open spec fn last_modal(s: Seq<ModalDialog>) -> Option<ModalDialog> {
    if s.len() > 0 {
        Some(s.last())
    } else {
        None
    }
}

/// A sequence of dialogs without its last one.
pub open spec fn drop_last_modal(s: Seq<ModalDialog>) -> Seq<ModalDialog> {
    if s.len() > 0 {
        s.drop_last()
    } else {
        s
    }
}

/// The views shown, the dialogs open over them, and the history of
/// navigation events.
pub struct NavigationStack {
    stack: Vec<NavigationState>,
    max_stack_size: usize,
    current_modal: Option<ModalDialog>,
    modal_stack: Vec<ModalDialog>,
    navigation_history: Vec<NavigationEvent>,
    max_history_size: usize,
}

impl NavigationStack {
    /// The states of the stack, oldest first; the last is the current one.
    pub closed spec fn states(self) -> Seq<NavigationState> {
        self.stack@
    }

    /// The views of the stack, oldest first; the last is the current one.
    pub open spec fn views(self) -> Seq<ViewType> {
        self.states().map_values(|s: NavigationState| s.view)
    }

    /// The view shown, if any.
    pub open spec fn current(self) -> Option<ViewType> {
        last_view(self.views())
    }

    /// The modal dialog shown, if any.
    pub closed spec fn modal(self) -> Option<ModalDialog> {
        self.current_modal
    }

    /// The modal dialogs hidden below the one shown, oldest first.
    pub closed spec fn hidden_modals(self) -> Seq<ModalDialog> {
        self.modal_stack@
    }

    /// The navigation events, oldest first.
    pub closed spec fn history(self) -> Seq<NavigationEvent> {
        self.navigation_history@
    }

    /// The most states kept.
    pub closed spec fn max_stack(self) -> nat {
        self.max_stack_size as nat
    }

    /// The most events kept.
    pub closed spec fn max_history(self) -> nat {
        self.max_history_size as nat
    }

    /// The stack and the history stay within their limits, and dialogs are
    /// hidden only below a dialog shown.
    pub open spec fn well_formed(self) -> bool {
        &&& self.states().len() <= self.max_stack()
        &&& self.history().len() <= self.max_history()
        &&& self.hidden_modals().len() > 0 ==> self.modal() is Some
    }

    /// Whether events can be recorded and states pushed: both limits are at
    /// least one.
    pub open spec fn can_record(self) -> bool {
        self.max_stack() >= 1 && self.max_history() >= 1
    }

    /// An empty stack keeping up to fifty states and a hundred events.
    pub fn new() -> (res: Self)
        ensures
            res.well_formed(),
            res.states().len() == 0,
            res.modal() is None,
            res.hidden_modals().len() == 0,
            res.history().len() == 0,
            res.max_stack() == 50,
            res.max_history() == 100,
    {
        NavigationStack {
            stack: Vec::new(),
            max_stack_size: 50,
            current_modal: None,
            modal_stack: Vec::new(),
            navigation_history: Vec::new(),
            max_history_size: 100,
        }
    }

    /// The view shown, if any.
    pub fn current_view(&self) -> (res: Option<ViewType>)
        ensures
            res == self.current(),
    {
        if self.stack.len() == 0 {
            None
        } else {
            Some(self.stack[self.stack.len() - 1].view)
        }
    }

    /// The current state, if any.
    pub fn current_state(&self) -> (res: Option<&NavigationState>)
        ensures
            res is Some <==> self.states().len() > 0,
            res is Some ==> *res.unwrap() == self.states().last(),
    {
        if self.stack.len() == 0 {
            None
        } else {
            Some(&self.stack[self.stack.len() - 1])
        }
    }

    /// Whether going back is possible: there is an earlier view and no modal
    /// dialog is shown.
    pub fn can_go_back(&self) -> (res: bool)
        ensures
            res == (self.states().len() > 1 && self.modal() is None),
    {
        self.stack.len() > 1 && self.current_modal.is_none()
    }

    /// Records a navigation event, dropping the oldest beyond the limit.
    fn record_navigation_event(
        &mut self,
        event_type: NavigationEventType,
        from_view: Option<ViewType>,
        to_view: Option<ViewType>,
        trigger: NavigationTrigger,
        now: u64,
    )
        requires
            old(self).well_formed(),
            old(self).max_history() >= 1,
        ensures
            final(self).well_formed(),
            final(self).history() == keep_last(
                old(self).history().push(event_at(event_type, from_view, to_view, trigger, now)),
                old(self).max_history(),
            ),
            final(self).states() == old(self).states(),
            final(self).modal() == old(self).modal(),
            final(self).hidden_modals() == old(self).hidden_modals(),
            final(self).max_stack() == old(self).max_stack(),
            final(self).max_history() == old(self).max_history(),
    {
        let event = NavigationEvent {
            timestamp_ms: now,
            event_type,
            from_view,
            to_view,
            trigger,
            duration_ms: None,
        };
        let ghost orig = self.navigation_history@;
        while self.navigation_history.len() >= self.max_history_size
            invariant
                self.max_history_size == old(self).max_history_size,
                self.max_history_size >= 1,
                orig.len() <= self.max_history_size,
                self.navigation_history@.len() <= orig.len(),
                self.navigation_history@ == orig.skip(orig.len() - self.navigation_history@.len()),
                orig.len() == self.max_history_size ==> self.navigation_history@.len() >= self.max_history_size - 1,
                orig.len() < self.max_history_size ==> self.navigation_history@.len() == orig.len(),
                self.stack == old(self).stack,
                self.current_modal == old(self).current_modal,
                self.modal_stack == old(self).modal_stack,
                self.max_stack_size == old(self).max_stack_size,
            decreases self.navigation_history.len(),
        {
            self.navigation_history.remove(0);
        }
        self.navigation_history.push(event);
        assert(self.navigation_history@ =~= keep_last(orig.push(event), self.max_history_size as nat));
    }

    /// Shows `view`, dropping the oldest states beyond the
    /// limit and recording the change.
    pub fn push_state(&mut self, view: ViewType, trigger: NavigationTrigger)
        requires
            old(self).well_formed(),
            old(self).can_record(),
        ensures
            final(self).well_formed(),
            pushed(*old(self), *final(self), view, trigger, final(self).history().last().timestamp_ms),
    {
        self.push_state_at(view, trigger, clock_now_ms())
    }

    /// Shows `view` at time `now` (milliseconds), dropping the oldest states beyond the
    /// limit and recording the change.
    pub fn push_state_at(&mut self, view: ViewType, trigger: NavigationTrigger, now: u64)
        requires
            old(self).well_formed(),
            old(self).can_record(),
        ensures
            final(self).well_formed(),
            pushed(*old(self), *final(self), view, trigger, now),
    {
        let previous_view = self.current_view();
        let state = NavigationState {
            view,
            state_data: None,
            timestamp_ms: now,
            returnable: true,
            context: NavigationContext {
                trigger,
                previous_view,
                user_action: None,
                metadata: Vec::new(),
            },
        };
        let ghost orig = self.stack@;
        while self.stack.len() >= self.max_stack_size
            invariant
                self.max_stack_size == old(self).max_stack_size,
                self.max_stack_size >= 1,
                orig.len() <= self.max_stack_size,
                self.stack@.len() <= orig.len(),
                self.stack@ == orig.skip(orig.len() - self.stack@.len()),
                orig.len() == self.max_stack_size ==> self.stack@.len() >= self.max_stack_size - 1,
                orig.len() < self.max_stack_size ==> self.stack@.len() == orig.len(),
                self.navigation_history == old(self).navigation_history,
                self.max_history_size == old(self).max_history_size,
                self.current_modal == old(self).current_modal,
                self.modal_stack == old(self).modal_stack,
            decreases self.stack.len(),
        {
            self.stack.remove(0);
        }
        self.stack.push(state);
        proof {
            let f = |s: NavigationState| s.view;
            assert(self.stack@ =~= keep_last(orig.push(state), self.max_stack_size as nat));
            lemma_keep_last_map(orig.push(state), self.max_stack_size as nat, f);
            assert(orig.push(state).map_values(f) =~= orig.map_values(f).push(view));
        }
        self.record_navigation_event(
            NavigationEventType::ViewChanged,
            previous_view,
            Some(view),
            trigger,
            now,
        );
    }

    /// Goes back to the previous view and returns it; the last
    /// remaining state is never removed.
    pub fn pop_state(&mut self) -> (res: Option<ViewType>)
        requires
            old(self).well_formed(),
            old(self).can_record(),
        ensures
            final(self).well_formed(),
            popped(*old(self), *final(self), final(self).history().last().timestamp_ms, res),
    {
        self.pop_state_at(clock_now_ms())
    }

    /// Goes back to the previous view at time `now` (milliseconds) and returns it; the last
    /// remaining state is never removed.
    pub fn pop_state_at(&mut self, now: u64) -> (res: Option<ViewType>)
        requires
            old(self).well_formed(),
            old(self).can_record(),
        ensures
            final(self).well_formed(),
            popped(*old(self), *final(self), now, res),
    {
        if self.stack.len() <= 1 {
            return None;
        }
        let current_view = self.current_view();
        self.stack.pop();
        let previous_view = self.current_view();
        proof {
            let f = |s: NavigationState| s.view;
            assert(self.stack@.map_values(f) =~= old(self).stack@.map_values(f).drop_last());
        }
        self.record_navigation_event(
            NavigationEventType::BackNavigation,
            current_view,
            previous_view,
            NavigationTrigger::BackNavigation,
            now,
        );
        previous_view
    }

    /// Opens a modal dialog; the one shown before is kept below
    /// it.
    pub fn open_modal(&mut self, modal: ModalDialog)
        requires
            old(self).well_formed(),
            old(self).can_record(),
        ensures
            final(self).well_formed(),
            modal_opened(*old(self), *final(self), modal, final(self).history().last().timestamp_ms),
    {
        self.open_modal_at(modal, clock_now_ms())
    }

    /// Opens a modal dialog at time `now` (milliseconds); the one shown before is kept below
    /// it.
    pub fn open_modal_at(&mut self, modal: ModalDialog, now: u64)
        requires
            old(self).well_formed(),
            old(self).can_record(),
        ensures
            final(self).well_formed(),
            modal_opened(*old(self), *final(self), modal, now),
    {
        let view = self.current_view();
        self.record_navigation_event(
            NavigationEventType::ModalOpened,
            view,
            None,
            NavigationTrigger::ModalOpened,
            now,
        );
        match self.current_modal.take() {
            Some(m) => {
                self.modal_stack.push(m);
            },
            None => {},
        }
        self.current_modal = Some(modal);
    }

    /// Closes the modal dialog shown, shows the one below it
    /// if any, and returns the action to take on closing.
    pub fn close_modal(&mut self) -> (res: Option<Action>)
        requires
            old(self).well_formed(),
            old(self).can_record(),
        ensures
            final(self).well_formed(),
            modal_closed(*old(self), *final(self), final(self).history().last().timestamp_ms, res),
    {
        self.close_modal_at(clock_now_ms())
    }

    /// Closes the modal dialog shown at time `now` (milliseconds), shows the
    /// one below it if any, and returns the action to take on closing.
    pub fn close_modal_at(&mut self, now: u64) -> (res: Option<Action>)
        requires
            old(self).well_formed(),
            old(self).can_record(),
        ensures
            final(self).well_formed(),
            modal_closed(*old(self), *final(self), now, res),
    {
        if self.current_modal.is_none() {
            return None;
        }
        let view = self.current_view();
        self.record_navigation_event(
            NavigationEventType::ModalClosed,
            None,
            view,
            NavigationTrigger::ModalClosed,
            now,
        );
        let modal = self.current_modal.take().unwrap();
        if self.modal_stack.len() > 0 {
            let previous = self.modal_stack.pop().unwrap();
            self.current_modal = Some(previous);
        }
        modal.on_close
    }

    /// The modal dialog shown, if any.
    pub fn current_modal(&self) -> (res: Option<&ModalDialog>)
        ensures
            res is Some <==> self.modal() is Some,
            res is Some ==> *res.unwrap() == self.modal().unwrap(),
    {
        self.current_modal.as_ref()
    }

    /// Whether a modal dialog is shown.
    pub fn has_modal(&self) -> (res: bool)
        ensures
            res == self.modal() is Some,
    {
        self.current_modal.is_some()
    }

    /// What Esc does, in order of priority: close a closable
    /// modal dialog, go back to the previous view, clear the focus, or what
    /// is set for the current view.
    pub fn handle_esc_key(&mut self, behavior: &EscKeyBehavior) -> (res: Option<Action>)
        requires
            old(self).well_formed(),
            old(self).can_record(),
        ensures
            final(self).well_formed(),
            esc_outcome(*old(self), *final(self), *behavior, res, final(self).history().last().timestamp_ms),
    {
        self.handle_esc_key_at(behavior, clock_now_ms())
    }

    /// What Esc does at time `now` (milliseconds), in order of priority: close a closable
    /// modal dialog, go back to the previous view, clear the focus, or what
    /// is set for the current view.
    pub fn handle_esc_key_at(&mut self, behavior: &EscKeyBehavior, now: u64) -> (res: Option<Action>)
        requires
            old(self).well_formed(),
            old(self).can_record(),
        ensures
            final(self).well_formed(),
            esc_outcome(*old(self), *final(self), *behavior, res, now),
    {
        if behavior.closes_modals {
            let closable = match &self.current_modal {
                Some(m) => m.closable,
                None => false,
            };
            if closable {
                return self.close_modal_at(now);
            }
        }
        if behavior.navigates_back && self.can_go_back() {
            match self.pop_state_at(now) {
                Some(previous) => {
                    return Some(Action::Navigate(previous));
                },
                None => {},
            }
        }
        if behavior.clears_focus {
            return Some(Action::GoBack);
        }
        match self.current_view() {
            Some(view) => match behavior.behavior_for(view) {
                Some(esc) => Some(esc_action_to_action(esc)),
                None => None,
            },
            None => None,
        }
    }

    /// Statistics of this stack.
    pub fn get_navigation_stats(&self) -> (res: NavigationStats)
        ensures
            res.stack_size == self.states().len(),
            res.can_go_back == (self.states().len() > 1 && self.modal() is None),
            res.has_modal == self.modal() is Some,
            res.modal_stack_size == self.hidden_modals().len(),
            res.history_size == self.history().len(),
            res.current_view == self.current(),
    {
        NavigationStats {
            stack_size: self.stack.len(),
            can_go_back: self.can_go_back(),
            has_modal: self.has_modal(),
            modal_stack_size: self.modal_stack.len(),
            history_size: self.navigation_history.len(),
            current_view: self.current_view(),
        }
    }

    /// Forgets the navigation events.
    pub fn clear_history(&mut self)
        requires
            old(self).well_formed(),
        ensures
            final(self).well_formed(),
            final(self).history().len() == 0,
            final(self).states() == old(self).states(),
            final(self).modal() == old(self).modal(),
            final(self).hidden_modals() == old(self).hidden_modals(),
            final(self).max_stack() == old(self).max_stack(),
            final(self).max_history() == old(self).max_history(),
    {
        self.navigation_history.clear();
    }

    /// The navigation events, oldest first.
    pub fn get_history(&self) -> (res: &Vec<NavigationEvent>)
        ensures
            res@ == self.history(),
    {
        &self.navigation_history
    }

    /// Sets how many states are kept, dropping the oldest beyond it.
    pub fn set_max_stack_size(&mut self, size: usize)
        requires
            old(self).well_formed(),
        ensures
            final(self).well_formed(),
            final(self).max_stack() == size,
            final(self).states() == keep_last(old(self).states(), size as nat),
            final(self).history() == old(self).history(),
            final(self).modal() == old(self).modal(),
            final(self).hidden_modals() == old(self).hidden_modals(),
            final(self).max_history() == old(self).max_history(),
    {
        self.max_stack_size = size;
        let ghost orig = self.stack@;
        while self.stack.len() > self.max_stack_size
            invariant
                self.max_stack_size == size,
                self.stack@.len() <= orig.len(),
                self.stack@ == orig.skip(orig.len() - self.stack@.len()),
                orig.len() > size ==> self.stack@.len() >= size,
                orig.len() <= size ==> self.stack@.len() == orig.len(),
                self.navigation_history == old(self).navigation_history,
                self.max_history_size == old(self).max_history_size,
                self.current_modal == old(self).current_modal,
                self.modal_stack == old(self).modal_stack,
            decreases self.stack.len(),
        {
            self.stack.remove(0);
        }
        assert(self.stack@ =~= keep_last(orig, size as nat));
    }

    /// Sets how many events are kept, dropping the oldest beyond it.
    pub fn set_max_history_size(&mut self, size: usize)
        requires
            old(self).well_formed(),
        ensures
            final(self).well_formed(),
            final(self).max_history() == size,
            final(self).history() == keep_last(old(self).history(), size as nat),
            final(self).states() == old(self).states(),
            final(self).modal() == old(self).modal(),
            final(self).hidden_modals() == old(self).hidden_modals(),
            final(self).max_stack() == old(self).max_stack(),
    {
        self.max_history_size = size;
        let ghost orig = self.navigation_history@;
        while self.navigation_history.len() > self.max_history_size
            invariant
                self.max_history_size == size,
                self.navigation_history@.len() <= orig.len(),
                self.navigation_history@ == orig.skip(orig.len() - self.navigation_history@.len()),
                orig.len() > size ==> self.navigation_history@.len() >= size,
                orig.len() <= size ==> self.navigation_history@.len() == orig.len(),
                self.stack == old(self).stack,
                self.max_stack_size == old(self).max_stack_size,
                self.current_modal == old(self).current_modal,
                self.modal_stack == old(self).modal_stack,
            decreases self.navigation_history.len(),
        {
            self.navigation_history.remove(0);
        }
        assert(self.navigation_history@ =~= keep_last(orig, size as nat));
    }

    /// Empties the stack, the dialogs and the history; the limits stay.
    pub fn reset(&mut self)
        ensures
            final(self).well_formed(),
            final(self).states().len() == 0,
            final(self).modal() is None,
            final(self).hidden_modals().len() == 0,
            final(self).history().len() == 0,
            final(self).max_stack() == old(self).max_stack(),
            final(self).max_history() == old(self).max_history(),
    {
        self.stack.clear();
        self.current_modal = None;
        self.modal_stack.clear();
        self.navigation_history.clear();
    }
}

/// What showing `view` at `now` does, from `old` to `new`: the view goes
/// on top of the stack, the oldest states beyond the limit are dropped, and
/// the change is recorded.
pub open spec fn pushed(old: NavigationStack, new: NavigationStack, view: ViewType, trigger: NavigationTrigger, now: u64) -> bool {
    &&& new.views() == keep_last(old.views().push(view), old.max_stack())
    &&& new.current() == Some(view)
    &&& new.states().last().view == view
    &&& new.states().last().timestamp_ms == now
    &&& new.states().last().returnable
    &&& new.states().last().state_data is None
    &&& new.states().last().context.trigger == trigger
    &&& new.states().last().context.previous_view == old.current()
    &&& new.states().last().context.user_action is None
    &&& new.states().last().context.metadata@.len() == 0
    &&& new.history() == keep_last(
        old.history().push(event_at(NavigationEventType::ViewChanged, old.current(), Some(view), trigger, now)),
        old.max_history(),
    )
    &&& new.modal() == old.modal()
    &&& new.hidden_modals() == old.hidden_modals()
    &&& new.max_stack() == old.max_stack()
    &&& new.max_history() == old.max_history()
}

/// What going back at `now` does, from `old` to `new` with result `res`:
/// with one state or none, nothing; else the top state goes, the change is
/// recorded, and the view below is returned.
pub open spec fn popped(old: NavigationStack, new: NavigationStack, now: u64, res: Option<ViewType>) -> bool {
    &&& old.states().len() <= 1 ==> res is None && new == old
    &&& old.states().len() > 1 ==> {
        &&& new.states() == old.states().drop_last()
        &&& res == new.current()
        &&& res == Some(old.views()[old.views().len() - 2])
        &&& new.history() == keep_last(
            old.history().push(
                event_at(NavigationEventType::BackNavigation, old.current(), res, NavigationTrigger::BackNavigation, now),
            ),
            old.max_history(),
        )
    }
    &&& new.modal() == old.modal()
    &&& new.hidden_modals() == old.hidden_modals()
    &&& new.max_stack() == old.max_stack()
    &&& new.max_history() == old.max_history()
}

/// What opening `modal` at `now` does, from `old` to `new`: it is shown,
/// the one shown before is kept below it, and the opening is recorded.
pub open spec fn modal_opened(old: NavigationStack, new: NavigationStack, modal: ModalDialog, now: u64) -> bool {
    &&& new.modal() == Some(modal)
    &&& new.hidden_modals() == match old.modal() {
        Some(m) => old.hidden_modals().push(m),
        None => old.hidden_modals(),
    }
    &&& new.states() == old.states()
    &&& new.history() == keep_last(
        old.history().push(
            event_at(NavigationEventType::ModalOpened, old.current(), None, NavigationTrigger::ModalOpened, now),
        ),
        old.max_history(),
    )
    &&& new.max_stack() == old.max_stack()
    &&& new.max_history() == old.max_history()
}

/// What closing the dialog shown at `now` does, from `old` to `new` with
/// result `res`: without a dialog, nothing; else the one below it is shown,
/// the closing is recorded, and its closing action is returned.
pub open spec fn modal_closed(old: NavigationStack, new: NavigationStack, now: u64, res: Option<Action>) -> bool {
    match old.modal() {
        Some(m) => {
            &&& res == m.on_close
            &&& new.modal() == last_modal(old.hidden_modals())
            &&& new.hidden_modals() == drop_last_modal(old.hidden_modals())
            &&& new.states() == old.states()
            &&& new.history() == keep_last(
                old.history().push(
                    event_at(NavigationEventType::ModalClosed, None, old.current(), NavigationTrigger::ModalClosed, now),
                ),
                old.max_history(),
            )
            &&& new.max_stack() == old.max_stack()
            &&& new.max_history() == old.max_history()
        },
        None => res is None && new == old,
    }
}

/// Whether `a` is the action that the Esc action `e` stands for.
pub open spec fn is_esc_action(e: EscAction, a: Action) -> bool {
    match e {
        EscAction::GoBack | EscAction::CloseModal | EscAction::ClearFocus | EscAction::CancelOperation => a
            == Action::GoBack,
        EscAction::NoAction => a == Action::NoAction,
        EscAction::Custom(name) => a matches Action::Custom(n, _) && n@ == name@,
    }
}

/// The action that an Esc action stands for: going back for the first
/// four, nothing for `NoAction`, and a custom action with a JSON `null`.
pub fn esc_action_to_action(e: &EscAction) -> (res: Action)
    ensures
        is_esc_action(*e, res),
{
    match e {
        EscAction::GoBack => Action::GoBack,
        EscAction::CloseModal => Action::GoBack,
        EscAction::ClearFocus => Action::GoBack,
        EscAction::CancelOperation => Action::GoBack,
        EscAction::NoAction => Action::NoAction,
        EscAction::Custom(name) => Action::Custom(name.clone(), json_null()),
    }
}

/// What Esc does, from `old` to `new` with result `res` at `now`: close a
/// closable dialog, else go back, else clear the focus, else what is set for
/// the current view.
pub open spec fn esc_outcome(
    old: NavigationStack,
    new: NavigationStack,
    behavior: EscKeyBehavior,
    res: Option<Action>,
    now: u64,
) -> bool {
    if behavior.closes_modals && old.modal() is Some && old.modal().unwrap().closable {
        modal_closed(old, new, now, res)
    } else if behavior.navigates_back && old.states().len() > 1 && old.modal() is None {
        &&& new.states() == old.states().drop_last()
        &&& res == Some(Action::Navigate(old.views()[old.views().len() - 2]))
        &&& popped(old, new, now, Some(old.views()[old.views().len() - 2]))
    } else {
        &&& new == old
        &&& if behavior.clears_focus {
            res == Some(Action::GoBack)
        } else {
            match old.current() {
                Some(v) => match view_behavior(behavior.view_behaviors@, v) {
                    Some(e) => res is Some && is_esc_action(e, res.unwrap()),
                    None => res is None,
                },
                None => res is None,
            }
        }
    }
}

/// Keeping the last elements commutes with taking the views.
pub proof fn lemma_keep_last_map<A, B>(s: Seq<A>, max: nat, f: spec_fn(A) -> B)
    ensures
        keep_last(s, max).map_values(f) == keep_last(s.map_values(f), max),
{
    assert(keep_last(s, max).map_values(f) =~= keep_last(s.map_values(f), max));
}

/// Going back right after showing a view returns to the view shown before,
/// with the views of the stack as they were, when the stack had room for
/// one more state: `mid` is what showing `view` made of `old`, `new` what
/// going back made of `mid`.
pub proof fn law_back_after_push(
    old: NavigationStack,
    mid: NavigationStack,
    new: NavigationStack,
    view: ViewType,
    trigger: NavigationTrigger,
    t1: u64,
    t2: u64,
    res: Option<ViewType>,
)
    requires
        old.well_formed(),
        old.current() is Some,
        old.states().len() < old.max_stack(),
        pushed(old, mid, view, trigger, t1),
        popped(mid, new, t2, res),
    ensures
        res == old.current(),
        new.views() == old.views(),
{
    let f = |s: NavigationState| s.view;
    assert(old.views().push(view).len() <= old.max_stack());
    assert(mid.views() == old.views().push(view));
    assert(mid.states().len() == mid.views().len());
    assert(new.states().map_values(f) =~= mid.states().map_values(f).drop_last());
}

/// Closing a dialog right after opening it shows again what was shown
/// before and returns the dialog's closing action: `mid` is what opening
/// `modal` made of `old`, `new` what closing made of `mid`.
pub proof fn law_close_after_open(
    old: NavigationStack,
    mid: NavigationStack,
    new: NavigationStack,
    modal: ModalDialog,
    t1: u64,
    t2: u64,
    res: Option<Action>,
)
    requires
        old.well_formed(),
        modal_opened(old, mid, modal, t1),
        modal_closed(mid, new, t2, res),
    ensures
        res == modal.on_close,
        new.modal() == old.modal(),
        new.hidden_modals() == old.hidden_modals(),
        new.states() == old.states(),
{
    match old.modal() {
        Some(m) => {
            assert(old.hidden_modals().push(m).drop_last() =~= old.hidden_modals());
        },
        None => {},
    }
}

} // verus!
