//! Which widget has the keyboard focus, and moving it with the keyboard.

use vstd::prelude::*;
use vstd::string::*;
use crate::action::{Action, ViewType};
use crate::error::{clock_now_ms, keep_last};
use crate::keys::{KeyCode, KeyEvent, MOD_NONE, MOD_SHIFT};
use crate::widget::{WidgetId, names, copy_ids};
use crate::feedback::{keep_where, lemma_flags_match, lemma_keep_where_len, remove_flagged};

verus! {

/// How a widget can receive the focus.
#[derive(Debug)]
pub struct FocusCapability {
    pub focusable: bool,
    /// Reached with Tab.
    pub tab_navigable: bool,
    /// Reached with the arrow keys.
    pub arrow_navigable: bool,
    /// Further keys that move the focus to it.
    pub custom_keys: Vec<KeyCode>,
    /// Widgets with a higher priority get the focus first.
    pub priority: i32,
    /// Whether moving past the last widget comes back to the first.
    pub wrap_navigation: bool,
}

impl Clone for FocusCapability {
    fn clone(&self) -> (res: Self)
        ensures
            res.equivalent(*self),
    {
        let keys = self.custom_keys.clone();
        assert(keys@ =~= self.custom_keys@);
        FocusCapability {
            focusable: self.focusable,
            tab_navigable: self.tab_navigable,
            arrow_navigable: self.arrow_navigable,
            custom_keys: keys,
            priority: self.priority,
            wrap_navigation: self.wrap_navigation,
        }
    }
}

impl FocusCapability {
    /// Whether two capabilities hold the same values, the keys compared by
    /// their contents.
    pub open spec fn equivalent(self, other: Self) -> bool {
        &&& self.focusable == other.focusable
        &&& self.tab_navigable == other.tab_navigable
        &&& self.arrow_navigable == other.arrow_navigable
        &&& self.custom_keys@ == other.custom_keys@
        &&& self.priority == other.priority
        &&& self.wrap_navigation == other.wrap_navigation
    }

    /// A widget that takes the focus by every means, with priority zero, that
    /// wraps around.
    pub fn new() -> (res: Self)
        ensures
            res.focusable && res.tab_navigable && res.arrow_navigable,
            res.custom_keys@.len() == 0,
            res.priority == 0,
            res.wrap_navigation,
    {
        FocusCapability {
            focusable: true,
            tab_navigable: true,
            arrow_navigable: true,
            custom_keys: Vec::new(),
            priority: 0,
            wrap_navigation: true,
        }
    }

    /// A widget that never takes the focus.
    pub fn none() -> (res: Self)
        ensures
            !res.focusable && !res.tab_navigable && !res.arrow_navigable,
            res.custom_keys@.len() == 0,
            res.priority == 0,
            !res.wrap_navigation,
    {
        FocusCapability {
            focusable: false,
            tab_navigable: false,
            arrow_navigable: false,
            custom_keys: Vec::new(),
            priority: 0,
            wrap_navigation: false,
        }
    }

    /// A widget with the given means of taking the focus, priority zero, that
    /// wraps around.
    pub fn custom(focusable: bool, tab_navigable: bool, arrow_navigable: bool) -> (res: Self)
        ensures
            res.focusable == focusable,
            res.tab_navigable == tab_navigable,
            res.arrow_navigable == arrow_navigable,
            res.custom_keys@.len() == 0,
            res.priority == 0,
            res.wrap_navigation,
    {
        FocusCapability {
            focusable,
            tab_navigable,
            arrow_navigable,
            custom_keys: Vec::new(),
            priority: 0,
            wrap_navigation: true,
        }
    }

    /// This capability with another priority.
    pub fn with_priority(self, priority: i32) -> (res: Self)
        ensures
            res == (FocusCapability { priority, ..self }),
    {
        let mut c = self;
        c.priority = priority;
        c
    }

    /// This capability with one more key.
    pub fn with_custom_key(self, key: KeyCode) -> (res: Self)
        ensures
            res.custom_keys@ == self.custom_keys@.push(key),
            res.focusable == self.focusable,
            res.tab_navigable == self.tab_navigable,
            res.arrow_navigable == self.arrow_navigable,
            res.priority == self.priority,
            res.wrap_navigation == self.wrap_navigation,
    {
        let mut c = self;
        c.custom_keys.push(key);
        c
    }

    /// This capability with wrapping set as given.
    pub fn with_wrap_navigation(self, wrap: bool) -> (res: Self)
        ensures
            res == (FocusCapability { wrap_navigation: wrap, ..self }),
    {
        let mut c = self;
        c.wrap_navigation = wrap;
        c
    }
}

/// Arrow key directions.
#[derive(Debug, Clone, Copy, PartialEq, Eq, Structural)]
pub enum ArrowDirection {
    Up,
    Down,
    Left,
    Right,
}

/// What moved the focus.
#[derive(Debug, Clone, Copy, PartialEq, Eq, Structural)]
pub enum FocusTrigger {
    Tab,
    ShiftTab,
    Arrow(ArrowDirection),
    Direct,
    Mouse,
    Programmatic,
    ViewChange,
}

/// A change of focus, handed to the focus listeners.
#[derive(Debug)]
pub struct FocusChangeEvent {
    pub previous_focus: Option<WidgetId>,
    pub new_focus: Option<WidgetId>,
    /// When it happened, in milliseconds.
    pub timestamp_ms: u64,
    pub trigger: FocusTrigger,
}

/// Told of each change of focus; the application runs the listeners with
/// the changes the focus manager queues.
pub trait FocusListener {
    /// Called for a change of focus.
    fn on_focus_change(&mut self, event: &FocusChangeEvent);

    /// The listener's name.
    fn name(&self) -> &str;
}

/// A listener that only has a name: the application logs the changes it is
/// told of.
pub struct LoggingFocusListener {
    name: String,
}

impl LoggingFocusListener {
    /// The listener's name.
    pub closed spec fn listener_name(self) -> Seq<char> {
        self.name@
    }

    /// A listener named `name`.
    pub fn new(name: String) -> (res: Self)
        ensures
            res.listener_name() == name@,
    {
        LoggingFocusListener { name }
    }
}

impl FocusListener for LoggingFocusListener {
    fn on_focus_change(&mut self, event: &FocusChangeEvent) {
    }

    fn name(&self) -> (res: &str)
        ensures
            res@ == self.listener_name(),
    {
        self.name.as_str()
    }
}

/// The keys that move the focus.
#[derive(Debug)]
pub enum NavigationMode {
    /// Tab, Shift+Tab and the arrows.
    Standard,
    /// The h, j, k and l keys.
    Vim,
    /// Control combinations.
    Emacs,
    /// Keys chosen by the user, by name.
    Custom(Vec<(String, String)>),
}

/// What a navigation key asks for.
#[derive(Debug, Clone, Copy, PartialEq, Eq, Structural)]
pub enum NavigationAction {
    FocusNext,
    FocusPrevious,
    FocusUp,
    FocusDown,
    FocusLeft,
    FocusRight,
    FocusFirst,
    FocusLast,
    FocusBack,
    ClearFocus,
    LockFocus,
    UnlockFocus,
}

/// How focus navigation behaves.
#[derive(Debug)]
pub struct NavigationConfig {
    pub mode: NavigationMode,
    pub wrap_focus: bool,
    pub remember_history: bool,
    /// How long a change of focus is animated, in milliseconds.
    pub animation_duration_ms: u64,
    pub show_focus_indicators: bool,
    /// Further keys and what they ask for; a later entry for a key replaces
    /// an earlier one.
    pub custom_bindings: Vec<(KeyCode, NavigationAction)>,
}

/// Whether `c` is the standard configuration apart from its mode and keys.
pub open spec fn standard_navigation(c: NavigationConfig) -> bool {
    &&& c.wrap_focus
    &&& c.remember_history
    &&& c.animation_duration_ms == 150
    &&& c.show_focus_indicators
}

impl NavigationConfig {
    /// Tab, Shift+Tab and the arrows, wrapping, with history, animated for
    /// 150 ms, with indicators and no further keys.
    pub fn new() -> (res: Self)
        ensures
            res.mode is Standard,
            standard_navigation(res),
            res.custom_bindings@.len() == 0,
    {
        NavigationConfig {
            mode: NavigationMode::Standard,
            wrap_focus: true,
            remember_history: true,
            animation_duration_ms: 150,
            show_focus_indicators: true,
            custom_bindings: Vec::new(),
        }
    }

    /// The standard configuration in Vim mode, with h, j, k and l moving
    /// left, down, up and right, g to the first widget and G to the last.
    pub fn vim() -> (res: Self)
        ensures
            res.mode is Vim,
            standard_navigation(res),
            res.custom_bindings@ == seq![
                (KeyCode::Char('h'), NavigationAction::FocusLeft),
                (KeyCode::Char('j'), NavigationAction::FocusDown),
                (KeyCode::Char('k'), NavigationAction::FocusUp),
                (KeyCode::Char('l'), NavigationAction::FocusRight),
                (KeyCode::Char('g'), NavigationAction::FocusFirst),
                (KeyCode::Char('G'), NavigationAction::FocusLast),
            ],
    {
        let mut config = Self::new();
        config.mode = NavigationMode::Vim;
        config.custom_bindings.push((KeyCode::Char('h'), NavigationAction::FocusLeft));
        config.custom_bindings.push((KeyCode::Char('j'), NavigationAction::FocusDown));
        config.custom_bindings.push((KeyCode::Char('k'), NavigationAction::FocusUp));
        config.custom_bindings.push((KeyCode::Char('l'), NavigationAction::FocusRight));
        config.custom_bindings.push((KeyCode::Char('g'), NavigationAction::FocusFirst));
        config.custom_bindings.push((KeyCode::Char('G'), NavigationAction::FocusLast));
        assert(config.custom_bindings@ =~= seq![
            (KeyCode::Char('h'), NavigationAction::FocusLeft),
            (KeyCode::Char('j'), NavigationAction::FocusDown),
            (KeyCode::Char('k'), NavigationAction::FocusUp),
            (KeyCode::Char('l'), NavigationAction::FocusRight),
            (KeyCode::Char('g'), NavigationAction::FocusFirst),
            (KeyCode::Char('G'), NavigationAction::FocusLast),
        ]);
        config
    }

    /// The standard configuration in Emacs mode.
    pub fn emacs() -> (res: Self)
        ensures
            res.mode is Emacs,
            standard_navigation(res),
            res.custom_bindings@.len() == 0,
    {
        let mut config = Self::new();
        config.mode = NavigationMode::Emacs;
        config
    }
}

/// The name of an optional widget.
pub open spec fn opt_name(w: Option<WidgetId>) -> Option<Seq<char>> {
    match w {
        Some(id) => Some(id.name()),
        None => None,
    }
}

/// The first position of `x` in `s`, from `start` on.
pub open spec fn position_of(s: Seq<Seq<char>>, x: Seq<char>, start: int) -> Option<int>
    decreases s.len() - start,
{
    if start < 0 || start >= s.len() {
        None
    } else if s[start] == x {
        Some(start)
    } else {
        position_of(s, x, start + 1)
    }
}

/// A position found is a position of `x`.
pub proof fn lemma_position_of(s: Seq<Seq<char>>, x: Seq<char>, start: int)
    requires
        0 <= start,
    ensures
        position_of(s, x, start) matches Some(i) ==> start <= i < s.len() && s[i] == x,
        position_of(s, x, start) is None ==> forall|k: int| start <= k < s.len() ==> s[k] != x,
    decreases s.len() - start,
{
    if 0 <= start < s.len() && s[start] != x {
        lemma_position_of(s, x, start + 1);
    }
}

/// The position of `x` in `ids`, the first one.
pub fn find_id(ids: &Vec<WidgetId>, x: &WidgetId) -> (res: Option<usize>)
    ensures
        res matches Some(i) ==> position_of(names(ids@), x.name(), 0) == Some(i as int),
        res is None ==> position_of(names(ids@), x.name(), 0) is None,
        res matches Some(i) ==> i < ids@.len(),
{
    proof {
        lemma_position_of(names(ids@), x.name(), 0);
    }
    let mut i: usize = 0;
    while i < ids.len()
        invariant
            i <= ids@.len(),
            position_of(names(ids@), x.name(), 0) == position_of(names(ids@), x.name(), i as int),
        decreases ids@.len() - i,
    {
        if ids[i].same_as(x) {
            return Some(i);
        }
        i = i + 1;
    }
    None
}

/// The capability recorded for the widget named `name`: the last entry for
/// it.
pub open spec fn capability_in(
    entries: Seq<(WidgetId, FocusCapability)>,
    name: Seq<char>,
) -> Option<FocusCapability>
    decreases entries.len(),
{
    if entries.len() == 0 {
        None
    } else if entries.last().0.name() == name {
        Some(entries.last().1)
    } else {
        capability_in(entries.drop_last(), name)
    }
}

/// The focus order recorded for `view`: the last entry for it.
pub open spec fn order_in(entries: Seq<(ViewType, Vec<WidgetId>)>, view: ViewType) -> Option<Seq<Seq<char>>>
    decreases entries.len(),
{
    if entries.len() == 0 {
        None
    } else if entries.last().0 == view {
        Some(names(entries.last().1@))
    } else {
        order_in(entries.drop_last(), view)
    }
}

/// Whether a widget may take the focus: it is registered and focusable.
pub open spec fn may_focus(entries: Seq<(WidgetId, FocusCapability)>, name: Seq<char>) -> bool {
    capability_in(entries, name) matches Some(c) && c.focusable
}

/// What a focus listener is told of a change: the widgets before and after,
/// the time and the trigger.
pub open spec fn event_view(e: FocusChangeEvent) -> (Option<Seq<char>>, Option<Seq<char>>, u64, FocusTrigger) {
    (opt_name(e.previous_focus), opt_name(e.new_focus), e.timestamp_ms, e.trigger)
}

/// Statistics of a focus manager.
#[derive(Debug)]
pub struct FocusStats {
    pub current_focus: Option<WidgetId>,
    pub focus_history_size: usize,
    pub registered_widgets: usize,
    pub focus_orders_count: usize,
    pub is_locked: bool,
    /// When the focus last changed, in milliseconds.
    pub last_change_ms: Option<u64>,
    pub listeners_count: usize,
}

/// Keeps track of the focused widget, the focus history, the focusable
/// widgets and the focus order of each view. Changes of focus are queued for
/// the focus listeners, which the application runs.
pub struct FocusManager {
    current_focus: Option<WidgetId>,
    focus_history: Vec<WidgetId>,
    max_history: usize,
    focus_orders: Vec<(ViewType, Vec<WidgetId>)>,
    focusable_widgets: Vec<(WidgetId, FocusCapability)>,
    last_focus_change_ms: Option<u64>,
    focus_locked: bool,
    lock_reason: Option<String>,
    pending_events: Vec<FocusChangeEvent>,
}

impl FocusManager {
    /// The name of the focused widget, if any.
    pub closed spec fn focus(self) -> Option<Seq<char>> {
        opt_name(self.current_focus)
    }

    /// The widgets focused before, oldest first.
    pub closed spec fn history(self) -> Seq<Seq<char>> {
        names(self.focus_history@)
    }

    /// The most widgets kept in the history.
    pub closed spec fn max_history(self) -> nat {
        self.max_history as nat
    }

    /// The registered widgets with their capabilities, in the order they
    /// were registered; later entries replace earlier ones.
    pub closed spec fn registry(self) -> Seq<(WidgetId, FocusCapability)> {
        self.focusable_widgets@
    }

    /// The focus orders of the views; later entries replace earlier ones.
    pub closed spec fn orders(self) -> Seq<(ViewType, Vec<WidgetId>)> {
        self.focus_orders@
    }

    /// The capability of the widget named `name`, if registered.
    pub open spec fn capability(self, name: Seq<char>) -> Option<FocusCapability> {
        capability_in(self.registry(), name)
    }

    /// The focus order of `view`, if set.
    pub open spec fn order(self, view: ViewType) -> Option<Seq<Seq<char>>> {
        order_in(self.orders(), view)
    }

    /// Whether the focus is locked.
    pub closed spec fn locked(self) -> bool {
        self.focus_locked
    }

    /// Why the focus is locked, if a reason was given.
    pub closed spec fn reason(self) -> Option<String> {
        self.lock_reason
    }

    /// When the focus last changed, in milliseconds.
    pub closed spec fn last_change(self) -> Option<u64> {
        self.last_focus_change_ms
    }

    /// The changes of focus not yet handed to the listeners, oldest first.
    pub closed spec fn events(self) -> Seq<(Option<Seq<char>>, Option<Seq<char>>, u64, FocusTrigger)> {
        self.pending_events@.map_values(|e: FocusChangeEvent| event_view(e))
    }

    /// The history stays within its limit.
    pub closed spec fn well_formed(self) -> bool {
        self.focus_history@.len() <= self.max_history
    }

    /// Whether two managers have the same registry, orders, lock and history
    /// limit.
    pub closed spec fn same_setup(self, other: Self) -> bool {
        &&& self.focusable_widgets == other.focusable_widgets
        &&& self.focus_orders == other.focus_orders
        &&& self.focus_locked == other.focus_locked
        &&& self.lock_reason == other.lock_reason
        &&& self.max_history == other.max_history
    }

    /// A manager with no focus, no widgets and a history of up to ten
    /// widgets.
    pub fn new() -> (res: Self)
        ensures
            res.well_formed(),
            res.focus() is None,
            res.history().len() == 0,
            res.max_history() == 10,
            res.registry().len() == 0,
            res.orders().len() == 0,
            !res.locked(),
            res.reason() is None,
            res.last_change() is None,
            res.events().len() == 0,
    {
        FocusManager {
            current_focus: None,
            focus_history: Vec::new(),
            max_history: 10,
            focus_orders: Vec::new(),
            focusable_widgets: Vec::new(),
            last_focus_change_ms: None,
            focus_locked: false,
            lock_reason: None,
            pending_events: Vec::new(),
        }
    }

    /// The position of the last registry entry of `id`.
    fn find_capability(&self, id: &WidgetId) -> (res: Option<usize>)
        ensures
            res matches Some(i) ==> i < self.registry().len() && self.registry()[i as int].0.name()
                == id.name() && capability_in(self.registry(), id.name()) == Some(
                self.registry()[i as int].1,
            ),
            res is None ==> capability_in(self.registry(), id.name()) is None,
    {
        let mut i: usize = self.focusable_widgets.len();
        assert(self.focusable_widgets@.take(i as int) =~= self.focusable_widgets@);
        while i > 0
            invariant
                i <= self.focusable_widgets@.len(),
                capability_in(self.focusable_widgets@, id.name()) == capability_in(
                    self.focusable_widgets@.take(i as int),
                    id.name(),
                ),
            decreases i,
        {
            assert(self.focusable_widgets@.take(i as int).drop_last() =~= self.focusable_widgets@.take(
                i - 1,
            ));
            if self.focusable_widgets[i - 1].0.same_as(id) {
                return Some(i - 1);
            }
            i = i - 1;
        }
        None
    }

    /// The capability of a widget, if registered.
    pub fn get_widget_capability(&self, id: &WidgetId) -> (res: Option<&FocusCapability>)
        ensures
            res is Some <==> self.capability(id.name()) is Some,
            res is Some ==> *res.unwrap() == self.capability(id.name()).unwrap(),
    {
        match self.find_capability(id) {
            Some(i) => Some(&self.focusable_widgets[i].1),
            None => None,
        }
    }

    /// Whether a widget is registered and focusable.
    pub fn is_widget_focusable(&self, id: &WidgetId) -> (res: bool)
        ensures
            res == may_focus(self.registry(), id.name()),
    {
        match self.find_capability(id) {
            Some(i) => self.focusable_widgets[i].1.focusable,
            None => false,
        }
    }

    /// Removes the registry entries of the widget named like `id`.
    fn remove_capabilities(&mut self, id: &WidgetId)
        ensures
            final(self).registry() == registry_without(old(self).registry(), id.name()),
            final(self).current_focus == old(self).current_focus,
            final(self).focus_history == old(self).focus_history,
            final(self).max_history == old(self).max_history,
            final(self).focus_orders == old(self).focus_orders,
            final(self).last_focus_change_ms == old(self).last_focus_change_ms,
            final(self).focus_locked == old(self).focus_locked,
            final(self).lock_reason == old(self).lock_reason,
            final(self).pending_events == old(self).pending_events,
    {
        let ghost keep = |e: (WidgetId, FocusCapability)| e.0.name() != id.name();
        let mut drop: Vec<bool> = Vec::new();
        let mut k: usize = 0;
        while k < self.focusable_widgets.len()
            invariant
                k <= self.focusable_widgets@.len(),
                drop@.len() == k,
                forall|m: int| 0 <= m < k ==> drop@[m] == !keep(self.focusable_widgets@[m]),
                keep == (|e: (WidgetId, FocusCapability)| e.0.name() != id.name()),
            decreases self.focusable_widgets@.len() - k,
        {
            drop.push(self.focusable_widgets[k].0.same_as(id));
            k = k + 1;
        }
        proof {
            lemma_flags_match(self.focusable_widgets@, drop@, keep);
        }
        remove_flagged(&mut self.focusable_widgets, &drop);
    }

    /// Registers a widget with its capability, replacing an earlier entry.
    pub fn register_focusable_widget(&mut self, widget_id: WidgetId, capability: FocusCapability)
        requires
            old(self).well_formed(),
        ensures
            final(self).well_formed(),
            final(self).capability(widget_id.name()) == Some(capability),
            forall|n: Seq<char>| n != widget_id.name() ==> final(self).capability(n) == old(self).capability(n),
            final(self).max_history() == old(self).max_history(),
            final(self).focus() == old(self).focus(),
            final(self).history() == old(self).history(),
            final(self).orders() == old(self).orders(),
            final(self).locked() == old(self).locked(),
            final(self).events() == old(self).events(),
    {
        self.remove_capabilities(&widget_id);
        proof {
            lemma_capability_filter(old(self).focusable_widgets@, widget_id.name());
        }
        let ghost before = self.focusable_widgets@;
        let ghost name = widget_id.name();
        self.focusable_widgets.push((widget_id, capability));
        assert(self.focusable_widgets@.drop_last() =~= before);
        assert forall|n: Seq<char>| n != name implies capability_in(self.focusable_widgets@, n)
            == capability_in(old(self).focusable_widgets@, n) by {
            assert(self.focusable_widgets@.last().0.name() == name);
            assert(capability_in(registry_without(old(self).focusable_widgets@, name), n)
                == capability_in(old(self).focusable_widgets@, n));
        }
    }

    /// Moves the focus to `widget_id` (or clears it for `None`) at time
    /// `now`, unless the focus is locked or the widget is not registered as
    /// focusable. The widget focused before goes to the history when the
    /// focus moves away from it; the change is queued for the listeners.
    pub fn set_focus_at(&mut self, widget_id: Option<WidgetId>, trigger: FocusTrigger, now: u64) -> (res: bool)
        requires
            old(self).well_formed(),
        ensures
            final(self).well_formed(),
            focus_moved(*old(self), *final(self), opt_name(widget_id), trigger, now, res),
    {
        if self.focus_locked {
            return false;
        }
        match &widget_id {
            Some(id) => {
                if !self.is_widget_focusable(id) {
                    return false;
                }
            },
            None => {},
        }
        let previous = match &self.current_focus {
            Some(p) => Some(p.clone()),
            None => None,
        };
        match &self.current_focus {
            Some(prev_id) => {
                let moves_away = match &widget_id {
                    Some(id) => !id.same_as(prev_id),
                    None => true,
                };
                if moves_away {
                    let p = prev_id.clone();
                    let ghost hist = self.focus_history@;
                    self.push_history(p);
                    proof {
                        crate::navigation::lemma_keep_last_map(
                            hist.push(p),
                            self.max_history as nat,
                            |w: WidgetId| w.name(),
                        );
                        assert(names(hist.push(p)) =~= names(hist).push(p.name()));
                    }
                }
            },
            None => {},
        }
        let new_focus = match &widget_id {
            Some(id) => Some(id.clone()),
            None => None,
        };
        self.current_focus = widget_id;
        self.last_focus_change_ms = Some(now);
        let ghost before_events = self.pending_events@;
        self.pending_events.push(FocusChangeEvent {
            previous_focus: previous,
            new_focus,
            timestamp_ms: now,
            trigger,
        });
        assert(self.pending_events@.map_values(|e: FocusChangeEvent| event_view(e)) =~= before_events.map_values(
            |e: FocusChangeEvent| event_view(e),
        ).push((opt_name(previous), opt_name(new_focus), now, trigger)));
        true
    }

    /// Moves the focus by the system clock; see `set_focus_at`.
    pub fn set_focus(&mut self, widget_id: Option<WidgetId>, trigger: FocusTrigger) -> (res: bool)
        requires
            old(self).well_formed(),
        ensures
            final(self).well_formed(),
            focus_moved(*old(self), *final(self), opt_name(widget_id), trigger, final(self).last_change().unwrap(), res),
    {
        self.set_focus_at(widget_id, trigger, clock_now_ms())
    }

    /// Adds a widget last to the history, dropping the oldest beyond the
    /// limit.
    fn push_history(&mut self, id: WidgetId)
        requires
            old(self).well_formed(),
        ensures
            final(self).well_formed(),
            final(self).focus_history@ == keep_last(old(self).focus_history@.push(id), old(self).max_history as nat),
            final(self).current_focus == old(self).current_focus,
            final(self).max_history == old(self).max_history,
            final(self).focus_orders == old(self).focus_orders,
            final(self).focusable_widgets == old(self).focusable_widgets,
            final(self).last_focus_change_ms == old(self).last_focus_change_ms,
            final(self).focus_locked == old(self).focus_locked,
            final(self).lock_reason == old(self).lock_reason,
            final(self).pending_events == old(self).pending_events,
    {
        let ghost pushed = self.focus_history@.push(id);
        self.focus_history.push(id);
        while self.focus_history.len() > self.max_history
            invariant
                self.max_history == old(self).max_history,
                self.focus_history@ == pushed.skip(pushed.len() - self.focus_history@.len()),
                self.focus_history@.len() <= pushed.len(),
                pushed.len() > self.max_history ==> self.focus_history@.len() >= self.max_history,
                pushed.len() <= self.max_history ==> self.focus_history@.len() == pushed.len(),
                pushed.len() == old(self).focus_history@.len() + 1,
                self.current_focus == old(self).current_focus,
                self.focus_orders == old(self).focus_orders,
                self.focusable_widgets == old(self).focusable_widgets,
                self.last_focus_change_ms == old(self).last_focus_change_ms,
                self.focus_locked == old(self).focus_locked,
                self.lock_reason == old(self).lock_reason,
                self.pending_events == old(self).pending_events,
            decreases self.focus_history.len(),
        {
            self.focus_history.remove(0);
        }
        assert(self.focus_history@ =~= keep_last(pushed, self.max_history as nat));
    }

    /// The position of the last focus order entry of `view`.
    fn find_order(&self, view: ViewType) -> (res: Option<usize>)
        ensures
            res matches Some(i) ==> i < self.orders().len() && self.orders()[i as int].0 == view
                && self.order(view) == Some(names(self.orders()[i as int].1@)),
            res is None ==> self.order(view) is None,
    {
        let mut i: usize = self.focus_orders.len();
        assert(self.focus_orders@.take(i as int) =~= self.focus_orders@);
        while i > 0
            invariant
                i <= self.focus_orders@.len(),
                order_in(self.focus_orders@, view) == order_in(self.focus_orders@.take(i as int), view),
            decreases i,
        {
            assert(self.focus_orders@.take(i as int).drop_last() =~= self.focus_orders@.take(i - 1));
            if self.focus_orders[i - 1].0 == view {
                return Some(i - 1);
            }
            i = i - 1;
        }
        None
    }

    /// A copy of the focus order of `view`, if set.
    fn order_copy(&self, view: ViewType) -> (res: Option<Vec<WidgetId>>)
        ensures
            res is Some <==> self.order(view) is Some,
            res matches Some(o) ==> self.order(view) == Some(names(o@)),
    {
        match self.find_order(view) {
            Some(i) => Some(copy_ids(&self.focus_orders[i].1)),
            None => None,
        }
    }

    /// The focusable widgets of a view in their focus order; none when no
    /// order is set.
    pub fn get_focusable_widgets(&self, view: &ViewType) -> (res: Vec<WidgetId>)
        ensures
            names(res@) == match self.order(*view) {
                Some(o) => o,
                None => Seq::<Seq<char>>::empty(),
            },
    {
        match self.order_copy(*view) {
            Some(o) => o,
            None => {
                let v: Vec<WidgetId> = Vec::new();
                assert(names(v@) =~= Seq::<Seq<char>>::empty());
                v
            },
        }
    }

    /// Moves the focus to the next widget of the order of `view` at time
    /// `now`, from the last back to the first; to the first when the focused
    /// widget is not in the order.
    pub fn focus_next_at(&mut self, view: &ViewType, now: u64) -> (res: bool)
        requires
            old(self).well_formed(),
        ensures
            final(self).well_formed(),
            next_step(*old(self), *final(self), *view, now, res),
    {
        match self.order_copy(*view) {
            Some(order) => {
                if order.len() == 0 {
                    return false;
                }
                let target = match &self.current_focus {
                    Some(current) => match find_id(&order, current) {
                        Some(i) => {
                            let next = (i + 1) % order.len();
                            order[next].clone()
                        },
                        None => order[0].clone(),
                    },
                    None => order[0].clone(),
                };
                self.set_focus_at(Some(target), FocusTrigger::Tab, now)
            },
            None => false,
        }
    }

    /// Moves the focus to the previous widget of the order of `view` at time
    /// `now`, from the first back to the last; to the last when the focused
    /// widget is not in the order.
    pub fn focus_previous_at(&mut self, view: &ViewType, now: u64) -> (res: bool)
        requires
            old(self).well_formed(),
        ensures
            final(self).well_formed(),
            previous_step(*old(self), *final(self), *view, now, res),
    {
        match self.order_copy(*view) {
            Some(order) => {
                if order.len() == 0 {
                    return false;
                }
                let last = order.len() - 1;
                let target = match &self.current_focus {
                    Some(current) => match find_id(&order, current) {
                        Some(i) => {
                            let prev = if i == 0 { last } else { i - 1 };
                            order[prev].clone()
                        },
                        None => order[last].clone(),
                    },
                    None => order[last].clone(),
                };
                self.set_focus_at(Some(target), FocusTrigger::ShiftTab, now)
            },
            None => false,
        }
    }

    /// Moves the focus with an arrow key at time `now`: down and right go to
    /// the next widget, up and left to the previous one.
    pub fn focus_arrow_at(&mut self, view: &ViewType, direction: ArrowDirection, now: u64) -> (res: bool)
        requires
            old(self).well_formed(),
        ensures
            final(self).well_formed(),
            match direction {
                ArrowDirection::Down | ArrowDirection::Right => next_step(*old(self), *final(self), *view, now, res),
                _ => previous_step(*old(self), *final(self), *view, now, res),
            },
    {
        match direction {
            ArrowDirection::Down | ArrowDirection::Right => self.focus_next_at(view, now),
            ArrowDirection::Up | ArrowDirection::Left => self.focus_previous_at(view, now),
        }
    }

    /// Moves the focus back to the widget focused last before, taking it
    /// from the history, at time `now`.
    pub fn focus_back_at(&mut self, now: u64) -> (res: bool)
        requires
            old(self).well_formed(),
        ensures
            final(self).well_formed(),
            old(self).history().len() == 0 ==> !res && *final(self) == *old(self),
            old(self).history().len() > 0 ==> exists_back_step(*old(self), *final(self), now, res),
    {
        if self.focus_history.len() == 0 {
            return false;
        }
        match self.focus_history.pop() {
            Some(previous) => {
                let ghost popped = *self;
                assert(names(popped.focus_history@) =~= names(old(self).focus_history@).drop_last());
                let r = self.set_focus_at(Some(previous), FocusTrigger::Programmatic, now);
                assert(focus_moved(popped, *self, Some(old(self).history().last()), FocusTrigger::Programmatic, now, r));
                r
            },
            None => false,
        }
    }

    /// Clears the focus at time `now`, unless it is locked.
    pub fn clear_focus_at(&mut self, now: u64) -> (res: bool)
        requires
            old(self).well_formed(),
        ensures
            final(self).well_formed(),
            focus_moved(*old(self), *final(self), None, FocusTrigger::Programmatic, now, res),
    {
        self.set_focus_at(None, FocusTrigger::Programmatic, now)
    }

    /// Locks the focus, with a reason if given.
    pub fn lock_focus(&mut self, reason: Option<String>)
        requires
            old(self).well_formed(),
        ensures
            final(self).well_formed(),
            final(self).locked(),
            final(self).reason() == reason,
            final(self).focus() == old(self).focus(),
            final(self).history() == old(self).history(),
            final(self).registry() == old(self).registry(),
            final(self).orders() == old(self).orders(),
            final(self).events() == old(self).events(),
    {
        self.focus_locked = true;
        self.lock_reason = reason;
    }

    /// Unlocks the focus.
    pub fn unlock_focus(&mut self)
        requires
            old(self).well_formed(),
        ensures
            final(self).well_formed(),
            !final(self).locked(),
            final(self).reason() is None,
            final(self).focus() == old(self).focus(),
            final(self).history() == old(self).history(),
            final(self).registry() == old(self).registry(),
            final(self).orders() == old(self).orders(),
            final(self).events() == old(self).events(),
    {
        self.focus_locked = false;
        self.lock_reason = None;
    }

    /// Whether the focus is locked.
    pub fn is_focus_locked(&self) -> (res: bool)
        ensures
            res == self.locked(),
    {
        self.focus_locked
    }

    /// Why the focus is locked, if a reason was given.
    pub fn focus_lock_reason(&self) -> (res: Option<&String>)
        ensures
            res is Some <==> self.reason() is Some,
            res is Some ==> *res.unwrap() == self.reason().unwrap(),
    {
        self.lock_reason.as_ref()
    }

    /// The focused widget, if any.
    pub fn current_focus(&self) -> (res: Option<&WidgetId>)
        ensures
            opt_name(match res { Some(r) => Some(*r), None => None }) == self.focus(),
    {
        self.current_focus.as_ref()
    }

    /// Forgets a widget: its registration, the focus if it has it, and its
    /// places in the history and in every focus order.
    pub fn unregister_focusable_widget(&mut self, widget_id: &WidgetId)
        requires
            old(self).well_formed(),
        ensures
            final(self).well_formed(),
            final(self).registry() == registry_without(old(self).registry(), widget_id.name()),
            final(self).focus() == if old(self).focus() == Some(widget_id.name()) {
                None
            } else {
                old(self).focus()
            },
            final(self).history() == keep_where(old(self).history(), |n: Seq<char>| n != widget_id.name()),
            final(self).orders().len() == old(self).orders().len(),
            forall|k: int|
                0 <= k < old(self).orders().len() ==> {
                    &&& (#[trigger] final(self).orders()[k]).0 == old(self).orders()[k].0
                    &&& names(final(self).orders()[k].1@) == keep_where(
                        names(old(self).orders()[k].1@),
                        |n: Seq<char>| n != widget_id.name(),
                    )
                },
            final(self).locked() == old(self).locked(),
            final(self).reason() == old(self).reason(),
            final(self).events() == old(self).events(),
            final(self).max_history() == old(self).max_history(),
    {
        self.remove_capabilities(widget_id);
        let clears = match &self.current_focus {
            Some(c) => c.same_as(widget_id),
            None => false,
        };
        if clears {
            self.current_focus = None;
        }
        let ghost hist = self.focus_history@;
        remove_named(&mut self.focus_history, widget_id);
        proof {
            lemma_keep_where_len(hist, |w: WidgetId| w.name() != widget_id.name());
        }
        let n = self.focus_orders.len();
        let mut k: usize = 0;
        while k < n
            invariant
                n == self.focus_orders@.len(),
                n == old(self).focus_orders@.len(),
                k <= n,
                forall|m: int|
                    0 <= m < k ==> {
                        &&& (#[trigger] self.focus_orders@[m]).0 == old(self).focus_orders@[m].0
                        &&& names(self.focus_orders@[m].1@) == keep_where(
                            names(old(self).focus_orders@[m].1@),
                            |n: Seq<char>| n != widget_id.name(),
                        )
                    },
                forall|m: int| k <= m < n ==> self.focus_orders@[m] == old(self).focus_orders@[m],
                self.focus_history@.len() <= self.max_history,
                self.max_history == old(self).max_history,
                self.focusable_widgets@ == registry_without(old(self).focusable_widgets@, widget_id.name()),
                opt_name(self.current_focus) == if opt_name(old(self).current_focus) == Some(widget_id.name()) {
                    None
                } else {
                    opt_name(old(self).current_focus)
                },
                names(self.focus_history@) == keep_where(names(old(self).focus_history@), |n: Seq<char>| n != widget_id.name()),
                self.focus_locked == old(self).focus_locked,
                self.lock_reason == old(self).lock_reason,
                self.pending_events == old(self).pending_events,
            decreases n - k,
        {
            let ghost before = self.focus_orders@;
            let (view, mut ids) = self.focus_orders.remove(k);
            remove_named(&mut ids, widget_id);
            self.focus_orders.insert(k, (view, ids));
            assert(self.focus_orders@ =~= before.update(k as int, (view, ids)));
            k = k + 1;
        }
    }

    /// Sets the focus order of a view, keeping only the widgets registered;
    /// it replaces an earlier order of that view.
    pub fn set_focus_order(&mut self, view: ViewType, order: Vec<WidgetId>)
        requires
            old(self).well_formed(),
        ensures
            final(self).well_formed(),
            final(self).order(view) == Some(only_registered(names(order@), old(self).registry())),
            forall|v: ViewType| v != view ==> final(self).order(v) == old(self).order(v),
            final(self).max_history() == old(self).max_history(),
            final(self).focus() == old(self).focus(),
            final(self).history() == old(self).history(),
            final(self).registry() == old(self).registry(),
            final(self).locked() == old(self).locked(),
            final(self).events() == old(self).events(),
    {
        let mut ids = order;
        let ghost original = ids@;
        let mut drop: Vec<bool> = Vec::new();
        let mut k: usize = 0;
        while k < ids.len()
            invariant
                ids@ == original,
                k <= ids@.len(),
                drop@.len() == k,
                forall|m: int| 0 <= m < k ==> drop@[m] == (capability_in(self.focusable_widgets@, ids@[m].name()) is None),
            decreases ids@.len() - k,
        {
            let registered = self.find_capability(&ids[k]).is_some();
            drop.push(!registered);
            k = k + 1;
        }
        let ghost keep = |w: WidgetId| capability_in(self.focusable_widgets@, w.name()) is Some;
        proof {
            lemma_flags_match(ids@, drop@, keep);
        }
        remove_flagged(&mut ids, &drop);
        proof {
            lemma_names_keep(original, keep, |n: Seq<char>| capability_in(self.focusable_widgets@, n) is Some);
        }
        assert(only_registered(names(original), self.focusable_widgets@) == keep_where(
            names(original),
            |n: Seq<char>| capability_in(self.focusable_widgets@, n) is Some,
        ));
        let ghost filtered = ids@;
        let ghost old_orders = self.focus_orders@;
        remove_view_orders(&mut self.focus_orders, view);
        proof {
            lemma_order_filter(old_orders, view);
        }
        let ghost before = self.focus_orders@;
        self.focus_orders.push((view, ids));
        assert(self.focus_orders@.drop_last() =~= before);
        assert forall|v: ViewType| v != view implies order_in(self.focus_orders@, v) == order_in(old_orders, v) by {
            assert(order_in(orders_without(old_orders, view), v) == order_in(old_orders, v));
        }
    }

    /// Replaces the capability of a registered widget; an unregistered one
    /// stays unregistered.
    pub fn update_widget_capability(&mut self, widget_id: &WidgetId, capability: FocusCapability)
        requires
            old(self).well_formed(),
        ensures
            final(self).well_formed(),
            old(self).capability(widget_id.name()) is Some ==> final(self).capability(widget_id.name())
                == Some(capability),
            old(self).capability(widget_id.name()) is None ==> final(self).capability(widget_id.name()) is None,
            forall|n: Seq<char>| n != widget_id.name() ==> final(self).capability(n) == old(self).capability(n),
            final(self).focus() == old(self).focus(),
            final(self).history() == old(self).history(),
            final(self).orders() == old(self).orders(),
            final(self).locked() == old(self).locked(),
            final(self).events() == old(self).events(),
    {
        if self.find_capability(widget_id).is_some() {
            self.register_focusable_widget(widget_id.clone(), capability);
        }
    }

    /// Statistics of this manager, with the number of listeners that the
    /// application runs.
    pub fn get_focus_stats(&self, listeners_count: usize) -> (res: FocusStats)
        ensures
            opt_name(res.current_focus) == self.focus(),
            res.focus_history_size == self.history().len(),
            res.registered_widgets == self.registry().len(),
            res.focus_orders_count == self.orders().len(),
            res.is_locked == self.locked(),
            res.last_change_ms == self.last_change(),
            res.listeners_count == listeners_count,
    {
        FocusStats {
            current_focus: match &self.current_focus {
                Some(c) => Some(c.clone()),
                None => None,
            },
            focus_history_size: self.focus_history.len(),
            registered_widgets: self.focusable_widgets.len(),
            focus_orders_count: self.focus_orders.len(),
            is_locked: self.focus_locked,
            last_change_ms: self.last_focus_change_ms,
            listeners_count,
        }
    }

    /// Clears the focus, the history, the time of the last change and the
    /// lock; the registry and the orders stay.
    pub fn reset(&mut self)
        requires
            old(self).well_formed(),
        ensures
            final(self).well_formed(),
            final(self).focus() is None,
            final(self).history().len() == 0,
            final(self).last_change() is None,
            !final(self).locked(),
            final(self).reason() is None,
            final(self).registry() == old(self).registry(),
            final(self).orders() == old(self).orders(),
            final(self).events() == old(self).events(),
    {
        self.current_focus = None;
        self.focus_history.clear();
        self.last_focus_change_ms = None;
        self.focus_locked = false;
        self.lock_reason = None;
    }

    /// Handles a navigation key at time `now`: Tab and the arrows move the
    /// focus within the order of `view`, Home and End go to its first and
    /// last widget, Esc clears the focus. Nothing happens while the focus is
    /// locked or for other keys.
    pub fn handle_navigation_key_at(&mut self, key: KeyEvent, view: &ViewType, now: u64) -> (res: Option<Action>)
        requires
            old(self).well_formed(),
        ensures
            final(self).well_formed(),
            navigation_key_outcome(*old(self), *final(self), key, *view, now, res),
    {
        if self.focus_locked {
            return None;
        }
        let plain = key.modifiers == MOD_NONE;
        match key.code {
            KeyCode::Tab => {
                if plain {
                    if self.focus_next_at(view, now) { Some(Action::FocusNext) } else { None }
                } else if key.modifiers == MOD_SHIFT {
                    if self.focus_previous_at(view, now) { Some(Action::FocusPrevious) } else { None }
                } else {
                    None
                }
            },
            KeyCode::Up | KeyCode::Left => {
                if plain && self.focus_previous_at(view, now) {
                    Some(Action::FocusPrevious)
                } else {
                    None
                }
            },
            KeyCode::Down | KeyCode::Right => {
                if plain && self.focus_next_at(view, now) {
                    Some(Action::FocusNext)
                } else {
                    None
                }
            },
            KeyCode::Home | KeyCode::End => {
                if !plain {
                    return None;
                }
                match self.order_copy(*view) {
                    Some(order) => {
                        if order.len() == 0 {
                            return None;
                        }
                        let idx: usize = match key.code {
                            KeyCode::Home => 0,
                            _ => order.len() - 1,
                        };
                        let target = order[idx].clone();
                        let name = target.0.clone();
                        if self.set_focus_at(Some(target), FocusTrigger::Programmatic, now) {
                            Some(Action::FocusWidget(name))
                        } else {
                            None
                        }
                    },
                    None => None,
                }
            },
            KeyCode::Esc => {
                if plain && self.clear_focus_at(now) {
                    Some(Action::GoBack)
                } else {
                    None
                }
            },
            _ => None,
        }
    }

    /// Moves to the next widget of `view` by the system clock; see
    /// `focus_next_at`.
    pub fn focus_next(&mut self, view: &ViewType) -> (res: bool)
        requires
            old(self).well_formed(),
        ensures
            final(self).well_formed(),
            next_step(*old(self), *final(self), *view, final(self).last_change().unwrap(), res),
    {
        self.focus_next_at(view, clock_now_ms())
    }

    /// Moves to the previous widget of `view` by the system clock; see
    /// `focus_previous_at`.
    pub fn focus_previous(&mut self, view: &ViewType) -> (res: bool)
        requires
            old(self).well_formed(),
        ensures
            final(self).well_formed(),
            previous_step(*old(self), *final(self), *view, final(self).last_change().unwrap(), res),
    {
        self.focus_previous_at(view, clock_now_ms())
    }

    /// Moves the focus with an arrow key by the system clock; see
    /// `focus_arrow_at`.
    pub fn focus_arrow(&mut self, view: &ViewType, direction: ArrowDirection) -> (res: bool)
        requires
            old(self).well_formed(),
        ensures
            final(self).well_formed(),
            match direction {
                ArrowDirection::Down | ArrowDirection::Right => next_step(
                    *old(self),
                    *final(self),
                    *view,
                    final(self).last_change().unwrap(),
                    res,
                ),
                _ => previous_step(*old(self), *final(self), *view, final(self).last_change().unwrap(), res),
            },
    {
        self.focus_arrow_at(view, direction, clock_now_ms())
    }

    /// Goes back in the focus history by the system clock; see
    /// `focus_back_at`.
    pub fn focus_back(&mut self) -> (res: bool)
        requires
            old(self).well_formed(),
        ensures
            final(self).well_formed(),
            old(self).history().len() == 0 ==> !res && *final(self) == *old(self),
            old(self).history().len() > 0 ==> exists_back_step(*old(self), *final(self), final(self).last_change().unwrap(), res),
    {
        self.focus_back_at(clock_now_ms())
    }

    /// Clears the focus by the system clock, unless it is locked.
    pub fn clear_focus(&mut self) -> (res: bool)
        requires
            old(self).well_formed(),
        ensures
            final(self).well_formed(),
            focus_moved(*old(self), *final(self), None, FocusTrigger::Programmatic, final(self).last_change().unwrap(), res),
    {
        self.clear_focus_at(clock_now_ms())
    }

    /// Handles a navigation key by the system clock; see
    /// `handle_navigation_key_at`.
    pub fn handle_navigation_key(&mut self, key: KeyEvent, view: &ViewType) -> (res: Option<Action>)
        requires
            old(self).well_formed(),
        ensures
            final(self).well_formed(),
            navigation_key_outcome(*old(self), *final(self), key, *view, final(self).last_change().unwrap(), res),
    {
        self.handle_navigation_key_at(key, view, clock_now_ms())
    }

    /// Hands the queued changes of focus to the caller, oldest first, and
    /// empties the queue.
    pub fn take_focus_events(&mut self) -> (res: Vec<FocusChangeEvent>)
        requires
            old(self).well_formed(),
        ensures
            final(self).well_formed(),
            res@.map_values(|e: FocusChangeEvent| event_view(e)) == old(self).events(),
            final(self).events().len() == 0,
            final(self).focus() == old(self).focus(),
            final(self).history() == old(self).history(),
            final(self).same_setup(*old(self)),
    {
        let mut res: Vec<FocusChangeEvent> = Vec::new();
        std::mem::swap(&mut res, &mut self.pending_events);
        assert(self.pending_events@.map_values(|e: FocusChangeEvent| event_view(e)) =~= Seq::empty());
        res
    }
}

/// The widget after the focused one in `order`, from the last back to the
/// first; the first when the focused widget is not in the order.
pub open spec fn next_in(order: Seq<Seq<char>>, current: Option<Seq<char>>) -> Seq<char> {
    match current {
        Some(c) => match position_of(order, c, 0) {
            Some(i) => order[(i + 1) % (order.len() as int)],
            None => order[0],
        },
        None => order[0],
    }
}

/// The widget before the focused one in `order`, from the first back to the
/// last; the last when the focused widget is not in the order.
pub open spec fn previous_in(order: Seq<Seq<char>>, current: Option<Seq<char>>) -> Seq<char> {
    match current {
        Some(c) => match position_of(order, c, 0) {
            Some(i) => order[if i == 0 { order.len() - 1 } else { i - 1 }],
            None => order[order.len() - 1],
        },
        None => order[order.len() - 1],
    }
}

/// What moving the focus to `target` does, from `old` to `new` with result
/// `res`: nothing when the focus is locked or the target is not a registered
/// focusable widget; otherwise the focus moves, the widget left goes to the
/// history, the time is recorded and the change queued.
pub open spec fn focus_moved(
    old: FocusManager,
    new: FocusManager,
    target: Option<Seq<char>>,
    trigger: FocusTrigger,
    now: u64,
    res: bool,
) -> bool {
    let allowed = !old.locked() && match target {
        Some(n) => may_focus(old.registry(), n),
        None => true,
    };
    if !allowed {
        !res && new == old
    } else {
        &&& res
        &&& new.focus() == target
        &&& new.history() == match old.focus() {
            Some(p) => if Some(p) != target {
                keep_last(old.history().push(p), old.max_history())
            } else {
                old.history()
            },
            None => old.history(),
        }
        &&& new.last_change() == Some(now)
        &&& new.events() == old.events().push((old.focus(), target, now, trigger))
        &&& new.same_setup(old)
    }
}

/// What moving to the next widget of `view` does.
pub open spec fn next_step(old: FocusManager, new: FocusManager, view: ViewType, now: u64, res: bool) -> bool {
    match old.order(view) {
        Some(o) => if o.len() > 0 {
            focus_moved(old, new, Some(next_in(o, old.focus())), FocusTrigger::Tab, now, res)
        } else {
            !res && new == old
        },
        None => !res && new == old,
    }
}

/// What moving to the previous widget of `view` does.
pub open spec fn previous_step(old: FocusManager, new: FocusManager, view: ViewType, now: u64, res: bool) -> bool {
    match old.order(view) {
        Some(o) => if o.len() > 0 {
            focus_moved(old, new, Some(previous_in(o, old.focus())), FocusTrigger::ShiftTab, now, res)
        } else {
            !res && new == old
        },
        None => !res && new == old,
    }
}

/// What going back in the focus history does: the last widget of the
/// history leaves it and the focus moves to it as `focus_moved` says, from
/// the manager without that widget in its history.
pub closed spec fn exists_back_step(old: FocusManager, new: FocusManager, now: u64, res: bool) -> bool {
    exists|mid: FocusManager|
        #![trigger mid.focus_history]
        mid == FocusManager { focus_history: mid.focus_history, ..old } && names(mid.focus_history@)
            == old.history().drop_last() && focus_moved(
            mid,
            new,
            Some(old.history().last()),
            FocusTrigger::Programmatic,
            now,
            res,
        )
}

/// What a navigation key does, from `old` to `new` with result `res`.
pub open spec fn navigation_key_outcome(
    old: FocusManager,
    new: FocusManager,
    key: KeyEvent,
    view: ViewType,
    now: u64,
    res: Option<Action>,
) -> bool {
    let plain = key.modifiers == MOD_NONE;
    if old.locked() {
        res is None && new == old
    } else {
        match key.code {
            KeyCode::Tab => if plain {
                next_step(old, new, view, now, res is Some) && (res is Some ==> res == Some(Action::FocusNext))
            } else if key.modifiers == MOD_SHIFT {
                previous_step(old, new, view, now, res is Some) && (res is Some ==> res == Some(
                    Action::FocusPrevious,
                ))
            } else {
                res is None && new == old
            },
            KeyCode::Up | KeyCode::Left => if plain {
                previous_step(old, new, view, now, res is Some) && (res is Some ==> res == Some(
                    Action::FocusPrevious,
                ))
            } else {
                res is None && new == old
            },
            KeyCode::Down | KeyCode::Right => if plain {
                next_step(old, new, view, now, res is Some) && (res is Some ==> res == Some(Action::FocusNext))
            } else {
                res is None && new == old
            },
            KeyCode::Home | KeyCode::End => if plain && old.order(view) is Some && old.order(view).unwrap().len() > 0 {
                let o = old.order(view).unwrap();
                let target = if key.code == KeyCode::Home { o[0] } else { o[o.len() - 1] };
                &&& focus_moved(old, new, Some(target), FocusTrigger::Programmatic, now, res is Some)
                &&& res is Some ==> (res matches Some(Action::FocusWidget(n)) && n@ == target)
            } else {
                res is None && new == old
            },
            KeyCode::Esc => if plain {
                focus_moved(old, new, None, FocusTrigger::Programmatic, now, res is Some) && (res is Some
                    ==> res == Some(Action::GoBack))
            } else {
                res is None && new == old
            },
            _ => res is None && new == old,
        }
    }
}

/// The names of `ns` that are registered in `entries`, in order.
pub open spec fn only_registered(ns: Seq<Seq<char>>, entries: Seq<(WidgetId, FocusCapability)>) -> Seq<Seq<char>> {
    keep_where(ns, |n: Seq<char>| capability_in(entries, n) is Some)
}

/// The focus order entries of the views other than `view`.
pub open spec fn orders_without(s: Seq<(ViewType, Vec<WidgetId>)>, view: ViewType) -> Seq<(ViewType, Vec<WidgetId>)>
    decreases s.len(),
{
    if s.len() == 0 {
        s
    } else {
        let r = orders_without(s.drop_last(), view);
        if s.last().0 != view { r.push(s.last()) } else { r }
    }
}

/// Flags set on the entries of `view` select the other entries.
proof fn lemma_view_flags(s: Seq<(ViewType, Vec<WidgetId>)>, drop: Seq<bool>, view: ViewType)
    requires
        drop.len() == s.len(),
        forall|m: int| 0 <= m < s.len() ==> drop[m] == (s[m].0 == view),
    ensures
        crate::feedback::keep_unflagged(s, drop) == orders_without(s, view),
    decreases s.len(),
{
    if s.len() > 0 {
        lemma_view_flags(s.drop_last(), drop.take(s.len() - 1), view);
    }
}

/// Dropping the entries of one view leaves the others' lookups as they were
/// and removes its own.
pub proof fn lemma_order_filter(s: Seq<(ViewType, Vec<WidgetId>)>, view: ViewType)
    ensures
        forall|v: ViewType|
            #[trigger] order_in(orders_without(s, view), v) == if v == view {
                None
            } else {
                order_in(s, v)
            },
    decreases s.len(),
{
    if s.len() > 0 {
        lemma_order_filter(s.drop_last(), view);
        let r = orders_without(s.drop_last(), view);
        if s.last().0 != view {
            assert(r.push(s.last()).drop_last() =~= r);
        }
    }
}

/// Removes the focus order entries of `view`.
fn remove_view_orders(orders: &mut Vec<(ViewType, Vec<WidgetId>)>, view: ViewType)
    ensures
        final(orders)@ == orders_without(old(orders)@, view),
{
    let mut drop: Vec<bool> = Vec::new();
    let mut k: usize = 0;
    while k < orders.len()
        invariant
            k <= orders@.len(),
            drop@.len() == k,
            forall|m: int| 0 <= m < k ==> drop@[m] == (orders@[m].0 == view),
        decreases orders@.len() - k,
    {
        drop.push(orders[k].0 == view);
        k = k + 1;
    }
    proof {
        lemma_view_flags(orders@, drop@, view);
    }
    remove_flagged(orders, &drop);
}

/// Removes from `ids` the identifiers named like `id`.
fn remove_named(ids: &mut Vec<WidgetId>, id: &WidgetId)
    ensures
        final(ids)@ == keep_where(old(ids)@, |w: WidgetId| w.name() != id.name()),
        names(final(ids)@) == keep_where(names(old(ids)@), |n: Seq<char>| n != id.name()),
{
    let ghost keep = |w: WidgetId| w.name() != id.name();
    let ghost original = ids@;
    let mut drop: Vec<bool> = Vec::new();
    let mut k: usize = 0;
    while k < ids.len()
        invariant
            k <= ids@.len(),
            drop@.len() == k,
            forall|m: int| 0 <= m < k ==> drop@[m] == !keep(ids@[m]),
            keep == (|w: WidgetId| w.name() != id.name()),
        decreases ids@.len() - k,
    {
        drop.push(ids[k].same_as(id));
        k = k + 1;
    }
    proof {
        lemma_flags_match(ids@, drop@, keep);
        lemma_names_keep(original, keep, |n: Seq<char>| n != id.name());
    }
    remove_flagged(ids, &drop);
}

/// Filtering identifiers by a test on their names gives the names filtered
/// by that test.
pub proof fn lemma_names_keep(s: Seq<WidgetId>, keep: spec_fn(WidgetId) -> bool, keep_name: spec_fn(Seq<char>) -> bool)
    requires
        forall|w: WidgetId| #[trigger] keep(w) == keep_name(w.name()),
    ensures
        names(keep_where(s, keep)) == keep_where(names(s), keep_name),
    decreases s.len(),
{
    if s.len() > 0 {
        lemma_names_keep(s.drop_last(), keep, keep_name);
        assert(names(s).drop_last() =~= names(s.drop_last()));
        let r = keep_where(s.drop_last(), keep);
        if keep(s.last()) {
            assert(names(r.push(s.last())) =~= names(r).push(s.last().name()));
        }
    }
}

/// In an order without repeated names, each position is the first
/// position of its name.
pub proof fn lemma_position_unique(s: Seq<Seq<char>>, k: int)
    requires
        s.no_duplicates(),
        0 <= k < s.len(),
    ensures
        position_of(s, s[k], 0) == Some(k),
{
    lemma_position_of(s, s[k], 0);
}

/// In an order without repeated names, the widget before the one after a
/// widget is that widget.
pub proof fn law_previous_undoes_next(order: Seq<Seq<char>>, current: Seq<char>)
    requires
        order.no_duplicates(),
        order.contains(current),
    ensures
        previous_in(order, Some(next_in(order, Some(current)))) == current,
{
    let k = choose|k: int| 0 <= k < order.len() && order[k] == current;
    lemma_position_unique(order, k);
    let j = (k + 1) % (order.len() as int);
    lemma_position_unique(order, j);
    if k + 1 < order.len() {
        vstd::arithmetic::div_mod::lemma_small_mod((k + 1) as nat, order.len());
    } else {
        vstd::arithmetic::div_mod::lemma_mod_self_0(order.len() as int);
    }
}

/// Moving the focus to the next widget of a view and then to the previous
/// one focuses again the widget focused first, when the order of the view
/// has no repeated names and holds that widget, which is still focusable:
/// `m1` is what `focus_next_at` makes of `m0`, `m2` what
/// `focus_previous_at` makes of `m1`.
pub proof fn law_back_and_forth(
    m0: FocusManager,
    m1: FocusManager,
    m2: FocusManager,
    view: ViewType,
    t1: u64,
    t2: u64,
    r1: bool,
    r2: bool,
)
    requires
        m0.order(view) is Some,
        m0.order(view).unwrap().no_duplicates(),
        m0.focus() is Some,
        m0.order(view).unwrap().contains(m0.focus().unwrap()),
        may_focus(m0.registry(), m0.focus().unwrap()),
        next_step(m0, m1, view, t1, r1),
        previous_step(m1, m2, view, t2, r2),
        r1,
    ensures
        r2,
        m2.focus() == m0.focus(),
{
    let o = m0.order(view).unwrap();
    law_previous_undoes_next(o, m0.focus().unwrap());
    assert(m1.same_setup(m0));
    assert(m1.orders() == m0.orders());
    assert(m1.registry() == m0.registry());
    assert(m1.locked() == m0.locked());
}

/// The registry entries of the widgets not named `name`.
pub open spec fn registry_without(s: Seq<(WidgetId, FocusCapability)>, name: Seq<char>) -> Seq<(WidgetId, FocusCapability)> {
    keep_where(s, |e: (WidgetId, FocusCapability)| e.0.name() != name)
}

/// Dropping the entries of one widget leaves the others' lookups as they
/// were and removes its own.
pub proof fn lemma_capability_filter(s: Seq<(WidgetId, FocusCapability)>, name: Seq<char>)
    ensures
        forall|n: Seq<char>|
            #[trigger] capability_in(registry_without(s, name), n) == if n == name {
                None
            } else {
                capability_in(s, n)
            },
    decreases s.len(),
{
    let keep = |e: (WidgetId, FocusCapability)| e.0.name() != name;
    if s.len() > 0 {
        lemma_capability_filter(s.drop_last(), name);
        assert forall|n: Seq<char>|
            #[trigger] capability_in(registry_without(s, name), n) == if n == name {
                None
            } else {
                capability_in(s, n)
            } by {
            let r = keep_where(s.drop_last(), keep);
            assert(registry_without(s, name) == keep_where(s, keep));
            assert(registry_without(s.drop_last(), name) == r);
            assert(capability_in(registry_without(s.drop_last(), name), n) == if n == name {
                None
            } else {
                capability_in(s.drop_last(), n)
            });
            if keep(s.last()) {
                assert(keep_where(s, keep) == r.push(s.last()));
                assert(r.push(s.last()).drop_last() =~= r);
            } else {
                assert(keep_where(s, keep) == r);
            }
        }
    }
}


/// Law: however the focus moves, the history of focused widgets holds no
/// more than its limit.
pub proof fn law_focus_history_within_limit(m: FocusManager)
    requires
        m.well_formed(),
    ensures
        m.history().len() <= m.max_history(),
{
}

/// Home and End jump to the ends of the view's focus order: on a plain key
/// with a focus order for the view that is not empty and a focusable widget
/// at that end, the focus lands on the first widget of the order for Home
/// and on the last for End, and the action names it; when the widget there
/// may not take the focus, nothing changes.
pub proof fn law_home_end_ends(
    old: FocusManager,
    new: FocusManager,
    key: KeyEvent,
    view: ViewType,
    now: u64,
    res: Option<Action>,
)
    requires
        navigation_key_outcome(old, new, key, view, now, res),
        !old.locked(),
        key.modifiers == MOD_NONE,
        key.code == KeyCode::Home || key.code == KeyCode::End,
        old.order(view) is Some,
        old.order(view)->0.len() > 0,
    ensures
        ({
            let o = old.order(view)->0;
            let target = if key.code == KeyCode::Home { o.first() } else { o.last() };
            &&& may_focus(old.registry(), target) ==> new.focus() == Some(target) && (res matches Some(
                Action::FocusWidget(n),
            ) && n@ == target)
            &&& !may_focus(old.registry(), target) ==> new == old && res is None
            &&& key.code == KeyCode::End && may_focus(old.registry(), o[o.len() - 1]) ==> new.focus() == Some(
                o[o.len() - 1],
            )
            &&& key.code == KeyCode::Home && may_focus(old.registry(), o[0]) ==> new.focus() == Some(o[0])
        }),
{
}

/// A locked focus ignores every key, and a key that does not navigate
/// (nor any navigation key with modifiers, but Shift with Tab) leaves the
/// focus as it is.
pub proof fn law_other_keys_inert(
    old: FocusManager,
    new: FocusManager,
    key: KeyEvent,
    view: ViewType,
    now: u64,
    res: Option<Action>,
)
    requires
        navigation_key_outcome(old, new, key, view, now, res),
    ensures
        old.locked() ==> new == old && res is None,
        !(key.code is Tab || key.code is Up || key.code is Down || key.code is Left || key.code is Right
            || key.code is Home || key.code is End || key.code is Esc) ==> new == old && res is None,
        key.modifiers != MOD_NONE && !(key.code is Tab && key.modifiers == MOD_SHIFT) ==> new == old && res is None,
{
}

} // verus!
