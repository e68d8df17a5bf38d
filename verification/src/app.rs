//! The decisions of the interface application: which view is shown, which
//! widget has the focus, what a key press and an action do. The terminal,
//! the widgets' own work and the data services stay with the caller, which
//! performs the effects these functions return.

use vstd::prelude::*;
use crate::action::{Action, ViewType};
use crate::focus::{FocusCapability, FocusManager, FocusTrigger, focus_moved, may_focus, navigation_key_outcome};
use crate::help::{HelpSystem, help_key_outcome};
use crate::keys::{KeyCode, KeyEvent, MOD_CONTROL, MOD_NONE, MOD_SHIFT};
use crate::navigation::{
    EscKeyBehavior, ModalContentType, ModalDialog, NavigationStack, NavigationTrigger, esc_outcome, modal_opened,
    popped, pushed, json_string_object, event_at, NavigationEventType,
};
use crate::platform::{PlatformManager, mapped_key};
use crate::text::text_eq;
use crate::widget::WidgetId;

verus! {

/// The widget of `view` among `entries`: that of its last entry.
pub open spec fn widget_at<W>(entries: Seq<(ViewType, W)>, view: ViewType) -> Option<W>
    decreases entries.len(),
{
    if entries.len() == 0 {
        None
    } else if entries.last().0 == view {
        Some(entries.last().1)
    } else {
        widget_at(entries.drop_last(), view)
    }
}

/// Whether `k` is the last entry of `view`.
pub open spec fn last_widget_entry<W>(entries: Seq<(ViewType, W)>, view: ViewType, k: int) -> bool {
    &&& 0 <= k < entries.len()
    &&& entries[k].0 == view
    &&& forall|j: int| k < j < entries.len() ==> (#[trigger] entries[j]).0 != view
}

/// The widget of a view is that of its last entry.
proof fn lemma_widget_at_last<W>(entries: Seq<(ViewType, W)>, view: ViewType, k: int)
    requires
        last_widget_entry(entries, view, k),
    ensures
        widget_at(entries, view) == Some(entries[k].1),
    decreases entries.len(),
{
    if k < entries.len() - 1 {
        assert(entries.drop_last()[k] == entries[k]);
        assert forall|j: int| k < j < entries.drop_last().len() implies (#[trigger] entries.drop_last()[j]).0 != view by {
            assert(entries.drop_last()[j] == entries[j]);
        }
        lemma_widget_at_last(entries.drop_last(), view, k);
    }
}

/// A view without entries has no widget.
proof fn lemma_widget_at_absent<W>(entries: Seq<(ViewType, W)>, view: ViewType)
    requires
        forall|j: int| 0 <= j < entries.len() ==> (#[trigger] entries[j]).0 != view,
    ensures
        widget_at(entries, view) is None,
    decreases entries.len(),
{
    if entries.len() > 0 {
        assert forall|j: int| 0 <= j < entries.drop_last().len() implies (#[trigger] entries.drop_last()[j]).0 != view by {
            assert(entries.drop_last()[j] == entries[j]);
        }
        lemma_widget_at_absent(entries.drop_last(), view);
    }
}

/// Replacing the widget of the last entry of a view changes that view's
/// widget and no other's.
proof fn lemma_widget_at_update<W>(entries: Seq<(ViewType, W)>, k: int, w: W)
    requires
        last_widget_entry(entries, entries[k].0, k),
    ensures
        forall|u: ViewType|
            #[trigger] widget_at(entries.update(k, (entries[k].0, w)), u) == if u == entries[k].0 {
                Some(w)
            } else {
                widget_at(entries, u)
            },
    decreases entries.len(),
{
    let updated = entries.update(k, (entries[k].0, w));
    let view = entries[k].0;
    if k < entries.len() - 1 {
        let rest = entries.drop_last();
        assert(rest[k] == entries[k]);
        assert forall|j: int| k < j < rest.len() implies (#[trigger] rest[j]).0 != view by {
            assert(rest[j] == entries[j]);
        }
        lemma_widget_at_update(rest, k, w);
        assert(updated.drop_last() =~= rest.update(k, (rest[k].0, w)));
        assert(updated.last() == entries.last());
        assert(entries.last() == entries[entries.len() - 1]);
        assert forall|u: ViewType|
            #[trigger] widget_at(updated, u) == if u == view {
                Some(w)
            } else {
                widget_at(entries, u)
            } by {
            assert(widget_at(rest.update(k, (rest[k].0, w)), u) == if u == view {
                Some(w)
            } else {
                widget_at(rest, u)
            });
        }
    } else {
        assert(updated.drop_last() =~= entries.drop_last());
        assert(updated.last() == (view, w));
        assert forall|u: ViewType|
            #[trigger] widget_at(updated, u) == if u == view {
                Some(w)
            } else {
                widget_at(entries, u)
            } by {
        }
    }
}

/// The name of a view as the interface shows it.
pub open spec fn view_title(v: ViewType) -> Seq<char> {
    match v {
        ViewType::WorkflowList => "工作流列表"@,
        ViewType::ExecutionMonitor => "执行监控"@,
        ViewType::ToolManager => "工具管理"@,
        ViewType::PluginManager => "插件管理"@,
        ViewType::SystemStatus => "系统状态"@,
        ViewType::LogViewer => "日志查看器"@,
    }
}

/// Which view is shown, the views shown before it, and the widget of each
/// view. The widgets' own work is the caller's: a change of view returns
/// the views whose widgets are to be told.
pub struct Router<W> {
    current_view: ViewType,
    view_stack: Vec<ViewType>,
    widgets: Vec<(ViewType, W)>,
}

impl<W> Router<W> {
    /// The view shown.
    pub closed spec fn current(self) -> ViewType {
        self.current_view
    }

    /// The views shown before the current one, oldest first.
    pub closed spec fn stack(self) -> Seq<ViewType> {
        self.view_stack@
    }

    /// The widget entries, in the order they were made.
    pub closed spec fn entries(self) -> Seq<(ViewType, W)> {
        self.widgets@
    }

    /// The widget of `view`, if any.
    pub open spec fn widget(self, view: ViewType) -> Option<W> {
        widget_at(self.entries(), view)
    }

    /// The view shown.
    pub fn current_view(&self) -> (res: ViewType)
        ensures
            res == self.current(),
    {
        self.current_view
    }

    /// Shows `view` without remembering the view left.
    pub fn set_current_view(&mut self, view: ViewType)
        ensures
            final(self).current() == view,
            final(self).stack() == old(self).stack(),
            final(self).entries() == old(self).entries(),
    {
        self.current_view = view;
    }

    /// A router on the workflow list, with no earlier view and no widget.
    pub fn new() -> (res: Self)
        ensures
            res.current() == ViewType::WorkflowList,
            res.stack().len() == 0,
            res.entries().len() == 0,
    {
        Router { current_view: ViewType::WorkflowList, view_stack: Vec::new(), widgets: Vec::new() }
    }

    /// The last entry of `view`, if any.
    fn find_widget(&self, view: ViewType) -> (res: Option<usize>)
        ensures
            res matches Some(k) ==> last_widget_entry(self.entries(), view, k as int),
            res is None ==> forall|j: int| 0 <= j < self.entries().len() ==> (#[trigger] self.entries()[j]).0 != view,
    {
        let mut i: usize = self.widgets.len();
        while i > 0
            invariant
                i <= self.widgets@.len(),
                forall|j: int| i <= j < self.widgets@.len() ==> (#[trigger] self.widgets@[j]).0 != view,
            decreases i,
        {
            let k = i - 1;
            if self.widgets[k].0 == view {
                return Some(k);
            }
            i = k;
        }
        None
    }

    /// Sets the widget of `view_type`, replacing the one it had.
    pub fn register_widget(&mut self, view_type: ViewType, widget: W)
        ensures
            forall|v: ViewType| #[trigger] final(self).widget(v) == if v == view_type {
                Some(widget)
            } else {
                old(self).widget(v)
            },
            final(self).current() == old(self).current(),
            final(self).stack() == old(self).stack(),
    {
        let ghost entries = self.widgets@;
        match self.find_widget(view_type) {
            Some(k) => {
                let _ = self.widgets.remove(k);
                proof {
                    lemma_widget_at_update(entries, k as int, widget);
                }
                self.widgets.insert(k, (view_type, widget));
                assert(self.widgets@ =~= entries.update(k as int, (entries[k as int].0, widget)));
            },
            None => {
                self.widgets.push((view_type, widget));
                assert(self.widgets@.drop_last() =~= entries);
            },
        }
    }

    /// The widget of `view`, to work on; what is done to it stays in the
    /// router.
    pub fn widget_mut(&mut self, view: ViewType) -> (res: Option<&mut W>)
        ensures
            match old(self).widget(view) {
                Some(w0) => (res matches Some(w) && *w == w0 && final(self).current() == old(self).current()
                    && final(self).stack() == old(self).stack() && (forall|u: ViewType| #[trigger] final(self).widget(u)
                    == if u == view {
                    Some(*final(w))
                } else {
                    old(self).widget(u)
                })),
                None => res is None && *final(self) == *old(self),
            },
    {
        let ghost entries = self.widgets@;
        match self.find_widget(view) {
            Some(k) => {
                proof {
                    lemma_widget_at_last(entries, view, k as int);
                }
                let r = &mut self.widgets[k].1;
                proof {
                    lemma_widget_at_update(entries, k as int, *final(r));
                }
                Some(r)
            },
            None => {
                proof {
                    lemma_widget_at_absent(entries, view);
                }
                None
            },
        }
    }

    /// The widget of the current view, to work on.
    pub fn get_current_widget_mut(&mut self) -> (res: Option<&mut W>)
        ensures
            match old(self).widget(old(self).current()) {
                Some(w0) => (res matches Some(w) && *w == w0 && final(self).current() == old(self).current()
                    && final(self).stack() == old(self).stack() && (forall|u: ViewType| #[trigger] final(self).widget(u)
                    == if u == old(self).current() {
                    Some(*final(w))
                } else {
                    old(self).widget(u)
                })),
                None => res is None && *final(self) == *old(self),
            },
    {
        let view = self.current_view;
        self.widget_mut(view)
    }

    /// Shows `view` when another view is shown: the view shown goes on the
    /// stack. Returns the view left and the view shown, whose widgets are to
    /// be told; nothing when `view` is already shown.
    pub fn navigate_to(&mut self, view: ViewType) -> (res: Option<(ViewType, ViewType)>)
        ensures
            routed(*old(self), *final(self), view, res),
    {
        if view != self.current_view {
            let left = self.current_view;
            self.view_stack.push(left);
            self.current_view = view;
            Some((left, view))
        } else {
            None
        }
    }

    /// Shows again the view shown before, when there is one. Returns the
    /// view left and the view shown again.
    pub fn go_back(&mut self) -> (res: Option<(ViewType, ViewType)>)
        ensures
            went_back(*old(self), *final(self), res),
    {
        if self.view_stack.len() > 0 {
            let previous = self.view_stack.pop().unwrap();
            let left = self.current_view;
            self.current_view = previous;
            Some((left, previous))
        } else {
            None
        }
    }

    /// The name of the current view as the interface shows it.
    pub fn current_view_name(&self) -> (res: &'static str)
        ensures
            res@ == view_title(self.current()),
    {
        match self.current_view {
            ViewType::WorkflowList => "工作流列表",
            ViewType::ExecutionMonitor => "执行监控",
            ViewType::ToolManager => "工具管理",
            ViewType::PluginManager => "插件管理",
            ViewType::SystemStatus => "系统状态",
            ViewType::LogViewer => "日志查看器",
        }
    }
}

/// What showing `view` does to a router, from `old` to `new` with result
/// `res`: when another view is shown, it goes on the stack and `view` is
/// shown; else nothing.
pub open spec fn routed<W>(old: Router<W>, new: Router<W>, view: ViewType, res: Option<(ViewType, ViewType)>) -> bool {
    if view != old.current() {
        &&& new.current() == view
        &&& new.stack() == old.stack().push(old.current())
        &&& new.entries() == old.entries()
        &&& res == Some((old.current(), view))
    } else {
        new == old && res is None
    }
}

/// What going back does to a router, from `old` to `new` with result `res`:
/// the last view of the stack is shown again, if any.
pub open spec fn went_back<W>(old: Router<W>, new: Router<W>, res: Option<(ViewType, ViewType)>) -> bool {
    if old.stack().len() > 0 {
        &&& new.current() == old.stack().last()
        &&& new.stack() == old.stack().drop_last()
        &&& new.entries() == old.entries()
        &&& res == Some((old.current(), old.stack().last()))
    } else {
        new == old && res is None
    }
}

/// The widget each view focuses when it is shown.
pub open spec fn default_focus_name(v: ViewType) -> Seq<char> {
    match v {
        ViewType::WorkflowList => "workflow_list"@,
        ViewType::ExecutionMonitor => "execution_monitor"@,
        ViewType::ToolManager => "tool_manager"@,
        ViewType::PluginManager => "plugin_manager"@,
        ViewType::SystemStatus => "system_status"@,
        ViewType::LogViewer => "log_viewer"@,
    }
}

/// The view named `name`, as views are named in the configuration.
pub open spec fn view_named(name: Seq<char>) -> Option<ViewType> {
    if name == "WorkflowList"@ {
        Some(ViewType::WorkflowList)
    } else if name == "ExecutionMonitor"@ {
        Some(ViewType::ExecutionMonitor)
    } else if name == "ToolManager"@ {
        Some(ViewType::ToolManager)
    } else if name == "PluginManager"@ {
        Some(ViewType::PluginManager)
    } else if name == "SystemStatus"@ {
        Some(ViewType::SystemStatus)
    } else if name == "LogViewer"@ {
        Some(ViewType::LogViewer)
    } else {
        None
    }
}

/// The capability each view's widget is registered with: focusable by
/// every means, priority one.
pub open spec fn view_widget_capability(c: FocusCapability) -> bool {
    &&& c.focusable && c.tab_navigable && c.arrow_navigable
    &&& c.custom_keys@.len() == 0
    &&& c.priority == 1
    &&& c.wrap_navigation
}

/// Different views focus differently named widgets.
proof fn lemma_default_names_distinct(u: ViewType, v: ViewType)
    requires
        u != v,
    ensures
        default_focus_name(u) != default_focus_name(v),
{
    reveal_strlit("workflow_list");
    reveal_strlit("execution_monitor");
    reveal_strlit("tool_manager");
    reveal_strlit("plugin_manager");
    reveal_strlit("system_status");
    reveal_strlit("log_viewer");
    assert(default_focus_name(u)[0] != default_focus_name(v)[0]);
}

/// Whether the widget named `name` is registered with the capability of a
/// view's widget.
pub open spec fn has_view_capability(f: FocusManager, name: Seq<char>) -> bool {
    f.capability(name) matches Some(c) && view_widget_capability(c)
}

/// Whether a focus manager has each view's widget registered and as the
/// view's whole focus order, no focus, and an empty history.
pub open spec fn focus_set_up(f: FocusManager) -> bool {
    &&& f.well_formed()
    &&& forall|v: ViewType| #[trigger] f.order(v) == Some(seq![default_focus_name(v)])
    &&& forall|v: ViewType| #[trigger] has_view_capability(f, default_focus_name(v))
    &&& f.focus() is None
    &&& f.history().len() == 0
    &&& f.max_history() == 10
    &&& !f.locked()
    &&& f.events().len() == 0
}

/// What the caller does after an action: tell the widgets of a change of
/// view, refresh the data, mark a workflow running, or switch the theme.
#[derive(Debug)]
pub enum AppEffect {
    Nothing,
    /// The first view was left for the second.
    ViewChanged(ViewType, ViewType),
    RefreshData,
    MarkWorkflowRunning(String),
    SwitchTheme(String),
}

/// What becomes of a key press: an action, or the key for the widget of
/// the current view.
#[derive(Debug)]
pub enum KeyOutcome {
    Handled(Action),
    ToWidget(KeyEvent),
}

/// The action of the global shortcuts for a key: Ctrl+Q quits, F1 to F6
/// show the views, F12 refreshes; other keys go to the widget.
pub open spec fn global_shortcut(k: KeyEvent) -> KeyOutcome {
    match k.code {
        KeyCode::Char(c) => if c == 'q' && k.modifiers & MOD_CONTROL != 0 {
            KeyOutcome::Handled(Action::Quit)
        } else {
            KeyOutcome::ToWidget(k)
        },
        KeyCode::F(n) => if n == 1 {
            KeyOutcome::Handled(Action::Navigate(ViewType::WorkflowList))
        } else if n == 2 {
            KeyOutcome::Handled(Action::Navigate(ViewType::ExecutionMonitor))
        } else if n == 3 {
            KeyOutcome::Handled(Action::Navigate(ViewType::ToolManager))
        } else if n == 4 {
            KeyOutcome::Handled(Action::Navigate(ViewType::PluginManager))
        } else if n == 5 {
            KeyOutcome::Handled(Action::Navigate(ViewType::SystemStatus))
        } else if n == 6 {
            KeyOutcome::Handled(Action::Navigate(ViewType::LogViewer))
        } else if n == 12 {
            KeyOutcome::Handled(Action::Refresh)
        } else {
            KeyOutcome::ToWidget(k)
        },
        _ => KeyOutcome::ToWidget(k),
    }
}

/// Whether the help takes a key: `?` alone, `Esc` alone while help is
/// shown, Shift+F1.
pub open spec fn help_takes(help: HelpSystem, k: KeyEvent) -> bool {
    ||| k.code == KeyCode::Char('?') && k.modifiers == MOD_NONE
    ||| k.code == KeyCode::Esc && k.modifiers == MOD_NONE && help.visible()
    ||| k.code == KeyCode::F(1) && k.modifiers == MOD_SHIFT
}

/// The state of the interface: router, focus, help, navigation stack, Esc
/// behavior and platform, whether to quit, and the time between updates.
pub struct TuiApp<W> {
    router: Router<W>,
    focus_manager: FocusManager,
    help_system: HelpSystem,
    navigation_stack: NavigationStack,
    esc_behavior: EscKeyBehavior,
    platform_manager: PlatformManager,
    pub should_quit: bool,
    tick_rate_ms: u64,
}

impl<W> TuiApp<W> {
    /// The router.
    pub closed spec fn router(self) -> Router<W> {
        self.router
    }

    /// The focus manager.
    pub closed spec fn focus(self) -> FocusManager {
        self.focus_manager
    }

    /// The help.
    pub closed spec fn help(self) -> HelpSystem {
        self.help_system
    }

    /// The navigation stack.
    pub closed spec fn nav(self) -> NavigationStack {
        self.navigation_stack
    }

    /// What Esc does.
    pub closed spec fn esc(self) -> EscKeyBehavior {
        self.esc_behavior
    }

    /// The platform.
    pub closed spec fn platform(self) -> PlatformManager {
        self.platform_manager
    }

    /// Whether the application is to stop.
    pub closed spec fn quitting(self) -> bool {
        self.should_quit
    }

    /// The time between updates, in milliseconds.
    pub closed spec fn tick_rate(self) -> u64 {
        self.tick_rate_ms
    }

    /// Whether the application is to stop.
    pub fn should_quit(&self) -> (res: bool)
        ensures
            res == self.quitting(),
    {
        self.should_quit
    }

    /// The parts are well formed and the navigation stack can record.
    pub open spec fn well_formed(self) -> bool {
        &&& self.focus().well_formed()
        &&& self.help().well_formed()
        &&& self.nav().well_formed()
        &&& self.nav().can_record()
    }

    /// The view named `view_str` in the configuration, if any.
    pub fn parse_view_type(view_str: &str) -> (res: Option<ViewType>)
        ensures
            res == view_named(view_str@),
    {
        if text_eq(view_str, "WorkflowList") {
            Some(ViewType::WorkflowList)
        } else if text_eq(view_str, "ExecutionMonitor") {
            Some(ViewType::ExecutionMonitor)
        } else if text_eq(view_str, "ToolManager") {
            Some(ViewType::ToolManager)
        } else if text_eq(view_str, "PluginManager") {
            Some(ViewType::PluginManager)
        } else if text_eq(view_str, "SystemStatus") {
            Some(ViewType::SystemStatus)
        } else if text_eq(view_str, "LogViewer") {
            Some(ViewType::LogViewer)
        } else {
            None
        }
    }

    /// The widget that `view` focuses when it is shown.
    pub fn get_default_focus_for_view(view: &ViewType) -> (res: Option<WidgetId>)
        ensures
            res matches Some(id) && id.name() == default_focus_name(*view),
    {
        let name = match view {
            ViewType::WorkflowList => "workflow_list",
            ViewType::ExecutionMonitor => "execution_monitor",
            ViewType::ToolManager => "tool_manager",
            ViewType::PluginManager => "plugin_manager",
            ViewType::SystemStatus => "system_status",
            ViewType::LogViewer => "log_viewer",
        };
        Some(WidgetId(String::from_str(name)))
    }

    /// A focus manager with the widget of each view registered, priority
    /// one, and as the view's focus order.
    pub fn setup_focus_orders() -> (res: FocusManager)
        ensures
            focus_set_up(res),
    {
        let mut f = FocusManager::new();
        let views = vec![
            ViewType::WorkflowList,
            ViewType::ExecutionMonitor,
            ViewType::ToolManager,
            ViewType::PluginManager,
            ViewType::SystemStatus,
            ViewType::LogViewer,
        ];
        let mut i: usize = 0;
        while i < views.len()
            invariant
                i <= views@.len(),
                views@ == seq![
                    ViewType::WorkflowList,
                    ViewType::ExecutionMonitor,
                    ViewType::ToolManager,
                    ViewType::PluginManager,
                    ViewType::SystemStatus,
                    ViewType::LogViewer,
                ],
                f.well_formed(),
                forall|j: int| 0 <= j < i ==> #[trigger] has_view_capability(f, default_focus_name(views@[j])),
                f.focus() is None,
                f.history().len() == 0,
                f.max_history() == 10,
                f.orders().len() == 0,
                !f.locked(),
                f.events().len() == 0,
            decreases views@.len() - i,
        {
            let id = Self::get_default_focus_for_view(&views[i]).unwrap();
            let ghost before = f;
            f.register_focusable_widget(id, FocusCapability::new().with_priority(1));
            proof {
                assert forall|j: int| 0 <= j < i implies #[trigger] has_view_capability(f, default_focus_name(views@[j])) by {
                    lemma_default_names_distinct(views@[j], views@[i as int]);
                    assert(has_view_capability(before, default_focus_name(views@[j])));
                }
            }
            i = i + 1;
        }
        assert forall|v: ViewType| #[trigger] has_view_capability(f, default_focus_name(v)) by {
            match v {
                ViewType::WorkflowList => assert(views@[0] == v),
                ViewType::ExecutionMonitor => assert(views@[1] == v),
                ViewType::ToolManager => assert(views@[2] == v),
                ViewType::PluginManager => assert(views@[3] == v),
                ViewType::SystemStatus => assert(views@[4] == v),
                ViewType::LogViewer => assert(views@[5] == v),
            }
        }
        let mut k: usize = 0;
        while k < views.len()
            invariant
                k <= views@.len(),
                views@ == seq![
                    ViewType::WorkflowList,
                    ViewType::ExecutionMonitor,
                    ViewType::ToolManager,
                    ViewType::PluginManager,
                    ViewType::SystemStatus,
                    ViewType::LogViewer,
                ],
                f.well_formed(),
                forall|v: ViewType| #[trigger] has_view_capability(f, default_focus_name(v)),
                forall|j: int| 0 <= j < k ==> #[trigger] f.order(views@[j]) == Some(seq![default_focus_name(views@[j])]),
                forall|j: int| k <= j < 6 ==> #[trigger] f.order(views@[j]) is None,
                f.focus() is None,
                f.history().len() == 0,
                f.max_history() == 10,
                !f.locked(),
                f.events().len() == 0,
            decreases views@.len() - k,
        {
            let view = views[k];
            let id = Self::get_default_focus_for_view(&view).unwrap();
            let ghost name = id.name();
            let ghost before = f;
            assert(has_view_capability(f, default_focus_name(view)));
            f.set_focus_order(view, vec![id]);
            proof {
                assert forall|v: ViewType| #[trigger] has_view_capability(f, default_focus_name(v)) by {
                    assert(has_view_capability(before, default_focus_name(v)));
                }
                reveal_with_fuel(crate::feedback::keep_where, 2);
                assert(crate::widget::names(seq![id]) =~= seq![name]);
                assert(crate::focus::only_registered(seq![name], f.registry()) =~= seq![name]);
                assert forall|j: int| k < j < 6 implies #[trigger] f.order(views@[j]) is None by {
                    assert(views@[j] != view);
                }
            }
            k = k + 1;
        }
        assert forall|v: ViewType| #[trigger] f.order(v) == Some(seq![default_focus_name(v)]) by {
            match v {
                ViewType::WorkflowList => assert(views@[0] == v),
                ViewType::ExecutionMonitor => assert(views@[1] == v),
                ViewType::ToolManager => assert(views@[2] == v),
                ViewType::PluginManager => assert(views@[3] == v),
                ViewType::SystemStatus => assert(views@[4] == v),
                ViewType::LogViewer => assert(views@[5] == v),
            }
        }
        f
    }
}

/// Whether the focus may move to `target`: it is not locked, and a widget
/// moved to is registered as focusable.
pub open spec fn focus_allowed(f: FocusManager, target: Option<Seq<char>>) -> bool {
    !f.locked() && match target {
        Some(n) => may_focus(f.registry(), n),
        None => true,
    }
}

/// The change of view that showing `view` makes, if any.
pub open spec fn route_of<W>(r: Router<W>, view: ViewType) -> Option<(ViewType, ViewType)> {
    if view != r.current() {
        Some((r.current(), view))
    } else {
        None
    }
}

/// The change of view that going back makes, if any.
pub open spec fn back_of<W>(r: Router<W>) -> Option<(ViewType, ViewType)> {
    if r.stack().len() > 0 {
        Some((r.current(), r.stack().last()))
    } else {
        None
    }
}

/// The effect of a change of view.
pub open spec fn route_effect(r: Option<(ViewType, ViewType)>) -> AppEffect {
    match r {
        Some((from, to)) => AppEffect::ViewChanged(from, to),
        None => AppEffect::Nothing,
    }
}

/// The effect of a change of view.
fn effect_of_route(r: Option<(ViewType, ViewType)>) -> (res: AppEffect)
    ensures
        res == route_effect(r),
{
    match r {
        Some((from, to)) => AppEffect::ViewChanged(from, to),
        None => AppEffect::Nothing,
    }
}

/// Whether `m` is the error dialog the application shows for `message`.
pub open spec fn error_modal_for(m: ModalDialog, message: Seq<char>, now: u64) -> bool {
    &&& m.id@ == "error_modal"@
    &&& m.title@ == "错误"@
    &&& m.content_type == ModalContentType::Error
    &&& m.closable
    &&& m.blocking
    &&& m.opened_at_ms == now
    &&& m.timeout_ms is None
    &&& m.on_close is None
    &&& m.buttons@.len() == 1
    &&& m.data == Some(json_string_object("error"@, message))
}

/// Whether `new` holds what `old` held apart from what the listed parts
/// say.
pub open spec fn keeps_rest<W>(old: TuiApp<W>, new: TuiApp<W>) -> bool {
    &&& new.help() == old.help()
    &&& new.esc() == old.esc()
    &&& new.platform() == old.platform()
    &&& new.tick_rate() == old.tick_rate()
}

/// What an action does, from `old` to `new` at `now` with effect `eff`.
pub open spec fn action_outcome<W>(old: TuiApp<W>, new: TuiApp<W>, action: Action, now: u64, eff: AppEffect) -> bool {
    &&& keeps_rest(old, new)
    &&& match action {
        Action::Quit => {
            &&& new.quitting()
            &&& new.router() == old.router() && new.nav() == old.nav() && new.focus() == old.focus()
            &&& eff == AppEffect::Nothing
        },
        Action::Navigate(view) => {
            let target = Some(default_focus_name(view));
            &&& new.quitting() == old.quitting()
            &&& pushed(old.nav(), new.nav(), view, NavigationTrigger::UserInitiated, now)
            &&& routed(old.router(), new.router(), view, route_of(old.router(), view))
            &&& focus_moved(old.focus(), new.focus(), target, FocusTrigger::ViewChange, now, focus_allowed(old.focus(), target))
            &&& eff == route_effect(route_of(old.router(), view))
        },
        Action::GoBack => {
            &&& new.quitting() == old.quitting()
            &&& if old.nav().states().len() > 1 {
                let previous = old.nav().views()[old.nav().views().len() - 2];
                let target = Some(default_focus_name(previous));
                &&& popped(old.nav(), new.nav(), now, Some(previous))
                &&& routed(old.router(), new.router(), previous, route_of(old.router(), previous))
                &&& focus_moved(old.focus(), new.focus(), target, FocusTrigger::ViewChange, now, focus_allowed(old.focus(), target))
                &&& eff == route_effect(route_of(old.router(), previous))
            } else {
                let target = Some(default_focus_name(new.router().current()));
                &&& new.nav() == old.nav()
                &&& went_back(old.router(), new.router(), back_of(old.router()))
                &&& focus_moved(old.focus(), new.focus(), target, FocusTrigger::ViewChange, now, focus_allowed(old.focus(), target))
                &&& eff == route_effect(back_of(old.router()))
            }
        },
        Action::FocusWidget(name) => {
            let target = Some(name@);
            &&& new.quitting() == old.quitting()
            &&& new.router() == old.router() && new.nav() == old.nav()
            &&& focus_moved(old.focus(), new.focus(), target, FocusTrigger::Direct, now, focus_allowed(old.focus(), target))
            &&& eff == AppEffect::Nothing
        },
        Action::ShowError(message) => {
            &&& new.quitting() == old.quitting()
            &&& new.router() == old.router() && new.focus() == old.focus()
            &&& new.nav().modal() matches Some(m) && error_modal_for(m, message@, now) && modal_opened(old.nav(), new.nav(), m, now)
            &&& eff == AppEffect::Nothing
        },
        _ => {
            &&& new.quitting() == old.quitting()
            &&& new.router() == old.router() && new.nav() == old.nav() && new.focus() == old.focus()
            &&& eff == match action {
                Action::Refresh => AppEffect::RefreshData,
                Action::ExecuteWorkflow(name) => AppEffect::MarkWorkflowRunning(name),
                Action::ChangeTheme(name) => AppEffect::SwitchTheme(name),
                _ => AppEffect::Nothing,
            }
        },
    }
}

/// What a key press does, from `old` to `new` at `now` with outcome `res`:
/// the platform maps the key; the help takes it first, then Esc goes to the
/// navigation stack, then the focus handles navigation keys, then the global
/// shortcuts apply; what is left goes to the widget.
pub open spec fn key_outcome<W>(old: TuiApp<W>, new: TuiApp<W>, key: KeyEvent, now: u64, res: KeyOutcome) -> bool {
    let k = mapped_key(old.platform().cfg().platform, key);
    &&& new.router() == old.router()
    &&& new.esc() == old.esc()
    &&& new.platform() == old.platform()
    &&& new.quitting() == old.quitting()
    &&& new.tick_rate() == old.tick_rate()
    &&& if help_takes(old.help(), k) {
        &&& help_key_outcome(old.help(), new.help(), k, now, Some(Action::ToggleHelp))
        &&& new.nav() == old.nav() && new.focus() == old.focus()
        &&& res == KeyOutcome::Handled(Action::ToggleHelp)
    } else {
        &&& new.help() == old.help()
        &&& exists|nav_res: Option<Action>| #[trigger] after_help(old, new, k, now, res, nav_res)
    }
}

/// What follows once the help has left the key `k`: with `nav_res` what Esc
/// did on the navigation stack.
pub open spec fn after_help<W>(
    old: TuiApp<W>,
    new: TuiApp<W>,
    k: KeyEvent,
    now: u64,
    res: KeyOutcome,
    nav_res: Option<Action>,
) -> bool {
    &&& if k.code == KeyCode::Esc {
        esc_outcome(old.nav(), new.nav(), old.esc(), nav_res, now)
    } else {
        new.nav() == old.nav() && nav_res is None
    }
    &&& match nav_res {
        Some(a) => new.focus() == old.focus() && res == KeyOutcome::Handled(a),
        None => exists|focus_res: Option<Action>| #[trigger] after_navigation(old, new, k, now, res, focus_res),
    }
}

/// What follows once Esc has left the key `k`: with `focus_res` what the
/// focus manager did.
pub open spec fn after_navigation<W>(
    old: TuiApp<W>,
    new: TuiApp<W>,
    k: KeyEvent,
    now: u64,
    res: KeyOutcome,
    focus_res: Option<Action>,
) -> bool {
    &&& navigation_key_outcome(old.focus(), new.focus(), k, old.router().current(), now, focus_res)
    &&& match focus_res {
        Some(a) => res == KeyOutcome::Handled(a),
        None => res == global_shortcut(k),
    }
}

impl<W> TuiApp<W> {
    /// The application as it starts: `widgets` registered with the router
    /// in order, each view's widget registered for focus, the default help,
    /// the navigation stack on the view named `default_view` (the workflow
    /// list when none is named so), the default Esc behavior, and updates
    /// `target_fps` times a second.
    pub fn new_with_config(
        platform_manager: PlatformManager,
        widgets: Vec<(ViewType, W)>,
        default_view: &str,
        target_fps: u16,
        now_ms: u64,
    ) -> (res: Self)
        requires
            target_fps > 0,
        ensures
            res.well_formed(),
            res.router().current() == ViewType::WorkflowList,
            res.router().stack().len() == 0,
            forall|v: ViewType| #[trigger] res.router().widget(v) == widget_at(widgets@, v),
            focus_set_up(res.focus()),
            res.help().is_initial(),
            ({
                let first = match view_named(default_view@) {
                    Some(v) => v,
                    None => ViewType::WorkflowList,
                };
                &&& res.nav().views() == seq![first]
                &&& res.nav().history() == seq![
                    event_at(NavigationEventType::ViewChanged, None, Some(first), NavigationTrigger::Startup, now_ms),
                ]
            }),
            res.nav().modal() is None,
            res.nav().hidden_modals().len() == 0,
            res.nav().max_stack() == 50,
            res.nav().max_history() == 100,
            res.esc().closes_modals && res.esc().navigates_back && res.esc().clears_focus && res.esc().cancels_operation,
            res.esc().view_behaviors@.len() == 0,
            res.platform() == platform_manager,
            !res.quitting(),
            res.tick_rate() == 1000int / (target_fps as int),
    {
        let mut router: Router<W> = Router::new();
        let mut rest = widgets;
        let ghost all = rest@;
        let total = rest.len();
        let mut i: usize = 0;
        while rest.len() > 0
            invariant
                total == all.len(),
                i <= all.len(),
                rest@ == all.skip(i as int),
                forall|v: ViewType| #[trigger] router.widget(v) == widget_at(all.take(i as int), v),
                router.current() == ViewType::WorkflowList,
                router.stack().len() == 0,
            decreases rest@.len(),
        {
            let (view, widget) = rest.remove(0);
            proof {
                assert(all.skip(i as int)[0] == all[i as int]);
                assert(all.take(i + 1).drop_last() =~= all.take(i as int));
                assert(all.take(i + 1).last() == all[i as int]);
            }
            router.register_widget(view, widget);
            i = i + 1;
            assert(rest@ =~= all.skip(i as int));
        }
        assert(all.take(i as int) =~= all);
        let focus_manager = Self::setup_focus_orders();
        let help_system = HelpSystem::new();
        let mut navigation_stack = NavigationStack::new();
        let first = match Self::parse_view_type(default_view) {
            Some(v) => v,
            None => ViewType::WorkflowList,
        };
        let ghost empty = navigation_stack;
        navigation_stack.push_state_at(first, NavigationTrigger::Startup, now_ms);
        proof {
            assert(empty.views() =~= Seq::<ViewType>::empty());
            assert(empty.views().push(first) =~= seq![first]);
            assert(empty.history().push(
                event_at(NavigationEventType::ViewChanged, None, Some(first), NavigationTrigger::Startup, now_ms),
            ) =~= seq![event_at(NavigationEventType::ViewChanged, None, Some(first), NavigationTrigger::Startup, now_ms)]);
        }
        let tick_rate_ms: u64 = 1000 / (target_fps as u64);
        TuiApp {
            router,
            focus_manager,
            help_system,
            navigation_stack,
            esc_behavior: EscKeyBehavior::default(),
            platform_manager,
            should_quit: false,
            tick_rate_ms,
        }
    }

    /// The router.
    pub fn get_router(&self) -> (res: &Router<W>)
        ensures
            *res == self.router(),
    {
        &self.router
    }

    /// The router, to work on its widgets; the rest stays as it is.
    pub fn router_mut(&mut self) -> (res: &mut Router<W>)
        ensures
            *res == old(self).router(),
            final(self).router() == *final(res),
            final(self).focus() == old(self).focus(),
            final(self).help() == old(self).help(),
            final(self).nav() == old(self).nav(),
            keeps_rest(*old(self), *final(self)),
            final(self).quitting() == old(self).quitting(),
    {
        &mut self.router
    }

    /// The focus manager.
    pub fn get_focus_manager(&self) -> (res: &FocusManager)
        ensures
            *res == self.focus(),
    {
        &self.focus_manager
    }

    /// The help.
    pub fn get_help_system(&self) -> (res: &HelpSystem)
        ensures
            *res == self.help(),
    {
        &self.help_system
    }

    /// The navigation stack.
    pub fn get_navigation_stack(&self) -> (res: &NavigationStack)
        ensures
            *res == self.nav(),
    {
        &self.navigation_stack
    }

    /// The platform.
    pub fn get_platform_manager(&self) -> (res: &PlatformManager)
        ensures
            *res == self.platform(),
    {
        &self.platform_manager
    }

    /// The time between updates, in milliseconds.
    pub fn tick_rate_ms(&self) -> (res: u64)
        ensures
            res == self.tick_rate(),
    {
        self.tick_rate_ms
    }

    /// Handles a key press at `now`: the help first, then Esc on the
    /// navigation stack, then focus navigation, then the global shortcuts;
    /// a key none of them takes goes to the widget of the current view.
    pub fn handle_key_event(&mut self, key: KeyEvent, now_ms: u64) -> (res: KeyOutcome)
        requires
            old(self).well_formed(),
        ensures
            final(self).well_formed(),
            key_outcome(*old(self), *final(self), key, now_ms, res),
    {
        let ghost start = *self;
        let mapped = self.platform_manager.map_key_event(key);
        if let Some(action) = self.help_system.handle_key_event(mapped, now_ms) {
            return KeyOutcome::Handled(action);
        }
        let mut nav_res: Option<Action> = None;
        if mapped.code == KeyCode::Esc {
            nav_res = self.navigation_stack.handle_esc_key_at(&self.esc_behavior, now_ms);
        }
        if let Some(action) = nav_res {
            assert(after_help(start, *self, mapped, now_ms, KeyOutcome::Handled(action), nav_res));
            return KeyOutcome::Handled(action);
        }
        let view = self.router.current_view;
        let focus_res = self.focus_manager.handle_navigation_key_at(mapped, &view, now_ms);
        let res = match focus_res {
            Some(action) => KeyOutcome::Handled(action),
            None => global_shortcut_of(mapped),
        };
        assert(after_navigation(start, *self, mapped, now_ms, res, focus_res));
        assert(after_help(start, *self, mapped, now_ms, res, nav_res));
        res
    }

    /// Carries out an action at `now` and returns what is left for the
    /// caller to do.
    pub fn process_action(&mut self, action: Action, now_ms: u64) -> (res: AppEffect)
        requires
            old(self).well_formed(),
        ensures
            final(self).well_formed(),
            action_outcome(*old(self), *final(self), action, now_ms, res),
    {
        match action {
            Action::Quit => {
                self.should_quit = true;
                AppEffect::Nothing
            },
            Action::Navigate(view) => {
                self.navigation_stack.push_state_at(view, NavigationTrigger::UserInitiated, now_ms);
                let route = self.router.navigate_to(view);
                let target = Self::get_default_focus_for_view(&view);
                let _moved = self.focus_manager.set_focus_at(target, FocusTrigger::ViewChange, now_ms);
                effect_of_route(route)
            },
            Action::GoBack => {
                match self.navigation_stack.pop_state_at(now_ms) {
                    Some(previous) => {
                        let route = self.router.navigate_to(previous);
                        let target = Self::get_default_focus_for_view(&previous);
                        let _moved = self.focus_manager.set_focus_at(target, FocusTrigger::ViewChange, now_ms);
                        effect_of_route(route)
                    },
                    None => {
                        let route = self.router.go_back();
                        let current = self.router.current_view;
                        let target = Self::get_default_focus_for_view(&current);
                        let _moved = self.focus_manager.set_focus_at(target, FocusTrigger::ViewChange, now_ms);
                        effect_of_route(route)
                    },
                }
            },
            Action::FocusWidget(name) => {
                let _moved = self.focus_manager.set_focus_at(Some(WidgetId(name)), FocusTrigger::Direct, now_ms);
                AppEffect::Nothing
            },
            Action::Refresh => AppEffect::RefreshData,
            Action::ExecuteWorkflow(name) => AppEffect::MarkWorkflowRunning(name),
            Action::ShowError(message) => {
                let modal = ModalDialog::error_at(
                    String::from_str("error_modal"),
                    String::from_str("错误"),
                    message,
                    now_ms,
                );
                self.navigation_stack.open_modal_at(modal, now_ms);
                AppEffect::Nothing
            },
            Action::ChangeTheme(name) => AppEffect::SwitchTheme(name),
            _ => AppEffect::Nothing,
        }
    }

    /// Shows the error of a failed theme switch, as `ShowError` with the
    /// message `Failed to switch theme: ` and the error.
    pub fn report_theme_error(&mut self, error: &str, now_ms: u64) -> (res: AppEffect)
        requires
            old(self).well_formed(),
        ensures
            final(self).well_formed(),
            exists|message: String| message@ == "Failed to switch theme: "@ + error@ && action_outcome(
                *old(self),
                *final(self),
                Action::ShowError(message),
                now_ms,
                res,
            ),
    {
        let mut message = String::from_str("Failed to switch theme: ");
        message.append(error);
        let ghost m = message;
        let res = self.process_action(Action::ShowError(message), now_ms);
        assert(m@ == "Failed to switch theme: "@ + error@);
        res
    }
}

/// The outcome of the global shortcuts for a key.
fn global_shortcut_of(k: KeyEvent) -> (res: KeyOutcome)
    ensures
        res == global_shortcut(k),
{
    match k.code {
        KeyCode::Char(c) => if c == 'q' && k.modifiers & MOD_CONTROL != 0 {
            KeyOutcome::Handled(Action::Quit)
        } else {
            KeyOutcome::ToWidget(k)
        },
        KeyCode::F(n) => if n == 1 {
            KeyOutcome::Handled(Action::Navigate(ViewType::WorkflowList))
        } else if n == 2 {
            KeyOutcome::Handled(Action::Navigate(ViewType::ExecutionMonitor))
        } else if n == 3 {
            KeyOutcome::Handled(Action::Navigate(ViewType::ToolManager))
        } else if n == 4 {
            KeyOutcome::Handled(Action::Navigate(ViewType::PluginManager))
        } else if n == 5 {
            KeyOutcome::Handled(Action::Navigate(ViewType::SystemStatus))
        } else if n == 6 {
            KeyOutcome::Handled(Action::Navigate(ViewType::LogViewer))
        } else if n == 12 {
            KeyOutcome::Handled(Action::Refresh)
        } else {
            KeyOutcome::ToWidget(k)
        },
        _ => KeyOutcome::ToWidget(k),
    }
}

} // verus!
