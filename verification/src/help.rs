//! Help for the interface: the shortcuts of each context, help texts, and
//! when help is shown.

use vstd::prelude::*;
use crate::action::{Action, ViewType};
use crate::feedback::{keep_where, lemma_flags_match, remove_flagged};
use crate::keys::{KeyCode, KeyEvent, MOD_NONE, MOD_SHIFT};
use crate::text::{texts, lemma_text_lt_asymmetric, lemma_text_lt_total, lemma_text_lt_transitive, text_lt, text_order, text_eq};
use crate::widget::WidgetId;

verus! {

/// A keyboard shortcut as help lists it.
#[derive(Debug)]
pub struct ShortcutInfo {
    /// The key combination, such as `Ctrl+Q`.
    pub key: String,
    /// What the shortcut does.
    pub description: String,
    /// The group it is listed under.
    pub category: String,
    /// Whether it can be used in the current context.
    pub available: bool,
    /// Its rank in listings: higher comes first.
    pub priority: i32,
    /// Whether it is highlighted.
    pub primary: bool,
}

impl Clone for ShortcutInfo {
    fn clone(&self) -> (res: Self)
        ensures
            res == *self,
    {
        ShortcutInfo {
            key: self.key.clone(),
            description: self.description.clone(),
            category: self.category.clone(),
            available: self.available,
            priority: self.priority,
            primary: self.primary,
        }
    }
}

/// A shortcut as plain values: key, description, category, availability,
/// priority and whether it is primary.
pub open spec fn shortcut_view(s: ShortcutInfo) -> (Seq<char>, Seq<char>, Seq<char>, bool, i32, bool) {
    (s.key@, s.description@, s.category@, s.available, s.priority, s.primary)
}

/// A list of shortcuts as plain values.
pub open spec fn shortcut_views(v: Seq<ShortcutInfo>) -> Seq<(Seq<char>, Seq<char>, Seq<char>, bool, i32, bool)> {
    v.map_values(|s: ShortcutInfo| shortcut_view(s))
}

/// What orders shortcuts in listings: priority, category and key.
pub open spec fn rank(s: ShortcutInfo) -> (i32, Seq<char>, Seq<char>) {
    (s.priority, s.category@, s.key@)
}

/// Whether `a` is listed before `b`: higher priority first, then category,
/// then key, each text in lexicographic order.
pub open spec fn listed_before(a: ShortcutInfo, b: ShortcutInfo) -> bool {
    ||| a.priority > b.priority
    ||| a.priority == b.priority && text_lt(a.category@, b.category@)
    ||| a.priority == b.priority && a.category@ == b.category@ && text_lt(a.key@, b.key@)
}

/// Whether a list of shortcuts is in listing order.
pub open spec fn in_listing_order(s: Seq<ShortcutInfo>) -> bool {
    forall|i: int, j: int| 0 <= i < j < s.len() ==> !listed_before(#[trigger] s[j], #[trigger] s[i])
}

/// The shortcuts of `s` that rank like `x`, in order.
pub open spec fn same_rank_in(s: Seq<ShortcutInfo>, x: ShortcutInfo) -> Seq<ShortcutInfo> {
    s.filter(|y: ShortcutInfo| rank(y) == rank(x))
}

/// Whether `res` lists the shortcuts of `input` in listing order, shortcuts
/// of equal rank in the order they had.
pub open spec fn listing_of(res: Seq<ShortcutInfo>, input: Seq<ShortcutInfo>) -> bool {
    &&& in_listing_order(res)
    &&& forall|x: ShortcutInfo| #[trigger] same_rank_in(res, x) == same_rank_in(input, x)
}

/// The listing order is a strict order whose ties are the shortcuts of
/// equal rank.
pub proof fn lemma_listing_order(a: ShortcutInfo, b: ShortcutInfo, c: ShortcutInfo)
    ensures
        !listed_before(a, a),
        !(listed_before(a, b) && listed_before(b, a)),
        listed_before(a, b) || listed_before(b, a) || rank(a) == rank(b),
        listed_before(a, b) && listed_before(b, c) ==> listed_before(a, c),
{
    lemma_text_lt_asymmetric(a.category@, b.category@);
    lemma_text_lt_asymmetric(a.key@, b.key@);
    lemma_text_lt_total(a.category@, b.category@);
    lemma_text_lt_total(a.key@, b.key@);
    if listed_before(a, b) && listed_before(b, c) {
        if a.priority == b.priority && b.priority == c.priority {
            if text_lt(a.category@, b.category@) && text_lt(b.category@, c.category@) {
                lemma_text_lt_transitive(a.category@, b.category@, c.category@);
            }
            if text_lt(a.key@, b.key@) && text_lt(b.key@, c.key@) {
                lemma_text_lt_transitive(a.key@, b.key@, c.key@);
            }
        }
    }
}

/// Filtering a sequence none of whose elements pass gives nothing.
proof fn lemma_filter_none(s: Seq<ShortcutInfo>, x: ShortcutInfo)
    requires
        forall|i: int| 0 <= i < s.len() ==> rank(#[trigger] s[i]) != rank(x),
    ensures
        same_rank_in(s, x) == Seq::<ShortcutInfo>::empty(),
    decreases s.len(),
{
    reveal(Seq::filter);
    if s.len() > 0 {
        lemma_filter_none(s.drop_last(), x);
    }
}

/// Inserting `x` into a listing right before the first shortcut listed
/// after it keeps the listing order and adds `x` last among its rank.
proof fn lemma_insert_in_listing(s: Seq<ShortcutInfo>, x: ShortcutInfo, p: int)
    requires
        in_listing_order(s),
        0 <= p <= s.len(),
        forall|q: int| 0 <= q < p ==> !listed_before(x, #[trigger] s[q]),
        p < s.len() ==> listed_before(x, s[p]),
    ensures
        in_listing_order(s.insert(p, x)),
        forall|y: ShortcutInfo|
            #[trigger] same_rank_in(s.insert(p, x), y) == if rank(x) == rank(y) {
                same_rank_in(s, y).push(x)
            } else {
                same_rank_in(s, y)
            },
{
    let t = s.insert(p, x);
    assert forall|j: int| p <= j < s.len() implies listed_before(x, #[trigger] s[j]) by {
        if j > p {
            lemma_listing_order(x, s[p], s[j]);
            lemma_listing_order(s[p], s[j], s[j]);
            if rank(s[p]) == rank(s[j]) {
            } else {
                assert(!listed_before(s[j], s[p]));
            }
        }
    }
    assert forall|i: int, j: int| 0 <= i < j < t.len() implies !listed_before(#[trigger] t[j], #[trigger] t[i]) by {
        if i < p && j == p {
        } else if i == p {
            lemma_listing_order(x, t[j], x);
        } else if i < p && j > p {
            assert(t[i] == s[i] && t[j] == s[j - 1]);
        } else if i > p {
            assert(t[i] == s[i - 1] && t[j] == s[j - 1]);
        }
    }
    let front = s.take(p);
    let back = s.skip(p);
    assert(s =~= front + back);
    assert(t =~= front + seq![x] + back);
    assert forall|y: ShortcutInfo|
        #[trigger] same_rank_in(t, y) == if rank(x) == rank(y) {
            same_rank_in(s, y).push(x)
        } else {
            same_rank_in(s, y)
        } by {
        let pred = |z: ShortcutInfo| rank(z) == rank(y);
        Seq::filter_distributes_over_add(front + seq![x], back, pred);
        Seq::filter_distributes_over_add(front, seq![x], pred);
        Seq::filter_distributes_over_add(front, back, pred);
        Seq::<ShortcutInfo>::empty().lemma_filter_push(x, pred);
        assert(seq![x] =~= Seq::<ShortcutInfo>::empty().push(x));
        reveal(Seq::filter);
        assert(Seq::<ShortcutInfo>::empty().filter(pred) =~= Seq::<ShortcutInfo>::empty());
        if rank(x) == rank(y) {
            assert forall|i: int| 0 <= i < back.len() implies rank(#[trigger] back[i]) != rank(y) by {
                assert(back[i] == s[p + i]);
                lemma_listing_order(x, s[p + i], x);
            }
            lemma_filter_none(back, y);
            assert(same_rank_in(back, y) == back.filter(pred));
            assert(front.filter(pred) + back.filter(pred) =~= front.filter(pred));
            assert(front.filter(pred) + seq![x] + back.filter(pred) =~= front.filter(pred).push(x));
        } else {
            assert(front.filter(pred) + Seq::<ShortcutInfo>::empty() =~= front.filter(pred));
        }
    }
}

/// Whether `a` is listed before `b`.
fn is_listed_before(a: &ShortcutInfo, b: &ShortcutInfo) -> (res: bool)
    ensures
        res == listed_before(*a, *b),
{
    if a.priority != b.priority {
        return a.priority > b.priority;
    }
    let by_category = text_order(a.category.as_str(), b.category.as_str());
    if by_category != 0 {
        return by_category < 0;
    }
    text_order(a.key.as_str(), b.key.as_str()) < 0
}

/// The shortcuts of `input` in listing order: higher priority first, then
/// by category and key, shortcuts of equal rank in the order given.
pub fn sort_shortcuts(input: &Vec<ShortcutInfo>) -> (res: Vec<ShortcutInfo>)
    ensures
        listing_of(res@, input@),
{
    let mut res: Vec<ShortcutInfo> = Vec::new();
    let mut i: usize = 0;
    proof {
        reveal(Seq::filter);
        assert forall|x: ShortcutInfo| #[trigger] same_rank_in(res@, x) == same_rank_in(input@.take(0), x) by {
            assert(res@ =~= input@.take(0));
        }
    }
    while i < input.len()
        invariant
            i <= input@.len(),
            in_listing_order(res@),
            forall|x: ShortcutInfo| #[trigger] same_rank_in(res@, x) == same_rank_in(input@.take(i as int), x),
        decreases input@.len() - i,
    {
        let x = input[i].clone();
        let mut p: usize = 0;
        while p < res.len() && !is_listed_before(&x, &res[p])
            invariant
                p <= res@.len(),
                forall|q: int| 0 <= q < p ==> !listed_before(x, #[trigger] res@[q]),
            decreases res@.len() - p,
        {
            p = p + 1;
        }
        proof {
            lemma_insert_in_listing(res@, x, p as int);
            assert forall|y: ShortcutInfo|
                #[trigger] same_rank_in(input@.take(i + 1), y) == if rank(x) == rank(y) {
                    same_rank_in(input@.take(i as int), y).push(x)
                } else {
                    same_rank_in(input@.take(i as int), y)
                } by {
                assert(input@.take(i + 1) =~= input@.take(i as int).push(x));
                input@.take(i as int).lemma_filter_push(x, |z: ShortcutInfo| rank(z) == rank(y));
            }
        }
        res.insert(p, x);
        i = i + 1;
    }
    proof {
        assert(input@.take(i as int) =~= input@);
    }
    res
}

/// A shortcut as plain values: key, description, category, availability,
/// priority and whether it is primary.
pub type ShortcutFields = (Seq<char>, Seq<char>, Seq<char>, bool, i32, bool);

/// An available shortcut.
fn shortcut(key: &str, description: &str, category: &str, priority: i32, primary: bool) -> (res: ShortcutInfo)
    ensures
        shortcut_view(res) == (key@, description@, category@, true, priority, primary),
{
    ShortcutInfo {
        key: String::from_str(key),
        description: String::from_str(description),
        category: String::from_str(category),
        available: true,
        priority,
        primary,
    }
}

/// A copy of a list of shortcuts.
pub fn copy_shortcuts(v: &Vec<ShortcutInfo>) -> (res: Vec<ShortcutInfo>)
    ensures
        res@ == v@,
{
    let mut res: Vec<ShortcutInfo> = Vec::new();
    let mut i: usize = 0;
    while i < v.len()
        invariant
            i <= v@.len(),
            res@ == v@.take(i as int),
        decreases v@.len() - i,
    {
        res.push(v[i].clone());
        i = i + 1;
        assert(res@ =~= v@.take(i as int));
    }
    assert(v@.take(i as int) =~= v@);
    res
}

/// The shortcuts that work everywhere, as the help starts with them.
pub open spec fn default_global_shortcuts() -> Seq<ShortcutFields> {
    seq![
        ("Ctrl+Q"@, "退出应用程序"@, "应用程序"@, true, 100i32, true),
        ("F12"@, "刷新数据"@, "应用程序"@, true, 80i32, false),
        ("?"@, "显示/隐藏帮助"@, "帮助"@, true, 90i32, true),
        ("Tab"@, "下一个元素"@, "导航"@, true, 70i32, false),
        ("Shift+Tab"@, "上一个元素"@, "导航"@, true, 70i32, false),
        ("Esc"@, "返回/取消"@, "导航"@, true, 85i32, true),
    ]
}

/// The function keys that switch views, listed in every view.
pub open spec fn view_switch_shortcuts() -> Seq<ShortcutFields> {
    seq![
        ("F1"@, "工作流列表"@, "视图切换"@, true, 60i32, false),
        ("F2"@, "执行监控"@, "视图切换"@, true, 60i32, false),
        ("F3"@, "工具管理"@, "视图切换"@, true, 60i32, false),
        ("F4"@, "插件管理"@, "视图切换"@, true, 60i32, false),
        ("F5"@, "系统状态"@, "视图切换"@, true, 60i32, false),
        ("F6"@, "日志查看器"@, "视图切换"@, true, 60i32, false),
    ]
}

/// The shortcuts of the workflow list beyond view switching.
pub open spec fn workflow_list_shortcuts() -> Seq<ShortcutFields> {
    seq![
        ("Enter"@, "执行选中的工作流"@, "工作流操作"@, true, 95i32, true),
        ("↑/↓"@, "选择工作流"@, "工作流操作"@, true, 75i32, false),
        ("d"@, "切换详情视图"@, "工作流操作"@, true, 65i32, false),
        ("/"@, "搜索工作流"@, "工作流操作"@, true, 70i32, false),
    ]
}

/// The shortcuts of the execution monitor beyond view switching.
pub open spec fn execution_monitor_shortcuts() -> Seq<ShortcutFields> {
    seq![
        ("Space"@, "暂停/恢复执行"@, "执行控制"@, true, 95i32, true),
        ("s"@, "停止执行"@, "执行控制"@, true, 90i32, true),
        ("c"@, "取消执行"@, "执行控制"@, true, 85i32, false),
        ("d"@, "切换依赖关系图"@, "显示选项"@, true, 60i32, false),
    ]
}

/// The shortcuts of the log viewer beyond view switching.
pub open spec fn log_viewer_shortcuts() -> Seq<ShortcutFields> {
    seq![
        ("1-5"@, "按级别过滤日志"@, "日志操作"@, true, 80i32, false),
        ("c"@, "清除日志"@, "日志操作"@, true, 70i32, false),
        ("e"@, "导出日志"@, "日志操作"@, true, 65i32, false),
        ("/"@, "搜索日志"@, "日志操作"@, true, 75i32, false),
    ]
}

/// Where the shortcuts of a view are kept.
pub open spec fn view_slot(v: ViewType) -> int {
    match v {
        ViewType::WorkflowList => 0,
        ViewType::ExecutionMonitor => 1,
        ViewType::ToolManager => 2,
        ViewType::PluginManager => 3,
        ViewType::SystemStatus => 4,
        ViewType::LogViewer => 5,
    }
}

/// The shortcuts of a view as the help starts with them.
pub open spec fn default_view_shortcuts(v: ViewType) -> Seq<ShortcutFields> {
    match v {
        ViewType::WorkflowList => view_switch_shortcuts() + workflow_list_shortcuts(),
        ViewType::ExecutionMonitor => view_switch_shortcuts() + execution_monitor_shortcuts(),
        ViewType::LogViewer => view_switch_shortcuts() + log_viewer_shortcuts(),
        _ => view_switch_shortcuts(),
    }
}

/// A help text for a context.
#[derive(Debug)]
pub struct HelpContent {
    pub title: String,
    pub content: String,
    pub tips: Vec<String>,
    pub shortcuts: Vec<ShortcutInfo>,
    pub see_also: Vec<String>,
}

/// A help text as plain values: title, text, tips, shortcuts and related
/// contexts.
pub open spec fn help_content_view(c: HelpContent) -> (
    Seq<char>,
    Seq<char>,
    Seq<Seq<char>>,
    Seq<ShortcutFields>,
    Seq<Seq<char>>,
) {
    (c.title@, c.content@, texts(c.tips@), shortcut_views(c.shortcuts@), texts(c.see_also@))
}

/// Where help is shown.
#[derive(Debug, Clone, Copy, PartialEq, Eq, Structural)]
pub enum HelpDisplayMode {
    Overlay,
    Sidebar,
    BottomPanel,
    Tooltip,
    StatusBar,
}

/// The fade of the help in or out: whether it runs, when it started, how
/// long it lasts (in milliseconds) and how far it is, in thousandths.
#[derive(Debug, Clone, Copy, PartialEq, Eq, Structural)]
pub struct HelpAnimationState {
    pub animating: bool,
    pub start_time_ms: Option<u64>,
    pub duration_ms: u64,
    pub progress_permille: u32,
}

/// How far a fade is at `now`, in thousandths: all the way once its
/// duration has passed.
pub open spec fn fade_progress(start: u64, duration: u64, now: u64) -> int {
    let elapsed = if now >= start { now - start } else { 0 };
    if elapsed >= duration {
        1000
    } else {
        elapsed * 1000 / duration as int
    }
}

/// The layout of the help popup.
#[derive(Debug, Clone, Copy, PartialEq, Eq, Structural)]
pub struct HelpPopupConfig {
    pub width_percent: u16,
    pub height_percent: u16,
    pub centered: bool,
    pub show_close_button: bool,
    pub dim_background: bool,
    pub animation_duration_ms: u64,
}

impl HelpPopupConfig {
    /// A centered popup of 80% by 70% of the screen, with a close button,
    /// dimmed background and a fade of 300 ms.
    pub fn default() -> (res: Self)
        ensures
            res == (HelpPopupConfig {
                width_percent: 80,
                height_percent: 70,
                centered: true,
                show_close_button: true,
                dim_background: true,
                animation_duration_ms: 300,
            }),
    {
        HelpPopupConfig {
            width_percent: 80,
            height_percent: 70,
            centered: true,
            show_close_button: true,
            dim_background: true,
            animation_duration_ms: 300,
        }
    }
}

/// Where a shortcut applies.
#[derive(Debug)]
pub enum ShortcutScope {
    Global,
    View(ViewType),
    Widget(WidgetId),
}

/// Counts and state of the help.
#[derive(Debug)]
pub struct HelpStats {
    pub global_shortcuts_count: usize,
    pub view_shortcuts_count: usize,
    pub widget_shortcuts_count: usize,
    pub help_content_count: usize,
    pub is_visible: bool,
    pub current_context: Option<String>,
    pub display_mode: HelpDisplayMode,
}

/// The shortcuts of the widget named `name`: those of its last entry.
pub open spec fn widget_list_of(entries: Seq<(WidgetId, Vec<ShortcutInfo>)>, name: Seq<char>) -> Option<
    Seq<ShortcutInfo>,
>
    decreases entries.len(),
{
    if entries.len() == 0 {
        None
    } else if entries.last().0.name() == name {
        Some(entries.last().1@)
    } else {
        widget_list_of(entries.drop_last(), name)
    }
}

/// The help text of the context named `name`: that of its last entry.
pub open spec fn help_for(entries: Seq<(String, HelpContent)>, name: Seq<char>) -> Option<HelpContent>
    decreases entries.len(),
{
    if entries.len() == 0 {
        None
    } else if entries.last().0@ == name {
        Some(entries.last().1)
    } else {
        help_for(entries.drop_last(), name)
    }
}

/// How many shortcuts the lists hold together.
pub open spec fn total_in_lists(lists: Seq<Vec<ShortcutInfo>>) -> nat
    decreases lists.len(),
{
    if lists.len() == 0 {
        0
    } else {
        total_in_lists(lists.drop_last()) + lists.last()@.len()
    }
}

/// How many shortcuts the widget entries hold together.
pub open spec fn total_in_entries(entries: Seq<(WidgetId, Vec<ShortcutInfo>)>) -> nat
    decreases entries.len(),
{
    if entries.len() == 0 {
        0
    } else {
        total_in_entries(entries.drop_last()) + entries.last().1@.len()
    }
}

/// `n` as a count that stops at the largest `usize`.
pub open spec fn capped(n: nat) -> int {
    if n > usize::MAX { usize::MAX as int } else { n as int }
}

/// The help texts the help starts with, by context: title, text, tips, no
/// shortcuts, related contexts.
pub open spec fn default_help_texts() -> Seq<
    (Seq<char>, (Seq<char>, Seq<char>, Seq<Seq<char>>, Seq<ShortcutFields>, Seq<Seq<char>>)),
> {
    seq![
        (
            "getting_started"@,
            (
                "快速开始"@,
                "欢迎使用工作流工具包TUI界面！\n\n使用F1-F6键在不同视图间切换，Tab键在界面元素间导航，Esc键返回上一级。"@,
                seq!["按?键随时显示帮助信息"@, "使用Ctrl+Q快速退出应用程序"@, "F12键可以刷新所有数据"@],
                Seq::empty(),
                seq!["navigation"@, "shortcuts"@],
            ),
        ),
        (
            "navigation"@,
            (
                "导航指南"@,
                "TUI界面支持完整的键盘导航：\n\n• 使用Tab和Shift+Tab在元素间切换\n• 使用方向键进行精确导航\n• 使用F1-F6快速切换视图\n• 使用Esc键返回或取消操作"@,
                seq!["Home键跳转到第一个元素"@, "End键跳转到最后一个元素"@, "在列表中使用Page Up/Down快速滚动"@],
                Seq::empty(),
                seq!["shortcuts"@],
            ),
        ),
        (
            "shortcuts"@,
            (
                "快捷键参考"@,
                "所有可用的键盘快捷键按类别组织显示。快捷键会根据当前上下文动态更新。"@,
                seq!["主要快捷键会高亮显示"@, "不可用的快捷键会变暗显示"@, "某些快捷键只在特定视图中可用"@],
                Seq::empty(),
                seq!["navigation"@],
            ),
        ),
    ]
}

/// The help texts of a list of entries as plain values.
pub open spec fn help_texts(entries: Seq<(String, HelpContent)>) -> Seq<
    (Seq<char>, (Seq<char>, Seq<char>, Seq<Seq<char>>, Seq<ShortcutFields>, Seq<Seq<char>>)),
> {
    entries.map_values(|e: (String, HelpContent)| (e.0@, help_content_view(e.1)))
}

/// The shortcuts of every context, the help texts, and whether and how help
/// is shown.
pub struct HelpSystem {
    global_shortcuts: Vec<ShortcutInfo>,
    view_shortcuts: Vec<Vec<ShortcutInfo>>,
    widget_shortcuts: Vec<(WidgetId, Vec<ShortcutInfo>)>,
    context_help: Vec<(String, HelpContent)>,
    help_visible: bool,
    current_context: Option<String>,
    display_mode: HelpDisplayMode,
    last_update_ms: Option<u64>,
    animation_state: HelpAnimationState,
}

impl HelpSystem {
    /// The shortcuts that work everywhere.
    pub closed spec fn globals(self) -> Seq<ShortcutInfo> {
        self.global_shortcuts@
    }

    /// The shortcut lists of the views, one per view.
    pub closed spec fn view_lists(self) -> Seq<Vec<ShortcutInfo>> {
        self.view_shortcuts@
    }

    /// The shortcuts of view `v`.
    pub open spec fn view_shortcuts_of(self, v: ViewType) -> Seq<ShortcutInfo> {
        self.view_lists()[view_slot(v)]@
    }

    /// The widget entries: a widget and its shortcuts.
    pub closed spec fn widget_entries(self) -> Seq<(WidgetId, Vec<ShortcutInfo>)> {
        self.widget_shortcuts@
    }

    /// The help texts, by context.
    pub closed spec fn help_entries(self) -> Seq<(String, HelpContent)> {
        self.context_help@
    }

    /// Whether help is shown.
    pub closed spec fn visible(self) -> bool {
        self.help_visible
    }

    /// The context help is shown for.
    pub closed spec fn context(self) -> Option<String> {
        self.current_context
    }

    /// Where help is shown.
    pub closed spec fn mode(self) -> HelpDisplayMode {
        self.display_mode
    }

    /// When help was last shown for a context.
    pub closed spec fn last_update(self) -> Option<u64> {
        self.last_update_ms
    }

    /// The fade of the help.
    pub closed spec fn animation(self) -> HelpAnimationState {
        self.animation_state
    }

    /// There is one shortcut list per view.
    pub open spec fn well_formed(self) -> bool {
        self.view_lists().len() == 6
    }

    /// Everything but visibility, context, mode, last update and fade is as
    /// in `other`.
    pub open spec fn same_shortcuts(self, other: HelpSystem) -> bool {
        &&& self.globals() == other.globals()
        &&& self.view_lists() == other.view_lists()
        &&& self.widget_entries() == other.widget_entries()
        &&& self.help_entries() == other.help_entries()
    }

    /// The fade as it starts at `now`, lasting as long as before.
    pub open spec fn fade_started(old: HelpAnimationState, new: HelpAnimationState, now: u64) -> bool {
        new == HelpAnimationState { animating: true, start_time_ms: Some(now), progress_permille: 0, ..old }
    }

    /// Whether this is the help as it starts: default shortcuts and help
    /// texts, hidden, shown as an overlay when shown, with a fade of 300 ms.
    pub open spec fn is_initial(self) -> bool {
        &&& self.well_formed()
        &&& shortcut_views(self.globals()) == default_global_shortcuts()
        &&& forall|v: ViewType| #[trigger] shortcut_views(self.view_shortcuts_of(v)) == default_view_shortcuts(v)
        &&& self.widget_entries().len() == 0
        &&& help_texts(self.help_entries()) == default_help_texts()
        &&& !self.visible()
        &&& self.context() is None
        &&& self.mode() == HelpDisplayMode::Overlay
        &&& self.last_update() is None
        &&& self.animation() == (HelpAnimationState {
            animating: false,
            start_time_ms: None,
            duration_ms: 300,
            progress_permille: 0,
        })
    }

    /// The help with its default shortcuts and help texts, hidden, shown as
    /// an overlay when shown, with a fade of 300 ms.
    pub fn new() -> (res: Self)
        ensures
            res.is_initial(),
    {
        let mut system = HelpSystem {
            global_shortcuts: Vec::new(),
            view_shortcuts: Vec::new(),
            widget_shortcuts: Vec::new(),
            context_help: Vec::new(),
            help_visible: false,
            current_context: None,
            display_mode: HelpDisplayMode::Overlay,
            last_update_ms: None,
            animation_state: HelpAnimationState {
                animating: false,
                start_time_ms: None,
                duration_ms: 300,
                progress_permille: 0,
            },
        };
        system.setup_default_shortcuts();
        let ghost set_up = system;
        system.setup_default_help_content();
        assert forall|v: ViewType| #[trigger] shortcut_views(system.view_shortcuts_of(v)) == default_view_shortcuts(v) by {
            assert(shortcut_views(set_up.view_shortcuts_of(v)) == default_view_shortcuts(v));
        }
        system
    }

    /// Sets the default shortcuts that work everywhere, and those of the
    /// views.
    fn setup_default_shortcuts(&mut self)
        ensures
            final(self).well_formed(),
            shortcut_views(final(self).globals()) == default_global_shortcuts(),
            forall|v: ViewType| #[trigger] shortcut_views(final(self).view_shortcuts_of(v)) == default_view_shortcuts(v),
            final(self).widget_entries() == old(self).widget_entries(),
            final(self).help_entries() == old(self).help_entries(),
            final(self).visible() == old(self).visible(),
            final(self).context() == old(self).context(),
            final(self).mode() == old(self).mode(),
            final(self).last_update() == old(self).last_update(),
            final(self).animation() == old(self).animation(),
    {
        self.global_shortcuts = vec![
            shortcut("Ctrl+Q", "退出应用程序", "应用程序", 100, true),
            shortcut("F12", "刷新数据", "应用程序", 80, false),
            shortcut("?", "显示/隐藏帮助", "帮助", 90, true),
            shortcut("Tab", "下一个元素", "导航", 70, false),
            shortcut("Shift+Tab", "上一个元素", "导航", 70, false),
            shortcut("Esc", "返回/取消", "导航", 85, true),
        ];
        assert(shortcut_views(self.global_shortcuts@) =~= default_global_shortcuts());
        self.setup_view_shortcuts();
    }

    /// Sets the shortcuts of every view: the function keys that switch
    /// views, and the view's own shortcuts for the workflow list, the
    /// execution monitor and the log viewer.
    fn setup_view_shortcuts(&mut self)
        ensures
            final(self).well_formed(),
            forall|v: ViewType| #[trigger] shortcut_views(final(self).view_shortcuts_of(v)) == default_view_shortcuts(v),
            final(self).globals() == old(self).globals(),
            final(self).widget_entries() == old(self).widget_entries(),
            final(self).help_entries() == old(self).help_entries(),
            final(self).visible() == old(self).visible(),
            final(self).context() == old(self).context(),
            final(self).mode() == old(self).mode(),
            final(self).last_update() == old(self).last_update(),
            final(self).animation() == old(self).animation(),
    {
        let navigation_shortcuts = vec![
            shortcut("F1", "工作流列表", "视图切换", 60, false),
            shortcut("F2", "执行监控", "视图切换", 60, false),
            shortcut("F3", "工具管理", "视图切换", 60, false),
            shortcut("F4", "插件管理", "视图切换", 60, false),
            shortcut("F5", "系统状态", "视图切换", 60, false),
            shortcut("F6", "日志查看器", "视图切换", 60, false),
        ];
        assert(shortcut_views(navigation_shortcuts@) =~= view_switch_shortcuts());
        let mut workflow_list = copy_shortcuts(&navigation_shortcuts);
        let mut workflow_extra = vec![
            shortcut("Enter", "执行选中的工作流", "工作流操作", 95, true),
            shortcut("↑/↓", "选择工作流", "工作流操作", 75, false),
            shortcut("d", "切换详情视图", "工作流操作", 65, false),
            shortcut("/", "搜索工作流", "工作流操作", 70, false),
        ];
        assert(shortcut_views(workflow_extra@) =~= workflow_list_shortcuts());
        workflow_list.append(&mut workflow_extra);
        assert(shortcut_views(workflow_list@) =~= view_switch_shortcuts() + workflow_list_shortcuts());
        let mut execution_monitor = copy_shortcuts(&navigation_shortcuts);
        let mut execution_extra = vec![
            shortcut("Space", "暂停/恢复执行", "执行控制", 95, true),
            shortcut("s", "停止执行", "执行控制", 90, true),
            shortcut("c", "取消执行", "执行控制", 85, false),
            shortcut("d", "切换依赖关系图", "显示选项", 60, false),
        ];
        assert(shortcut_views(execution_extra@) =~= execution_monitor_shortcuts());
        execution_monitor.append(&mut execution_extra);
        assert(shortcut_views(execution_monitor@) =~= view_switch_shortcuts() + execution_monitor_shortcuts());
        let mut log_viewer = copy_shortcuts(&navigation_shortcuts);
        let mut log_extra = vec![
            shortcut("1-5", "按级别过滤日志", "日志操作", 80, false),
            shortcut("c", "清除日志", "日志操作", 70, false),
            shortcut("e", "导出日志", "日志操作", 65, false),
            shortcut("/", "搜索日志", "日志操作", 75, false),
        ];
        assert(shortcut_views(log_extra@) =~= log_viewer_shortcuts());
        log_viewer.append(&mut log_extra);
        assert(shortcut_views(log_viewer@) =~= view_switch_shortcuts() + log_viewer_shortcuts());
        let tool_manager = copy_shortcuts(&navigation_shortcuts);
        let plugin_manager = copy_shortcuts(&navigation_shortcuts);
        let system_status = copy_shortcuts(&navigation_shortcuts);
        self.view_shortcuts = vec![
            workflow_list,
            execution_monitor,
            tool_manager,
            plugin_manager,
            system_status,
            log_viewer,
        ];
    }

    /// Sets the help texts of the contexts `getting_started`, `navigation`
    /// and `shortcuts`.
    fn setup_default_help_content(&mut self)
        ensures
            help_texts(final(self).help_entries()) == default_help_texts(),
            final(self).globals() == old(self).globals(),
            final(self).view_lists() == old(self).view_lists(),
            final(self).widget_entries() == old(self).widget_entries(),
            final(self).visible() == old(self).visible(),
            final(self).context() == old(self).context(),
            final(self).mode() == old(self).mode(),
            final(self).last_update() == old(self).last_update(),
            final(self).animation() == old(self).animation(),
    {
        let tips = vec!["按?键随时显示帮助信息", "使用Ctrl+Q快速退出应用程序", "F12键可以刷新所有数据"];
        let related = vec!["navigation", "shortcuts"];
        assert(tips@.map_values(|t: &str| t@) =~= default_help_texts()[0].1.2);
        assert(related@.map_values(|t: &str| t@) =~= default_help_texts()[0].1.4);
        let getting_started = help_content(
            "快速开始",
            "欢迎使用工作流工具包TUI界面！\n\n使用F1-F6键在不同视图间切换，Tab键在界面元素间导航，Esc键返回上一级。",
            tips,
            related,
        );
        let tips = vec!["Home键跳转到第一个元素", "End键跳转到最后一个元素", "在列表中使用Page Up/Down快速滚动"];
        let related = vec!["shortcuts"];
        assert(tips@.map_values(|t: &str| t@) =~= default_help_texts()[1].1.2);
        assert(related@.map_values(|t: &str| t@) =~= default_help_texts()[1].1.4);
        let navigation = help_content(
            "导航指南",
            "TUI界面支持完整的键盘导航：\n\n• 使用Tab和Shift+Tab在元素间切换\n• 使用方向键进行精确导航\n• 使用F1-F6快速切换视图\n• 使用Esc键返回或取消操作",
            tips,
            related,
        );
        let tips = vec!["主要快捷键会高亮显示", "不可用的快捷键会变暗显示", "某些快捷键只在特定视图中可用"];
        let related = vec!["navigation"];
        assert(tips@.map_values(|t: &str| t@) =~= default_help_texts()[2].1.2);
        assert(related@.map_values(|t: &str| t@) =~= default_help_texts()[2].1.4);
        let shortcuts = help_content(
            "快捷键参考",
            "所有可用的键盘快捷键按类别组织显示。快捷键会根据当前上下文动态更新。",
            tips,
            related,
        );
        self.context_help = vec![
            (String::from_str("getting_started"), getting_started),
            (String::from_str("navigation"), navigation),
            (String::from_str("shortcuts"), shortcuts),
        ];
        assert(help_texts(self.context_help@) =~= default_help_texts());
    }
}

/// Strings made of a list of texts.
fn strings_of(v: Vec<&str>) -> (res: Vec<String>)
    ensures
        texts(res@) == v@.map_values(|t: &str| t@),
{
    let mut res: Vec<String> = Vec::new();
    let mut i: usize = 0;
    while i < v.len()
        invariant
            i <= v@.len(),
            texts(res@) == v@.take(i as int).map_values(|t: &str| t@),
        decreases v@.len() - i,
    {
        let ghost before = res@;
        let item = String::from_str(v[i]);
        assert(item@ == v@[i as int]@);
        res.push(item);
        assert(texts(res@) =~= texts(before).push(v@[i as int]@));
        assert(v@.take(i + 1) =~= v@.take(i as int).push(v@[i as int]));
        i = i + 1;
        assert(texts(res@) =~= v@.take(i as int).map_values(|t: &str| t@));
    }
    assert(v@.take(i as int) =~= v@);
    res
}

/// A help text without shortcuts of its own.
fn help_content(title: &str, content: &str, tips: Vec<&str>, see_also: Vec<&str>) -> (res: HelpContent)
    ensures
        help_content_view(res) == (
            title@,
            content@,
            tips@.map_values(|t: &str| t@),
            Seq::<ShortcutFields>::empty(),
            see_also@.map_values(|t: &str| t@),
        ),
{
    let res = HelpContent {
        title: String::from_str(title),
        content: String::from_str(content),
        tips: strings_of(tips),
        shortcuts: Vec::new(),
        see_also: strings_of(see_also),
    };
    assert(shortcut_views(res.shortcuts@) =~= Seq::<ShortcutFields>::empty());
    res
}

/// The shortcuts of `s` whose key is not `key`.
pub open spec fn without_key(s: Seq<ShortcutInfo>, key: Seq<char>) -> Seq<ShortcutInfo> {
    keep_where(s, |x: ShortcutInfo| x.key@ != key)
}

/// Removes the shortcuts with key `key` from a list, telling whether any
/// was there.
fn remove_keyed(v: &mut Vec<ShortcutInfo>, key: &str) -> (res: bool)
    ensures
        final(v)@ == without_key(old(v)@, key@),
        res == (final(v)@.len() < old(v)@.len()),
        res == exists|i: int| 0 <= i < old(v)@.len() && (#[trigger] old(v)@[i]).key@ == key@,
{
    let ghost keep = |x: ShortcutInfo| x.key@ != key@;
    let ghost original = v@;
    let initial_len = v.len();
    let mut drop: Vec<bool> = Vec::new();
    let mut k: usize = 0;
    while k < v.len()
        invariant
            k <= v@.len(),
            drop@.len() == k,
            forall|m: int| 0 <= m < k ==> drop@[m] == !keep(v@[m]),
            keep == (|x: ShortcutInfo| x.key@ != key@),
        decreases v@.len() - k,
    {
        drop.push(text_eq(v[k].key.as_str(), key));
        k = k + 1;
    }
    proof {
        lemma_flags_match(original, drop@, keep);
        lemma_keep_count(original, keep);
    }
    remove_flagged(v, &drop);
    v.len() < initial_len
}

/// Filtering keeps everything exactly when everything passes.
proof fn lemma_keep_count(s: Seq<ShortcutInfo>, keep: spec_fn(ShortcutInfo) -> bool)
    ensures
        keep_where(s, keep).len() <= s.len(),
        (keep_where(s, keep).len() < s.len()) == exists|i: int| 0 <= i < s.len() && !keep(#[trigger] s[i]),
    decreases s.len(),
{
    if s.len() > 0 {
        lemma_keep_count(s.drop_last(), keep);
        if exists|i: int| 0 <= i < s.drop_last().len() && !keep(#[trigger] s.drop_last()[i]) {
            let i = choose|i: int| 0 <= i < s.drop_last().len() && !keep(#[trigger] s.drop_last()[i]);
            assert(s[i] == s.drop_last()[i]);
        }
        if exists|i: int| 0 <= i < s.len() && !keep(#[trigger] s[i]) {
            let i = choose|i: int| 0 <= i < s.len() && !keep(#[trigger] s[i]);
            if i < s.len() - 1 {
                assert(s.drop_last()[i] == s[i]);
            }
        }
    }
}

/// The last position of an entry for the widget named `name`.
pub open spec fn last_entry_of(entries: Seq<(WidgetId, Vec<ShortcutInfo>)>, name: Seq<char>, k: int) -> bool {
    &&& 0 <= k < entries.len()
    &&& entries[k].0.name() == name
    &&& forall|j: int| k < j < entries.len() ==> (#[trigger] entries[j]).0.name() != name
}

/// The shortcuts of a widget are those of its last entry.
proof fn lemma_widget_lookup(entries: Seq<(WidgetId, Vec<ShortcutInfo>)>, name: Seq<char>, k: int)
    requires
        last_entry_of(entries, name, k),
    ensures
        widget_list_of(entries, name) == Some(entries[k].1@),
    decreases entries.len(),
{
    if k < entries.len() - 1 {
        assert(entries.drop_last()[k] == entries[k]);
        assert forall|j: int| k < j < entries.drop_last().len() implies (#[trigger] entries.drop_last()[j]).0.name()
            != name by {
            assert(entries.drop_last()[j] == entries[j]);
        }
        lemma_widget_lookup(entries.drop_last(), name, k);
    }
}

/// A widget without entries has no shortcuts.
proof fn lemma_widget_absent(entries: Seq<(WidgetId, Vec<ShortcutInfo>)>, name: Seq<char>)
    requires
        forall|j: int| 0 <= j < entries.len() ==> (#[trigger] entries[j]).0.name() != name,
    ensures
        widget_list_of(entries, name) is None,
    decreases entries.len(),
{
    if entries.len() > 0 {
        assert forall|j: int| 0 <= j < entries.drop_last().len() implies (#[trigger] entries.drop_last()[j]).0.name()
            != name by {
            assert(entries.drop_last()[j] == entries[j]);
        }
        lemma_widget_absent(entries.drop_last(), name);
    }
}

/// Replacing the shortcuts of the last entry of a widget changes that
/// widget's shortcuts and no other's.
proof fn lemma_widget_update(entries: Seq<(WidgetId, Vec<ShortcutInfo>)>, k: int, list: Vec<ShortcutInfo>)
    requires
        last_entry_of(entries, entries[k].0.name(), k),
    ensures
        forall|n: Seq<char>|
            #[trigger] widget_list_of(entries.update(k, (entries[k].0, list)), n) == if n == entries[k].0.name() {
                Some(list@)
            } else {
                widget_list_of(entries, n)
            },
    decreases entries.len(),
{
    let updated = entries.update(k, (entries[k].0, list));
    let name = entries[k].0.name();
    if k < entries.len() - 1 {
        let rest = entries.drop_last();
        assert(rest[k] == entries[k]);
        assert forall|j: int| k < j < rest.len() implies (#[trigger] rest[j]).0.name() != entries[k].0.name() by {
            assert(rest[j] == entries[j]);
        }
        lemma_widget_update(rest, k, list);
        assert(updated.drop_last() =~= rest.update(k, (rest[k].0, list)));
        assert(updated.last() == entries.last());
        assert(entries.last() == entries[entries.len() - 1]);
        assert(entries.last().0.name() != name);
        assert forall|n: Seq<char>|
            #[trigger] widget_list_of(updated, n) == if n == name {
                Some(list@)
            } else {
                widget_list_of(entries, n)
            } by {
            assert(widget_list_of(rest.update(k, (rest[k].0, list)), n) == if n == name {
                Some(list@)
            } else {
                widget_list_of(rest, n)
            });
        }
    } else {
        assert(updated.drop_last() =~= entries.drop_last());
        assert(updated.last() == (entries[k].0, list));
        assert forall|n: Seq<char>|
            #[trigger] widget_list_of(updated, n) == if n == name {
                Some(list@)
            } else {
                widget_list_of(entries, n)
            } by {
        }
    }
}

/// The last entry for the widget named `name`, if any.
fn find_widget_entry(entries: &Vec<(WidgetId, Vec<ShortcutInfo>)>, name: &WidgetId) -> (res: Option<usize>)
    ensures
        res matches Some(k) ==> last_entry_of(entries@, name.name(), k as int),
        res is None ==> forall|j: int| 0 <= j < entries@.len() ==> (#[trigger] entries@[j]).0.name() != name.name(),
{
    let mut i: usize = entries.len();
    while i > 0
        invariant
            i <= entries@.len(),
            forall|j: int| i <= j < entries@.len() ==> (#[trigger] entries@[j]).0.name() != name.name(),
        decreases i,
    {
        let k = i - 1;
        if entries[k].0.same_as(name) {
            return Some(k);
        }
        i = k;
    }
    None
}

/// Whether `new` shows help as `old` does: same help texts, visibility,
/// context, mode, last update and fade.
pub open spec fn keeps_display(old: HelpSystem, new: HelpSystem) -> bool {
    &&& new.help_entries() == old.help_entries()
    &&& new.visible() == old.visible()
    &&& new.context() == old.context()
    &&& new.mode() == old.mode()
    &&& new.last_update() == old.last_update()
    &&& new.animation() == old.animation()
}

/// Whether some shortcut of `s` has key `key`.
pub open spec fn has_key(s: Seq<ShortcutInfo>, key: Seq<char>) -> bool {
    exists|i: int| 0 <= i < s.len() && (#[trigger] s[i]).key@ == key
}

/// Adding `s` to the shortcuts of view `v`.
pub open spec fn added_in_view(old: HelpSystem, new: HelpSystem, s: ShortcutInfo, v: ViewType) -> bool {
    &&& new.globals() == old.globals()
    &&& forall|u: ViewType| #[trigger] new.view_shortcuts_of(u) == if u == v {
        old.view_shortcuts_of(v).push(s)
    } else {
        old.view_shortcuts_of(u)
    }
    &&& new.widget_entries() == old.widget_entries()
}

/// Adding `s` to the shortcuts of the widget named `name`.
pub open spec fn added_in_widget(old: HelpSystem, new: HelpSystem, s: ShortcutInfo, name: Seq<char>) -> bool {
    &&& new.globals() == old.globals()
    &&& new.view_lists() == old.view_lists()
    &&& forall|n: Seq<char>| #[trigger] widget_list_of(new.widget_entries(), n) == if n == name {
        Some(match widget_list_of(old.widget_entries(), n) {
            Some(l) => l,
            None => Seq::empty(),
        }.push(s))
    } else {
        widget_list_of(old.widget_entries(), n)
    }
}

/// Removing the shortcuts with key `key` from those that work everywhere,
/// with result `res`.
pub open spec fn removed_global(old: HelpSystem, new: HelpSystem, key: Seq<char>, res: bool) -> bool {
    &&& new.globals() == without_key(old.globals(), key)
    &&& res == has_key(old.globals(), key)
    &&& new.view_lists() == old.view_lists()
    &&& new.widget_entries() == old.widget_entries()
}

/// Removing the shortcuts with key `key` from those of view `v`, with
/// result `res`.
pub open spec fn removed_in_view(old: HelpSystem, new: HelpSystem, key: Seq<char>, v: ViewType, res: bool) -> bool {
    &&& new.globals() == old.globals()
    &&& forall|u: ViewType| #[trigger] new.view_shortcuts_of(u) == if u == v {
        without_key(old.view_shortcuts_of(v), key)
    } else {
        old.view_shortcuts_of(u)
    }
    &&& res == has_key(old.view_shortcuts_of(v), key)
    &&& new.widget_entries() == old.widget_entries()
}

/// Removing the shortcuts with key `key` from those of the widget named
/// `name`, with result `res`: nothing happens to a widget without
/// shortcuts.
pub open spec fn removed_in_widget(old: HelpSystem, new: HelpSystem, key: Seq<char>, name: Seq<char>, res: bool) -> bool {
    &&& new.globals() == old.globals()
    &&& new.view_lists() == old.view_lists()
    &&& forall|n: Seq<char>| #[trigger] widget_list_of(new.widget_entries(), n) == if n == name {
        match widget_list_of(old.widget_entries(), n) {
            Some(l) => Some(without_key(l, key)),
            None => None,
        }
    } else {
        widget_list_of(old.widget_entries(), n)
    }
    &&& res == match widget_list_of(old.widget_entries(), name) {
        Some(l) => has_key(l, key),
        None => false,
    }
}

/// What a key event tells the help to do, from `old` to `new` at `now`,
/// with result `res`: `?` alone toggles it, `Esc` alone hides it while it
/// is shown, Shift+F1 shows the getting-started help; other keys do
/// nothing.
pub open spec fn help_key_outcome(old: HelpSystem, new: HelpSystem, key: KeyEvent, now: u64, res: Option<Action>) -> bool {
    if key.code == KeyCode::Char('?') && key.modifiers == MOD_NONE {
        &&& new.visible() == !old.visible()
        &&& HelpSystem::fade_started(old.animation(), new.animation(), now)
        &&& new.context() == old.context() && new.last_update() == old.last_update()
        &&& new.same_shortcuts(old) && new.mode() == old.mode()
        &&& res == Some(Action::ToggleHelp)
    } else if key.code == KeyCode::Esc && key.modifiers == MOD_NONE && old.visible() {
        &&& !new.visible()
        &&& HelpSystem::fade_started(old.animation(), new.animation(), now)
        &&& new.context() == old.context() && new.last_update() == old.last_update()
        &&& new.same_shortcuts(old) && new.mode() == old.mode()
        &&& res == Some(Action::ToggleHelp)
    } else if key.code == KeyCode::F(1) && key.modifiers == MOD_SHIFT {
        &&& new.visible()
        &&& new.context() matches Some(c) && c@ == "getting_started"@
        &&& new.last_update() == Some(now)
        &&& HelpSystem::fade_started(old.animation(), new.animation(), now)
        &&& new.same_shortcuts(old) && new.mode() == old.mode()
        &&& res == Some(Action::ToggleHelp)
    } else {
        new == old && res is None
    }
}

/// A line of the shortcut reference: a styled part and a plain part.
#[derive(Debug)]
pub struct HelpLine {
    pub style: HelpLineStyle,
    pub styled: String,
    pub plain: String,
}

/// How the styled part of a help line is drawn.
#[derive(Debug, Clone, Copy, PartialEq, Eq, Structural)]
pub enum HelpLineStyle {
    Plain,
    Heading,
    Success,
    Info,
    Warning,
}

/// A help line as plain values.
pub open spec fn help_line_view(l: HelpLine) -> (HelpLineStyle, Seq<char>, Seq<char>) {
    (l.style, l.styled@, l.plain@)
}

/// The lines of the shortcut reference shown in the help popup.
pub open spec fn shortcut_reference() -> Seq<(HelpLineStyle, Seq<char>, Seq<char>)> {
    seq![
        (HelpLineStyle::Heading, "全局快捷键:"@, ""@),
        (HelpLineStyle::Plain, ""@, ""@),
        (HelpLineStyle::Success, "Ctrl+Q"@, "  退出应用程序"@),
        (HelpLineStyle::Info, "F12"@, "    刷新数据"@),
        (HelpLineStyle::Info, "?"@, "      显示/隐藏帮助"@),
        (HelpLineStyle::Plain, ""@, ""@),
        (HelpLineStyle::Heading, "导航快捷键:"@, ""@),
        (HelpLineStyle::Plain, ""@, ""@),
        (HelpLineStyle::Info, "Tab"@, "    下一个元素"@),
        (HelpLineStyle::Info, "Shift+Tab"@, " 上一个元素"@),
        (HelpLineStyle::Warning, "Esc"@, "    返回/取消"@),
        (HelpLineStyle::Plain, ""@, ""@),
        (HelpLineStyle::Heading, "视图切换:"@, ""@),
        (HelpLineStyle::Plain, ""@, ""@),
        (HelpLineStyle::Info, "F1"@, "     工作流列表"@),
        (HelpLineStyle::Info, "F2"@, "     执行监控"@),
        (HelpLineStyle::Info, "F3"@, "     工具管理"@),
        (HelpLineStyle::Info, "F4"@, "     插件管理"@),
        (HelpLineStyle::Info, "F5"@, "     系统状态"@),
        (HelpLineStyle::Info, "F6"@, "     日志查看器"@),
    ]
}

/// A help line.
pub(crate) fn help_line(style: HelpLineStyle, styled: &str, plain: &str) -> (res: HelpLine)
    ensures
        help_line_view(res) == (style, styled@, plain@),
{
    HelpLine { style, styled: String::from_str(styled), plain: String::from_str(plain) }
}

/// A rectangle of the screen, in cells.
#[derive(Debug, Clone, Copy, PartialEq, Eq, Structural)]
pub struct Area {
    pub x: u16,
    pub y: u16,
    pub width: u16,
    pub height: u16,
}

/// The help popup within `area`: 80% of its width and 70% of its height,
/// centered.
pub open spec fn popup_within(area: Area) -> Area {
    let w = (area.width * 80 / 100) as u16;
    let h = (area.height * 70 / 100) as u16;
    Area { x: ((area.width - w) / 2) as u16, y: ((area.height - h) / 2) as u16, width: w, height: h }
}

impl HelpSystem {
    /// Starts the fade at `now`.
    fn start_animation(&mut self, now_ms: u64)
        ensures
            HelpSystem::fade_started(old(self).animation(), final(self).animation(), now_ms),
            final(self).same_shortcuts(*old(self)),
            final(self).view_lists() == old(self).view_lists(),
            final(self).visible() == old(self).visible(),
            final(self).context() == old(self).context(),
            final(self).mode() == old(self).mode(),
            final(self).last_update() == old(self).last_update(),
    {
        self.animation_state.animating = true;
        self.animation_state.start_time_ms = Some(now_ms);
        self.animation_state.progress_permille = 0;
    }

    /// Shows the help when hidden and hides it when shown, starting the
    /// fade; returns whether it is now shown.
    pub fn toggle_help(&mut self, now_ms: u64) -> (res: bool)
        ensures
            res == final(self).visible(),
            final(self).visible() == !old(self).visible(),
            HelpSystem::fade_started(old(self).animation(), final(self).animation(), now_ms),
            final(self).same_shortcuts(*old(self)),
            final(self).context() == old(self).context(),
            final(self).mode() == old(self).mode(),
            final(self).last_update() == old(self).last_update(),
    {
        self.help_visible = !self.help_visible;
        self.start_animation(now_ms);
        self.help_visible
    }

    /// Shows the help for `context`, starting the fade.
    pub fn show_help(&mut self, context: Option<String>, now_ms: u64)
        ensures
            final(self).visible(),
            final(self).context() == context,
            final(self).last_update() == Some(now_ms),
            HelpSystem::fade_started(old(self).animation(), final(self).animation(), now_ms),
            final(self).same_shortcuts(*old(self)),
            final(self).mode() == old(self).mode(),
    {
        self.help_visible = true;
        self.current_context = context;
        self.start_animation(now_ms);
        self.last_update_ms = Some(now_ms);
    }

    /// Hides the help, starting the fade.
    pub fn hide_help(&mut self, now_ms: u64)
        ensures
            !final(self).visible(),
            HelpSystem::fade_started(old(self).animation(), final(self).animation(), now_ms),
            final(self).same_shortcuts(*old(self)),
            final(self).context() == old(self).context(),
            final(self).mode() == old(self).mode(),
            final(self).last_update() == old(self).last_update(),
    {
        self.help_visible = false;
        self.start_animation(now_ms);
    }

    /// Whether the help is shown.
    pub fn is_help_visible(&self) -> (res: bool)
        ensures
            res == self.visible(),
    {
        self.help_visible
    }

    /// Sets where help is shown.
    pub fn set_display_mode(&mut self, mode: HelpDisplayMode)
        ensures
            final(self).mode() == mode,
            final(self).same_shortcuts(*old(self)),
            final(self).view_lists() == old(self).view_lists(),
            final(self).visible() == old(self).visible(),
            final(self).context() == old(self).context(),
            final(self).last_update() == old(self).last_update(),
            final(self).animation() == old(self).animation(),
    {
        self.display_mode = mode;
    }

    /// Where help is shown.
    pub fn display_mode(&self) -> (res: HelpDisplayMode)
        ensures
            res == self.mode(),
    {
        self.display_mode
    }

    /// Advances the fade to `now`: it ends once its duration has passed.
    pub fn update_animation(&mut self, now_ms: u64)
        ensures
            ({
                let a = old(self).animation();
                if a.animating && a.start_time_ms is Some {
                    let p = fade_progress(a.start_time_ms.unwrap(), a.duration_ms, now_ms);
                    final(self).animation() == if p >= 1000 {
                        HelpAnimationState { animating: false, start_time_ms: None, progress_permille: 1000, ..a }
                    } else {
                        HelpAnimationState { progress_permille: p as u32, ..a }
                    }
                } else {
                    final(self).animation() == a
                }
            }),
            final(self).same_shortcuts(*old(self)),
            final(self).view_lists() == old(self).view_lists(),
            final(self).visible() == old(self).visible(),
            final(self).context() == old(self).context(),
            final(self).mode() == old(self).mode(),
            final(self).last_update() == old(self).last_update(),
    {
        if !self.animation_state.animating {
            return;
        }
        if let Some(start) = self.animation_state.start_time_ms {
            let elapsed: u64 = if now_ms >= start { now_ms - start } else { 0 };
            let duration = self.animation_state.duration_ms;
            if elapsed >= duration {
                self.animation_state.progress_permille = 1000;
                self.animation_state.animating = false;
                self.animation_state.start_time_ms = None;
            } else {
                let wide: u128 = (elapsed as u128) * 1000 / (duration as u128);
                assert(wide < 1000) by (nonlinear_arith)
                    requires
                        wide == elapsed * 1000 / duration as int,
                        elapsed < duration,
                ;
                self.animation_state.progress_permille = wide as u32;
            }
        }
    }

    /// The shortcuts of the current context in listing order: those that
    /// work everywhere, those of `view`, and those of `widget` when given.
    pub fn get_current_shortcuts(&self, view: &ViewType, widget: Option<&WidgetId>) -> (res: Vec<ShortcutInfo>)
        requires
            self.well_formed(),
        ensures
            listing_of(
                res@,
                self.globals() + self.view_shortcuts_of(*view) + match widget {
                    Some(w) => match widget_list_of(self.widget_entries(), w.name()) {
                        Some(l) => l,
                        None => Seq::empty(),
                    },
                    None => Seq::empty(),
                },
            ),
    {
        let mut shortcuts = copy_shortcuts(&self.global_shortcuts);
        let slot = view_index(view);
        let mut of_view = copy_shortcuts(&self.view_shortcuts[slot]);
        shortcuts.append(&mut of_view);
        let ghost so_far = shortcuts@;
        if let Some(w) = widget {
            match find_widget_entry(&self.widget_shortcuts, w) {
                Some(k) => {
                    proof {
                        lemma_widget_lookup(self.widget_shortcuts@, w.name(), k as int);
                    }
                    let mut of_widget = copy_shortcuts(&self.widget_shortcuts[k].1);
                    shortcuts.append(&mut of_widget);
                },
                None => {
                    proof {
                        lemma_widget_absent(self.widget_shortcuts@, w.name());
                        assert(so_far + Seq::<ShortcutInfo>::empty() =~= so_far);
                    }
                },
            }
        } else {
            assert(so_far + Seq::<ShortcutInfo>::empty() =~= so_far);
        }
        sort_shortcuts(&shortcuts)
    }

    /// The help text of `context`.
    pub fn get_help_content(&self, context: &str) -> (res: Option<&HelpContent>)
        ensures
            res is None <==> help_for(self.help_entries(), context@) is None,
            res matches Some(c) ==> help_for(self.help_entries(), context@) == Some(*c),
    {
        let entries = &self.context_help;
        let mut i: usize = entries.len();
        assert(entries@.take(i as int) =~= entries@);
        while i > 0
            invariant
                i <= entries@.len(),
                entries@ == self.help_entries(),
                help_for(entries@, context@) == help_for(entries@.take(i as int), context@),
            decreases i,
        {
            let k = i - 1;
            assert(entries@.take(i as int).drop_last() =~= entries@.take(k as int));
            if text_eq(entries[k].0.as_str(), context) {
                return Some(&entries[k].1);
            }
            i = k;
        }
        None
    }

    /// Adds a shortcut to the shortcuts that work everywhere, to those of a
    /// view, or to those of a widget.
    pub fn add_shortcut(&mut self, shortcut: ShortcutInfo, scope: ShortcutScope)
        requires
            old(self).well_formed(),
        ensures
            final(self).well_formed(),
            keeps_display(*old(self), *final(self)),
            match scope {
                ShortcutScope::Global => {
                    &&& final(self).globals() == old(self).globals().push(shortcut)
                    &&& final(self).view_lists() == old(self).view_lists()
                    &&& final(self).widget_entries() == old(self).widget_entries()
                },
                ShortcutScope::View(v) => added_in_view(*old(self), *final(self), shortcut, v),
                ShortcutScope::Widget(w) => added_in_widget(*old(self), *final(self), shortcut, w.name()),
            },
    {
        match scope {
            ShortcutScope::Global => {
                self.global_shortcuts.push(shortcut);
            },
            ShortcutScope::View(v) => {
                let slot = view_index(&v);
                let mut list = self.view_shortcuts.remove(slot);
                list.push(shortcut);
                self.view_shortcuts.insert(slot, list);
            },
            ShortcutScope::Widget(w) => self.add_to_widget(shortcut, w),
        }
    }

    /// Adds a shortcut to those of widget `w`.
    fn add_to_widget(&mut self, shortcut: ShortcutInfo, w: WidgetId)
        requires
            old(self).well_formed(),
        ensures
            final(self).well_formed(),
            keeps_display(*old(self), *final(self)),
            added_in_widget(*old(self), *final(self), shortcut, w.name()),
    {
        let ghost entries = self.widget_shortcuts@;
        match find_widget_entry(&self.widget_shortcuts, &w) {
            Some(k) => {
                let (id, mut list) = self.widget_shortcuts.remove(k);
                list.push(shortcut);
                proof {
                    lemma_widget_lookup(entries, w.name(), k as int);
                    lemma_widget_update(entries, k as int, list);
                }
                self.widget_shortcuts.insert(k, (id, list));
                assert(self.widget_shortcuts@ =~= entries.update(k as int, (entries[k as int].0, list)));
            },
            None => {
                proof {
                    lemma_widget_absent(entries, w.name());
                }
                let mut list: Vec<ShortcutInfo> = Vec::new();
                list.push(shortcut);
                self.widget_shortcuts.push((w, list));
                assert(self.widget_shortcuts@.drop_last() =~= entries);
                assert(list@ =~= Seq::<ShortcutInfo>::empty().push(shortcut));
            },
        }
    }

    /// Removes the shortcuts with key `key` from the shortcuts that work
    /// everywhere, from those of a view, or from those of a widget; tells
    /// whether any was removed.
    pub fn remove_shortcut(&mut self, key: &str, scope: ShortcutScope) -> (res: bool)
        requires
            old(self).well_formed(),
        ensures
            final(self).well_formed(),
            keeps_display(*old(self), *final(self)),
            match scope {
                ShortcutScope::Global => removed_global(*old(self), *final(self), key@, res),
                ShortcutScope::View(v) => removed_in_view(*old(self), *final(self), key@, v, res),
                ShortcutScope::Widget(w) => removed_in_widget(*old(self), *final(self), key@, w.name(), res),
            },
    {
        match scope {
            ShortcutScope::Global => remove_keyed(&mut self.global_shortcuts, key),
            ShortcutScope::View(v) => self.remove_from_view(key, v),
            ShortcutScope::Widget(w) => self.remove_from_widget(key, &w),
        }
    }

    /// Removes the shortcuts with key `key` from those of view `v`.
    fn remove_from_view(&mut self, key: &str, v: ViewType) -> (res: bool)
        requires
            old(self).well_formed(),
        ensures
            final(self).well_formed(),
            keeps_display(*old(self), *final(self)),
            removed_in_view(*old(self), *final(self), key@, v, res),
    {
        let slot = view_index(&v);
        let ghost before = self.view_shortcuts@;
        let ghost whole = *self;
        let mut list = self.view_shortcuts.remove(slot);
        let ghost original = list@;
        let removed = remove_keyed(&mut list, key);
        proof {
            assert(original == before[slot as int]@);
            if removed {
                let i = choose|i: int| 0 <= i < original.len() && (#[trigger] original[i]).key@ == key@;
                assert(before[slot as int]@[i] == original[i]);
                assert(whole.view_shortcuts_of(v)[i].key@ == key@);
            }
        }
        self.view_shortcuts.insert(slot, list);
        removed
    }

    /// Removes the shortcuts with key `key` from those of widget `w`.
    fn remove_from_widget(&mut self, key: &str, w: &WidgetId) -> (res: bool)
        requires
            old(self).well_formed(),
        ensures
            final(self).well_formed(),
            keeps_display(*old(self), *final(self)),
            removed_in_widget(*old(self), *final(self), key@, w.name(), res),
    {
        let ghost entries = self.widget_shortcuts@;
        match find_widget_entry(&self.widget_shortcuts, w) {
            Some(k) => {
                let (id, mut list) = self.widget_shortcuts.remove(k);
                let ghost original = list@;
                let removed = remove_keyed(&mut list, key);
                proof {
                    lemma_widget_lookup(entries, w.name(), k as int);
                    lemma_widget_update(entries, k as int, list);
                    let l = widget_list_of(entries, w.name()).unwrap();
                    assert(l == original);
                    if removed {
                        let i = choose|i: int| 0 <= i < original.len() && (#[trigger] original[i]).key@ == key@;
                        assert(l[i].key@ == key@);
                    } else {
                        assert forall|i: int| 0 <= i < l.len() implies !((#[trigger] l[i]).key@ == key@) by {
                            assert(original[i] == l[i]);
                        }
                    }
                }
                self.widget_shortcuts.insert(k, (id, list));
                assert(self.widget_shortcuts@ =~= entries.update(k as int, (entries[k as int].0, list)));
                removed
            },
            None => {
                proof {
                    lemma_widget_absent(entries, w.name());
                }
                false
            },
        }
    }

    /// Handles a key for the help: `?` toggles it, `Esc` hides it while it
    /// is shown, Shift+F1 shows the getting-started help.
    pub fn handle_key_event(&mut self, key: KeyEvent, now_ms: u64) -> (res: Option<Action>)
        ensures
            help_key_outcome(*old(self), *final(self), key, now_ms, res),
    {
        if key.code == KeyCode::Char('?') && key.modifiers == MOD_NONE {
            self.toggle_help(now_ms);
            Some(Action::ToggleHelp)
        } else if key.code == KeyCode::Esc && key.modifiers == MOD_NONE && self.help_visible {
            self.hide_help(now_ms);
            Some(Action::ToggleHelp)
        } else if key.code == KeyCode::F(1) && key.modifiers == MOD_SHIFT {
            self.show_help(Some(String::from_str("getting_started")), now_ms);
            Some(Action::ToggleHelp)
        } else {
            None
        }
    }

    /// Counts of shortcuts and help texts, and the state of the help.
    pub fn get_help_stats(&self) -> (res: HelpStats)
        ensures
            res.global_shortcuts_count == self.globals().len(),
            res.view_shortcuts_count == capped(total_in_lists(self.view_lists())),
            res.widget_shortcuts_count == capped(total_in_entries(self.widget_entries())),
            res.help_content_count == self.help_entries().len(),
            res.is_visible == self.visible(),
            res.current_context == self.context(),
            res.display_mode == self.mode(),
    {
        let lists = &self.view_shortcuts;
        let mut view_count: usize = 0;
        let mut i: usize = 0;
        while i < lists.len()
            invariant
                i <= lists@.len(),
                view_count == capped(total_in_lists(lists@.take(i as int))),
            decreases lists@.len() - i,
        {
            assert(lists@.take(i + 1).drop_last() =~= lists@.take(i as int));
            view_count = view_count.saturating_add(lists[i].len());
            i = i + 1;
        }
        assert(lists@.take(i as int) =~= lists@);
        let entries = &self.widget_shortcuts;
        let mut widget_count: usize = 0;
        let mut j: usize = 0;
        while j < entries.len()
            invariant
                j <= entries@.len(),
                widget_count == capped(total_in_entries(entries@.take(j as int))),
            decreases entries@.len() - j,
        {
            assert(entries@.take(j + 1).drop_last() =~= entries@.take(j as int));
            widget_count = widget_count.saturating_add(entries[j].1.len());
            j = j + 1;
        }
        assert(entries@.take(j as int) =~= entries@);
        HelpStats {
            global_shortcuts_count: self.global_shortcuts.len(),
            view_shortcuts_count: view_count,
            widget_shortcuts_count: widget_count,
            help_content_count: self.context_help.len(),
            is_visible: self.help_visible,
            current_context: copy_opt_string(&self.current_context),
            display_mode: self.display_mode,
        }
    }

    /// The heading of the help popup: the title of the help text of the
    /// current context when it has one, else the shortcut listing's.
    pub fn overlay_header_text(&self) -> (res: String)
        ensures
            res@ == match self.context() {
                Some(c) => match help_for(self.help_entries(), c@) {
                    Some(h) => "帮助: "@ + h.title@,
                    None => "键盘快捷键"@,
                },
                None => "键盘快捷键"@,
            },
    {
        if let Some(context) = &self.current_context {
            if let Some(content) = self.get_help_content(context.as_str()) {
                let mut res = String::from_str("帮助: ");
                res.append(content.title.as_str());
                return res;
            }
        }
        String::from_str("键盘快捷键")
    }

    /// The lines of the shortcut reference shown in the help popup.
    pub fn shortcut_reference_lines(&self) -> (res: Vec<HelpLine>)
        ensures
            res@.map_values(|l: HelpLine| help_line_view(l)) == shortcut_reference(),
    {
        let res = vec![
            help_line(HelpLineStyle::Heading, "全局快捷键:", ""),
            help_line(HelpLineStyle::Plain, "", ""),
            help_line(HelpLineStyle::Success, "Ctrl+Q", "  退出应用程序"),
            help_line(HelpLineStyle::Info, "F12", "    刷新数据"),
            help_line(HelpLineStyle::Info, "?", "      显示/隐藏帮助"),
            help_line(HelpLineStyle::Plain, "", ""),
            help_line(HelpLineStyle::Heading, "导航快捷键:", ""),
            help_line(HelpLineStyle::Plain, "", ""),
            help_line(HelpLineStyle::Info, "Tab", "    下一个元素"),
            help_line(HelpLineStyle::Info, "Shift+Tab", " 上一个元素"),
            help_line(HelpLineStyle::Warning, "Esc", "    返回/取消"),
            help_line(HelpLineStyle::Plain, "", ""),
            help_line(HelpLineStyle::Heading, "视图切换:", ""),
            help_line(HelpLineStyle::Plain, "", ""),
            help_line(HelpLineStyle::Info, "F1", "     工作流列表"),
            help_line(HelpLineStyle::Info, "F2", "     执行监控"),
            help_line(HelpLineStyle::Info, "F3", "     工具管理"),
            help_line(HelpLineStyle::Info, "F4", "     插件管理"),
            help_line(HelpLineStyle::Info, "F5", "     系统状态"),
            help_line(HelpLineStyle::Info, "F6", "     日志查看器"),
        ];
        assert(res@.map_values(|l: HelpLine| help_line_view(l)) =~= shortcut_reference());
        res
    }

    /// The text of the help in the status bar.
    pub fn status_bar_text(&self) -> (res: &'static str)
        ensures
            res@ == "F1-F6: 视图切换 | Tab: 导航 | ?: 帮助 | Ctrl+Q: 退出"@,
    {
        "F1-F6: 视图切换 | Tab: 导航 | ?: 帮助 | Ctrl+Q: 退出"
    }

    /// The help popup within `area`: 80% of its width and 70% of its
    /// height, centered.
    pub fn popup_area(area: Area) -> (res: Area)
        requires
            area.width * 80 <= u16::MAX,
            area.height * 70 <= u16::MAX,
        ensures
            res == popup_within(area),
    {
        let width: u16 = area.width * 80 / 100;
        let height: u16 = area.height * 70 / 100;
        Area { x: (area.width - width) / 2, y: (area.height - height) / 2, width, height }
    }
}

/// Where the shortcuts of a view are kept.
fn view_index(v: &ViewType) -> (res: usize)
    ensures
        res == view_slot(*v),
{
    match v {
        ViewType::WorkflowList => 0,
        ViewType::ExecutionMonitor => 1,
        ViewType::ToolManager => 2,
        ViewType::PluginManager => 3,
        ViewType::SystemStatus => 4,
        ViewType::LogViewer => 5,
    }
}

/// A copy of an optional string.
fn copy_opt_string(o: &Option<String>) -> (res: Option<String>)
    ensures
        res == *o,
{
    match o {
        Some(s) => Some(s.clone()),
        None => None,
    }
}

} // verus!
