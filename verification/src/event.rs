//! Key bindings: which action each key combination stands for, globally,
//! in a view or in a widget, and the help texts that list them.

use vstd::prelude::*;
use crate::action::{Action, ViewType, action_text, decimal_string, decimal_text};
use crate::keys::{KeyCode, KeyEvent, MOD_ALT, MOD_CONTROL, MOD_NONE, MOD_SHIFT, media_key_name, modifier_key_name};
use crate::text::text_eq;

verus! {

/// A key combination: a key and the modifiers held.
pub type KeyCombination = (KeyCode, u8);

/// The action bound to `key` among `entries`: the last binding of it.
pub open spec fn binding_in(entries: Seq<(KeyCombination, Action)>, key: KeyCombination) -> Option<Action>
    decreases entries.len(),
{
    if entries.len() == 0 {
        None
    } else if entries.last().0 == key {
        Some(entries.last().1)
    } else {
        binding_in(entries.drop_last(), key)
    }
}

/// The bindings of `entries` other than those of `key`.
pub open spec fn bindings_without(entries: Seq<(KeyCombination, Action)>, key: KeyCombination) -> Seq<
    (KeyCombination, Action),
> {
    entries.filter(|e: (KeyCombination, Action)| e.0 != key)
}

/// Which action each key combination stands for: everywhere, in a view,
/// or in a widget.
#[derive(Debug)]
pub struct KeyBindings {
    pub global_shortcuts: Vec<(KeyCombination, Action)>,
    /// The bindings of each view; a later entry for a view replaces an
    /// earlier one.
    pub context_shortcuts: Vec<(ViewType, Vec<(KeyCombination, Action)>)>,
    /// The bindings of each widget, by its identifier; a later entry
    /// replaces an earlier one.
    pub widget_shortcuts: Vec<(String, Vec<(KeyCombination, Action)>)>,
}

/// Whether `a` is a search for nothing.
pub open spec fn empty_search(a: Action) -> bool {
    a matches Action::Search(s) && s@.len() == 0
}

/// Whether `e` is the `k`-th default global binding.
pub open spec fn default_global_binding(k: int, e: (KeyCombination, Action)) -> bool {
    if k == 0 {
        e == ((KeyCode::Char('q'), MOD_CONTROL), Action::Quit)
    } else if k == 1 {
        e == ((KeyCode::Char('c'), MOD_CONTROL), Action::Quit)
    } else if k == 2 {
        e == ((KeyCode::F(1), MOD_NONE), Action::Navigate(ViewType::WorkflowList))
    } else if k == 3 {
        e == ((KeyCode::F(2), MOD_NONE), Action::Navigate(ViewType::ExecutionMonitor))
    } else if k == 4 {
        e == ((KeyCode::F(3), MOD_NONE), Action::Navigate(ViewType::ToolManager))
    } else if k == 5 {
        e == ((KeyCode::F(4), MOD_NONE), Action::Navigate(ViewType::PluginManager))
    } else if k == 6 {
        e == ((KeyCode::F(5), MOD_NONE), Action::Navigate(ViewType::SystemStatus))
    } else if k == 7 {
        e == ((KeyCode::F(6), MOD_NONE), Action::Navigate(ViewType::LogViewer))
    } else if k == 8 {
        e == ((KeyCode::F(12), MOD_NONE), Action::Refresh)
    } else if k == 9 {
        e == ((KeyCode::Char('r'), MOD_CONTROL), Action::Refresh)
    } else if k == 10 {
        e == ((KeyCode::Tab, MOD_NONE), Action::FocusNext)
    } else if k == 11 {
        e == ((KeyCode::Tab, MOD_SHIFT), Action::FocusPrevious)
    } else if k == 12 {
        e.0 == (KeyCode::Char('/'), MOD_NONE) && empty_search(e.1)
    } else if k == 13 {
        e.0 == (KeyCode::Char('f'), MOD_CONTROL) && empty_search(e.1)
    } else {
        e == ((KeyCode::Esc, MOD_NONE), Action::GoBack)
    }
}

/// The action of the built-in shortcuts for a key press: Ctrl+Q and Ctrl+C
/// quit, F1 to F6 show the views, F12 and Ctrl+R refresh, Tab and
/// Shift+Tab move the focus, `/` and Ctrl+F search, Esc goes back; the
/// modifiers must be exactly those.
pub open spec fn builtin_shortcut(key: KeyEvent) -> Option<Action> {
    let m = key.modifiers;
    match key.code {
        KeyCode::Char(c) => if c == 'q' && m == MOD_CONTROL || c == 'c' && m == MOD_CONTROL {
            Some(Action::Quit)
        } else if c == 'r' && m == MOD_CONTROL {
            Some(Action::Refresh)
        } else {
            None
        },
        KeyCode::F(n) => if m != MOD_NONE {
            None
        } else if n == 1 {
            Some(Action::Navigate(ViewType::WorkflowList))
        } else if n == 2 {
            Some(Action::Navigate(ViewType::ExecutionMonitor))
        } else if n == 3 {
            Some(Action::Navigate(ViewType::ToolManager))
        } else if n == 4 {
            Some(Action::Navigate(ViewType::PluginManager))
        } else if n == 5 {
            Some(Action::Navigate(ViewType::SystemStatus))
        } else if n == 6 {
            Some(Action::Navigate(ViewType::LogViewer))
        } else if n == 12 {
            Some(Action::Refresh)
        } else {
            None
        },
        KeyCode::Tab => if m == MOD_NONE {
            Some(Action::FocusNext)
        } else if m == MOD_SHIFT {
            Some(Action::FocusPrevious)
        } else {
            None
        },
        KeyCode::Esc => if m == MOD_NONE {
            Some(Action::GoBack)
        } else {
            None
        },
        _ => None,
    }
}

/// The first element and whether it is a search for nothing.
fn search_nothing() -> (res: Action)
    ensures
        empty_search(res),
{
    Action::Search(String::new())
}

/// The action of `key` among `entries`.
fn lookup_binding(entries: &Vec<(KeyCombination, Action)>, key: KeyCombination) -> (res: Option<Action>)
    ensures
        res == binding_in(entries@, key),
{
    let mut i: usize = entries.len();
    assert(entries@.take(i as int) =~= entries@);
    while i > 0
        invariant
            i <= entries@.len(),
            binding_in(entries@, key) == binding_in(entries@.take(i as int), key),
        decreases i,
    {
        let k = i - 1;
        assert(entries@.take(i as int).drop_last() =~= entries@.take(k as int));
        if entries[k].0.0 == key.0 && entries[k].0.1 == key.1 {
            return Some(entries[k].1.clone());
        }
        i = k;
    }
    None
}

/// The bindings of `s` after binding `key` to `action`: the earlier
/// bindings of `key` give way to the new one, which comes last.
pub open spec fn rebound(s: Seq<(KeyCombination, Action)>, key: KeyCombination, action: Action) -> Seq<
    (KeyCombination, Action),
> {
    bindings_without(s, key).push((key, action))
}

/// One more element of `s` through the filter of a key.
proof fn lemma_without_step(s: Seq<(KeyCombination, Action)>, key: KeyCombination, i: int)
    requires
        0 <= i < s.len(),
    ensures
        bindings_without(s.take(i + 1), key) == if s[i].0 != key {
            bindings_without(s.take(i), key).push(s[i])
        } else {
            bindings_without(s.take(i), key)
        },
{
    reveal(Seq::filter);
    assert(s.take(i + 1).drop_last() =~= s.take(i));
    assert(s.take(i + 1).last() == s[i]);
}

/// A copy of a list of bindings.
fn copy_bindings(v: &Vec<(KeyCombination, Action)>) -> (res: Vec<(KeyCombination, Action)>)
    ensures
        res@ == v@,
{
    let mut res: Vec<(KeyCombination, Action)> = Vec::new();
    let mut i: usize = 0;
    while i < v.len()
        invariant
            i <= v@.len(),
            res@ == v@.take(i as int),
        decreases v@.len() - i,
    {
        let key = v[i].0;
        let action = v[i].1.clone();
        res.push((key, action));
        i = i + 1;
        assert(res@ =~= v@.take(i as int));
    }
    assert(v@.take(i as int) =~= v@);
    res
}

/// Removes the bindings of `key` from `entries`, returning the action it
/// stood for.
fn remove_binding(entries: &mut Vec<(KeyCombination, Action)>, key: KeyCombination) -> (res: Option<Action>)
    ensures
        final(entries)@ == bindings_without(old(entries)@, key),
        res == binding_in(old(entries)@, key),
{
    let found = lookup_binding(entries, key);
    let mut kept: Vec<(KeyCombination, Action)> = Vec::new();
    let mut i: usize = 0;
    proof {
        reveal(Seq::filter);
        assert(entries@.take(0) =~= Seq::<(KeyCombination, Action)>::empty());
    }
    while i < entries.len()
        invariant
            i <= entries@.len(),
            kept@ == bindings_without(entries@.take(i as int), key),
        decreases entries@.len() - i,
    {
        proof {
            lemma_without_step(entries@, key, i as int);
        }
        if !(entries[i].0.0 == key.0 && entries[i].0.1 == key.1) {
            kept.push((entries[i].0, entries[i].1.clone()));
        }
        i = i + 1;
    }
    assert(entries@.take(i as int) =~= entries@);
    *entries = kept;
    found
}

/// Binds `key` to `action` in `entries`, replacing a binding of it.
fn bind(entries: &mut Vec<(KeyCombination, Action)>, key: KeyCombination, action: Action)
    ensures
        final(entries)@ == rebound(old(entries)@, key, action),
{
    remove_binding(entries, key);
    entries.push((key, action));
}

/// Filtering out the bindings of a key drops that key and keeps the others.
proof fn lemma_bindings_without(s: Seq<(KeyCombination, Action)>, key: KeyCombination)
    ensures
        forall|k: KeyCombination|
            #[trigger] binding_in(bindings_without(s, key), k) == if k == key {
                None
            } else {
                binding_in(s, k)
            },
    decreases s.len(),
{
    reveal(Seq::filter);
    if s.len() > 0 {
        lemma_bindings_without(s.drop_last(), key);
        let r = bindings_without(s.drop_last(), key);
        assert forall|k: KeyCombination|
            #[trigger] binding_in(bindings_without(s, key), k) == if k == key {
                None
            } else {
                binding_in(s, k)
            } by {
            assert(binding_in(r, k) == if k == key {
                None
            } else {
                binding_in(s.drop_last(), k)
            });
            if s.last().0 != key {
                assert(bindings_without(s, key) == r.push(s.last()));
                assert(r.push(s.last()).drop_last() =~= r);
            } else {
                assert(bindings_without(s, key) == r);
            }
        }
    }
}

/// A line of help: a category and its key combinations with what they do.
#[derive(Debug)]
pub struct ShortcutHelp {
    pub category: String,
    pub shortcuts: Vec<(String, String)>,
}

/// Pairs of strings as plain values.
pub open spec fn pairs_view(s: Seq<(String, String)>) -> Seq<(Seq<char>, Seq<char>)> {
    s.map_values(|p: (String, String)| (p.0@, p.1@))
}

/// Pairs of string slices as plain values.
pub open spec fn str_pairs_view(s: Seq<(&str, &str)>) -> Seq<(Seq<char>, Seq<char>)> {
    s.map_values(|p: (&str, &str)| (p.0@, p.1@))
}

/// A help entry as plain values.
pub open spec fn help_view(h: ShortcutHelp) -> (Seq<char>, Seq<(Seq<char>, Seq<char>)>) {
    (h.category@, pairs_view(h.shortcuts@))
}

/// Help entries as plain values.
pub open spec fn help_views(v: Seq<ShortcutHelp>) -> Seq<(Seq<char>, Seq<(Seq<char>, Seq<char>)>)> {
    v.map_values(|h: ShortcutHelp| help_view(h))
}

/// A help entry from a category and its lines.
fn help_entry(category: &str, lines: Vec<(&str, &str)>) -> (res: ShortcutHelp)
    ensures
        help_view(res) == (category@, str_pairs_view(lines@)),
{
    let mut shortcuts: Vec<(String, String)> = Vec::new();
    let mut i: usize = 0;
    while i < lines.len()
        invariant
            i <= lines@.len(),
            shortcuts@.len() == i,
            pairs_view(shortcuts@) == str_pairs_view(lines@.take(i as int)),
        decreases lines@.len() - i,
    {
        let (key, what) = lines[i];
        let ghost before = shortcuts@;
        shortcuts.push((String::from_str(key), String::from_str(what)));
        proof {
            let next = lines@.take(i + 1);
            assert(next.drop_last() =~= lines@.take(i as int));
            assert forall|j: int| 0 <= j < i + 1 implies #[trigger] pairs_view(shortcuts@)[j] == str_pairs_view(
                next,
            )[j] by {
                if j < i {
                    assert(pairs_view(before)[j] == str_pairs_view(lines@.take(i as int))[j]);
                    assert(shortcuts@[j] == before[j]);
                    assert(next[j] == lines@.take(i as int)[j]);
                }
            }
            assert(pairs_view(shortcuts@) =~= str_pairs_view(next));
        }
        i = i + 1;
    }
    assert(lines@.take(i as int) =~= lines@);
    ShortcutHelp { category: String::from_str(category), shortcuts }
}

/// The help of the global shortcuts.
pub open spec fn global_shortcuts_help() -> Seq<(Seq<char>, Seq<(Seq<char>, Seq<char>)>)> {
    seq![
        ("应用程序"@, seq![("Ctrl+Q/C"@, "退出应用程序"@), ("F12, Ctrl+R"@, "刷新数据"@)]),
        (
            "视图导航"@,
            seq![
                ("F1"@, "工作流列表"@),
                ("F2"@, "执行监控"@),
                ("F3"@, "工具管理"@),
                ("F4"@, "插件管理"@),
                ("F5"@, "系统状态"@),
                ("F6"@, "日志查看器"@),
            ],
        ),
        (
            "搜索和导航"@,
            seq![
                ("/"@, "开始搜索"@),
                ("Ctrl+F"@, "搜索"@),
                ("Esc"@, "返回/取消"@),
                ("Tab"@, "下一个元素"@),
                ("Shift+Tab"@, "上一个元素"@),
            ],
        ),
    ]
}

/// The help of the shortcuts of a view.
pub open spec fn view_shortcuts_help(view: ViewType) -> (Seq<char>, Seq<(Seq<char>, Seq<char>)>) {
    match view {
        ViewType::WorkflowList => (
            "工作流操作"@,
            seq![("Enter"@, "执行选中的工作流"@), ("↑/↓"@, "选择工作流"@), ("d"@, "切换详情视图"@)],
        ),
        ViewType::ExecutionMonitor => (
            "执行控制"@,
            seq![("Space"@, "暂停/恢复执行"@), ("s"@, "停止执行"@), ("c"@, "取消执行"@)],
        ),
        ViewType::ToolManager => ("工具操作"@, seq![("Enter"@, "执行工具"@), ("i"@, "查看工具信息"@)]),
        ViewType::PluginManager => (
            "插件操作"@,
            seq![("i"@, "安装插件"@), ("u"@, "卸载插件"@), ("r"@, "重新加载插件"@)],
        ),
        ViewType::SystemStatus => ("系统监控"@, seq![("r"@, "刷新系统状态"@), ("d"@, "显示详细信息"@)]),
        ViewType::LogViewer => (
            "日志操作"@,
            seq![("1-5"@, "按级别过滤日志"@), ("c"@, "清除日志"@), ("e"@, "导出日志"@)],
        ),
    }
}

/// What the standard library's `char::to_uppercase` makes of a character,
/// as text.
pub uninterp spec fn char_upper(c: char) -> Seq<char>;

/// `char::to_uppercase`, collected into a string: the uppercase form of
/// `c` as Unicode defines it, one or more characters. The contract only
/// names it.
#[verifier::external_body]
fn uppercase_char(c: char) -> (res: String)
    ensures
        res@ == char_upper(c),
{
    c.to_uppercase().collect::<String>()
}

/// The name of a key as help shows it.
pub open spec fn key_name(k: KeyCode) -> Seq<char> {
    match k {
        KeyCode::Char(c) => if c == ' ' {
            "Space"@
        } else {
            char_upper(c)
        },
        KeyCode::F(n) => "F"@ + decimal_text(n as nat),
        KeyCode::Enter => "Enter"@,
        KeyCode::Tab => "Tab"@,
        KeyCode::Esc => "Esc"@,
        KeyCode::Backspace => "Backspace"@,
        KeyCode::Delete => "Delete"@,
        KeyCode::Up => "↑"@,
        KeyCode::Down => "↓"@,
        KeyCode::Left => "←"@,
        KeyCode::Right => "→"@,
        KeyCode::PageUp => "PageUp"@,
        KeyCode::PageDown => "PageDown"@,
        KeyCode::Home => "Home"@,
        KeyCode::End => "End"@,
        KeyCode::BackTab => "BackTab"@,
        KeyCode::Insert => "Insert"@,
        KeyCode::Null => "Null"@,
        KeyCode::CapsLock => "CapsLock"@,
        KeyCode::ScrollLock => "ScrollLock"@,
        KeyCode::NumLock => "NumLock"@,
        KeyCode::PrintScreen => "PrintScreen"@,
        KeyCode::Pause => "Pause"@,
        KeyCode::Menu => "Menu"@,
        KeyCode::KeypadBegin => "KeypadBegin"@,
        KeyCode::Media(m) => "Media("@ + media_key_name(m) + ")"@,
        KeyCode::Modifier(m) => "Modifier("@ + modifier_key_name(m) + ")"@,
    }
}

/// A key combination as help shows it: `Ctrl`, `Alt` and `Shift` for the
/// modifiers held, then the key, joined by `+`.
pub open spec fn combination_text(k: KeyCode, modifiers: u8) -> Seq<char> {
    let ctrl = if modifiers & MOD_CONTROL != 0 { "Ctrl+"@ } else { Seq::empty() };
    let alt = if modifiers & MOD_ALT != 0 { "Alt+"@ } else { Seq::empty() };
    let shift = if modifiers & MOD_SHIFT != 0 { "Shift+"@ } else { Seq::empty() };
    ctrl + alt + shift + key_name(k)
}

/// The name of a key as help shows it.
fn key_name_of(k: KeyCode) -> (res: String)
    ensures
        res@ == key_name(k),
{
    match k {
        KeyCode::Char(c) => if c == ' ' {
            String::from_str("Space")
        } else {
            uppercase_char(c)
        },
        KeyCode::F(n) => {
            let mut s = String::from_str("F");
            let d = decimal_string(n as usize);
            s.append(d.as_str());
            s
        },
        KeyCode::Enter => String::from_str("Enter"),
        KeyCode::Tab => String::from_str("Tab"),
        KeyCode::Esc => String::from_str("Esc"),
        KeyCode::Backspace => String::from_str("Backspace"),
        KeyCode::Delete => String::from_str("Delete"),
        KeyCode::Up => String::from_str("↑"),
        KeyCode::Down => String::from_str("↓"),
        KeyCode::Left => String::from_str("←"),
        KeyCode::Right => String::from_str("→"),
        KeyCode::PageUp => String::from_str("PageUp"),
        KeyCode::PageDown => String::from_str("PageDown"),
        KeyCode::Home => String::from_str("Home"),
        KeyCode::End => String::from_str("End"),
        KeyCode::BackTab => String::from_str("BackTab"),
        KeyCode::Insert => String::from_str("Insert"),
        KeyCode::Null => String::from_str("Null"),
        KeyCode::CapsLock => String::from_str("CapsLock"),
        KeyCode::ScrollLock => String::from_str("ScrollLock"),
        KeyCode::NumLock => String::from_str("NumLock"),
        KeyCode::PrintScreen => String::from_str("PrintScreen"),
        KeyCode::Pause => String::from_str("Pause"),
        KeyCode::Menu => String::from_str("Menu"),
        KeyCode::KeypadBegin => String::from_str("KeypadBegin"),
        KeyCode::Media(m) => {
            let mut s = String::from_str("Media(");
            s.append(m.name());
            s.append(")");
            s
        },
        KeyCode::Modifier(m) => {
            let mut s = String::from_str("Modifier(");
            s.append(m.name());
            s.append(")");
            s
        },
    }
}

/// A key combination as help shows it, such as `Ctrl+Shift+F`.
pub fn format_key_combination(key_code: KeyCode, modifiers: u8) -> (res: String)
    ensures
        res@ == combination_text(key_code, modifiers),
{
    let mut s = String::new();
    if modifiers & MOD_CONTROL != 0 {
        s.append("Ctrl+");
    }
    if modifiers & MOD_ALT != 0 {
        s.append("Alt+");
    }
    if modifiers & MOD_SHIFT != 0 {
        s.append("Shift+");
    }
    let key = key_name_of(key_code);
    s.append(key.as_str());
    proof {
        let ctrl = if modifiers & MOD_CONTROL != 0 { "Ctrl+"@ } else { Seq::<char>::empty() };
        let alt = if modifiers & MOD_ALT != 0 { "Alt+"@ } else { Seq::<char>::empty() };
        let shift = if modifiers & MOD_SHIFT != 0 { "Shift+"@ } else { Seq::<char>::empty() };
        assert(s@ =~= ctrl + alt + shift + key_name(key_code));
    }
    s
}

/// The bindings of a view among `entries`: those of its last entry.
pub open spec fn context_of(entries: Seq<(ViewType, Vec<(KeyCombination, Action)>)>, view: ViewType) -> Option<
    Seq<(KeyCombination, Action)>,
>
    decreases entries.len(),
{
    if entries.len() == 0 {
        None
    } else if entries.last().0 == view {
        Some(entries.last().1@)
    } else {
        context_of(entries.drop_last(), view)
    }
}

/// The bindings of a widget among `entries`: those of its last entry.
pub open spec fn widget_of(entries: Seq<(String, Vec<(KeyCombination, Action)>)>, id: Seq<char>) -> Option<
    Seq<(KeyCombination, Action)>,
>
    decreases entries.len(),
{
    if entries.len() == 0 {
        None
    } else if entries.last().0@ == id {
        Some(entries.last().1@)
    } else {
        widget_of(entries.drop_last(), id)
    }
}

/// Bindings that may be absent, as plain values.
pub open spec fn opt_bindings(o: Option<Vec<(KeyCombination, Action)>>) -> Option<Seq<(KeyCombination, Action)>> {
    match o {
        Some(v) => Some(v@),
        None => None,
    }
}

/// The bindings that may be absent, or none.
pub open spec fn or_none(o: Option<Seq<(KeyCombination, Action)>>) -> Seq<(KeyCombination, Action)> {
    match o {
        Some(s) => s,
        None => Seq::empty(),
    }
}

/// A copy of the bindings of `view`.
fn find_context(entries: &Vec<(ViewType, Vec<(KeyCombination, Action)>)>, view: ViewType) -> (res: Option<
    Vec<(KeyCombination, Action)>,
>)
    ensures
        opt_bindings(res) == context_of(entries@, view),
{
    let mut i: usize = entries.len();
    assert(entries@.take(i as int) =~= entries@);
    while i > 0
        invariant
            i <= entries@.len(),
            context_of(entries@, view) == context_of(entries@.take(i as int), view),
        decreases i,
    {
        let k = i - 1;
        assert(entries@.take(i as int).drop_last() =~= entries@.take(k as int));
        if entries[k].0 == view {
            return Some(copy_bindings(&entries[k].1));
        }
        i = k;
    }
    None
}

/// A copy of the bindings of the widget `id`.
fn find_widget(entries: &Vec<(String, Vec<(KeyCombination, Action)>)>, id: &str) -> (res: Option<
    Vec<(KeyCombination, Action)>,
>)
    ensures
        opt_bindings(res) == widget_of(entries@, id@),
{
    let mut i: usize = entries.len();
    assert(entries@.take(i as int) =~= entries@);
    while i > 0
        invariant
            i <= entries@.len(),
            widget_of(entries@, id@) == widget_of(entries@.take(i as int), id@),
        decreases i,
    {
        let k = i - 1;
        assert(entries@.take(i as int).drop_last() =~= entries@.take(k as int));
        if text_eq(entries[k].0.as_str(), id) {
            return Some(copy_bindings(&entries[k].1));
        }
        i = k;
    }
    None
}

/// Drops every entry of `view`.
fn drop_context(entries: &mut Vec<(ViewType, Vec<(KeyCombination, Action)>)>, view: ViewType)
    ensures
        forall|v: ViewType|
            #[trigger] context_of(final(entries)@, v) == if v == view {
                None
            } else {
                context_of(old(entries)@, v)
            },
{
    let mut kept: Vec<(ViewType, Vec<(KeyCombination, Action)>)> = Vec::new();
    let mut i: usize = 0;
    while i < entries.len()
        invariant
            i <= entries@.len(),
            forall|v: ViewType|
                #[trigger] context_of(kept@, v) == if v == view {
                    None
                } else {
                    context_of(entries@.take(i as int), v)
                },
        decreases entries@.len() - i,
    {
        let ghost before = kept@;
        let ghost next = entries@.take(i + 1);
        proof {
            assert(next.drop_last() =~= entries@.take(i as int));
            assert(next.last() == entries@[i as int]);
        }
        if entries[i].0 != view {
            let copy = copy_bindings(&entries[i].1);
            kept.push((entries[i].0, copy));
            proof {
                assert(kept@.drop_last() =~= before);
            }
        }
        proof {
            assert forall|v: ViewType|
                #[trigger] context_of(kept@, v) == if v == view {
                    None
                } else {
                    context_of(next, v)
                } by {
                assert(context_of(before, v) == if v == view {
                    None
                } else {
                    context_of(entries@.take(i as int), v)
                });
            }
        }
        i = i + 1;
    }
    assert(entries@.take(i as int) =~= entries@);
    *entries = kept;
}

/// Drops every entry of the widget `id`.
fn drop_widget(entries: &mut Vec<(String, Vec<(KeyCombination, Action)>)>, id: &str)
    ensures
        forall|w: Seq<char>|
            #[trigger] widget_of(final(entries)@, w) == if w == id@ {
                None
            } else {
                widget_of(old(entries)@, w)
            },
{
    let mut kept: Vec<(String, Vec<(KeyCombination, Action)>)> = Vec::new();
    let mut i: usize = 0;
    while i < entries.len()
        invariant
            i <= entries@.len(),
            forall|w: Seq<char>|
                #[trigger] widget_of(kept@, w) == if w == id@ {
                    None
                } else {
                    widget_of(entries@.take(i as int), w)
                },
        decreases entries@.len() - i,
    {
        let ghost before = kept@;
        let ghost next = entries@.take(i + 1);
        proof {
            assert(next.drop_last() =~= entries@.take(i as int));
            assert(next.last() == entries@[i as int]);
        }
        if !text_eq(entries[i].0.as_str(), id) {
            let copy = copy_bindings(&entries[i].1);
            let name = entries[i].0.clone();
            kept.push((name, copy));
            proof {
                assert(kept@.drop_last() =~= before);
            }
        }
        proof {
            assert forall|w: Seq<char>|
                #[trigger] widget_of(kept@, w) == if w == id@ {
                    None
                } else {
                    widget_of(next, w)
                } by {
                assert(widget_of(before, w) == if w == id@ {
                    None
                } else {
                    widget_of(entries@.take(i as int), w)
                });
            }
        }
        i = i + 1;
    }
    assert(entries@.take(i as int) =~= entries@);
    *entries = kept;
}

/// The help lines of a list of bindings: each key combination as help
/// shows it, with the text of its action.
pub open spec fn binding_lines(s: Seq<(KeyCombination, Action)>) -> Seq<(Seq<char>, Seq<char>)> {
    s.map_values(|e: (KeyCombination, Action)| (combination_text(e.0.0, e.0.1), action_text(e.1)))
}

/// The help of the widget `id` with the bindings `b`, if it has any entry.
pub open spec fn widget_help(id: Seq<char>, b: Option<Seq<(KeyCombination, Action)>>) -> Seq<
    (Seq<char>, Seq<(Seq<char>, Seq<char>)>),
> {
    match b {
        Some(bindings) => seq![("Widget: "@ + id, binding_lines(bindings))],
        None => Seq::empty(),
    }
}

impl KeyBindings {
    /// The built-in bindings: Ctrl+Q and Ctrl+C quit, F1 to F6 show the
    /// views, F12 and Ctrl+R refresh, Tab and Shift+Tab move the focus,
    /// `/` and Ctrl+F search, Esc goes back; no view or widget bindings.
    pub fn default() -> (res: Self)
        ensures
            res.global_shortcuts@.len() == 15,
            forall|k: int| 0 <= k < 15 ==> default_global_binding(k, #[trigger] res.global_shortcuts@[k]),
            res.context_shortcuts@.len() == 0,
            res.widget_shortcuts@.len() == 0,
    {
        let global_shortcuts = vec![
            ((KeyCode::Char('q'), MOD_CONTROL), Action::Quit),
            ((KeyCode::Char('c'), MOD_CONTROL), Action::Quit),
            ((KeyCode::F(1), MOD_NONE), Action::Navigate(ViewType::WorkflowList)),
            ((KeyCode::F(2), MOD_NONE), Action::Navigate(ViewType::ExecutionMonitor)),
            ((KeyCode::F(3), MOD_NONE), Action::Navigate(ViewType::ToolManager)),
            ((KeyCode::F(4), MOD_NONE), Action::Navigate(ViewType::PluginManager)),
            ((KeyCode::F(5), MOD_NONE), Action::Navigate(ViewType::SystemStatus)),
            ((KeyCode::F(6), MOD_NONE), Action::Navigate(ViewType::LogViewer)),
            ((KeyCode::F(12), MOD_NONE), Action::Refresh),
            ((KeyCode::Char('r'), MOD_CONTROL), Action::Refresh),
            ((KeyCode::Tab, MOD_NONE), Action::FocusNext),
            ((KeyCode::Tab, MOD_SHIFT), Action::FocusPrevious),
            ((KeyCode::Char('/'), MOD_NONE), search_nothing()),
            ((KeyCode::Char('f'), MOD_CONTROL), search_nothing()),
            ((KeyCode::Esc, MOD_NONE), Action::GoBack),
        ];
        KeyBindings { global_shortcuts, context_shortcuts: Vec::new(), widget_shortcuts: Vec::new() }
    }

    /// The help of the global shortcuts.
    pub fn get_global_shortcuts_help(&self) -> (res: Vec<ShortcutHelp>)
        ensures
            help_views(res@) == global_shortcuts_help(),
    {
        let app = help_entry("应用程序", vec![("Ctrl+Q/C", "退出应用程序"), ("F12, Ctrl+R", "刷新数据")]);
        let views = help_entry(
            "视图导航",
            vec![
                ("F1", "工作流列表"),
                ("F2", "执行监控"),
                ("F3", "工具管理"),
                ("F4", "插件管理"),
                ("F5", "系统状态"),
                ("F6", "日志查看器"),
            ],
        );
        let search = help_entry(
            "搜索和导航",
            vec![
                ("/", "开始搜索"),
                ("Ctrl+F", "搜索"),
                ("Esc", "返回/取消"),
                ("Tab", "下一个元素"),
                ("Shift+Tab", "上一个元素"),
            ],
        );
        let res = vec![app, views, search];
        assert(help_views(res@) =~~= global_shortcuts_help());
        res
    }

    /// The help of the shortcuts of `view`.
    pub fn get_view_shortcuts_help(&self, view: &ViewType) -> (res: Vec<ShortcutHelp>)
        ensures
            help_views(res@) == seq![view_shortcuts_help(*view)],
    {
        let entry = match view {
            ViewType::WorkflowList => help_entry(
                "工作流操作",
                vec![("Enter", "执行选中的工作流"), ("↑/↓", "选择工作流"), ("d", "切换详情视图")],
            ),
            ViewType::ExecutionMonitor => help_entry(
                "执行控制",
                vec![("Space", "暂停/恢复执行"), ("s", "停止执行"), ("c", "取消执行")],
            ),
            ViewType::ToolManager => help_entry("工具操作", vec![("Enter", "执行工具"), ("i", "查看工具信息")]),
            ViewType::PluginManager => help_entry(
                "插件操作",
                vec![("i", "安装插件"), ("u", "卸载插件"), ("r", "重新加载插件")],
            ),
            ViewType::SystemStatus => help_entry("系统监控", vec![("r", "刷新系统状态"), ("d", "显示详细信息")]),
            ViewType::LogViewer => help_entry(
                "日志操作",
                vec![("1-5", "按级别过滤日志"), ("c", "清除日志"), ("e", "导出日志")],
            ),
        };
        let res = vec![entry];
        assert(help_views(res@) =~~= seq![view_shortcuts_help(*view)]);
        res
    }

    /// The help of the shortcuts of the widget `widget_id`: one entry
    /// listing its bindings, or none if it has no entry.
    pub fn get_widget_shortcuts_help(&self, widget_id: &str) -> (res: Vec<ShortcutHelp>)
        ensures
            help_views(res@) == widget_help(widget_id@, widget_of(self.widget_shortcuts@, widget_id@)),
    {
        match find_widget(&self.widget_shortcuts, widget_id) {
            None => {
                let res: Vec<ShortcutHelp> = Vec::new();
                assert(help_views(res@) =~= Seq::empty());
                res
            },
            Some(bindings) => {
                let mut lines: Vec<(String, String)> = Vec::new();
                let mut i: usize = 0;
                while i < bindings.len()
                    invariant
                        i <= bindings@.len(),
                        lines@.len() == i,
                        pairs_view(lines@) == binding_lines(bindings@.take(i as int)),
                    decreases bindings@.len() - i,
                {
                    let key_text = format_key_combination(bindings[i].0.0, bindings[i].0.1);
                    let action_str = bindings[i].1.to_display_string();
                    let ghost before = lines@;
                    lines.push((key_text, action_str));
                    proof {
                        let next = bindings@.take(i + 1);
                        assert forall|j: int| 0 <= j < i + 1 implies #[trigger] pairs_view(lines@)[j] == binding_lines(
                            next,
                        )[j] by {
                            if j < i {
                                assert(pairs_view(before)[j] == binding_lines(bindings@.take(i as int))[j]);
                                assert(lines@[j] == before[j]);
                                assert(next[j] == bindings@.take(i as int)[j]);
                            }
                        }
                        assert(pairs_view(lines@) =~= binding_lines(next));
                    }
                    i = i + 1;
                }
                assert(bindings@.take(i as int) =~= bindings@);
                let mut category = String::from_str("Widget: ");
                category.append(widget_id);
                let res = vec![ShortcutHelp { category, shortcuts: lines }];
                assert(help_views(res@) =~= widget_help(widget_id@, widget_of(self.widget_shortcuts@, widget_id@)));
                res
            },
        }
    }

    /// Binds a key combination everywhere, replacing its earlier binding.
    pub fn add_global_shortcut(&mut self, key_code: KeyCode, modifiers: u8, action: Action)
        ensures
            final(self).global_shortcuts@ == rebound(old(self).global_shortcuts@, (key_code, modifiers), action),
            final(self).context_shortcuts@ == old(self).context_shortcuts@,
            final(self).widget_shortcuts@ == old(self).widget_shortcuts@,
    {
        bind(&mut self.global_shortcuts, (key_code, modifiers), action);
    }

    /// Binds a key combination in `view`, replacing its earlier binding
    /// there.
    pub fn add_context_shortcut(&mut self, view: ViewType, key_code: KeyCode, modifiers: u8, action: Action)
        ensures
            forall|v: ViewType|
                #[trigger] context_of(final(self).context_shortcuts@, v) == if v == view {
                    Some(rebound(or_none(context_of(old(self).context_shortcuts@, view)), (key_code, modifiers), action))
                } else {
                    context_of(old(self).context_shortcuts@, v)
                },
            final(self).global_shortcuts@ == old(self).global_shortcuts@,
            final(self).widget_shortcuts@ == old(self).widget_shortcuts@,
    {
        let ghost before = self.context_shortcuts@;
        let mut bindings = match find_context(&self.context_shortcuts, view) {
            Some(b) => b,
            None => Vec::new(),
        };
        assert(bindings@ == or_none(context_of(before, view)));
        bind(&mut bindings, (key_code, modifiers), action);
        drop_context(&mut self.context_shortcuts, view);
        let ghost dropped = self.context_shortcuts@;
        self.context_shortcuts.push((view, bindings));
        proof {
            let after = self.context_shortcuts@;
            assert(after.drop_last() =~= dropped);
            assert forall|v: ViewType|
                #[trigger] context_of(after, v) == if v == view {
                    Some(rebound(or_none(context_of(before, view)), (key_code, modifiers), action))
                } else {
                    context_of(before, v)
                } by {
                assert(context_of(dropped, v) == if v == view {
                    None
                } else {
                    context_of(before, v)
                });
            }
        }
    }

    /// Binds a key combination in the widget `widget_id`, replacing its
    /// earlier binding there.
    pub fn add_widget_shortcut(&mut self, widget_id: String, key_code: KeyCode, modifiers: u8, action: Action)
        ensures
            forall|w: Seq<char>|
                #[trigger] widget_of(final(self).widget_shortcuts@, w) == if w == widget_id@ {
                    Some(rebound(or_none(widget_of(old(self).widget_shortcuts@, widget_id@)), (key_code, modifiers), action))
                } else {
                    widget_of(old(self).widget_shortcuts@, w)
                },
            final(self).global_shortcuts@ == old(self).global_shortcuts@,
            final(self).context_shortcuts@ == old(self).context_shortcuts@,
    {
        let ghost before = self.widget_shortcuts@;
        let mut bindings = match find_widget(&self.widget_shortcuts, widget_id.as_str()) {
            Some(b) => b,
            None => Vec::new(),
        };
        assert(bindings@ == or_none(widget_of(before, widget_id@)));
        bind(&mut bindings, (key_code, modifiers), action);
        drop_widget(&mut self.widget_shortcuts, widget_id.as_str());
        let ghost dropped = self.widget_shortcuts@;
        self.widget_shortcuts.push((widget_id, bindings));
        proof {
            let after = self.widget_shortcuts@;
            assert(after.drop_last() =~= dropped);
            assert forall|w: Seq<char>|
                #[trigger] widget_of(after, w) == if w == widget_id@ {
                    Some(rebound(or_none(widget_of(before, widget_id@)), (key_code, modifiers), action))
                } else {
                    widget_of(before, w)
                } by {
                assert(widget_of(dropped, w) == if w == widget_id@ {
                    None
                } else {
                    widget_of(before, w)
                });
            }
        }
    }

    /// Removes the global binding of a key combination, returning the
    /// action it stood for.
    pub fn remove_global_shortcut(&mut self, key_code: KeyCode, modifiers: u8) -> (res: Option<Action>)
        ensures
            res == binding_in(old(self).global_shortcuts@, (key_code, modifiers)),
            final(self).global_shortcuts@ == bindings_without(old(self).global_shortcuts@, (key_code, modifiers)),
            final(self).context_shortcuts@ == old(self).context_shortcuts@,
            final(self).widget_shortcuts@ == old(self).widget_shortcuts@,
    {
        remove_binding(&mut self.global_shortcuts, (key_code, modifiers))
    }

    /// Removes every binding of `view`.
    pub fn clear_context_shortcuts(&mut self, view: &ViewType)
        ensures
            forall|v: ViewType|
                #[trigger] context_of(final(self).context_shortcuts@, v) == if v == *view {
                    None
                } else {
                    context_of(old(self).context_shortcuts@, v)
                },
            final(self).global_shortcuts@ == old(self).global_shortcuts@,
            final(self).widget_shortcuts@ == old(self).widget_shortcuts@,
    {
        drop_context(&mut self.context_shortcuts, *view);
    }

    /// Removes every binding of the widget `widget_id`.
    pub fn clear_widget_shortcuts(&mut self, widget_id: &str)
        ensures
            forall|w: Seq<char>|
                #[trigger] widget_of(final(self).widget_shortcuts@, w) == if w == widget_id@ {
                    None
                } else {
                    widget_of(old(self).widget_shortcuts@, w)
                },
            final(self).global_shortcuts@ == old(self).global_shortcuts@,
            final(self).context_shortcuts@ == old(self).context_shortcuts@,
    {
        drop_widget(&mut self.widget_shortcuts, widget_id);
    }
}

/// After binding `key` to `action`, `key` stands for `action` and every
/// other key combination for what it stood for before.
pub proof fn law_bound_key_reads_back(s: Seq<(KeyCombination, Action)>, key: KeyCombination, action: Action)
    ensures
        forall|k: KeyCombination|
            #[trigger] binding_in(rebound(s, key, action), k) == if k == key {
                Some(action)
            } else {
                binding_in(s, k)
            },
{
    lemma_bindings_without(s, key);
    let r = rebound(s, key, action);
    assert(r.drop_last() =~= bindings_without(s, key));
    assert(r.last() == (key, action));
    assert forall|k: KeyCombination|
        #[trigger] binding_in(r, k) == if k == key {
            Some(action)
        } else {
            binding_in(s, k)
        } by {
        assert(binding_in(bindings_without(s, key), k) == if k == key {
            None
        } else {
            binding_in(s, k)
        });
    }
}

/// Removing a key combination after binding it leaves it unbound and every
/// other key combination as it was before the binding.
pub proof fn law_remove_after_bind(s: Seq<(KeyCombination, Action)>, key: KeyCombination, action: Action)
    ensures
        binding_in(rebound(s, key, action), key) == Some(action),
        forall|k: KeyCombination|
            #[trigger] binding_in(bindings_without(rebound(s, key, action), key), k) == if k == key {
                None
            } else {
                binding_in(s, k)
            },
{
    law_bound_key_reads_back(s, key, action);
    lemma_bindings_without(rebound(s, key, action), key);
}

/// An event of the terminal as the interface handles it.
#[derive(Debug)]
pub enum TuiEvent {
    Key(KeyEvent),
    /// A mouse event at a column and a row.
    Mouse(u16, u16),
    /// The terminal's new width and height.
    Resize(u16, u16),
    Tick,
    Quit,
    FocusGained,
    FocusLost,
    Paste(String),
    Custom(String, serde_json::Value),
}

impl Clone for TuiEvent {
    fn clone(&self) -> (res: Self)
        ensures
            res == *self,
    {
        match self {
            TuiEvent::Key(k) => TuiEvent::Key(*k),
            TuiEvent::Mouse(c, r) => TuiEvent::Mouse(*c, *r),
            TuiEvent::Resize(w, h) => TuiEvent::Resize(*w, *h),
            TuiEvent::Tick => TuiEvent::Tick,
            TuiEvent::Quit => TuiEvent::Quit,
            TuiEvent::FocusGained => TuiEvent::FocusGained,
            TuiEvent::FocusLost => TuiEvent::FocusLost,
            TuiEvent::Paste(t) => TuiEvent::Paste(t.clone()),
            TuiEvent::Custom(name, value) => TuiEvent::Custom(name.clone(), value.clone()),
        }
    }
}

/// What handling an event came to.
#[derive(Debug)]
pub enum EventResult {
    /// The event was taken and produced an action.
    Consumed(Action),
    NotHandled,
    Error(String),
    /// The event was taken and produced no action.
    ConsumedNoAction,
}

/// Counts of the events handled, and the time of the last one in
/// milliseconds.
#[derive(Debug, Clone, Copy)]
pub struct EventStats {
    pub total_events: u64,
    pub key_events: u64,
    pub mouse_events: u64,
    pub resize_events: u64,
    pub tick_events: u64,
    pub custom_events: u64,
    pub filtered_events: u64,
    pub error_events: u64,
    pub last_event_time: Option<u64>,
}

impl Default for EventStats {
    fn default() -> (res: Self)
        ensures
            res.total_events == 0 && res.key_events == 0 && res.mouse_events == 0,
            res.resize_events == 0 && res.tick_events == 0 && res.custom_events == 0,
            res.filtered_events == 0 && res.error_events == 0,
            res.last_event_time is None,
    {
        EventStats {
            total_events: 0,
            key_events: 0,
            mouse_events: 0,
            resize_events: 0,
            tick_events: 0,
            custom_events: 0,
            filtered_events: 0,
            error_events: 0,
            last_event_time: None,
        }
    }
}

/// Whether `key` is one of the built-in search keys, `/` and Ctrl+F.
pub open spec fn is_search_key(key: KeyEvent) -> bool {
    ||| key.code == KeyCode::Char('/') && key.modifiers == MOD_NONE
    ||| key.code == KeyCode::Char('f') && key.modifiers == MOD_CONTROL
}

/// Whether `res` is what the built-in shortcuts make of `key`: a search
/// for nothing for the search keys, else `builtin_shortcut(key)`.
pub open spec fn builtin_outcome(key: KeyEvent, res: Option<Action>) -> bool {
    if is_search_key(key) {
        res matches Some(a) && empty_search(a)
    } else {
        res == builtin_shortcut(key)
    }
}

/// Whether `res` is what the shortcuts make of `key` with the global
/// bindings `global`: the bound action, else the built-in one.
pub open spec fn shortcut_outcome(global: Seq<(KeyCombination, Action)>, key: KeyEvent, res: Option<Action>) -> bool {
    match binding_in(global, (key.code, key.modifiers)) {
        Some(a) => res == Some(a),
        None => builtin_outcome(key, res),
    }
}

/// Whether `res` is what handling the key press `key` comes to with the
/// global bindings `global`: the action of a shortcut, else no action.
pub open spec fn key_result(global: Seq<(KeyCombination, Action)>, key: KeyEvent, res: EventResult) -> bool {
    match res {
        EventResult::Consumed(a) => if binding_in(global, (key.code, key.modifiers)) is Some || is_search_key(key)
            || builtin_shortcut(key) is Some {
            shortcut_outcome(global, key, Some(a))
        } else {
            a == Action::NoAction
        },
        _ => false,
    }
}

/// Turns key presses and other terminal events into actions, with the key
/// bindings, whether mouse events are taken, and how close together two
/// resize events may come before the second is ignored. Reading the
/// terminal and queueing the events is the caller's.
pub struct EventHandler {
    key_bindings: KeyBindings,
    mouse_enabled: bool,
    last_resize: Option<u64>,
    resize_debounce_ms: u64,
}

impl EventHandler {
    /// The key bindings.
    pub closed spec fn bindings(&self) -> KeyBindings {
        self.key_bindings
    }

    /// Whether mouse events are taken.
    pub closed spec fn mouse(&self) -> bool {
        self.mouse_enabled
    }

    /// When the last resize event was taken, in milliseconds.
    pub closed spec fn last_resize_at(&self) -> Option<u64> {
        self.last_resize
    }

    /// The least time between two resize events that are both taken, in
    /// milliseconds.
    pub closed spec fn debounce(&self) -> u64 {
        self.resize_debounce_ms
    }

    /// A handler with the built-in bindings, mouse events taken, and resize
    /// events at least 100 ms apart.
    pub fn new() -> (res: Self)
        ensures
            res.bindings().global_shortcuts@.len() == 15,
            forall|k: int| 0 <= k < 15 ==> default_global_binding(k, #[trigger] res.bindings().global_shortcuts@[k]),
            res.bindings().context_shortcuts@.len() == 0,
            res.bindings().widget_shortcuts@.len() == 0,
            res.mouse(),
            res.last_resize_at() is None,
            res.debounce() == 100,
    {
        EventHandler {
            key_bindings: KeyBindings::default(),
            mouse_enabled: true,
            last_resize: None,
            resize_debounce_ms: 100,
        }
    }

    /// The built-in shortcuts for `key_event`.
    fn handle_hardcoded_shortcuts(&self, key_event: &KeyEvent) -> (res: Option<Action>)
        ensures
            builtin_outcome(*key_event, res),
    {
        let m = key_event.modifiers;
        match key_event.code {
            KeyCode::Char(c) => if (c == 'q' || c == 'c') && m == MOD_CONTROL {
                Some(Action::Quit)
            } else if c == 'r' && m == MOD_CONTROL {
                Some(Action::Refresh)
            } else if c == '/' && m == MOD_NONE || c == 'f' && m == MOD_CONTROL {
                Some(search_nothing())
            } else {
                None
            },
            KeyCode::F(n) => if m != MOD_NONE {
                None
            } else if n == 1 {
                Some(Action::Navigate(ViewType::WorkflowList))
            } else if n == 2 {
                Some(Action::Navigate(ViewType::ExecutionMonitor))
            } else if n == 3 {
                Some(Action::Navigate(ViewType::ToolManager))
            } else if n == 4 {
                Some(Action::Navigate(ViewType::PluginManager))
            } else if n == 5 {
                Some(Action::Navigate(ViewType::SystemStatus))
            } else if n == 6 {
                Some(Action::Navigate(ViewType::LogViewer))
            } else if n == 12 {
                Some(Action::Refresh)
            } else {
                None
            },
            KeyCode::Tab => if m == MOD_NONE {
                Some(Action::FocusNext)
            } else if m == MOD_SHIFT {
                Some(Action::FocusPrevious)
            } else {
                None
            },
            KeyCode::Esc => if m == MOD_NONE {
                Some(Action::GoBack)
            } else {
                None
            },
            _ => None,
        }
    }

    /// The action of `key_event` as a shortcut: its global binding, else
    /// the built-in shortcut.
    pub fn handle_global_shortcuts(&self, key_event: &KeyEvent) -> (res: Option<Action>)
        ensures
            shortcut_outcome(self.bindings().global_shortcuts@, *key_event, res),
    {
        match lookup_binding(&self.key_bindings.global_shortcuts, (key_event.code, key_event.modifiers)) {
            Some(a) => Some(a),
            None => self.handle_hardcoded_shortcuts(key_event),
        }
    }

    /// The action of a key press that is no shortcut: none, the widgets
    /// handle such keys.
    fn key_event_to_action(&self, key_event: KeyEvent) -> (res: Action)
        ensures
            res == Action::NoAction,
    {
        Action::NoAction
    }

    /// Handles a key press: the action of its shortcut, else no action.
    pub fn process_key_event(&self, key_event: KeyEvent) -> (res: EventResult)
        ensures
            key_result(self.bindings().global_shortcuts@, key_event, res),
    {
        match self.handle_global_shortcuts(&key_event) {
            Some(a) => EventResult::Consumed(a),
            None => EventResult::Consumed(self.key_event_to_action(key_event)),
        }
    }

    /// Handles a mouse event: left to the widgets.
    pub fn process_mouse_event(&self, column: u16, row: u16) -> (res: EventResult)
        ensures
            res is NotHandled,
    {
        EventResult::NotHandled
    }

    /// Handles a resize of the terminal at `now_ms`: ignored if it comes
    /// less than the debounce time after the last one taken, else taken and
    /// remembered.
    pub fn process_resize_event(&mut self, width: u16, height: u16, now_ms: u64) -> (res: EventResult)
        ensures
            ({
                let ignored = old(self).last_resize_at() matches Some(t) && (if now_ms >= t {
                    now_ms - t
                } else {
                    0
                }) < old(self).debounce();
                &&& ignored ==> res is NotHandled && final(self).last_resize_at() == old(self).last_resize_at()
                &&& !ignored ==> res == EventResult::Consumed(Action::NoAction) && final(self).last_resize_at()
                    == Some(now_ms)
            }),
            final(self).bindings() == old(self).bindings(),
            final(self).mouse() == old(self).mouse(),
            final(self).debounce() == old(self).debounce(),
    {
        if let Some(last) = self.last_resize {
            let elapsed = if now_ms >= last { now_ms - last } else { 0 };
            if elapsed < self.resize_debounce_ms {
                return EventResult::NotHandled;
            }
        }
        self.last_resize = Some(now_ms);
        EventResult::Consumed(Action::NoAction)
    }

    /// Handles the terminal gaining or losing the focus: gaining it
    /// refreshes.
    pub fn process_focus_event(&self, gained: bool) -> (res: EventResult)
        ensures
            gained ==> res == EventResult::Consumed(Action::Refresh),
            !gained ==> res is NotHandled,
    {
        if gained {
            EventResult::Consumed(Action::Refresh)
        } else {
            EventResult::NotHandled
        }
    }

    /// Handles pasted text: left to the widgets that take text.
    pub fn process_paste_event(&self, text: String) -> (res: EventResult)
        ensures
            res is NotHandled,
    {
        EventResult::NotHandled
    }

    /// Handles an event of the application's own: it becomes a custom
    /// action with its name and data.
    pub fn process_custom_event(&self, name: String, data: serde_json::Value) -> (res: EventResult)
        ensures
            res == EventResult::Consumed(Action::Custom(name, data)),
    {
        EventResult::Consumed(Action::Custom(name, data))
    }

    /// Handles an event at `now_ms`.
    pub fn process_event(&mut self, event: TuiEvent, now_ms: u64) -> (res: EventResult)
        ensures
            match event {
                TuiEvent::Key(k) => key_result(old(self).bindings().global_shortcuts@, k, res),
                TuiEvent::Mouse(_, _) => res is NotHandled,
                TuiEvent::Resize(_, _) => res is NotHandled || res == EventResult::Consumed(Action::NoAction),
                TuiEvent::Tick => res == EventResult::Consumed(Action::NoAction),
                TuiEvent::Quit => res == EventResult::Consumed(Action::Quit),
                TuiEvent::FocusGained => res == EventResult::Consumed(Action::Refresh),
                TuiEvent::FocusLost => res is NotHandled,
                TuiEvent::Paste(_) => res is NotHandled,
                TuiEvent::Custom(name, data) => res == EventResult::Consumed(Action::Custom(name, data)),
            },
            final(self).bindings() == old(self).bindings(),
            final(self).mouse() == old(self).mouse(),
            final(self).debounce() == old(self).debounce(),
            !(event is Resize) ==> final(self).last_resize_at() == old(self).last_resize_at(),
    {
        match event {
            TuiEvent::Key(k) => self.process_key_event(k),
            TuiEvent::Mouse(column, row) => self.process_mouse_event(column, row),
            TuiEvent::Resize(width, height) => self.process_resize_event(width, height, now_ms),
            TuiEvent::Tick => EventResult::Consumed(Action::NoAction),
            TuiEvent::Quit => EventResult::Consumed(Action::Quit),
            TuiEvent::FocusGained => self.process_focus_event(true),
            TuiEvent::FocusLost => self.process_focus_event(false),
            TuiEvent::Paste(text) => self.process_paste_event(text),
            TuiEvent::Custom(name, data) => self.process_custom_event(name, data),
        }
    }

    /// Takes mouse events or leaves them.
    pub fn set_mouse_enabled(&mut self, enabled: bool)
        ensures
            final(self).mouse() == enabled,
            final(self).bindings() == old(self).bindings(),
            final(self).last_resize_at() == old(self).last_resize_at(),
            final(self).debounce() == old(self).debounce(),
    {
        self.mouse_enabled = enabled;
    }

    /// Whether mouse events are taken.
    pub fn is_mouse_enabled(&self) -> (res: bool)
        ensures
            res == self.mouse(),
    {
        self.mouse_enabled
    }

    /// Sets the least time between two resize events that are both taken.
    pub fn set_resize_debounce(&mut self, duration_ms: u64)
        ensures
            final(self).debounce() == duration_ms,
            final(self).bindings() == old(self).bindings(),
            final(self).mouse() == old(self).mouse(),
            final(self).last_resize_at() == old(self).last_resize_at(),
    {
        self.resize_debounce_ms = duration_ms;
    }

    /// The key bindings.
    pub fn key_bindings(&self) -> (res: &KeyBindings)
        ensures
            *res == self.bindings(),
    {
        &self.key_bindings
    }

    /// The key bindings, to change them.
    pub fn key_bindings_mut(&mut self) -> (res: &mut KeyBindings)
        ensures
            *res == old(self).bindings(),
            final(self).bindings() == *final(res),
            final(self).mouse() == old(self).mouse(),
            final(self).last_resize_at() == old(self).last_resize_at(),
            final(self).debounce() == old(self).debounce(),
    {
        &mut self.key_bindings
    }

    /// Replaces the key bindings.
    pub fn set_key_bindings(&mut self, bindings: KeyBindings)
        ensures
            final(self).bindings() == bindings,
            final(self).mouse() == old(self).mouse(),
            final(self).last_resize_at() == old(self).last_resize_at(),
            final(self).debounce() == old(self).debounce(),
    {
        self.key_bindings = bindings;
    }

    /// The help of the global shortcuts.
    pub fn get_global_shortcuts_help(&self) -> (res: Vec<ShortcutHelp>)
        ensures
            help_views(res@) == global_shortcuts_help(),
    {
        self.key_bindings.get_global_shortcuts_help()
    }

    /// The help of the shortcuts of `view`.
    pub fn get_view_shortcuts_help(&self, view: &ViewType) -> (res: Vec<ShortcutHelp>)
        ensures
            help_views(res@) == seq![view_shortcuts_help(*view)],
    {
        self.key_bindings.get_view_shortcuts_help(view)
    }

    /// The help of the shortcuts of the widget `widget_id`.
    pub fn get_widget_shortcuts_help(&self, widget_id: &str) -> (res: Vec<ShortcutHelp>)
        ensures
            help_views(res@) == widget_help(widget_id@, widget_of(self.bindings().widget_shortcuts@, widget_id@)),
    {
        self.key_bindings.get_widget_shortcuts_help(widget_id)
    }
}

} // verus!
