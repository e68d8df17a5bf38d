//! Layout: areas, margins and padding, size constraints, widget
//! priorities, responsive breakpoints, the focus ring, the layout tree and
//! the manager that computes where its widgets go.

use vstd::prelude::*;
use crate::action::{decimal_string, decimal_text};
use crate::text::{text_eq, texts};
use crate::error::clock_now_ms;
use crate::named::{drop_named, entry_of, find_entry, set_entry};
use crate::widget::{SizeConstraints, WidgetId, clamp_dim, copy_ids, names};
use crate::engine::{LayoutResult, Placed, PlaceError, placed_view, place, place_node};

verus! {

/// An area of the screen, in cells.
#[derive(Debug, Clone, Copy, PartialEq, Eq, Structural)]
pub struct Rect {
    pub x: u16,
    pub y: u16,
    pub width: u16,
    pub height: u16,
}

/// Why a layout could not be made.
#[derive(Debug)]
pub enum LayoutError {
    TerminalTooSmall { min_width: u16, min_height: u16, current_width: u16, current_height: u16 },
    ConfigError { message: String },
    CalculationError { message: String },
}

/// The text of a layout error.
pub open spec fn layout_error_text(e: LayoutError) -> Seq<char> {
    match e {
        LayoutError::TerminalTooSmall { min_width, min_height, current_width, current_height } => "Terminal too small: minimum "@
            + decimal_text(min_width as nat) + "x"@ + decimal_text(min_height as nat) + ", current "@ + decimal_text(
            current_width as nat,
        ) + "x"@ + decimal_text(current_height as nat),
        LayoutError::ConfigError { message } => "Configuration error: "@ + message@,
        LayoutError::CalculationError { message } => "Layout calculation error: "@ + message@,
    }
}

impl LayoutError {
    /// The text of this error, as it is printed.
    pub fn to_text(&self) -> (res: String)
        ensures
            res@ == layout_error_text(*self),
    {
        match self {
            LayoutError::TerminalTooSmall { min_width, min_height, current_width, current_height } => {
                let mut s = String::from_str("Terminal too small: minimum ");
                let a = decimal_string(*min_width as usize);
                s.append(a.as_str());
                s.append("x");
                let b = decimal_string(*min_height as usize);
                s.append(b.as_str());
                s.append(", current ");
                let c = decimal_string(*current_width as usize);
                s.append(c.as_str());
                s.append("x");
                let d = decimal_string(*current_height as usize);
                s.append(d.as_str());
                s
            },
            LayoutError::ConfigError { message } => {
                let mut s = String::from_str("Configuration error: ");
                s.append(message.as_str());
                s
            },
            LayoutError::CalculationError { message } => {
                let mut s = String::from_str("Layout calculation error: ");
                s.append(message.as_str());
                s
            },
        }
    }
}

/// How children are arranged.
#[derive(Debug, Clone, Copy, PartialEq, Eq, Structural)]
pub enum LayoutDirection {
    Horizontal,
    Vertical,
}

/// How much space a child takes.
#[derive(Debug, Clone, Copy, PartialEq, Eq, Structural)]
pub enum LayoutConstraints {
    /// A fixed number of cells.
    Length(u16),
    /// A share of the space, in percent.
    Percentage(u16),
    /// At least this many cells.
    Min(u16),
    /// At most this many cells.
    Max(u16),
    /// An equal part of what is left.
    Fill,
    /// A numerator and a denominator.
    Ratio(u32, u32),
}

/// Space kept around an area, in cells.
#[derive(Debug, Clone, Copy, PartialEq, Eq, Structural)]
pub struct Margin {
    pub top: u16,
    pub right: u16,
    pub bottom: u16,
    pub left: u16,
}

/// Space kept inside an area, in cells.
#[derive(Debug, Clone, Copy, PartialEq, Eq, Structural)]
pub struct Padding {
    pub top: u16,
    pub right: u16,
    pub bottom: u16,
    pub left: u16,
}

impl Margin {
    /// No margin.
    pub fn default() -> (res: Self)
        ensures
            res == (Margin { top: 0, right: 0, bottom: 0, left: 0 }),
    {
        Margin { top: 0, right: 0, bottom: 0, left: 0 }
    }

    /// The same margin on every side.
    pub fn uniform(size: u16) -> (res: Self)
        ensures
            res == (Margin { top: size, right: size, bottom: size, left: size }),
    {
        Margin { top: size, right: size, bottom: size, left: size }
    }

    /// One margin left and right, another at top and bottom.
    pub fn symmetric(horizontal: u16, vertical: u16) -> (res: Self)
        ensures
            res == (Margin { top: vertical, right: horizontal, bottom: vertical, left: horizontal }),
    {
        Margin { top: vertical, right: horizontal, bottom: vertical, left: horizontal }
    }

    /// A margin for each side.
    pub fn new(top: u16, right: u16, bottom: u16, left: u16) -> (res: Self)
        ensures
            res == (Margin { top, right, bottom, left }),
    {
        Margin { top, right, bottom, left }
    }
}

impl Padding {
    /// No padding.
    pub fn default() -> (res: Self)
        ensures
            res == (Padding { top: 0, right: 0, bottom: 0, left: 0 }),
    {
        Padding { top: 0, right: 0, bottom: 0, left: 0 }
    }

    /// The same padding on every side.
    pub fn uniform(size: u16) -> (res: Self)
        ensures
            res == (Padding { top: size, right: size, bottom: size, left: size }),
    {
        Padding { top: size, right: size, bottom: size, left: size }
    }

    /// One padding left and right, another at top and bottom.
    pub fn symmetric(horizontal: u16, vertical: u16) -> (res: Self)
        ensures
            res == (Padding { top: vertical, right: horizontal, bottom: vertical, left: horizontal }),
    {
        Padding { top: vertical, right: horizontal, bottom: vertical, left: horizontal }
    }

    /// A padding for each side.
    pub fn new(top: u16, right: u16, bottom: u16, left: u16) -> (res: Self)
        ensures
            res == (Padding { top, right, bottom, left }),
    {
        Padding { top, right, bottom, left }
    }
}

/// `a - b`, or zero when `b` is larger.
pub open spec fn minus_or_zero(a: u16, b: int) -> u16 {
    if a >= b { (a - b) as u16 } else { 0 }
}

/// The area left inside `area` once `top`, `right`, `bottom` and `left`
/// cells are taken off: moved by the left and top amounts, shrunk by both
/// amounts of each dimension, down to nothing.
pub open spec fn inset(area: Rect, top: u16, right: u16, bottom: u16, left: u16) -> Rect {
    Rect {
        x: (area.x + left) as u16,
        y: (area.y + top) as u16,
        width: minus_or_zero(area.width, left + right),
        height: minus_or_zero(area.height, top + bottom),
    }
}

/// `area` less `margin`.
pub fn apply_margin(area: Rect, margin: &Margin) -> (res: Rect)
    requires
        area.x + margin.left <= u16::MAX,
        area.y + margin.top <= u16::MAX,
        margin.left + margin.right <= u16::MAX,
        margin.top + margin.bottom <= u16::MAX,
    ensures
        res == inset(area, margin.top, margin.right, margin.bottom, margin.left),
{
    Rect {
        x: area.x + margin.left,
        y: area.y + margin.top,
        width: area.width.saturating_sub(margin.left + margin.right),
        height: area.height.saturating_sub(margin.top + margin.bottom),
    }
}

/// `area` less `padding`.
pub fn apply_padding(area: Rect, padding: &Padding) -> (res: Rect)
    requires
        area.x + padding.left <= u16::MAX,
        area.y + padding.top <= u16::MAX,
        padding.left + padding.right <= u16::MAX,
        padding.top + padding.bottom <= u16::MAX,
    ensures
        res == inset(area, padding.top, padding.right, padding.bottom, padding.left),
{
    Rect {
        x: area.x + padding.left,
        y: area.y + padding.top,
        width: area.width.saturating_sub(padding.left + padding.right),
        height: area.height.saturating_sub(padding.top + padding.bottom),
    }
}

/// Size constraints beyond the basic ones: an aspect ratio, a priority,
/// and whether the widget may be hidden or collapsed.
#[derive(Debug, Clone, Copy)]
pub struct AdvancedSizeConstraints {
    pub basic: SizeConstraints,
    /// Width to height.
    pub aspect_ratio: Option<(u16, u16)>,
    pub maintain_aspect_ratio: bool,
    pub flexible: bool,
    /// More space goes to a higher priority.
    pub priority: i32,
    pub hideable: bool,
    pub collapsible: bool,
    /// The size when collapsed.
    pub collapsed_size: Option<(u16, u16)>,
}

impl AdvancedSizeConstraints {
    /// No constraint, flexible, priority zero.
    pub fn default() -> (res: Self)
        ensures
            res == (AdvancedSizeConstraints {
                basic: SizeConstraints {
                min_width: None,
                min_height: None,
                max_width: None,
                max_height: None,
                preferred_width: None,
                preferred_height: None,
            },
                aspect_ratio: None,
                maintain_aspect_ratio: false,
                flexible: true,
                priority: 0,
                hideable: false,
                collapsible: false,
                collapsed_size: None,
            }),
    {
        AdvancedSizeConstraints {
            basic: SizeConstraints::default(),
            aspect_ratio: None,
            maintain_aspect_ratio: false,
            flexible: true,
            priority: 0,
            hideable: false,
            collapsible: false,
            collapsed_size: None,
        }
    }

    /// The defaults with `basic` as the basic constraints.
    pub fn from_basic(basic: SizeConstraints) -> (res: Self)
        ensures
            res == (AdvancedSizeConstraints { basic, ..AdvancedSizeConstraints::default_spec() }),
    {
        let mut c = Self::default();
        c.basic = basic;
        c
    }

    /// The defaults, as a value.
    pub open spec fn default_spec() -> Self {
        AdvancedSizeConstraints {
            basic: SizeConstraints {
                min_width: None,
                min_height: None,
                max_width: None,
                max_height: None,
                preferred_width: None,
                preferred_height: None,
            },
            aspect_ratio: None,
            maintain_aspect_ratio: false,
            flexible: true,
            priority: 0,
            hideable: false,
            collapsible: false,
            collapsed_size: None,
        }
    }

    /// These constraints keeping the aspect ratio `width` to `height`.
    pub fn with_aspect_ratio(self, width: u16, height: u16) -> (res: Self)
        ensures
            res == (AdvancedSizeConstraints { aspect_ratio: Some((width, height)), maintain_aspect_ratio: true, ..self }),
    {
        let mut c = self;
        c.aspect_ratio = Some((width, height));
        c.maintain_aspect_ratio = true;
        c
    }

    /// These constraints with another priority.
    pub fn with_priority(self, priority: i32) -> (res: Self)
        ensures
            res == (AdvancedSizeConstraints { priority, ..self }),
    {
        let mut c = self;
        c.priority = priority;
        c
    }

    /// These constraints, allowing the widget to be hidden.
    pub fn hideable(self) -> (res: Self)
        ensures
            res == (AdvancedSizeConstraints { hideable: true, ..self }),
    {
        let mut c = self;
        c.hideable = true;
        c
    }

    /// These constraints, allowing the widget to be collapsed to
    /// `collapsed_size`.
    pub fn collapsible(self, collapsed_size: (u16, u16)) -> (res: Self)
        ensures
            res == (AdvancedSizeConstraints { collapsible: true, collapsed_size: Some(collapsed_size), ..self }),
    {
        let mut c = self;
        c.collapsible = true;
        c.collapsed_size = Some(collapsed_size);
        c
    }

    /// Whether the aspect ratio is to be kept: it is set and asked for.
    pub fn keeps_aspect_ratio(&self) -> (res: bool)
        ensures
            res == (self.maintain_aspect_ratio && self.aspect_ratio is Some),
    {
        self.maintain_aspect_ratio && self.aspect_ratio.is_some()
    }

    /// The size to take within `available_width` by `available_height`,
    /// given the width that fills the height at the aspect ratio and the
    /// height that fills the width: the former when it fits, else the
    /// latter; then brought within the basic constraints. Without an aspect
    /// ratio to keep, the available size brought within the basic
    /// constraints.
    pub fn fit_aspect_ratio(
        &self,
        available_width: u16,
        available_height: u16,
        width_by_height: u16,
        height_by_width: u16,
    ) -> (res: (u16, u16))
        ensures
            res == aspect_fit(*self, available_width, available_height, width_by_height, height_by_width),
    {
        if !self.keeps_aspect_ratio() {
            return self.basic.clamp(available_width, available_height);
        }
        if width_by_height <= available_width {
            self.basic.clamp(width_by_height, available_height)
        } else {
            self.basic.clamp(available_width, height_by_width)
        }
    }
}

/// The size an aspect ratio leads to; see `fit_aspect_ratio`.
pub open spec fn aspect_fit(
    c: AdvancedSizeConstraints,
    available_width: u16,
    available_height: u16,
    width_by_height: u16,
    height_by_width: u16,
) -> (u16, u16) {
    let (w, h) = if !(c.maintain_aspect_ratio && c.aspect_ratio is Some) {
        (available_width, available_height)
    } else if width_by_height <= available_width {
        (width_by_height, available_height)
    } else {
        (available_width, height_by_width)
    };
    (clamp_dim(w, c.basic.min_width, c.basic.max_width), clamp_dim(h, c.basic.min_height, c.basic.max_height))
}

/// The priority set for the widget named `name`: the last one set.
pub open spec fn priority_in(entries: Seq<(WidgetId, i32)>, name: Seq<char>) -> Option<i32>
    decreases entries.len(),
{
    if entries.len() == 0 {
        None
    } else if entries.last().0.name() == name {
        Some(entries.last().1)
    } else {
        priority_in(entries.drop_last(), name)
    }
}

/// The widgets of the group named `name`: those set last.
pub open spec fn group_in(groups: Seq<(String, Vec<WidgetId>)>, name: Seq<char>) -> Option<Seq<WidgetId>>
    decreases groups.len(),
{
    if groups.len() == 0 {
        None
    } else if groups.last().0@ == name {
        Some(groups.last().1@)
    } else {
        group_in(groups.drop_last(), name)
    }
}

/// Whether a list of entries with priorities is in descending order of
/// priority.
pub open spec fn descending<T>(s: Seq<(T, i32)>) -> bool {
    forall|i: int, j: int| 0 <= i < j < s.len() ==> (#[trigger] s[i]).1 >= (#[trigger] s[j]).1
}

/// Whether an entry has priority `p`.
pub open spec fn priority_is<T>(p: i32) -> spec_fn((T, i32)) -> bool {
    |e: (T, i32)| e.1 == p
}

/// The entries of `s` with priority `p`, in order.
pub open spec fn of_priority<T>(s: Seq<(T, i32)>, p: i32) -> Seq<(T, i32)> {
    s.filter(priority_is(p))
}

/// Whether `res` lists the entries of `input` by descending priority,
/// entries of equal priority in the order they had.
pub open spec fn priority_listing<T>(res: Seq<(T, i32)>, input: Seq<(T, i32)>) -> bool {
    &&& descending(res)
    &&& forall|p: i32| #[trigger] of_priority(res, p) == of_priority(input, p)
}

/// Filtering entries none of which has priority `p` gives nothing.
proof fn lemma_none_of_priority<T>(s: Seq<(T, i32)>, p: i32)
    requires
        forall|i: int| 0 <= i < s.len() ==> (#[trigger] s[i]).1 != p,
    ensures
        of_priority(s, p) == Seq::<(T, i32)>::empty(),
    decreases s.len(),
{
    reveal(Seq::filter);
    if s.len() > 0 {
        lemma_none_of_priority(s.drop_last(), p);
    }
}

/// Inserting `x` before the first entry of lower priority keeps the order
/// and adds `x` last among its priority.
proof fn lemma_insert_by_priority<T>(s: Seq<(T, i32)>, x: (T, i32), q: int)
    requires
        descending(s),
        0 <= q <= s.len(),
        forall|k: int| 0 <= k < q ==> (#[trigger] s[k]).1 >= x.1,
        q < s.len() ==> s[q].1 < x.1,
    ensures
        descending(s.insert(q, x)),
        forall|p: i32|
            #[trigger] of_priority(s.insert(q, x), p) == if x.1 == p {
                of_priority(s, p).push(x)
            } else {
                of_priority(s, p)
            },
{
    let t = s.insert(q, x);
    assert forall|j: int| q <= j < s.len() implies (#[trigger] s[j]).1 < x.1 by {
        if j > q {
            assert(s[q].1 >= s[j].1);
        }
    }
    assert forall|i: int, j: int| 0 <= i < j < t.len() implies (#[trigger] t[i]).1 >= (#[trigger] t[j]).1 by {
        if i < q && j == q {
        } else if i == q {
            assert(t[j] == s[j - 1]);
        } else if i < q && j > q {
            assert(t[i] == s[i] && t[j] == s[j - 1]);
        } else if i > q {
            assert(t[i] == s[i - 1] && t[j] == s[j - 1]);
        }
    }
    let front = s.take(q);
    let back = s.skip(q);
    assert(s =~= front + back);
    assert(t =~= front + seq![x] + back);
    assert forall|p: i32|
        #[trigger] of_priority(t, p) == if x.1 == p {
            of_priority(s, p).push(x)
        } else {
            of_priority(s, p)
        } by {
        let pred = priority_is::<T>(p);
        Seq::filter_distributes_over_add(front + seq![x], back, pred);
        Seq::filter_distributes_over_add(front, seq![x], pred);
        Seq::filter_distributes_over_add(front, back, pred);
        Seq::<(T, i32)>::empty().lemma_filter_push(x, pred);
        assert(seq![x] =~= Seq::<(T, i32)>::empty().push(x));
        reveal(Seq::filter);
        assert(Seq::<(T, i32)>::empty().filter(pred) =~= Seq::<(T, i32)>::empty());
        if x.1 == p {
            assert forall|i: int| 0 <= i < back.len() implies (#[trigger] back[i]).1 != p by {
                assert(back[i] == s[q + i]);
            }
            lemma_none_of_priority(back, p);
            assert(of_priority(back, p) == back.filter(pred));
            assert(front.filter(pred) + back.filter(pred) =~= front.filter(pred));
            assert(front.filter(pred) + seq![x] + back.filter(pred) =~= front.filter(pred).push(x));
        } else {
            assert(front.filter(pred) + Seq::<(T, i32)>::empty() =~= front.filter(pred));
        }
    }
}

/// The entries in descending order of priority, entries of equal priority
/// in the order given.
pub fn sort_by_priority<T>(input: Vec<(T, i32)>) -> (res: Vec<(T, i32)>)
    ensures
        priority_listing(res@, input@),
{
    let mut res: Vec<(T, i32)> = Vec::new();
    let mut rest = input;
    let ghost all = rest@;
    let total = rest.len();
    let mut i: usize = 0;
    proof {
        reveal(Seq::filter);
        assert forall|p: i32| #[trigger] of_priority(res@, p) == of_priority(all.take(0), p) by {
            assert(res@ =~= all.take(0));
        }
    }
    while rest.len() > 0
        invariant
            total == all.len(),
            i <= all.len(),
            rest@ == all.skip(i as int),
            descending(res@),
            forall|p: i32| #[trigger] of_priority(res@, p) == of_priority(all.take(i as int), p),
        decreases rest@.len(),
    {
        let x = rest.remove(0);
        proof {
            assert(all.skip(i as int)[0] == all[i as int]);
        }
        let mut q: usize = 0;
        while q < res.len() && res[q].1 >= x.1
            invariant
                q <= res@.len(),
                forall|k: int| 0 <= k < q ==> (#[trigger] res@[k]).1 >= x.1,
            decreases res@.len() - q,
        {
            q = q + 1;
        }
        proof {
            lemma_insert_by_priority(res@, x, q as int);
            assert forall|p: i32|
                #[trigger] of_priority(all.take(i + 1), p) == if x.1 == p {
                    of_priority(all.take(i as int), p).push(x)
                } else {
                    of_priority(all.take(i as int), p)
                } by {
                assert(all.take(i + 1) =~= all.take(i as int).push(x));
                all.take(i as int).lemma_filter_push(x, priority_is::<T>(p));
            }
        }
        res.insert(q, x);
        i = i + 1;
        assert(rest@ =~= all.skip(i as int));
    }
    proof {
        assert(all.take(i as int) =~= all);
    }
    res
}

/// The priorities of widgets, groups of widgets, a default priority, and
/// whether priorities are used.
pub struct LayoutPriorityManager {
    widget_priorities: Vec<(WidgetId, i32)>,
    priority_groups: Vec<(String, Vec<WidgetId>)>,
    default_priority: i32,
    enabled: bool,
}

impl LayoutPriorityManager {
    /// The priorities set, in the order they were set.
    pub closed spec fn priorities(self) -> Seq<(WidgetId, i32)> {
        self.widget_priorities@
    }

    /// The groups, in the order they were made.
    pub closed spec fn groups(self) -> Seq<(String, Vec<WidgetId>)> {
        self.priority_groups@
    }

    /// The priority of widgets without one.
    pub closed spec fn fallback(self) -> i32 {
        self.default_priority
    }

    /// Whether priorities are used.
    pub closed spec fn on(self) -> bool {
        self.enabled
    }

    /// The priority of the widget named `name`.
    pub open spec fn priority_of(self, name: Seq<char>) -> i32 {
        match priority_in(self.priorities(), name) {
            Some(p) => p,
            None => self.fallback(),
        }
    }

    /// No priorities and no groups, a default priority of zero, in use.
    pub fn new() -> (res: Self)
        ensures
            res.priorities().len() == 0,
            res.groups().len() == 0,
            res.fallback() == 0,
            res.on(),
    {
        LayoutPriorityManager {
            widget_priorities: Vec::new(),
            priority_groups: Vec::new(),
            default_priority: 0,
            enabled: true,
        }
    }

    /// Sets the priority of a widget.
    pub fn set_widget_priority(&mut self, widget_id: WidgetId, priority: i32)
        ensures
            forall|n: Seq<char>| #[trigger] priority_in(final(self).priorities(), n) == if n == widget_id.name() {
                Some(priority)
            } else {
                priority_in(old(self).priorities(), n)
            },
            final(self).groups() == old(self).groups(),
            final(self).fallback() == old(self).fallback(),
            final(self).on() == old(self).on(),
    {
        let ghost before = self.widget_priorities@;
        self.widget_priorities.push((widget_id, priority));
        assert(self.widget_priorities@.drop_last() =~= before);
    }

    /// The priority of a widget: the one set, else the default.
    pub fn get_widget_priority(&self, widget_id: &WidgetId) -> (res: i32)
        ensures
            res == self.priority_of(widget_id.name()),
    {
        let entries = &self.widget_priorities;
        let mut i: usize = entries.len();
        assert(entries@.take(i as int) =~= entries@);
        while i > 0
            invariant
                entries@ == self.priorities(),
                i <= entries@.len(),
                priority_in(entries@, widget_id.name()) == priority_in(entries@.take(i as int), widget_id.name()),
            decreases i,
        {
            let k = i - 1;
            assert(entries@.take(i as int).drop_last() =~= entries@.take(k as int));
            if entries[k].0.same_as(widget_id) {
                return entries[k].1;
            }
            i = k;
        }
        self.default_priority
    }

    /// Makes a group of widgets, replacing a group of that name.
    pub fn create_priority_group(&mut self, group_name: String, widget_ids: Vec<WidgetId>)
        ensures
            forall|g: Seq<char>| #[trigger] group_in(final(self).groups(), g) == if g == group_name@ {
                Some(widget_ids@)
            } else {
                group_in(old(self).groups(), g)
            },
            final(self).priorities() == old(self).priorities(),
            final(self).fallback() == old(self).fallback(),
            final(self).on() == old(self).on(),
    {
        let ghost before = self.priority_groups@;
        let ghost name = group_name@;
        let ghost ids = widget_ids@;
        self.priority_groups.push((group_name, widget_ids));
        assert(self.priority_groups@.drop_last() =~= before);
    }

    /// The widgets of a group, if it exists.
    fn find_group(&self, group_name: &str) -> (res: Option<usize>)
        ensures
            res matches Some(k) ==> k < self.groups().len() && group_in(self.groups(), group_name@) == Some(
                self.groups()[k as int].1@,
            ),
            res is None ==> group_in(self.groups(), group_name@) is None,
    {
        let entries = &self.priority_groups;
        let mut i: usize = entries.len();
        assert(entries@.take(i as int) =~= entries@);
        while i > 0
            invariant
                entries@ == self.groups(),
                i <= entries@.len(),
                group_in(entries@, group_name@) == group_in(entries@.take(i as int), group_name@),
            decreases i,
        {
            let k = i - 1;
            assert(entries@.take(i as int).drop_last() =~= entries@.take(k as int));
            if text_eq(entries[k].0.as_str(), group_name) {
                return Some(k);
            }
            i = k;
        }
        None
    }

    /// Sets the priority of every widget of a group; nothing happens for a
    /// group that does not exist.
    pub fn set_group_priority(&mut self, group_name: &str, priority: i32)
        ensures
            forall|n: Seq<char>| #[trigger] priority_in(final(self).priorities(), n) == match group_in(
                old(self).groups(),
                group_name@,
            ) {
                Some(ids) => if crate::widget::names(ids).contains(n) {
                    Some(priority)
                } else {
                    priority_in(old(self).priorities(), n)
                },
                None => priority_in(old(self).priorities(), n),
            },
            final(self).groups() == old(self).groups(),
            final(self).fallback() == old(self).fallback(),
            final(self).on() == old(self).on(),
    {
        match self.find_group(group_name) {
            Some(k) => {
                let ids = crate::widget::copy_ids(&self.priority_groups[k].1);
                let ghost start = self.widget_priorities@;
                let mut j: usize = 0;
                while j < ids.len()
                    invariant
                        j <= ids@.len(),
                        self.priority_groups@ == old(self).priority_groups@,
                        self.default_priority == old(self).default_priority,
                        self.enabled == old(self).enabled,
                        start == old(self).widget_priorities@,
                        forall|n: Seq<char>| #[trigger] priority_in(self.widget_priorities@, n) == if crate::widget::names(
                            ids@.take(j as int),
                        ).contains(n) {
                            Some(priority)
                        } else {
                            priority_in(start, n)
                        },
                    decreases ids@.len() - j,
                {
                    let ghost prefix = crate::widget::names(ids@.take(j as int));
                    let ghost next = crate::widget::names(ids@.take(j + 1));
                    proof {
                        assert(next =~= prefix.push(ids@[j as int].name()));
                    }
                    self.set_widget_priority(ids[j].clone(), priority);
                    proof {
                        assert forall|n: Seq<char>| #[trigger] priority_in(self.widget_priorities@, n) == if next.contains(n) {
                            Some(priority)
                        } else {
                            priority_in(start, n)
                        } by {
                            if n == ids@[j as int].name() {
                                assert(next[j as int] == n);
                            } else {
                                if prefix.contains(n) {
                                    let m = choose|m: int| 0 <= m < prefix.len() && prefix[m] == n;
                                    assert(next[m] == n);
                                }
                                if next.contains(n) {
                                    let m = choose|m: int| 0 <= m < next.len() && next[m] == n;
                                    assert(m < j);
                                    assert(prefix[m] == n);
                                }
                            }
                        }
                    }
                    j = j + 1;
                }
                assert(ids@.take(j as int) =~= ids@);
            },
            None => {},
        }
    }

    /// The widgets with their priorities, highest first; widgets of equal
    /// priority in the order given.
    pub fn get_sorted_widgets(&self, widget_ids: &[WidgetId]) -> (res: Vec<(WidgetId, i32)>)
        ensures
            priority_listing(
                res@,
                widget_ids@.map_values(|id: WidgetId| (id, self.priority_of(id.name()))),
            ),
    {
        let mut widgets: Vec<(WidgetId, i32)> = Vec::new();
        let mut i: usize = 0;
        while i < widget_ids.len()
            invariant
                i <= widget_ids@.len(),
                widgets@ == widget_ids@.take(i as int).map_values(|id: WidgetId| (id, self.priority_of(id.name()))),
            decreases widget_ids@.len() - i,
        {
            let id = widget_ids[i].clone();
            let p = self.get_widget_priority(&id);
            widgets.push((id, p));
            i = i + 1;
            assert(widgets@ =~= widget_ids@.take(i as int).map_values(
                |id: WidgetId| (id, self.priority_of(id.name())),
            ));
        }
        assert(widget_ids@.take(i as int) =~= widget_ids@);
        sort_by_priority(widgets)
    }

    /// Turns the use of priorities on or off.
    pub fn set_enabled(&mut self, enabled: bool)
        ensures
            final(self).on() == enabled,
            final(self).priorities() == old(self).priorities(),
            final(self).groups() == old(self).groups(),
            final(self).fallback() == old(self).fallback(),
    {
        self.enabled = enabled;
    }

    /// Whether priorities are used.
    pub fn is_enabled(&self) -> (res: bool)
        ensures
            res == self.on(),
    {
        self.enabled
    }
}

/// How tightly the layout packs widgets.
#[derive(Debug, Clone, Copy, PartialEq, Eq, Structural)]
pub enum CompactMode {
    Normal,
    Compact,
    UltraCompact,
    /// Switches with the terminal size.
    Auto,
}

/// The file formats of layout configurations.
#[derive(Debug, Clone, Copy, PartialEq, Eq, Structural)]
pub enum ConfigFormat {
    Json,
    Yaml,
    Toml,
}

/// The file extension of a format.
pub open spec fn extension_of(f: ConfigFormat) -> Seq<char> {
    match f {
        ConfigFormat::Json => "json"@,
        ConfigFormat::Yaml => "yaml"@,
        ConfigFormat::Toml => "toml"@,
    }
}

impl ConfigFormat {
    /// JSON, the default format.
    pub fn default() -> (res: Self)
        ensures
            res == ConfigFormat::Json,
    {
        ConfigFormat::Json
    }

    /// The file extension of this format.
    pub fn extension(&self) -> (res: &'static str)
        ensures
            res@ == extension_of(*self),
    {
        match self {
            ConfigFormat::Json => "json",
            ConfigFormat::Yaml => "yaml",
            ConfigFormat::Toml => "toml",
        }
    }
}

/// How the ring around the focused widget is drawn.
#[derive(Debug, Clone, Copy, PartialEq, Eq, Structural)]
pub enum FocusRingStyle {
    Solid,
    Dashed,
    Dotted,
    Double,
    Rounded,
}

/// The color of the focus ring.
#[derive(Debug, Clone, Copy, PartialEq, Eq, Structural)]
pub enum FocusRingColor {
    Default,
    Primary,
    Secondary,
    /// Red, green and blue.
    Custom(u8, u8, u8),
    Adaptive,
}

/// The ring around the focused widget.
#[derive(Debug, Clone, Copy, PartialEq, Eq, Structural)]
pub struct FocusRing {
    pub enabled: bool,
    pub style: FocusRingStyle,
    pub color: FocusRingColor,
    pub thickness: u16,
    pub animation: bool,
}

impl FocusRing {
    /// A solid ring of the primary color, one cell thick, without
    /// animation.
    pub fn default() -> (res: Self)
        ensures
            res == (FocusRing {
                enabled: true,
                style: FocusRingStyle::Solid,
                color: FocusRingColor::Primary,
                thickness: 1,
                animation: false,
            }),
    {
        FocusRing {
            enabled: true,
            style: FocusRingStyle::Solid,
            color: FocusRingColor::Primary,
            thickness: 1,
            animation: false,
        }
    }
}

/// How a widget takes part in focus within a layout.
#[derive(Debug)]
pub struct FocusState {
    pub focusable: bool,
    pub focused: bool,
    /// A higher priority comes first.
    pub priority: i32,
    pub group: Option<String>,
    pub position: Option<usize>,
    /// When it last had the focus, in milliseconds.
    pub last_focused_ms: Option<u64>,
    pub preserve_on_layout_change: bool,
}

impl FocusState {
    /// Focusable, not focused, priority zero, kept across layout changes.
    pub fn default() -> (res: Self)
        ensures
            res.focusable && !res.focused,
            res.priority == 0,
            res.group is None && res.position is None && res.last_focused_ms is None,
            res.preserve_on_layout_change,
    {
        FocusState {
            focusable: true,
            focused: false,
            priority: 0,
            group: None,
            position: None,
            last_focused_ms: None,
            preserve_on_layout_change: true,
        }
    }
}

/// Figures of the focus within a layout.
#[derive(Debug)]
pub struct FocusStats {
    pub focused_widget: Option<WidgetId>,
    pub total_widgets: usize,
    pub focusable_widgets: usize,
    pub history_size: usize,
    pub visual_indicators: bool,
    pub preserve_focus: bool,
}

/// Figures of a layout.
#[derive(Debug)]
pub struct LayoutStats {
    pub total_widgets: usize,
    pub visible_widgets: usize,
    pub hidden_widgets: usize,
    pub overflow_widgets: usize,
    pub terminal_size: (u16, u16),
    pub active_breakpoint: Option<String>,
    pub cache_size: usize,
    pub compact_mode: bool,
    pub fullscreen_widget: Option<WidgetId>,
}

/// A change the layout makes at a breakpoint.
#[derive(Debug)]
pub enum LayoutAdjustment {
    HideWidgets(Vec<WidgetId>),
    /// A node and its new direction.
    ChangeDirection(String, LayoutDirection),
    /// A node and its new constraints.
    ModifyConstraints(String, Vec<LayoutConstraints>),
    CompactMode(bool),
    /// A node and its new spacing.
    AdjustSpacing(String, Margin, Padding),
    SetPriority(WidgetId, i32),
    SetScrollable(WidgetId, bool),
}

/// A terminal size from which the layout changes.
#[derive(Debug)]
pub struct ResponsiveBreakpoint {
    pub name: String,
    pub min_width: u16,
    pub min_height: u16,
    pub layout_adjustments: Vec<LayoutAdjustment>,
}

/// Whether a terminal of `size` is large enough for breakpoint `b`.
pub open spec fn fits(b: ResponsiveBreakpoint, size: (u16, u16)) -> bool {
    size.0 >= b.min_width && size.1 >= b.min_height
}

/// The area of a breakpoint's smallest terminal.
pub open spec fn breakpoint_area(b: ResponsiveBreakpoint) -> int {
    b.min_width * b.min_height
}

/// Whether `i` is the breakpoint in force for a terminal of `size`: one it
/// is large enough for, of the largest area among those, the last of
/// equals.
pub open spec fn is_active_breakpoint(bps: Seq<ResponsiveBreakpoint>, size: (u16, u16), i: int) -> bool {
    &&& 0 <= i < bps.len()
    &&& fits(bps[i], size)
    &&& forall|j: int| 0 <= j < bps.len() && fits(#[trigger] bps[j], size) ==> breakpoint_area(bps[j]) <= breakpoint_area(bps[i])
    &&& forall|j: int| i < j < bps.len() && fits(#[trigger] bps[j], size) ==> breakpoint_area(bps[j]) < breakpoint_area(bps[i])
}

/// Whether `i` is the breakpoint in force among the first `k`, of area
/// `area`.
pub open spec fn best_so_far(bps: Seq<ResponsiveBreakpoint>, size: (u16, u16), i: int, k: int, area: u32) -> bool {
    &&& 0 <= i < k
    &&& fits(bps[i], size)
    &&& area == breakpoint_area(bps[i])
    &&& forall|j: int| 0 <= j < k && fits(#[trigger] bps[j], size) ==> breakpoint_area(bps[j]) <= area
    &&& forall|j: int| i < j < k && fits(#[trigger] bps[j], size) ==> breakpoint_area(bps[j]) < area
}

/// The breakpoint in force for a terminal of `size`: among those it is
/// large enough for, the one with the largest area, the last of equals.
pub fn find_active_breakpoint(breakpoints: &Vec<ResponsiveBreakpoint>, size: (u16, u16)) -> (res: Option<usize>)
    ensures
        res is None <==> forall|j: int| 0 <= j < breakpoints@.len() ==> !fits(#[trigger] breakpoints@[j], size),
        res matches Some(i) ==> is_active_breakpoint(breakpoints@, size, i as int),
{
    let mut best: Option<usize> = None;
    let mut best_area: u32 = 0;
    let mut k: usize = 0;
    while k < breakpoints.len()
        invariant
            k <= breakpoints@.len(),
            best is None <==> forall|j: int| 0 <= j < k ==> !fits(#[trigger] breakpoints@[j], size),
            best matches Some(i) ==> best_so_far(breakpoints@, size, i as int, k as int, best_area),
        decreases breakpoints@.len() - k,
    {
        let b = &breakpoints[k];
        if size.0 >= b.min_width && size.1 >= b.min_height {
            assert(fits(breakpoints@[k as int], size));
            let bw = b.min_width as u32;
            let bh = b.min_height as u32;
            assert(bw * bh <= 65535 * 65535) by (nonlinear_arith)
                requires
                    bw <= 65535,
                    bh <= 65535,
            ;
            let area: u32 = bw * bh;
            if best.is_none() || area >= best_area {
                best = Some(k);
                best_area = area;
            }
        }
        k = k + 1;
    }
    best
}

/// Whether `b` compacts the layout with uniform spacing `size` at the
/// root.
pub open spec fn compacting(b: ResponsiveBreakpoint, size: u16) -> bool {
    &&& b.layout_adjustments@.len() == 2
    &&& b.layout_adjustments@[0] == LayoutAdjustment::CompactMode(true)
    &&& b.layout_adjustments@[1] matches LayoutAdjustment::AdjustSpacing(node, m, p)
    &&& node@ == "root"@
    &&& m == (Margin { top: size, right: size, bottom: size, left: size })
    &&& p == (Padding { top: size, right: size, bottom: size, left: size })
}

/// The names and smallest terminals of the breakpoints a layout starts
/// with.
pub open spec fn default_breakpoint_sizes() -> Seq<(Seq<char>, u16, u16)> {
    seq![
        ("ultra-compact"@, 40u16, 10u16),
        ("compact"@, 60u16, 15u16),
        ("small"@, 80u16, 24u16),
        ("medium"@, 120u16, 30u16),
        ("large"@, 160u16, 40u16),
    ]
}

/// The breakpoints a layout starts with, smallest first: the two smallest
/// compact the layout, with no spacing and with one cell of spacing.
pub fn default_breakpoints() -> (res: Vec<ResponsiveBreakpoint>)
    ensures
        res@.map_values(|b: ResponsiveBreakpoint| (b.name@, b.min_width, b.min_height)) == default_breakpoint_sizes(),
        compacting(res@[0], 0),
        compacting(res@[1], 1),
        res@[2].layout_adjustments@.len() == 0,
        res@[3].layout_adjustments@.len() == 0,
        res@[4].layout_adjustments@.len() == 0,
{
    let res = vec![
        ResponsiveBreakpoint {
            name: String::from_str("ultra-compact"),
            min_width: 40,
            min_height: 10,
            layout_adjustments: vec![
                LayoutAdjustment::CompactMode(true),
                LayoutAdjustment::AdjustSpacing(String::from_str("root"), Margin::uniform(0), Padding::uniform(0)),
            ],
        },
        ResponsiveBreakpoint {
            name: String::from_str("compact"),
            min_width: 60,
            min_height: 15,
            layout_adjustments: vec![
                LayoutAdjustment::CompactMode(true),
                LayoutAdjustment::AdjustSpacing(String::from_str("root"), Margin::uniform(1), Padding::uniform(1)),
            ],
        },
        ResponsiveBreakpoint {
            name: String::from_str("small"),
            min_width: 80,
            min_height: 24,
            layout_adjustments: Vec::new(),
        },
        ResponsiveBreakpoint {
            name: String::from_str("medium"),
            min_width: 120,
            min_height: 30,
            layout_adjustments: Vec::new(),
        },
        ResponsiveBreakpoint {
            name: String::from_str("large"),
            min_width: 160,
            min_height: 40,
            layout_adjustments: Vec::new(),
        },
    ];
    assert(res@.map_values(|b: ResponsiveBreakpoint| (b.name@, b.min_width, b.min_height)) =~= default_breakpoint_sizes());
    res
}

impl Clone for FocusState {
    fn clone(&self) -> (res: Self)
        ensures
            res == *self,
    {
        FocusState {
            focusable: self.focusable,
            focused: self.focused,
            priority: self.priority,
            group: match &self.group {
                Some(g) => Some(g.clone()),
                None => None,
            },
            position: self.position,
            last_focused_ms: self.last_focused_ms,
            preserve_on_layout_change: self.preserve_on_layout_change,
        }
    }
}

/// The focus state a widget gets when it is first focused or changed
/// without one.
pub open spec fn default_focus_state() -> FocusState {
    FocusState {
        focusable: true,
        focused: false,
        priority: 0,
        group: None,
        position: None,
        last_focused_ms: None,
        preserve_on_layout_change: true,
    }
}

/// The names of `h` other than `w`, in order.
pub open spec fn without_name(h: Seq<Seq<char>>, w: Seq<char>) -> Seq<Seq<char>> {
    h.filter(|x: Seq<char>| x != w)
}

/// One more name through the filter of `w`.
proof fn lemma_without_name_push(h: Seq<Seq<char>>, x: Seq<char>, w: Seq<char>)
    ensures
        without_name(h.push(x), w) == if x != w {
            without_name(h, w).push(x)
        } else {
            without_name(h, w)
        },
{
    reveal(Seq::filter);
    assert(h.push(x).drop_last() =~= h);
}

/// The focus history after remembering `w`: an earlier mention of it goes,
/// it comes last, and the oldest is dropped beyond `max`.
pub open spec fn remember(history: Seq<Seq<char>>, w: Seq<char>, max: nat) -> Seq<Seq<char>> {
    let r = without_name(history, w).push(w);
    if r.len() > max {
        r.drop_first()
    } else {
        r
    }
}

/// The focus states after focusing `n` at `now`, with `current` focused
/// before: the state of `n` (a default one if it had none) is focused and
/// stamped, that of a different `current`, if any, no longer focused.
pub open spec fn states_after_focus(
    old: Seq<(String, FocusState)>,
    new: Seq<(String, FocusState)>,
    current: Option<Seq<char>>,
    n: Seq<char>,
    now: u64,
) -> bool {
    forall|w: Seq<char>|
        #[trigger] entry_of(new, w) == if w == n {
            let base = match entry_of(old, n) {
                Some(st) => st,
                None => default_focus_state(),
            };
            Some(FocusState { focused: true, last_focused_ms: Some(now), ..base })
        } else if current == Some(w) && entry_of(old, w) is Some {
            Some(FocusState { focused: false, ..entry_of(old, w)->0 })
        } else {
            entry_of(old, w)
        }
}

/// Whether focusing the widget named `n` at `now` took `old`, with the
/// history `hist`, to `new` with outcome `res`: refused, changing nothing
/// further, when the widget's state makes it unfocusable; else it is
/// focused, a different widget focused before is remembered, and the
/// states follow.
pub open spec fn focus_set_with(
    old: FocusManager,
    hist: Seq<Seq<char>>,
    new: FocusManager,
    n: Seq<char>,
    now: u64,
    res: bool,
) -> bool {
    &&& res == !(entry_of(old.states(), n) matches Some(st) && !st.focusable)
    &&& !res ==> new.focused() == old.focused() && new.history() == hist && new.states() == old.states()
    &&& res ==> {
        &&& new.focused() == Some(n)
        &&& new.history() == match old.focused() {
            Some(c) => if c != n {
                remember(hist, c, old.max_history())
            } else {
                hist
            },
            None => hist,
        }
        &&& states_after_focus(old.states(), new.states(), old.focused(), n, now)
    }
    &&& new.max_history() == old.max_history()
    &&& new.preserves() == old.preserves()
    &&& new.indicators() == old.indicators()
    &&& new.ring() == old.ring()
}

/// Whether focusing the widget named `n` at `now` took `old` to `new` with
/// outcome `res`.
pub open spec fn focus_set(old: FocusManager, new: FocusManager, n: Seq<char>, now: u64, res: bool) -> bool {
    focus_set_with(old, old.history(), new, n, now, res)
}

/// The focus state of a widget keeps everything but the focus.
pub open spec fn same_settings(old: FocusManager, new: FocusManager) -> bool {
    &&& new.max_history() == old.max_history()
    &&& new.preserves() == old.preserves()
    &&& new.indicators() == old.indicators()
    &&& new.ring() == old.ring()
}

/// The focus after it is cleared: the widget focused, if any, is no longer
/// focused in its state and is remembered.
pub open spec fn focus_cleared(old: FocusManager, new: FocusManager) -> bool {
    &&& new.focused() is None
    &&& same_settings(old, new)
    &&& match old.focused() {
        Some(f) => {
            &&& new.history() == remember(old.history(), f, old.max_history())
            &&& forall|w: Seq<char>|
                #[trigger] entry_of(new.states(), w) == if w == f && entry_of(old.states(), w) is Some {
                    Some(FocusState { focused: false, ..entry_of(old.states(), w)->0 })
                } else {
                    entry_of(old.states(), w)
                }
        },
        None => new.history() == old.history() && new.states() == old.states(),
    }
}

/// The widgets of `available` whose state makes them focusable, with their
/// priorities, in order.
pub open spec fn focus_candidates(available: Seq<WidgetId>, states: Seq<(String, FocusState)>) -> Seq<(WidgetId, i32)>
    decreases available.len(),
{
    if available.len() == 0 {
        Seq::empty()
    } else {
        let rest = focus_candidates(available.drop_last(), states);
        match entry_of(states, available.last().name()) {
            Some(st) => if st.focusable {
                rest.push((available.last(), st.priority))
            } else {
                rest
            },
            None => rest,
        }
    }
}

/// The first position of the widget named `c` in `l`, or -1.
pub open spec fn first_pos(l: Seq<(WidgetId, i32)>, c: Seq<char>) -> int
    decreases l.len(),
{
    if l.len() == 0 {
        -1
    } else if l[0].0.name() == c {
        0
    } else {
        let r = first_pos(l.drop_first(), c);
        if r < 0 {
            -1
        } else {
            r + 1
        }
    }
}

/// The widget that Tab focuses in `l`: the one after the focused one,
/// round to the first; the first if none of `l` is focused.
pub open spec fn next_target(l: Seq<(WidgetId, i32)>, current: Option<Seq<char>>) -> Seq<char> {
    match current {
        Some(c) => if first_pos(l, c) >= 0 {
            l[(first_pos(l, c) + 1) % (l.len() as int)].0.name()
        } else {
            l[0].0.name()
        },
        None => l[0].0.name(),
    }
}

/// The widget that Shift+Tab focuses in `l`: the one before the focused
/// one, round to the last; the last if none of `l` is focused.
pub open spec fn previous_target(l: Seq<(WidgetId, i32)>, current: Option<Seq<char>>) -> Seq<char> {
    match current {
        Some(c) => if first_pos(l, c) > 0 {
            l[first_pos(l, c) - 1].0.name()
        } else {
            l[l.len() - 1].0.name()
        },
        None => l[l.len() - 1].0.name(),
    }
}

/// Whether moving the focus to the next focusable widget of `available`
/// at `now` took `old` to `new` with outcome `res`: among those widgets by
/// descending priority, the next one is focused; with none, nothing changes.
pub open spec fn moved_next(old: FocusManager, new: FocusManager, available: Seq<WidgetId>, now: u64, res: bool) -> bool {
    exists|l: Seq<(WidgetId, i32)>|
        #![trigger priority_listing(l, focus_candidates(available, old.states()))]
        priority_listing(l, focus_candidates(available, old.states())) && (if l.len() == 0 {
            !res && new == old
        } else {
            focus_set(old, new, next_target(l, old.focused()), now, res)
        })
}

/// Whether moving the focus to the previous focusable widget of `available`
/// at `now` took `old` to `new` with outcome `res`: among those widgets by
/// descending priority, the previous one is focused; with none, nothing changes.
pub open spec fn moved_previous(old: FocusManager, new: FocusManager, available: Seq<WidgetId>, now: u64, res: bool) -> bool {
    exists|l: Seq<(WidgetId, i32)>|
        #![trigger priority_listing(l, focus_candidates(available, old.states()))]
        priority_listing(l, focus_candidates(available, old.states())) && (if l.len() == 0 {
            !res && new == old
        } else {
            focus_set(old, new, previous_target(l, old.focused()), now, res)
        })
}

/// The last position in `h` of a name in `available`, or -1.
pub open spec fn last_available_pos(h: Seq<Seq<char>>, available: Seq<Seq<char>>) -> int
    decreases h.len(),
{
    if h.len() == 0 {
        -1
    } else if available.contains(h.last()) {
        h.len() - 1
    } else {
        last_available_pos(h.drop_last(), available)
    }
}

/// Whether, looking in the history for a widget still available, `old`
/// came to `new` at `now`: the history is unwound from its end to the most
/// recent such widget, which is focused (if its state allows); with none,
/// the history is emptied and `fallback` holds.
pub open spec fn restored_from_history(
    old: FocusManager,
    new: FocusManager,
    available: Seq<Seq<char>>,
    now: u64,
    fallback: bool,
) -> bool {
    let h = old.history();
    let k = last_available_pos(h, available);
    if k >= 0 {
        exists|r: bool| #[trigger] focus_set_with(old, h.take(k), new, h[k], now, r)
    } else {
        fallback
    }
}

/// Whether a layout change leaving the widgets named `available` took
/// `old` to `new` at `now`: with the focus kept across changes, a focused
/// widget that is gone gives way to the most recent widget of the history
/// still there, else to the first widget available, else the focus is
/// cleared; with nothing focused, the most recent widget of the history
/// still there is focused.
pub open spec fn layout_change_outcome(
    old: FocusManager,
    new: FocusManager,
    available: Seq<WidgetId>,
    now: u64,
) -> bool {
    let avail = names(available);
    if !old.preserves() {
        new == old
    } else {
        match old.focused() {
            Some(f) => if avail.contains(f) {
                new == old
            } else {
                restored_from_history(old, new, avail, now, if available.len() > 0 {
                    exists|r: bool| #[trigger] focus_set_with(old, Seq::empty(), new, avail[0], now, r)
                } else {
                    &&& new.focused() is None
                    &&& new.history() == remember(Seq::empty(), f, old.max_history())
                    &&& same_settings(old, new)
                    &&& forall|w: Seq<char>|
                        #[trigger] entry_of(new.states(), w) == if w == f && entry_of(old.states(), w) is Some {
                            Some(FocusState { focused: false, ..entry_of(old.states(), w)->0 })
                        } else {
                            entry_of(old.states(), w)
                        }
                })
            },
            None => if available.len() == 0 {
                new == old
            } else {
                restored_from_history(old, new, avail, now, {
                    &&& new.focused() is None
                    &&& new.history().len() == 0
                    &&& new.states() == old.states()
                    &&& same_settings(old, new)
                })
            },
        }
    }
}

/// How many of the focus states let their widget be focused.
pub open spec fn count_focusable(states: Seq<(String, FocusState)>) -> nat
    decreases states.len(),
{
    if states.len() == 0 {
        0
    } else {
        count_focusable(states.drop_last()) + if states.last().1.focusable {
            1nat
        } else {
            0nat
        }
    }
}

/// The focus within a layout: the widget focused, the widgets focused
/// before it (most recent last, at most `max_history_size`), whether the
/// focus is kept across layout changes, whether it is shown, the ring drawn
/// around it, and each widget's focus state by its name.
pub struct FocusManager {
    focused_widget: Option<WidgetId>,
    focus_history: Vec<WidgetId>,
    max_history_size: usize,
    preserve_focus: bool,
    visual_indicators: bool,
    focus_ring: FocusRing,
    widget_focus_states: Vec<(String, FocusState)>,
}

impl FocusManager {
    /// The name of the widget focused, if any.
    pub closed spec fn focused(&self) -> Option<Seq<char>> {
        match self.focused_widget {
            Some(w) => Some(w.name()),
            None => None,
        }
    }

    /// The names of the widgets focused before, most recent last.
    pub closed spec fn history(&self) -> Seq<Seq<char>> {
        names(self.focus_history@)
    }

    /// The longest history kept.
    pub closed spec fn max_history(&self) -> nat {
        self.max_history_size as nat
    }

    /// The focus state of each widget, by name.
    pub closed spec fn states(&self) -> Seq<(String, FocusState)> {
        self.widget_focus_states@
    }

    /// Whether the focus is kept across layout changes.
    pub closed spec fn preserves(&self) -> bool {
        self.preserve_focus
    }

    /// Whether the focus is shown.
    pub closed spec fn indicators(&self) -> bool {
        self.visual_indicators
    }

    /// The ring drawn around the focused widget.
    pub closed spec fn ring(&self) -> FocusRing {
        self.focus_ring
    }

    /// Nothing focused, no history (of up to ten widgets), the focus kept
    /// across layout changes and shown with the default ring, no widget
    /// known.
    pub fn new() -> (res: Self)
        ensures
            res.focused() is None,
            res.history().len() == 0,
            res.max_history() == 10,
            res.preserves() && res.indicators(),
            res.ring() == (FocusRing {
                enabled: true,
                style: FocusRingStyle::Solid,
                color: FocusRingColor::Primary,
                thickness: 1,
                animation: false,
            }),
            res.states().len() == 0,
    {
        let res = FocusManager {
            focused_widget: None,
            focus_history: Vec::new(),
            max_history_size: 10,
            preserve_focus: true,
            visual_indicators: true,
            focus_ring: FocusRing::default(),
            widget_focus_states: Vec::new(),
        };
        assert(res.history() =~= Seq::<Seq<char>>::empty());
        res
    }

    /// The widget focused, if any.
    pub fn focused_widget(&self) -> (res: Option<&WidgetId>)
        ensures
            match res {
                Some(w) => self.focused() == Some(w.name()),
                None => self.focused() is None,
            },
    {
        self.focused_widget.as_ref()
    }

    /// Remembers `widget_id` as focused before.
    fn add_to_history(&mut self, widget_id: WidgetId)
        ensures
            final(self).history() == remember(old(self).history(), widget_id.name(), old(self).max_history()),
            final(self).focused() == old(self).focused(),
            final(self).max_history() == old(self).max_history(),
            final(self).states() == old(self).states(),
            final(self).preserves() == old(self).preserves(),
            final(self).indicators() == old(self).indicators(),
            final(self).ring() == old(self).ring(),
    {
        let ghost h = names(self.focus_history@);
        let ghost w = widget_id.name();
        let mut kept: Vec<WidgetId> = Vec::new();
        let mut i: usize = 0;
        proof {
            reveal(Seq::filter);
            assert(h.take(0) =~= Seq::<Seq<char>>::empty());
            assert(names(kept@) =~= Seq::<Seq<char>>::empty());
        }
        while i < self.focus_history.len()
            invariant
                h == names(self.focus_history@),
                w == widget_id.name(),
                i <= self.focus_history@.len(),
                names(kept@) == without_name(h.take(i as int), w),
            decreases self.focus_history@.len() - i,
        {
            proof {
                assert(h.take(i + 1) =~= h.take(i as int).push(h[i as int]));
                lemma_without_name_push(h.take(i as int), h[i as int], w);
                assert(h[i as int] == self.focus_history@[i as int].name());
            }
            if !self.focus_history[i].same_as(&widget_id) {
                let ghost before = names(kept@);
                kept.push(self.focus_history[i].clone());
                assert(names(kept@) =~= before.push(h[i as int]));
            }
            i = i + 1;
        }
        assert(h.take(i as int) =~= h);
        let ghost filtered = names(kept@);
        kept.push(widget_id);
        assert(names(kept@) =~= filtered.push(w));
        if kept.len() > self.max_history_size {
            let ghost full = names(kept@);
            kept.remove(0);
            assert(names(kept@) =~= full.drop_first());
        }
        self.focus_history = kept;
    }

    /// Focuses `widget_id` at `now`, unless its state makes it
    /// unfocusable; a different widget focused before is remembered.
    pub fn set_focus_at(&mut self, widget_id: WidgetId, now: u64) -> (res: bool)
        ensures
            focus_set(*old(self), *final(self), widget_id.name(), now, res),
    {
        let ghost n = widget_id.name();
        let ghost old_states = self.widget_focus_states@;
        let ghost old_focus = self.focused();
        if let Some(k) = find_entry(&self.widget_focus_states, widget_id.0.as_str()) {
            if !self.widget_focus_states[k].1.focusable {
                return false;
            }
        }
        let mut current: Option<WidgetId> = None;
        std::mem::swap(&mut current, &mut self.focused_widget);
        let ghost mid_states = self.widget_focus_states@;
        if let Some(cur) = current {
            if let Some(k) = find_entry(&self.widget_focus_states, cur.0.as_str()) {
                let mut st = self.widget_focus_states[k].1.clone();
                st.focused = false;
                set_entry(&mut self.widget_focus_states, cur.0.as_str(), st);
            }
            if !cur.same_as(&widget_id) {
                self.add_to_history(cur);
            }
        }
        let ghost cleared = self.widget_focus_states@;
        let mut st = match find_entry(&self.widget_focus_states, widget_id.0.as_str()) {
            Some(k) => self.widget_focus_states[k].1.clone(),
            None => FocusState::default(),
        };
        st.focused = true;
        st.last_focused_ms = Some(now);
        set_entry(&mut self.widget_focus_states, widget_id.0.as_str(), st);
        self.focused_widget = Some(widget_id);
        proof {
            assert forall|w: Seq<char>|
                #[trigger] entry_of(self.widget_focus_states@, w) == if w == n {
                    let base = match entry_of(old_states, n) {
                        Some(st) => st,
                        None => default_focus_state(),
                    };
                    Some(FocusState { focused: true, last_focused_ms: Some(now), ..base })
                } else if old_focus == Some(w) && entry_of(old_states, w) is Some {
                    Some(FocusState { focused: false, ..entry_of(old_states, w)->0 })
                } else {
                    entry_of(old_states, w)
                } by {
                if w != n {
                    assert(entry_of(self.widget_focus_states@, w) == entry_of(cleared, w));
                }
            }
        }
        true
    }

    /// Focuses `widget_id` now, by the system clock, unless its state makes
    /// it unfocusable.
    pub fn set_focus(&mut self, widget_id: WidgetId) -> (res: bool)
        ensures
            exists|now: u64| focus_set(*old(self), *final(self), widget_id.name(), now, res),
    {
        let now = clock_now_ms();
        self.set_focus_at(widget_id, now)
    }

    /// Clears the focus: the widget focused, if any, is remembered.
    pub fn clear_focus(&mut self)
        ensures
            focus_cleared(*old(self), *final(self)),
    {
        let ghost old_states = self.widget_focus_states@;
        let mut current: Option<WidgetId> = None;
        std::mem::swap(&mut current, &mut self.focused_widget);
        if let Some(f) = current {
            if let Some(k) = find_entry(&self.widget_focus_states, f.0.as_str()) {
                let mut st = self.widget_focus_states[k].1.clone();
                st.focused = false;
                set_entry(&mut self.widget_focus_states, f.0.as_str(), st);
            }
            self.add_to_history(f);
        }
    }

    /// The widgets of `available` whose state makes them focusable, by
    /// descending priority, widgets of equal priority in the order given.
    fn focusable_sorted(&self, available: &[WidgetId]) -> (res: Vec<(WidgetId, i32)>)
        ensures
            priority_listing(res@, focus_candidates(available@, self.states())),
    {
        let mut candidates: Vec<(WidgetId, i32)> = Vec::new();
        let mut i: usize = 0;
        while i < available.len()
            invariant
                i <= available@.len(),
                candidates@ == focus_candidates(available@.take(i as int), self.states()),
            decreases available@.len() - i,
        {
            proof {
                assert(available@.take(i + 1).drop_last() =~= available@.take(i as int));
                assert(available@.take(i + 1).last() == available@[i as int]);
            }
            if let Some(k) = find_entry(&self.widget_focus_states, available[i].0.as_str()) {
                if self.widget_focus_states[k].1.focusable {
                    candidates.push((available[i].clone(), self.widget_focus_states[k].1.priority));
                }
            }
            i = i + 1;
        }
        assert(available@.take(i as int) =~= available@);
        sort_by_priority(candidates)
    }

    /// The first position of the widget named like `current` in `l`.
    fn position_in(l: &Vec<(WidgetId, i32)>, current: &WidgetId) -> (res: Option<usize>)
        ensures
            match res {
                Some(p) => first_pos(l@, current.name()) == p as int && p < l@.len(),
                None => first_pos(l@, current.name()) < 0,
            },
    {
        let mut i: usize = l.len();
        let mut found: Option<usize> = None;
        proof {
            assert(l@.skip(i as int) =~= Seq::<(WidgetId, i32)>::empty());
        }
        while i > 0
            invariant
                i <= l@.len(),
                match found {
                    Some(p) => first_pos(l@.skip(i as int), current.name()) == p - i && i <= p < l@.len(),
                    None => first_pos(l@.skip(i as int), current.name()) < 0,
                },
            decreases i,
        {
            let k = i - 1;
            proof {
                assert(l@.skip(k as int).drop_first() =~= l@.skip(i as int));
                assert(l@.skip(k as int)[0] == l@[k as int]);
            }
            if l[k].0.same_as(current) {
                found = Some(k);
            }
            i = k;
        }
        assert(l@.skip(0) =~= l@);
        found
    }

    /// Moves the focus to the next focusable widget of `available` (by
    /// descending priority) at `now`, round to the first; with none, nothing
    /// changes.
    pub fn focus_next_at(&mut self, available: &[WidgetId], now: u64) -> (res: bool)
        ensures
            moved_next(*old(self), *final(self), available@, now, res),
    {
        let list = self.focusable_sorted(available);
        let ghost l = list@;
        if list.len() == 0 {
            assert(priority_listing(l, focus_candidates(available@, self.states())));
            return false;
        }
        let target = match &self.focused_widget {
            Some(current) => match Self::position_in(&list, current) {
                Some(p) => list[(p + 1) % list.len()].0.clone(),
                None => list[0].0.clone(),
            },
            None => list[0].0.clone(),
        };
        let ghost old_self = *self;
        let res = self.set_focus_at(target, now);
        assert(priority_listing(l, focus_candidates(available@, old_self.states())));
        res
    }

    /// Moves the focus to the previous focusable widget of `available` (by
    /// descending priority) at `now`, round to the last; with none, nothing
    /// changes.
    pub fn focus_previous_at(&mut self, available: &[WidgetId], now: u64) -> (res: bool)
        ensures
            moved_previous(*old(self), *final(self), available@, now, res),
    {
        let list = self.focusable_sorted(available);
        let ghost l = list@;
        if list.len() == 0 {
            assert(priority_listing(l, focus_candidates(available@, self.states())));
            return false;
        }
        let last = list.len() - 1;
        let target = match &self.focused_widget {
            Some(current) => match Self::position_in(&list, current) {
                Some(p) => if p > 0 { list[p - 1].0.clone() } else { list[last].0.clone() },
                None => list[last].0.clone(),
            },
            None => list[last].0.clone(),
        };
        let ghost old_self = *self;
        let res = self.set_focus_at(target, now);
        assert(priority_listing(l, focus_candidates(available@, old_self.states())));
        res
    }

    /// Focuses again, at `now`, the widget focused most recently before,
    /// taking it from the history; with no history, nothing changes.
    pub fn focus_back_at(&mut self, now: u64) -> (res: bool)
        ensures
            old(self).history().len() == 0 ==> !res && *final(self) == *old(self),
            old(self).history().len() > 0 ==> focus_set_with(
                *old(self),
                old(self).history().drop_last(),
                *final(self),
                old(self).history().last(),
                now,
                res,
            ),
    {
        if self.focus_history.len() == 0 {
            return false;
        }
        let ghost h = self.history();
        let previous = self.focus_history.pop().unwrap();
        assert(self.history() =~= h.drop_last());
        self.set_focus_at(previous, now)
    }

    /// Moves the focus to the next focusable widget of `available`, by the
    /// system clock.
    pub fn focus_next(&mut self, available: &[WidgetId]) -> (res: bool)
        ensures
            exists|now: u64| #[trigger] moved_next(*old(self), *final(self), available@, now, res),
    {
        let now = clock_now_ms();
        let res = self.focus_next_at(available, now);
        assert(moved_next(*old(self), *self, available@, now, res));
        res
    }

    /// Moves the focus to the previous focusable widget of `available`, by
    /// the system clock.
    pub fn focus_previous(&mut self, available: &[WidgetId]) -> (res: bool)
        ensures
            exists|now: u64| #[trigger] moved_previous(*old(self), *final(self), available@, now, res),
    {
        let now = clock_now_ms();
        let res = self.focus_previous_at(available, now);
        assert(moved_previous(*old(self), *self, available@, now, res));
        res
    }

    /// Focuses again the widget focused most recently before, by the system
    /// clock.
    pub fn focus_back(&mut self) -> (res: bool)
        ensures
            old(self).history().len() == 0 ==> !res && *final(self) == *old(self),
            old(self).history().len() > 0 ==> exists|now: u64|
                focus_set_with(
                    *old(self),
                    old(self).history().drop_last(),
                    *final(self),
                    old(self).history().last(),
                    now,
                    res,
                ),
    {
        let now = clock_now_ms();
        self.focus_back_at(now)
    }

    /// Gives the widget `widget_id` the focus state `state`.
    pub fn register_widget(&mut self, widget_id: WidgetId, state: FocusState)
        ensures
            forall|w: Seq<char>|
                #[trigger] entry_of(final(self).states(), w) == if w == widget_id.name() {
                    Some(state)
                } else {
                    entry_of(old(self).states(), w)
                },
            final(self).focused() == old(self).focused(),
            final(self).history() == old(self).history(),
            same_settings(*old(self), *final(self)),
    {
        set_entry(&mut self.widget_focus_states, widget_id.0.as_str(), state);
    }

    /// Gives the widget `widget_id` the focus state `state`.
    pub fn update_widget_state(&mut self, widget_id: &WidgetId, state: FocusState)
        ensures
            forall|w: Seq<char>|
                #[trigger] entry_of(final(self).states(), w) == if w == widget_id.name() {
                    Some(state)
                } else {
                    entry_of(old(self).states(), w)
                },
            final(self).focused() == old(self).focused(),
            final(self).history() == old(self).history(),
            same_settings(*old(self), *final(self)),
    {
        set_entry(&mut self.widget_focus_states, widget_id.0.as_str(), state);
    }

    /// The focus state of the widget `widget_id`, if it has one.
    pub fn get_widget_state(&self, widget_id: &WidgetId) -> (res: Option<&FocusState>)
        ensures
            match res {
                Some(st) => entry_of(self.states(), widget_id.name()) == Some(*st),
                None => entry_of(self.states(), widget_id.name()) is None,
            },
    {
        match find_entry(&self.widget_focus_states, widget_id.0.as_str()) {
            Some(k) => Some(&self.widget_focus_states[k].1),
            None => None,
        }
    }

    /// Whether the widget `widget_id` has the focus.
    pub fn is_focused(&self, widget_id: &WidgetId) -> (res: bool)
        ensures
            res == (self.focused() == Some(widget_id.name())),
    {
        match &self.focused_widget {
            Some(f) => f.same_as(widget_id),
            None => false,
        }
    }

    /// Whether the widget `widget_id` can have the focus: unless its state
    /// says otherwise.
    pub fn is_focusable(&self, widget_id: &WidgetId) -> (res: bool)
        ensures
            res == !(entry_of(self.states(), widget_id.name()) matches Some(st) && !st.focusable),
    {
        match find_entry(&self.widget_focus_states, widget_id.0.as_str()) {
            Some(k) => self.widget_focus_states[k].1.focusable,
            None => true,
        }
    }

    /// Makes the widget `widget_id` focusable or not (giving it a default
    /// state if it has none); a widget made unfocusable loses the focus.
    pub fn set_focusable(&mut self, widget_id: &WidgetId, focusable: bool)
        ensures
            ({
                let base = match entry_of(old(self).states(), widget_id.name()) {
                    Some(st) => st,
                    None => default_focus_state(),
                };
                let changed = FocusState { focusable, ..base };
                if !focusable && old(self).focused() == Some(widget_id.name()) {
                    &&& final(self).focused() is None
                    &&& final(self).history() == remember(old(self).history(), widget_id.name(), old(self).max_history())
                    &&& forall|w: Seq<char>|
                        #[trigger] entry_of(final(self).states(), w) == if w == widget_id.name() {
                            Some(FocusState { focused: false, ..changed })
                        } else {
                            entry_of(old(self).states(), w)
                        }
                } else {
                    &&& final(self).focused() == old(self).focused()
                    &&& final(self).history() == old(self).history()
                    &&& forall|w: Seq<char>|
                        #[trigger] entry_of(final(self).states(), w) == if w == widget_id.name() {
                            Some(changed)
                        } else {
                            entry_of(old(self).states(), w)
                        }
                }
            }),
            same_settings(*old(self), *final(self)),
    {
        let mut st = match find_entry(&self.widget_focus_states, widget_id.0.as_str()) {
            Some(k) => self.widget_focus_states[k].1.clone(),
            None => FocusState::default(),
        };
        st.focusable = focusable;
        set_entry(&mut self.widget_focus_states, widget_id.0.as_str(), st);
        if !focusable && self.is_focused(widget_id) {
            self.clear_focus();
        }
    }

    /// Forgets the widget `widget_id`: its state, the focus if it had it,
    /// and its mentions in the history.
    pub fn unregister_widget(&mut self, widget_id: &WidgetId)
        ensures
            forall|w: Seq<char>|
                #[trigger] entry_of(final(self).states(), w) == if w == widget_id.name() {
                    None
                } else {
                    entry_of(old(self).states(), w)
                },
            final(self).focused() == if old(self).focused() == Some(widget_id.name()) {
                None
            } else {
                old(self).focused()
            },
            final(self).history() == without_name(old(self).history(), widget_id.name()),
            same_settings(*old(self), *final(self)),
    {
        drop_named(&mut self.widget_focus_states, widget_id.0.as_str());
        if self.is_focused(widget_id) {
            self.focused_widget = None;
        }
        let ghost h = names(self.focus_history@);
        let ghost w = widget_id.name();
        let mut kept: Vec<WidgetId> = Vec::new();
        let mut i: usize = 0;
        proof {
            reveal(Seq::filter);
            assert(h.take(0) =~= Seq::<Seq<char>>::empty());
            assert(names(kept@) =~= Seq::<Seq<char>>::empty());
        }
        while i < self.focus_history.len()
            invariant
                h == names(self.focus_history@),
                w == widget_id.name(),
                i <= self.focus_history@.len(),
                names(kept@) == without_name(h.take(i as int), w),
            decreases self.focus_history@.len() - i,
        {
            proof {
                assert(h.take(i + 1) =~= h.take(i as int).push(h[i as int]));
                lemma_without_name_push(h.take(i as int), h[i as int], w);
                assert(h[i as int] == self.focus_history@[i as int].name());
            }
            if !self.focus_history[i].same_as(widget_id) {
                let ghost before = names(kept@);
                kept.push(self.focus_history[i].clone());
                assert(names(kept@) =~= before.push(h[i as int]));
            }
            i = i + 1;
        }
        assert(h.take(i as int) =~= h);
        self.focus_history = kept;
    }

    /// Whether a widget named like `w` is among `available`.
    fn contains_id(available: &[WidgetId], w: &WidgetId) -> (res: bool)
        ensures
            res == names(available@).contains(w.name()),
    {
        let mut i: usize = 0;
        while i < available.len()
            invariant
                i <= available@.len(),
                forall|j: int| 0 <= j < i ==> available@[j].name() != w.name(),
            decreases available@.len() - i,
        {
            if available[i].same_as(w) {
                assert(names(available@)[i as int] == w.name());
                return true;
            }
            i = i + 1;
        }
        proof {
            if names(available@).contains(w.name()) {
                let j = choose|j: int| 0 <= j < names(available@).len() && names(available@)[j] == w.name();
                assert(available@[j].name() == w.name());
            }
        }
        false
    }

    /// Unwinds the history from its end to the most recent widget still in
    /// `available` and focuses it at `now`, telling whether one was found;
    /// with none, the history is left empty and nothing else changes.
    fn restore_from_history(&mut self, available: &[WidgetId], now: u64) -> (res: bool)
        ensures
            res == (last_available_pos(old(self).history(), names(available@)) >= 0),
            res ==> {
                let h = old(self).history();
                let k = last_available_pos(h, names(available@));
                exists|r: bool| #[trigger] focus_set_with(*old(self), h.take(k), *final(self), h[k], now, r)
            },
            !res ==> {
                &&& final(self).history().len() == 0
                &&& final(self).focused() == old(self).focused()
                &&& final(self).states() == old(self).states()
                &&& same_settings(*old(self), *final(self))
            },
    {
        let ghost h = self.history();
        let ghost avail = names(available@);
        let ghost start = *self;
        while self.focus_history.len() > 0
            invariant
                self.history() == h.take(self.history().len() as int),
                self.history().len() <= h.len(),
                last_available_pos(h, avail) == last_available_pos(self.history(), avail),
                avail == names(available@),
                self.focused() == start.focused(),
                self.states() == start.states(),
                same_settings(start, *self),
                h == start.history(),
                start == *old(self),
            decreases self.focus_history@.len(),
        {
            let ghost cur = self.history();
            let candidate = self.focus_history.pop().unwrap();
            proof {
                assert(cur.last() == candidate.name());
                assert(self.history() =~= cur.drop_last());
                assert(h.take(self.history().len() as int) =~= cur.drop_last());
            }
            if Self::contains_id(available, &candidate) {
                proof {
                    assert(last_available_pos(cur, avail) == cur.len() - 1);
                    assert(h[cur.len() - 1] == cur.last());
                }
                let ghost mid = *self;
                let r = self.set_focus_at(candidate, now);
                proof {
                    assert(mid.history() =~= h.take(cur.len() - 1));
                    assert(focus_set_with(start, h.take(cur.len() - 1), *self, h[cur.len() - 1], now, r));
                }
                return true;
            }
        }
        assert(self.history().len() == 0);
        false
    }

    /// Keeps the focus on an available widget after a layout change that
    /// leaves the widgets `available`, at `now`.
    pub fn handle_layout_change_at(&mut self, available: &[WidgetId], now: u64)
        ensures
            layout_change_outcome(*old(self), *final(self), available@, now),
    {
        if !self.preserve_focus {
            return;
        }
        let ghost start = *self;
        let current = match &self.focused_widget {
            Some(f) => Some(f.clone()),
            None => None,
        };
        match current {
            Some(f) => {
                if Self::contains_id(available, &f) {
                    return;
                }
                if self.restore_from_history(available, now) {
                    return;
                }
                let ghost emptied = *self;
                if available.len() > 0 {
                    let r = self.set_focus_at(available[0].clone(), now);
                    proof {
                        assert(emptied.history() =~= Seq::<Seq<char>>::empty());
                        assert(names(available@)[0] == available@[0].name());
                        assert(focus_set_with(start, Seq::empty(), *self, names(available@)[0], now, r));
                    }
                } else {
                    self.clear_focus();
                    assert(emptied.history() =~= Seq::<Seq<char>>::empty());
                }
            },
            None => {
                if available.len() == 0 {
                    return;
                }
                self.restore_from_history(available, now);
            },
        }
    }

    /// Keeps the focus on an available widget after a layout change, by the
    /// system clock.
    pub fn handle_layout_change(&mut self, available: &[WidgetId])
        ensures
            exists|now: u64| #[trigger] layout_change_outcome(*old(self), *final(self), available@, now),
    {
        let now = clock_now_ms();
        self.handle_layout_change_at(available, now);
        assert(layout_change_outcome(*old(self), *self, available@, now));
    }

    /// The widget focused, how many widgets have a focus state and how
    /// many of those can be focused, the length of the history, and the
    /// settings.
    pub fn get_focus_stats(&self) -> (res: FocusStats)
        ensures
            match res.focused_widget {
                Some(w) => self.focused() == Some(w.name()),
                None => self.focused() is None,
            },
            res.total_widgets == self.states().len(),
            res.focusable_widgets == count_focusable(self.states()),
            res.history_size == self.history().len(),
            res.visual_indicators == self.indicators(),
            res.preserve_focus == self.preserves(),
    {
        let mut count: usize = 0;
        let mut i: usize = 0;
        while i < self.widget_focus_states.len()
            invariant
                i <= self.widget_focus_states@.len(),
                count == count_focusable(self.widget_focus_states@.take(i as int)),
                count <= i,
            decreases self.widget_focus_states@.len() - i,
        {
            proof {
                assert(self.widget_focus_states@.take(i + 1).drop_last() =~= self.widget_focus_states@.take(i as int));
                assert(self.widget_focus_states@.take(i + 1).last() == self.widget_focus_states@[i as int]);
            }
            if self.widget_focus_states[i].1.focusable {
                count = count + 1;
            }
            i = i + 1;
        }
        assert(self.widget_focus_states@.take(i as int) =~= self.widget_focus_states@);
        FocusStats {
            focused_widget: match &self.focused_widget {
                Some(w) => Some(w.clone()),
                None => None,
            },
            total_widgets: self.widget_focus_states.len(),
            focusable_widgets: count,
            history_size: self.focus_history.len(),
            visual_indicators: self.visual_indicators,
            preserve_focus: self.preserve_focus,
        }
    }

    /// The ring drawn around the focused widget.
    pub fn focus_ring(&self) -> (res: &FocusRing)
        ensures
            *res == self.ring(),
    {
        &self.focus_ring
    }

    /// Sets the ring drawn around the focused widget.
    pub fn set_focus_ring(&mut self, focus_ring: FocusRing)
        ensures
            final(self).ring() == focus_ring,
            final(self).focused() == old(self).focused(),
            final(self).history() == old(self).history(),
            final(self).states() == old(self).states(),
            final(self).max_history() == old(self).max_history(),
            final(self).preserves() == old(self).preserves(),
            final(self).indicators() == old(self).indicators(),
    {
        self.focus_ring = focus_ring;
    }

    /// Whether the focus is shown.
    pub fn visual_indicators_enabled(&self) -> (res: bool)
        ensures
            res == self.indicators(),
    {
        self.visual_indicators
    }

    /// Shows the focus or not.
    pub fn set_visual_indicators(&mut self, enabled: bool)
        ensures
            final(self).indicators() == enabled,
            final(self).focused() == old(self).focused(),
            final(self).history() == old(self).history(),
            final(self).states() == old(self).states(),
            final(self).max_history() == old(self).max_history(),
            final(self).preserves() == old(self).preserves(),
            final(self).ring() == old(self).ring(),
    {
        self.visual_indicators = enabled;
    }

    /// Whether the focus is kept across layout changes.
    pub fn preserve_focus_enabled(&self) -> (res: bool)
        ensures
            res == self.preserves(),
    {
        self.preserve_focus
    }

    /// Keeps the focus across layout changes or not.
    pub fn set_preserve_focus(&mut self, enabled: bool)
        ensures
            final(self).preserves() == enabled,
            final(self).focused() == old(self).focused(),
            final(self).history() == old(self).history(),
            final(self).states() == old(self).states(),
            final(self).max_history() == old(self).max_history(),
            final(self).indicators() == old(self).indicators(),
            final(self).ring() == old(self).ring(),
    {
        self.preserve_focus = enabled;
    }
}

/// Breakpoints keyed for ordering by the area of their smallest terminal:
/// the smaller the area, the higher the key.
pub open spec fn keyed_by_area(s: Seq<ResponsiveBreakpoint>) -> Seq<(ResponsiveBreakpoint, i32)> {
    s.map_values(|b: ResponsiveBreakpoint| (b, (-breakpoint_area(b)) as i32))
}

/// A listing by priority holds only entries of its input.
pub proof fn lemma_listing_member<T>(res: Seq<(T, i32)>, input: Seq<(T, i32)>, i: int)
    requires
        priority_listing(res, input),
        0 <= i < res.len(),
    ensures
        input.contains(res[i]),
{
    lemma_member_of_priority(res, input, i, res[i].1);
}

/// An entry of priority `p` in a listing is an entry of its input.
proof fn lemma_member_of_priority<T>(res: Seq<(T, i32)>, input: Seq<(T, i32)>, i: int, p: i32)
    requires
        priority_listing(res, input),
        0 <= i < res.len(),
        res[i].1 == p,
    ensures
        input.contains(res[i]),
{
    let pred = priority_is::<T>(p);
    res.lemma_filter_contains(pred, i);
    assert(of_priority(res, p) == of_priority(input, p));
    input.lemma_filter_contains_rev(pred, res[i]);
}

/// The names of breakpoints, in order.
pub open spec fn breakpoint_names(s: Seq<ResponsiveBreakpoint>) -> Seq<Seq<char>> {
    s.map_values(|b: ResponsiveBreakpoint| b.name@)
}

/// The layout's modes and their bookkeeping: the terminal's size and the
/// least size it works with, the breakpoints, whether it is compact and
/// whether the compact mode follows the terminal's width (below the
/// threshold), whether a widget may fill the screen and which one does,
/// the priorities of widgets, the focus among them, the layout tree, the
/// dynamic adjustments, and the layouts computed and kept; it computes
/// where each widget goes.
pub struct LayoutManager {
    terminal_size: (u16, u16),
    min_terminal_size: (u16, u16),
    responsive_breakpoints: Vec<ResponsiveBreakpoint>,
    compact_mode: bool,
    fullscreen_widget: Option<WidgetId>,
    fullscreen_enabled: bool,
    auto_compact_mode: bool,
    compact_mode_threshold: u16,
    layout_priority_manager: LayoutPriorityManager,
    focus_manager: FocusManager,
    root_node: Option<LayoutNode>,
    layout_cache: Vec<((u16, u16, bool), LayoutResult)>,
    cache_enabled: bool,
    max_cache_size: usize,
    min_widget_size: (u16, u16),
    compact_spacing: (u16, u16),
    dynamic_adjustments: Vec<DynamicAdjustment>,
    performance_metrics: LayoutPerformanceMetrics,
}

impl LayoutManager {
    /// The terminal's size.
    pub closed spec fn size(&self) -> (u16, u16) {
        self.terminal_size
    }

    /// The least terminal size the layout works with.
    pub closed spec fn min_size(&self) -> (u16, u16) {
        self.min_terminal_size
    }

    /// Whether the layout is compact.
    pub closed spec fn compact(&self) -> bool {
        self.compact_mode
    }

    /// The name of the widget filling the screen, if any.
    pub closed spec fn fullscreen(&self) -> Option<Seq<char>> {
        match self.fullscreen_widget {
            Some(w) => Some(w.name()),
            None => None,
        }
    }

    /// Whether a widget may fill the screen.
    pub closed spec fn fullscreen_allowed(&self) -> bool {
        self.fullscreen_enabled
    }

    /// Whether the compact mode follows the terminal's width.
    pub closed spec fn auto_compact(&self) -> bool {
        self.auto_compact_mode
    }

    /// The width below which the layout is compact when that is automatic.
    pub closed spec fn threshold(&self) -> u16 {
        self.compact_mode_threshold
    }

    /// The names of the breakpoints, in order.
    pub closed spec fn breakpoints(&self) -> Seq<Seq<char>> {
        breakpoint_names(self.responsive_breakpoints@)
    }

    /// The priorities of the widgets.
    pub closed spec fn priority_state(&self) -> LayoutPriorityManager {
        self.layout_priority_manager
    }

    /// The focus among the widgets.
    pub closed spec fn focus_state(&self) -> FocusManager {
        self.focus_manager
    }

    /// The root of the layout tree, if one is set.
    pub closed spec fn root(&self) -> Option<NodeView> {
        match self.root_node {
            Some(n) => Some(node_view(n)),
            None => None,
        }
    }

    /// The layouts kept, by terminal size and compact mode, oldest first.
    pub closed spec fn cache(&self) -> Seq<((u16, u16, bool), Placed)> {
        self.layout_cache@.map_values(|e: ((u16, u16, bool), LayoutResult)| (e.0, placed_view(e.1)))
    }

    /// Whether layouts are kept.
    pub closed spec fn caching(&self) -> bool {
        self.cache_enabled
    }

    /// How many layouts are kept at most.
    pub closed spec fn cache_limit(&self) -> usize {
        self.max_cache_size
    }

    /// The least width and height a widget is shown at.
    pub closed spec fn min_widget(&self) -> (u16, u16) {
        self.min_widget_size
    }

    /// The fraction, numerator and denominator, the compact mode scales
    /// margins and padding by.
    pub closed spec fn spacing(&self) -> (u16, u16) {
        self.compact_spacing
    }

    /// The dynamic adjustments, in the order they were added.
    pub closed spec fn dynamics(&self) -> Seq<DynamicAdjustment> {
        self.dynamic_adjustments@
    }

    /// The counts of layouts computed and found kept.
    pub closed spec fn metrics(&self) -> LayoutPerformanceMetrics {
        self.performance_metrics
    }

    /// Whether `new` has the settings, size, modes and breakpoints of `old`.
    pub open spec fn same_frame(old: Self, new: Self) -> bool {
        &&& new.size() == old.size() && new.min_size() == old.min_size()
        &&& new.compact() == old.compact()
        &&& new.fullscreen() == old.fullscreen() && new.fullscreen_allowed() == old.fullscreen_allowed()
        &&& new.auto_compact() == old.auto_compact() && new.threshold() == old.threshold()
        &&& new.breakpoints() == old.breakpoints()
    }

    /// Whether `new` differs from `old` at most in the compact mode.
    pub open spec fn same_but_compact(old: Self, new: Self) -> bool {
        &&& new.size() == old.size() && new.min_size() == old.min_size()
        &&& new.fullscreen() == old.fullscreen() && new.fullscreen_allowed() == old.fullscreen_allowed()
        &&& new.auto_compact() == old.auto_compact() && new.threshold() == old.threshold()
        &&& new.breakpoints() == old.breakpoints()
    }

    /// An 80 by 24 terminal that must be at least 40 by 10, the default
    /// breakpoints, not compact, the compact mode automatic below 80
    /// columns, nothing filling the screen though a widget may.
    pub fn new() -> (res: Self)
        ensures
            res.size() == (80u16, 24u16),
            res.min_size() == (40u16, 10u16),
            !res.compact(),
            res.fullscreen() is None,
            res.fullscreen_allowed(),
            res.auto_compact(),
            res.threshold() == 80,
            res.breakpoints() == default_breakpoint_sizes().map_values(|e: (Seq<char>, u16, u16)| e.0),
            res.root() is None,
            res.cache().len() == 0,
            res.caching(),
            res.cache_limit() == 100,
            res.min_widget() == (10u16, 3u16),
            res.spacing() == (1u16, 2u16),
            res.dynamics().len() == 0,
            res.metrics() == (LayoutPerformanceMetrics { total_calculations: 0, cache_hits: 0, cache_misses: 0 }),
    {
        let breakpoints = default_breakpoints();
        let res = LayoutManager {
            terminal_size: (80, 24),
            min_terminal_size: (40, 10),
            responsive_breakpoints: breakpoints,
            compact_mode: false,
            fullscreen_widget: None,
            fullscreen_enabled: true,
            auto_compact_mode: true,
            compact_mode_threshold: 80,
            layout_priority_manager: LayoutPriorityManager::new(),
            focus_manager: FocusManager::new(),
            root_node: None,
            layout_cache: Vec::new(),
            cache_enabled: true,
            max_cache_size: 100,
            min_widget_size: (10, 3),
            compact_spacing: (1, 2),
            dynamic_adjustments: Vec::new(),
            performance_metrics: LayoutPerformanceMetrics { total_calculations: 0, cache_hits: 0, cache_misses: 0 },
        };
        proof {
            let v = res.responsive_breakpoints@;
            assert forall|i: int| 0 <= i < v.len() implies #[trigger] breakpoint_names(v)[i]
                == default_breakpoint_sizes().map_values(|e: (Seq<char>, u16, u16)| e.0)[i] by {
                assert(v.map_values(|b: ResponsiveBreakpoint| (b.name@, b.min_width, b.min_height))[i]
                    == default_breakpoint_sizes()[i]);
            }
            assert(breakpoint_names(v) =~= default_breakpoint_sizes().map_values(
                |e: (Seq<char>, u16, u16)| e.0,
            ));
        }
        res
    }

    /// Whether the layout is compact.
    pub fn is_compact_mode(&self) -> (res: bool)
        ensures
            res == self.compact(),
    {
        self.compact_mode
    }

    /// Makes the layout compact or not.
    pub fn set_compact_mode(&mut self, enabled: bool)
        ensures
            final(self).compact() == enabled,
            Self::same_but_compact(*old(self), *final(self)),
    {
        if self.compact_mode != enabled {
            self.compact_mode = enabled;
            self.layout_cache.clear();
        }
    }

    /// Switches the compact mode.
    pub fn toggle_compact_mode(&mut self)
        ensures
            final(self).compact() == !old(self).compact(),
            Self::same_but_compact(*old(self), *final(self)),
    {
        let enabled = !self.compact_mode;
        self.set_compact_mode(enabled);
    }

    /// Whether a widget fills the screen.
    pub fn is_fullscreen(&self) -> (res: bool)
        ensures
            res == self.fullscreen() is Some,
    {
        self.fullscreen_widget.is_some()
    }

    /// The widget filling the screen, if any.
    pub fn fullscreen_widget(&self) -> (res: Option<&WidgetId>)
        ensures
            match res {
                Some(w) => self.fullscreen() == Some(w.name()),
                None => self.fullscreen() is None,
            },
    {
        self.fullscreen_widget.as_ref()
    }

    /// Lets `widget_id` fill the screen: refused when that is not allowed
    /// or another widget already does.
    pub fn enter_fullscreen(&mut self, widget_id: WidgetId) -> (res: Result<(), LayoutError>)
        ensures
            !old(self).fullscreen_allowed() ==> (res matches Err(LayoutError::ConfigError { message }) && message@
                == "Fullscreen mode is disabled"@ && *final(self) == *old(self)),
            old(self).fullscreen_allowed() && old(self).fullscreen() is Some ==> (res matches Err(
                LayoutError::ConfigError { message },
            ) && message@ == "Another widget is already in fullscreen mode"@ && *final(self) == *old(self)),
            old(self).fullscreen_allowed() && old(self).fullscreen() is None ==> res is Ok && final(self).fullscreen()
                == Some(widget_id.name()),
            final(self).compact() == old(self).compact(),
            final(self).size() == old(self).size() && final(self).min_size() == old(self).min_size(),
            final(self).fullscreen_allowed() == old(self).fullscreen_allowed(),
            final(self).auto_compact() == old(self).auto_compact() && final(self).threshold() == old(self).threshold(),
            final(self).breakpoints() == old(self).breakpoints(),
    {
        if !self.fullscreen_enabled {
            return Err(LayoutError::ConfigError { message: String::from_str("Fullscreen mode is disabled") });
        }
        if self.fullscreen_widget.is_some() {
            return Err(
                LayoutError::ConfigError { message: String::from_str("Another widget is already in fullscreen mode") },
            );
        }
        self.fullscreen_widget = Some(widget_id);
        self.layout_cache.clear();
        Ok(())
    }

    /// Ends the widget filling the screen: refused when none does.
    pub fn exit_fullscreen(&mut self) -> (res: Result<(), LayoutError>)
        ensures
            old(self).fullscreen() is None ==> (res matches Err(LayoutError::ConfigError { message }) && message@
                == "No widget is currently in fullscreen mode"@ && *final(self) == *old(self)),
            old(self).fullscreen() is Some ==> res is Ok && final(self).fullscreen() is None,
            final(self).compact() == old(self).compact(),
            final(self).size() == old(self).size() && final(self).min_size() == old(self).min_size(),
            final(self).fullscreen_allowed() == old(self).fullscreen_allowed(),
            final(self).auto_compact() == old(self).auto_compact() && final(self).threshold() == old(self).threshold(),
            final(self).breakpoints() == old(self).breakpoints(),
    {
        if self.fullscreen_widget.is_none() {
            return Err(
                LayoutError::ConfigError { message: String::from_str("No widget is currently in fullscreen mode") },
            );
        }
        self.fullscreen_widget = None;
        self.layout_cache.clear();
        Ok(())
    }

    /// Lets `widget_id` fill the screen, or ends it if it already does;
    /// another widget filling the screen gives way to it.
    pub fn toggle_fullscreen(&mut self, widget_id: WidgetId) -> (res: Result<(), LayoutError>)
        ensures
            old(self).fullscreen() == Some(widget_id.name()) ==> res is Ok && final(self).fullscreen() is None,
            old(self).fullscreen() is Some && old(self).fullscreen() != Some(widget_id.name())
                && old(self).fullscreen_allowed() ==> res is Ok && final(self).fullscreen() == Some(widget_id.name()),
            old(self).fullscreen() is Some && old(self).fullscreen() != Some(widget_id.name())
                && !old(self).fullscreen_allowed() ==> res is Err && final(self).fullscreen() is None,
            old(self).fullscreen() is None && old(self).fullscreen_allowed() ==> res is Ok && final(self).fullscreen()
                == Some(widget_id.name()),
            old(self).fullscreen() is None && !old(self).fullscreen_allowed() ==> res is Err && *final(self) == *old(
                self,
            ),
            final(self).compact() == old(self).compact(),
            final(self).size() == old(self).size() && final(self).min_size() == old(self).min_size(),
            final(self).fullscreen_allowed() == old(self).fullscreen_allowed(),
            final(self).auto_compact() == old(self).auto_compact() && final(self).threshold() == old(self).threshold(),
            final(self).breakpoints() == old(self).breakpoints(),
    {
        let same = match &self.fullscreen_widget {
            Some(current) => Some(current.same_as(&widget_id)),
            None => None,
        };
        match same {
            Some(true) => self.exit_fullscreen(),
            Some(false) => {
                let _ = self.exit_fullscreen();
                self.enter_fullscreen(widget_id)
            },
            None => self.enter_fullscreen(widget_id),
        }
    }

    /// Takes a new terminal size: refused when below the least size; with
    /// the compact mode automatic, the layout is compact exactly when the
    /// width is below the threshold.
    pub fn update_terminal_size(&mut self, width: u16, height: u16) -> (res: Result<(), LayoutError>)
        ensures
            (width < old(self).min_size().0 || height < old(self).min_size().1) ==> res == Err::<(), LayoutError>(
                LayoutError::TerminalTooSmall {
                    min_width: old(self).min_size().0,
                    min_height: old(self).min_size().1,
                    current_width: width,
                    current_height: height,
                },
            ) && *final(self) == *old(self),
            !(width < old(self).min_size().0 || height < old(self).min_size().1) ==> {
                &&& res is Ok
                &&& final(self).size() == (width, height)
                &&& final(self).compact() == if old(self).auto_compact() {
                    width < old(self).threshold()
                } else {
                    old(self).compact()
                }
            },
            final(self).min_size() == old(self).min_size(),
            final(self).fullscreen() == old(self).fullscreen(),
            final(self).fullscreen_allowed() == old(self).fullscreen_allowed(),
            final(self).auto_compact() == old(self).auto_compact() && final(self).threshold() == old(self).threshold(),
            final(self).breakpoints() == old(self).breakpoints(),
    {
        if width < self.min_terminal_size.0 || height < self.min_terminal_size.1 {
            return Err(
                LayoutError::TerminalTooSmall {
                    min_width: self.min_terminal_size.0,
                    min_height: self.min_terminal_size.1,
                    current_width: width,
                    current_height: height,
                },
            );
        }
        self.terminal_size = (width, height);
        if self.auto_compact_mode {
            self.compact_mode = width < self.compact_mode_threshold;
        }
        self.layout_cache.clear();
        Ok(())
    }

    /// The terminal's size.
    pub fn terminal_size(&self) -> (res: (u16, u16))
        ensures
            res == self.size(),
    {
        self.terminal_size
    }

    /// Sets the least terminal size the layout works with.
    pub fn set_min_terminal_size(&mut self, width: u16, height: u16)
        ensures
            final(self).min_size() == (width, height),
            final(self).size() == old(self).size(),
            final(self).compact() == old(self).compact(),
            final(self).fullscreen() == old(self).fullscreen(),
            final(self).fullscreen_allowed() == old(self).fullscreen_allowed(),
            final(self).auto_compact() == old(self).auto_compact() && final(self).threshold() == old(self).threshold(),
            final(self).breakpoints() == old(self).breakpoints(),
    {
        self.min_terminal_size = (width, height);
    }

    /// The width below which the layout is compact when that is automatic.
    pub fn compact_mode_threshold(&self) -> (res: u16)
        ensures
            res == self.threshold(),
    {
        self.compact_mode_threshold
    }

    /// Sets the width below which the layout is compact; with the compact
    /// mode automatic, it follows at once.
    pub fn set_compact_mode_threshold(&mut self, threshold: u16)
        ensures
            final(self).threshold() == threshold,
            final(self).compact() == if old(self).auto_compact() {
                old(self).size().0 < threshold
            } else {
                old(self).compact()
            },
            final(self).size() == old(self).size() && final(self).min_size() == old(self).min_size(),
            final(self).fullscreen() == old(self).fullscreen(),
            final(self).fullscreen_allowed() == old(self).fullscreen_allowed(),
            final(self).auto_compact() == old(self).auto_compact(),
            final(self).breakpoints() == old(self).breakpoints(),
    {
        self.compact_mode_threshold = threshold;
        if self.auto_compact_mode {
            self.compact_mode = self.terminal_size.0 < threshold;
        }
    }

    /// Whether the compact mode follows the terminal's width.
    pub fn is_auto_compact_mode(&self) -> (res: bool)
        ensures
            res == self.auto_compact(),
    {
        self.auto_compact_mode
    }

    /// Makes the compact mode follow the terminal's width or not; when it
    /// does, it follows at once.
    pub fn set_auto_compact_mode(&mut self, enabled: bool)
        ensures
            final(self).auto_compact() == enabled,
            final(self).compact() == if enabled {
                old(self).size().0 < old(self).threshold()
            } else {
                old(self).compact()
            },
            final(self).size() == old(self).size() && final(self).min_size() == old(self).min_size(),
            final(self).fullscreen() == old(self).fullscreen(),
            final(self).fullscreen_allowed() == old(self).fullscreen_allowed(),
            final(self).threshold() == old(self).threshold(),
            final(self).breakpoints() == old(self).breakpoints(),
    {
        self.auto_compact_mode = enabled;
        if enabled {
            self.compact_mode = self.terminal_size.0 < self.compact_mode_threshold;
        }
    }

    /// The breakpoints, in order.
    pub closed spec fn breakpoint_list(&self) -> Seq<ResponsiveBreakpoint> {
        self.responsive_breakpoints@
    }

    /// Adds a breakpoint, then orders the breakpoints by the area of their
    /// smallest terminal, smallest first, breakpoints of equal area in the
    /// order they had, the new one last among them.
    pub fn add_breakpoint(&mut self, breakpoint: ResponsiveBreakpoint)
        requires
            forall|i: int|
                0 <= i < old(self).breakpoint_list().len() ==> breakpoint_area(
                    #[trigger] old(self).breakpoint_list()[i],
                ) <= u16::MAX,
            breakpoint_area(breakpoint) <= u16::MAX,
        ensures
            priority_listing(
                keyed_by_area(final(self).breakpoint_list()),
                keyed_by_area(old(self).breakpoint_list().push(breakpoint)),
            ),
            final(self).breakpoints() == breakpoint_names(final(self).breakpoint_list()),
            final(self).size() == old(self).size() && final(self).min_size() == old(self).min_size(),
            final(self).compact() == old(self).compact(),
            final(self).fullscreen() == old(self).fullscreen(),
            final(self).fullscreen_allowed() == old(self).fullscreen_allowed(),
            final(self).auto_compact() == old(self).auto_compact() && final(self).threshold() == old(self).threshold(),
    {
        let mut all: Vec<ResponsiveBreakpoint> = Vec::new();
        std::mem::swap(&mut all, &mut self.responsive_breakpoints);
        all.push(breakpoint);
        let ghost input = all@;
        let n = all.len();
        assert forall|i: int| 0 <= i < input.len() implies breakpoint_area(#[trigger] input[i]) <= u16::MAX by {
            if i < input.len() - 1 {
                assert(input[i] == old(self).breakpoint_list()[i]);
            }
        }
        let mut keyed: Vec<(ResponsiveBreakpoint, i32)> = Vec::new();
        let mut i: usize = 0;
        while all.len() > 0
            invariant
                i + all@.len() == input.len(),
                all@ == input.skip(i as int),
                keyed@ == keyed_by_area(input.take(i as int)),
                forall|k: int| 0 <= k < input.len() ==> breakpoint_area(#[trigger] input[k]) <= u16::MAX,
                input.len() == n,
            decreases all@.len(),
        {
            let b = all.remove(0);
            assert(b == input[i as int]);
            let area: u16 = b.min_width * b.min_height;
            keyed.push((b, -(area as i32)));
            i = i + 1;
            assert(keyed@ =~= keyed_by_area(input.take(i as int)));
            assert(all@ =~= input.skip(i as int));
        }
        assert(input.take(i as int) =~= input);
        let ghost keyed_input = keyed@;
        let mut sorted = sort_by_priority(keyed);
        let ghost listed = sorted@;
        let m = sorted.len();
        let mut out: Vec<ResponsiveBreakpoint> = Vec::new();
        let mut j: usize = 0;
        while sorted.len() > 0
            invariant
                j + sorted@.len() == listed.len(),
                sorted@ == listed.skip(j as int),
                keyed_by_area(out@) == listed.take(j as int),
                priority_listing(listed, keyed_input),
                keyed_input == keyed_by_area(input),
                forall|k: int| 0 <= k < input.len() ==> breakpoint_area(#[trigger] input[k]) <= u16::MAX,
                listed.len() == m,
            decreases sorted@.len(),
        {
            let e = sorted.remove(0);
            assert(e == listed[j as int]);
            proof {
                lemma_listing_member(listed, keyed_input, j as int);
                let k = choose|k: int| 0 <= k < keyed_input.len() && keyed_input[k] == listed[j as int];
                assert(keyed_input[k] == (input[k], (-breakpoint_area(input[k])) as i32));
                assert(listed[j as int] == (e.0, (-breakpoint_area(e.0)) as i32));
            }
            let ghost before = out@;
            let ghost item = listed[j as int];
            out.push(e.0);
            assert(keyed_by_area(out@) =~= keyed_by_area(before).push(item));
            assert(listed.take(j + 1) =~= listed.take(j as int).push(item));
            j = j + 1;
            assert(sorted@ =~= listed.skip(j as int));
        }
        assert(listed.take(j as int) =~= listed);
        self.responsive_breakpoints = out;
        self.layout_cache.clear();
    }

    /// Removes the breakpoints named `name`, telling whether there was any.
    pub fn remove_breakpoint(&mut self, name: &str) -> (res: bool)
        ensures
            final(self).breakpoints() == without_name(old(self).breakpoints(), name@),
            res == (final(self).breakpoints().len() < old(self).breakpoints().len()),
            final(self).size() == old(self).size() && final(self).min_size() == old(self).min_size(),
            final(self).compact() == old(self).compact(),
            final(self).fullscreen() == old(self).fullscreen(),
            final(self).fullscreen_allowed() == old(self).fullscreen_allowed(),
            final(self).auto_compact() == old(self).auto_compact() && final(self).threshold() == old(self).threshold(),
    {
        let ghost h = breakpoint_names(self.responsive_breakpoints@);
        let initial = self.responsive_breakpoints.len();
        let mut kept: Vec<ResponsiveBreakpoint> = Vec::new();
        let mut rest: Vec<ResponsiveBreakpoint> = Vec::new();
        std::mem::swap(&mut rest, &mut self.responsive_breakpoints);
        let ghost all = rest@;
        let mut i: usize = 0;
        proof {
            reveal(Seq::filter);
            assert(h.take(0) =~= Seq::<Seq<char>>::empty());
            assert(breakpoint_names(kept@) =~= Seq::<Seq<char>>::empty());
        }
        while rest.len() > 0
            invariant
                h == breakpoint_names(all),
                initial == all.len(),
                i <= all.len(),
                i + rest@.len() == all.len(),
                rest@ == all.skip(i as int),
                kept@.len() <= i,
                breakpoint_names(kept@) == without_name(h.take(i as int), name@),
            decreases rest@.len(),
        {
            let ghost rest_before = rest@;
            let ghost before = breakpoint_names(kept@);
            let b = rest.remove(0);
            proof {
                assert(rest_before[0] == all[i as int]);
                assert(rest@ =~= all.skip(i + 1));
                assert(h.take(i + 1) =~= h.take(i as int).push(h[i as int]));
                assert(h[i as int] == b.name@);
                lemma_without_name_push(h.take(i as int), h[i as int], name@);
            }
            if !text_eq(b.name.as_str(), name) {
                kept.push(b);
                assert(breakpoint_names(kept@) =~= before.push(h[i as int]));
            }
            i = i + 1;
        }
        assert(h.take(i as int) =~= h);
        let removed = kept.len() < initial;
        self.responsive_breakpoints = kept;
        if removed {
            self.layout_cache.clear();
        }
        removed
    }

    /// The priorities of the widgets.
    pub fn priority_manager(&self) -> (res: &LayoutPriorityManager)
        ensures
            *res == self.priority_state(),
    {
        &self.layout_priority_manager
    }

    /// The priorities of the widgets, to change them.
    pub fn priority_manager_mut(&mut self) -> (res: &mut LayoutPriorityManager)
        ensures
            *res == old(self).priority_state(),
            final(self).priority_state() == *final(res),
            final(self).focus_state() == old(self).focus_state(),
            LayoutManager::same_frame(*old(self), *final(self)),
    {
        &mut self.layout_priority_manager
    }

    /// The focus among the widgets.
    pub fn focus_manager(&self) -> (res: &FocusManager)
        ensures
            *res == self.focus_state(),
    {
        &self.focus_manager
    }

    /// The focus among the widgets, to change it.
    pub fn focus_manager_mut(&mut self) -> (res: &mut FocusManager)
        ensures
            *res == old(self).focus_state(),
            final(self).focus_state() == *final(res),
            final(self).priority_state() == old(self).priority_state(),
            LayoutManager::same_frame(*old(self), *final(self)),
    {
        &mut self.focus_manager
    }
}

/// Focusing another widget and then going back returns the focus to the
/// widget focused before, as long as its state still lets it be focused
/// and the history keeps at least one widget.
pub proof fn law_back_after_focus(
    m0: FocusManager,
    m1: FocusManager,
    m2: FocusManager,
    a: Seq<char>,
    b: Seq<char>,
    now1: u64,
    now2: u64,
    r1: bool,
    r2: bool,
)
    requires
        m0.focused() == Some(a),
        a != b,
        m0.max_history() >= 1,
        focus_set(m0, m1, b, now1, r1),
        r1,
        focus_set_with(m1, m1.history().drop_last(), m2, m1.history().last(), now2, r2),
        !(entry_of(m1.states(), a) matches Some(st) && !st.focusable),
    ensures
        m1.history().len() > 0,
        m1.history().last() == a,
        r2,
        m2.focused() == Some(a),
{
    let r = without_name(m0.history(), a).push(a);
    assert(r.last() == a);
    if r.len() > m0.max_history() {
        assert(r.drop_first().last() == r.last());
    }
}


/// A node of the layout tree: a container whose children share its area
/// by its constraints, or a leaf that holds a widget.
#[derive(Debug)]
pub struct LayoutNode {
    pub id: String,
    pub direction: LayoutDirection,
    pub constraints: Vec<LayoutConstraints>,
    pub children: Vec<LayoutNode>,
    pub widget_id: Option<WidgetId>,
    pub size_constraints: Option<SizeConstraints>,
    pub advanced_constraints: Option<AdvancedSizeConstraints>,
    pub margin: Margin,
    pub padding: Padding,
    pub is_visible: bool,
    pub z_index: i32,
    pub priority: i32,
    pub is_collapsible: bool,
    pub is_collapsed: bool,
}

/// A layout node as plain values.
pub struct NodeView {
    pub id: Seq<char>,
    pub direction: LayoutDirection,
    pub constraints: Seq<LayoutConstraints>,
    pub children: Seq<NodeView>,
    pub widget: Option<Seq<char>>,
    pub size: Option<SizeConstraints>,
    pub advanced: Option<AdvancedSizeConstraints>,
    pub margin: Margin,
    pub padding: Padding,
    pub visible: bool,
    pub z_index: i32,
    pub priority: i32,
    pub collapsible: bool,
    pub collapsed: bool,
}

/// The name of an optional widget.
pub open spec fn opt_widget(w: Option<WidgetId>) -> Option<Seq<char>> {
    match w {
        Some(x) => Some(x.name()),
        None => None,
    }
}

/// A layout node as plain values, its children too.
pub open spec fn node_view(n: LayoutNode) -> NodeView
    decreases n,
{
    NodeView {
        id: n.id@,
        direction: n.direction,
        constraints: n.constraints@,
        children: Seq::new(
            n.children@.len(),
            |i: int|
                if 0 <= i < n.children@.len() {
                    node_view(n.children@[i])
                } else {
                    vstd::pervasive::arbitrary()
                },
        ),
        widget: opt_widget(n.widget_id),
        size: n.size_constraints,
        advanced: n.advanced_constraints,
        margin: n.margin,
        padding: n.padding,
        visible: n.is_visible,
        z_index: n.z_index,
        priority: n.priority,
        collapsible: n.is_collapsible,
        collapsed: n.is_collapsed,
    }
}

/// The views of a sequence of nodes.
pub open spec fn views(s: Seq<LayoutNode>) -> Seq<NodeView> {
    Seq::new(s.len(), |i: int| node_view(s[i]))
}

/// The children of a node's view are the views of its children.
pub proof fn lemma_children_views(n: LayoutNode)
    ensures
        node_view(n).children == views(n.children@),
{
    assert(node_view(n).children =~= views(n.children@));
}

/// A node with the fields of `n` and the children `kids`.
proof fn lemma_rebuilt_view(n: LayoutNode, kids: Vec<LayoutNode>, m: LayoutNode)
    requires
        m == (LayoutNode { children: kids, ..n }),
    ensures
        node_view(m) == (NodeView { children: views(kids@), ..node_view(n) }),
{
    assert(node_view(m).children =~= views(kids@));
}

impl LayoutNode {
    /// A container of the given id and direction, with no child, visible,
    /// priority and depth zero.
    pub fn new(id: String, direction: LayoutDirection) -> (res: Self)
        ensures
            node_view(res) == (NodeView {
                id: id@,
                direction,
                constraints: Seq::empty(),
                children: Seq::empty(),
                widget: None,
                size: None,
                advanced: None,
                margin: Margin { top: 0, right: 0, bottom: 0, left: 0 },
                padding: Padding { top: 0, right: 0, bottom: 0, left: 0 },
                visible: true,
                z_index: 0,
                priority: 0,
                collapsible: false,
                collapsed: false,
            }),
    {
        let res = LayoutNode {
            id,
            direction,
            constraints: Vec::new(),
            children: Vec::new(),
            widget_id: None,
            size_constraints: None,
            advanced_constraints: None,
            margin: Margin::default(),
            padding: Padding::default(),
            is_visible: true,
            z_index: 0,
            priority: 0,
            is_collapsible: false,
            is_collapsed: false,
        };
        assert(node_view(res).children =~= Seq::<NodeView>::empty());
        assert(node_view(res).constraints =~= Seq::<LayoutConstraints>::empty());
        res
    }

    /// A vertical leaf that holds `widget_id`.
    pub fn widget(id: String, widget_id: WidgetId) -> (res: Self)
        ensures
            node_view(res) == (NodeView {
                id: id@,
                direction: LayoutDirection::Vertical,
                constraints: Seq::empty(),
                children: Seq::empty(),
                widget: Some(widget_id.name()),
                size: None,
                advanced: None,
                margin: Margin { top: 0, right: 0, bottom: 0, left: 0 },
                padding: Padding { top: 0, right: 0, bottom: 0, left: 0 },
                visible: true,
                z_index: 0,
                priority: 0,
                collapsible: false,
                collapsed: false,
            }),
    {
        let mut res = LayoutNode::new(id, LayoutDirection::Vertical);
        res.widget_id = Some(widget_id);
        proof {
            lemma_children_views(res);
        }
        assert(node_view(res).children =~= Seq::<NodeView>::empty());
        res
    }

    /// This node with `child` added last, with `constraint`.
    pub fn add_child(self, child: LayoutNode, constraint: LayoutConstraints) -> (res: Self)
        ensures
            node_view(res) == (NodeView {
                constraints: node_view(self).constraints.push(constraint),
                children: node_view(self).children.push(node_view(child)),
                ..node_view(self)
            }),
    {
        let ghost before = self;
        let mut n = self;
        n.children.push(child);
        n.constraints.push(constraint);
        proof {
            lemma_children_views(before);
            lemma_children_views(n);
            assert(views(n.children@) =~= views(before.children@).push(node_view(child)));
        }
        n
    }

    /// This node with basic size constraints.
    pub fn with_size_constraints(self, constraints: SizeConstraints) -> (res: Self)
        ensures
            node_view(res) == (NodeView { size: Some(constraints), ..node_view(self) }),
    {
        let ghost before = self;
        let mut n = self;
        n.size_constraints = Some(constraints);
        proof {
            lemma_children_views(before);
            lemma_children_views(n);
        }
        n
    }

    /// This node with advanced size constraints.
    pub fn with_advanced_constraints(self, constraints: AdvancedSizeConstraints) -> (res: Self)
        ensures
            node_view(res) == (NodeView { advanced: Some(constraints), ..node_view(self) }),
    {
        let ghost before = self;
        let mut n = self;
        n.advanced_constraints = Some(constraints);
        proof {
            lemma_children_views(before);
            lemma_children_views(n);
        }
        n
    }

    /// This node with a margin.
    pub fn with_margin(self, margin: Margin) -> (res: Self)
        ensures
            node_view(res) == (NodeView { margin, ..node_view(self) }),
    {
        let ghost before = self;
        let mut n = self;
        n.margin = margin;
        proof {
            lemma_children_views(before);
            lemma_children_views(n);
        }
        n
    }

    /// This node with padding.
    pub fn with_padding(self, padding: Padding) -> (res: Self)
        ensures
            node_view(res) == (NodeView { padding, ..node_view(self) }),
    {
        let ghost before = self;
        let mut n = self;
        n.padding = padding;
        proof {
            lemma_children_views(before);
            lemma_children_views(n);
        }
        n
    }

    /// This node shown or not.
    pub fn with_visibility(self, visible: bool) -> (res: Self)
        ensures
            node_view(res) == (NodeView { visible, ..node_view(self) }),
    {
        let ghost before = self;
        let mut n = self;
        n.is_visible = visible;
        proof {
            lemma_children_views(before);
            lemma_children_views(n);
        }
        n
    }

    /// This node at depth `z_index`.
    pub fn with_z_index(self, z_index: i32) -> (res: Self)
        ensures
            node_view(res) == (NodeView { z_index, ..node_view(self) }),
    {
        let ghost before = self;
        let mut n = self;
        n.z_index = z_index;
        proof {
            lemma_children_views(before);
            lemma_children_views(n);
        }
        n
    }

    /// This node with a priority.
    pub fn with_priority(self, priority: i32) -> (res: Self)
        ensures
            node_view(res) == (NodeView { priority, ..node_view(self) }),
    {
        let ghost before = self;
        let mut n = self;
        n.priority = priority;
        proof {
            lemma_children_views(before);
            lemma_children_views(n);
        }
        n
    }

    /// This node, collapsible.
    pub fn collapsible(self) -> (res: Self)
        ensures
            node_view(res) == (NodeView { collapsible: true, ..node_view(self) }),
    {
        let ghost before = self;
        let mut n = self;
        n.is_collapsible = true;
        proof {
            lemma_children_views(before);
            lemma_children_views(n);
        }
        n
    }

    /// This node, collapsed or not.
    pub fn with_collapsed(self, collapsed: bool) -> (res: Self)
        ensures
            node_view(res) == (NodeView { collapsed, ..node_view(self) }),
    {
        let ghost before = self;
        let mut n = self;
        n.is_collapsed = collapsed;
        proof {
            lemma_children_views(before);
            lemma_children_views(n);
        }
        n
    }

    /// Collapses a collapsible node that is open, and opens it when
    /// collapsed; a node that cannot collapse stays as it is.
    pub fn toggle_collapsed(&mut self)
        ensures
            final(self).is_collapsed == (if old(self).is_collapsible {
                !old(self).is_collapsed
            } else {
                old(self).is_collapsed
            }),
            *final(self) == (LayoutNode { is_collapsed: final(self).is_collapsed, ..*old(self) }),
    {
        if self.is_collapsible {
            self.is_collapsed = !self.is_collapsed;
        }
    }

    /// Opens a collapsible node.
    pub fn expand(&mut self)
        ensures
            *final(self) == if old(self).is_collapsible {
                LayoutNode { is_collapsed: false, ..*old(self) }
            } else {
                *old(self)
            },
    {
        if self.is_collapsible {
            self.is_collapsed = false;
        }
    }

    /// Collapses a collapsible node.
    pub fn collapse(&mut self)
        ensures
            *final(self) == if old(self).is_collapsible {
                LayoutNode { is_collapsed: true, ..*old(self) }
            } else {
                *old(self)
            },
    {
        if self.is_collapsible {
            self.is_collapsed = true;
        }
    }
}


/// A change to a layout tree, as plain values.
pub enum EditView {
    /// The nodes of these widgets are hidden.
    Hide(Seq<Seq<char>>),
    /// The first node of this id takes this direction.
    Direction(Seq<char>, LayoutDirection),
    /// The first node of this id takes these constraints.
    Constraints(Seq<char>, Seq<LayoutConstraints>),
    /// The first node of this id takes this margin and padding.
    Spacing(Seq<char>, Margin, Padding),
    /// The first node of this widget takes this priority.
    Priority(Seq<char>, i32),
    /// Every margin and padding is cut to one cell at most.
    CompactMin,
    /// Every margin and padding is scaled by a fraction, and advanced
    /// constraints are eased.
    CompactScale(u16, u16),
    Nothing,
}

/// The change an adjustment makes to a layout tree.
pub open spec fn adjustment_edit(a: LayoutAdjustment) -> EditView {
    match a {
        LayoutAdjustment::HideWidgets(ids) => EditView::Hide(names(ids@)),
        LayoutAdjustment::ChangeDirection(id, d) => EditView::Direction(id@, d),
        LayoutAdjustment::ModifyConstraints(id, cs) => EditView::Constraints(id@, cs@),
        LayoutAdjustment::CompactMode(on) => if on {
            EditView::CompactMin
        } else {
            EditView::Nothing
        },
        LayoutAdjustment::AdjustSpacing(id, m, p) => EditView::Spacing(id@, m, p),
        LayoutAdjustment::SetPriority(w, p) => EditView::Priority(w.name(), p),
        LayoutAdjustment::SetScrollable(_, _) => EditView::Nothing,
    }
}

/// `v` cut to one at most.
pub open spec fn at_most_one(v: u16) -> u16 {
    if v < 1 { v } else { 1 }
}

/// `v` scaled by `num / den`, rounded down, at most the largest `u16`; a
/// zero denominator leaves it.
pub open spec fn scale_by(v: u16, num: u16, den: u16) -> u16 {
    if den == 0 {
        v
    } else if (v as int) * (num as int) / (den as int) > u16::MAX {
        u16::MAX
    } else {
        ((v as int) * (num as int) / (den as int)) as u16
    }
}

/// Four fifths of an optional size, rounded down.
pub open spec fn four_fifths(v: Option<u16>) -> Option<u16> {
    match v {
        Some(m) => Some(((m as int) * 4 / 5) as u16),
        None => None,
    }
}

/// A node's own fields after the compact mode scales its spacing by
/// `num / den`: advanced constraints become flexible, their least sizes
/// drop to four fifths, and a negative priority makes the widget hideable.
pub open spec fn compact_here(n: NodeView, num: u16, den: u16) -> NodeView {
    NodeView {
        margin: Margin {
            top: scale_by(n.margin.top, num, den),
            right: scale_by(n.margin.right, num, den),
            bottom: scale_by(n.margin.bottom, num, den),
            left: scale_by(n.margin.left, num, den),
        },
        padding: Padding {
            top: scale_by(n.padding.top, num, den),
            right: scale_by(n.padding.right, num, den),
            bottom: scale_by(n.padding.bottom, num, den),
            left: scale_by(n.padding.left, num, den),
        },
        advanced: match n.advanced {
            Some(a) => Some(
                AdvancedSizeConstraints {
                    flexible: true,
                    basic: SizeConstraints {
                        min_width: four_fifths(a.basic.min_width),
                        min_height: four_fifths(a.basic.min_height),
                        ..a.basic
                    },
                    hideable: if a.priority < 0 { true } else { a.hideable },
                    ..a
                },
            ),
            None => None,
        },
        ..n
    }
}

/// What an edit does at one node, and whether it was the node it looked
/// for (an edit of every node never stops at one).
pub open spec fn edit_here(n: NodeView, e: EditView) -> (NodeView, bool) {
    match e {
        EditView::Hide(ids) => (
            NodeView { visible: n.visible && !(n.widget matches Some(w) && ids.contains(w)), ..n },
            false,
        ),
        EditView::Direction(id, d) => if n.id == id {
            (NodeView { direction: d, ..n }, true)
        } else {
            (n, false)
        },
        EditView::Constraints(id, cs) => if n.id == id {
            (NodeView { constraints: cs, ..n }, true)
        } else {
            (n, false)
        },
        EditView::Spacing(id, m, p) => if n.id == id {
            (NodeView { margin: m, padding: p, ..n }, true)
        } else {
            (n, false)
        },
        EditView::Priority(w, p) => if n.widget == Some(w) {
            (NodeView { priority: p, ..n }, true)
        } else {
            (n, false)
        },
        EditView::CompactMin => (
            NodeView {
                margin: Margin {
                    top: at_most_one(n.margin.top),
                    right: at_most_one(n.margin.right),
                    bottom: at_most_one(n.margin.bottom),
                    left: at_most_one(n.margin.left),
                },
                padding: Padding {
                    top: at_most_one(n.padding.top),
                    right: at_most_one(n.padding.right),
                    bottom: at_most_one(n.padding.bottom),
                    left: at_most_one(n.padding.left),
                },
                ..n
            },
            false,
        ),
        EditView::CompactScale(num, den) => (compact_here(n, num, den), false),
        EditView::Nothing => (n, false),
    }
}

/// A tree after edit `e`, looking at the nodes in order (a node before its
/// children): once `done`, nothing more changes; an edit of one node stops
/// at the first node it looks for. Also whether it stopped.
pub open spec fn edited(n: NodeView, e: EditView, done: bool) -> (NodeView, bool)
    decreases n,
{
    if done {
        (n, true)
    } else {
        let (m, hit) = edit_here(n, e);
        if hit {
            (m, true)
        } else {
            let (kids, d) = edited_all(n.children, e, false);
            (NodeView { children: kids, ..m }, d)
        }
    }
}

/// A sequence of trees after edit `e`, in order.
pub open spec fn edited_all(s: Seq<NodeView>, e: EditView, done: bool) -> (Seq<NodeView>, bool)
    decreases s,
{
    if s.len() == 0 {
        (s, done)
    } else {
        proof {
            vstd::seq::axiom_seq_len_decreases(s, s.drop_last());
        }
        let (pre, d1) = edited_all(s.drop_last(), e, done);
        let (x, d2) = edited(s.last(), e, d1);
        (pre.push(x), d2)
    }
}

/// A copy of a list of constraints.
fn copy_constraints(v: &Vec<LayoutConstraints>) -> (res: Vec<LayoutConstraints>)
    ensures
        res@ == v@,
{
    let mut res: Vec<LayoutConstraints> = Vec::new();
    let mut i: usize = 0;
    while i < v.len()
        invariant
            i <= v@.len(),
            res@ == v@.take(i as int),
        decreases v@.len() - i,
    {
        res.push(v[i]);
        i = i + 1;
        assert(res@ =~= v@.take(i as int));
    }
    assert(v@.take(i as int) =~= v@);
    res
}

/// `v` scaled by `num / den`.
fn scale_exec(v: u16, num: u16, den: u16) -> (res: u16)
    ensures
        res == scale_by(v, num, den),
{
    if den == 0 {
        return v;
    }
    let a = v as u32;
    let b = num as u32;
    assert(a * b <= 65535 * 65535) by (nonlinear_arith)
        requires
            a <= 65535,
            b <= 65535,
    ;
    let x: u32 = a * b / (den as u32);
    if x > 65535 { 65535 } else { x as u16 }
}

/// Four fifths of an optional size.
fn four_fifths_exec(v: Option<u16>) -> (res: Option<u16>)
    ensures
        res == four_fifths(v),
{
    match v {
        Some(m) => Some(((m as u32) * 4 / 5) as u16),
        None => None,
    }
}

/// A node with its own fields changed by `e`; its children stay.
fn edit_here_exec(node: LayoutNode, e: &LayoutAdjustment) -> (res: (LayoutNode, bool))
    ensures
        res.0.children == node.children,
        (node_view(res.0), res.1) == edit_here(node_view(node), adjustment_edit(*e)),
{
    let ghost before = node;
    let mut n = node;
    let hit = match e {
        LayoutAdjustment::HideWidgets(ids) => {
            let hide = match &n.widget_id {
                Some(w) => FocusManager::contains_id(ids.as_slice(), w),
                None => false,
            };
            if hide {
                n.is_visible = false;
            }
            false
        },
        LayoutAdjustment::ChangeDirection(id, d) => {
            if text_eq(n.id.as_str(), id.as_str()) {
                n.direction = *d;
                true
            } else {
                false
            }
        },
        LayoutAdjustment::ModifyConstraints(id, cs) => {
            if text_eq(n.id.as_str(), id.as_str()) {
                n.constraints = copy_constraints(cs);
                true
            } else {
                false
            }
        },
        LayoutAdjustment::CompactMode(on) => {
            if *on {
                n.margin = Margin {
                    top: if n.margin.top < 1 { n.margin.top } else { 1 },
                    right: if n.margin.right < 1 { n.margin.right } else { 1 },
                    bottom: if n.margin.bottom < 1 { n.margin.bottom } else { 1 },
                    left: if n.margin.left < 1 { n.margin.left } else { 1 },
                };
                n.padding = Padding {
                    top: if n.padding.top < 1 { n.padding.top } else { 1 },
                    right: if n.padding.right < 1 { n.padding.right } else { 1 },
                    bottom: if n.padding.bottom < 1 { n.padding.bottom } else { 1 },
                    left: if n.padding.left < 1 { n.padding.left } else { 1 },
                };
            }
            false
        },
        LayoutAdjustment::AdjustSpacing(id, m, p) => {
            if text_eq(n.id.as_str(), id.as_str()) {
                n.margin = *m;
                n.padding = *p;
                true
            } else {
                false
            }
        },
        LayoutAdjustment::SetPriority(w, p) => {
            let same = match &n.widget_id {
                Some(x) => x.same_as(w),
                None => false,
            };
            if same {
                n.priority = *p;
            }
            same
        },
        LayoutAdjustment::SetScrollable(_, _) => false,
    };
    proof {
        lemma_children_views(before);
        lemma_children_views(n);
    }
    (n, hit)
}

/// A node with its own fields changed by the compact mode's scaling.
fn compact_here_exec(node: LayoutNode, num: u16, den: u16) -> (res: LayoutNode)
    ensures
        res.children == node.children,
        node_view(res) == compact_here(node_view(node), num, den),
{
    let ghost before = node;
    let mut n = node;
    n.margin = Margin {
        top: scale_exec(n.margin.top, num, den),
        right: scale_exec(n.margin.right, num, den),
        bottom: scale_exec(n.margin.bottom, num, den),
        left: scale_exec(n.margin.left, num, den),
    };
    n.padding = Padding {
        top: scale_exec(n.padding.top, num, den),
        right: scale_exec(n.padding.right, num, den),
        bottom: scale_exec(n.padding.bottom, num, den),
        left: scale_exec(n.padding.left, num, den),
    };
    n.advanced_constraints = match n.advanced_constraints {
        Some(a) => {
            let mut b = a;
            b.flexible = true;
            b.basic.min_width = four_fifths_exec(a.basic.min_width);
            b.basic.min_height = four_fifths_exec(a.basic.min_height);
            if a.priority < 0 {
                b.hideable = true;
            }
            Some(b)
        },
        None => None,
    };
    proof {
        lemma_children_views(before);
        lemma_children_views(n);
    }
    n
}

/// A tree after adjustment `e`; see `edited`.
fn edit_node(node: LayoutNode, e: &LayoutAdjustment, done: bool) -> (res: (LayoutNode, bool))
    ensures
        (node_view(res.0), res.1) == edited(node_view(node), adjustment_edit(*e), done),
    decreases node,
{
    if done {
        return (node, true);
    }
    let ghost n0 = node;
    let (mut here, hit) = edit_here_exec(node, e);
    if hit {
        return (here, true);
    }
    let ghost h0 = here;
    let mut kids: Vec<LayoutNode> = Vec::new();
    std::mem::swap(&mut kids, &mut here.children);
    let ghost orig = kids@;
    let ghost e0 = adjustment_edit(*e);
    let mut out: Vec<LayoutNode> = Vec::new();
    let mut d = false;
    let ghost mut k: int = 0;
    proof {
        lemma_children_views(n0);
        assert(views(out@) =~= edited_all(views(orig).take(0), e0, false).0);
    }
    while kids.len() > 0
        invariant
            orig == n0.children@,
            n0 == node,
            e0 == adjustment_edit(*e),
            0 <= k <= orig.len(),
            k + kids@.len() == orig.len(),
            kids@ == orig.skip(k),
            (views(out@), d) == edited_all(views(orig).take(k), e0, false),
        decreases kids@.len(),
    {
        let c = kids.remove(0);
        proof {
            assert(c == orig[k]);
            broadcast use vstd::std_specs::vec::axiom_vec_decreases_to_view;
            assert(decreases_to!(n0 => n0.children));
            assert(decreases_to!(n0.children => n0.children@));
            assert(decreases_to!(n0.children@ => n0.children@[k]));
            assert(decreases_to!(node => c));
        }
        let ghost before = out@;
        let (c2, d2) = edit_node(c, e, d);
        out.push(c2);
        proof {
            let t = views(orig).take(k + 1);
            assert(t.drop_last() =~= views(orig).take(k));
            assert(t.last() == node_view(c));
            assert(views(out@) =~= views(before).push(node_view(c2)));
        }
        d = d2;
        proof {
            k = k + 1;
        }
        assert(kids@ =~= orig.skip(k));
    }
    proof {
        assert(views(orig).take(k) =~= views(orig));
    }
    let ghost h1 = here;
    here.children = out;
    proof {
        lemma_rebuilt_view(h1, out, here);
        lemma_children_views(h0);
        assert(h0.children == n0.children);
        assert(node_view(h1) == (NodeView { children: views(h1.children@), ..node_view(h0) })) by {
            lemma_rebuilt_view(h0, h1.children, h1);
        }
    }
    (here, d)
}

/// A tree after the compact mode's scaling by `num / den`, every node.
fn compact_node(node: LayoutNode, num: u16, den: u16) -> (res: LayoutNode)
    ensures
        node_view(res) == edited(node_view(node), EditView::CompactScale(num, den), false).0,
    decreases node,
{
    let ghost n0 = node;
    let mut here = compact_here_exec(node, num, den);
    let ghost h0 = here;
    let mut kids: Vec<LayoutNode> = Vec::new();
    std::mem::swap(&mut kids, &mut here.children);
    let ghost orig = kids@;
    let ghost e0 = EditView::CompactScale(num, den);
    let mut out: Vec<LayoutNode> = Vec::new();
    let ghost mut k: int = 0;
    proof {
        lemma_children_views(n0);
        assert(views(out@) =~= edited_all(views(orig).take(0), e0, false).0);
        assert(edited_all(views(orig).take(0), e0, false).1 == false);
    }
    while kids.len() > 0
        invariant
            orig == n0.children@,
            n0 == node,
            e0 == EditView::CompactScale(num, den),
            0 <= k <= orig.len(),
            k + kids@.len() == orig.len(),
            kids@ == orig.skip(k),
            (views(out@), false) == edited_all(views(orig).take(k), e0, false),
        decreases kids@.len(),
    {
        let c = kids.remove(0);
        proof {
            assert(c == orig[k]);
            broadcast use vstd::std_specs::vec::axiom_vec_decreases_to_view;
            assert(decreases_to!(n0 => n0.children));
            assert(decreases_to!(n0.children => n0.children@));
            assert(decreases_to!(n0.children@ => n0.children@[k]));
            assert(decreases_to!(node => c));
        }
        let ghost before = out@;
        let c2 = compact_node(c, num, den);
        out.push(c2);
        proof {
            lemma_compact_keeps_going(node_view(c), num, den);
            let t = views(orig).take(k + 1);
            assert(t.drop_last() =~= views(orig).take(k));
            assert(t.last() == node_view(c));
            assert(views(out@) =~= views(before).push(node_view(c2)));
        }
        proof {
            k = k + 1;
        }
        assert(kids@ =~= orig.skip(k));
    }
    proof {
        assert(views(orig).take(k) =~= views(orig));
    }
    let ghost h1 = here;
    here.children = out;
    proof {
        lemma_rebuilt_view(h1, out, here);
        lemma_children_views(h0);
        assert(node_view(h1) == (NodeView { children: views(h1.children@), ..node_view(h0) })) by {
            lemma_rebuilt_view(h0, h1.children, h1);
        }
    }
    here
}

/// An edit of every node never stops.
proof fn lemma_compact_keeps_going(n: NodeView, num: u16, den: u16)
    ensures
        edited(n, EditView::CompactScale(num, den), false).1 == false,
    decreases n,
{
    lemma_compact_all_keeps_going(n.children, num, den);
}

/// An edit of every node never stops, over a sequence.
proof fn lemma_compact_all_keeps_going(s: Seq<NodeView>, num: u16, den: u16)
    ensures
        edited_all(s, EditView::CompactScale(num, den), false).1 == false,
    decreases s,
{
    if s.len() > 0 {
        vstd::seq::axiom_seq_len_decreases(s, s.drop_last());
        lemma_compact_all_keeps_going(s.drop_last(), num, den);
        lemma_compact_keeps_going(s.last(), num, den);
    }
}

/// When a dynamic adjustment applies.
#[derive(Debug)]
pub enum AdjustmentCondition {
    /// The terminal's size is within these bounds.
    TerminalSize { min_width: u16, max_width: u16, min_height: u16, max_height: u16 },
    /// The layout tree holds between so many widgets.
    WidgetCount { min_count: usize, max_count: usize },
    /// Within a processor use, in percent, and a memory use, in megabytes;
    /// never met, as nothing measures them here.
    Performance { max_cpu_percent: u16, max_memory_mb: u64 },
    /// Between two hours of the day; never met.
    TimeOfDay { start_hour: u8, end_hour: u8 },
    /// A condition by name; never met.
    Custom(String),
}

/// A change the layout makes while its condition holds.
#[derive(Debug)]
pub struct DynamicAdjustment {
    pub id: String,
    pub condition: AdjustmentCondition,
    pub adjustment: LayoutAdjustment,
    pub priority: i32,
    pub enabled: bool,
}

/// How often a layout was computed, and how often it was found kept.
#[derive(Debug, Clone, Copy, PartialEq, Eq, Structural)]
pub struct LayoutPerformanceMetrics {
    pub total_calculations: u64,
    pub cache_hits: u64,
    pub cache_misses: u64,
}

/// The number of widgets in a tree.
pub open spec fn widget_count(n: NodeView) -> nat
    decreases n,
{
    (if n.widget is Some { 1nat } else { 0nat }) + widget_count_all(n.children)
}

/// The number of widgets in a sequence of trees.
pub open spec fn widget_count_all(s: Seq<NodeView>) -> nat
    decreases s,
{
    if s.len() == 0 {
        0
    } else {
        proof {
            vstd::seq::axiom_seq_len_decreases(s, s.drop_last());
        }
        widget_count_all(s.drop_last()) + widget_count(s.last())
    }
}

/// `v`, at most the largest `usize`.
pub open spec fn capped(v: nat) -> usize {
    if v > usize::MAX { usize::MAX } else { v as usize }
}

/// The number of widgets in a tree, at most the largest `usize`.
pub fn count_widgets_in_node(node: &LayoutNode) -> (res: usize)
    ensures
        res == capped(widget_count(node_view(*node))),
    decreases node,
{
    proof {
        lemma_children_views(*node);
    }
    let mut count: usize = if node.widget_id.is_some() { 1 } else { 0 };
    let kids = &node.children;
    let ghost kv = views(kids@);
    let ghost own: nat = if node.widget_id is Some { 1nat } else { 0nat };
    assert(kv.take(0) =~= Seq::<NodeView>::empty());
    let mut j: usize = 0;
    while j < kids.len()
        invariant
            j <= kids@.len(),
            kv == views(kids@),
            kids == &node.children,
            count == capped(own + widget_count_all(kv.take(j as int))),
        decreases kids@.len() - j,
    {
        proof {
            assert(decreases_to!(*node => node.children));
            assert(decreases_to!(node.children => node.children@));
            assert(decreases_to!(node.children@ => node.children@[j as int]));
            assert(decreases_to!(*node => kids@[j as int]));
        }
        let c = count_widgets_in_node(&kids[j]);
        proof {
            assert(kv.take(j + 1).drop_last() =~= kv.take(j as int));
            assert(kv.take(j + 1).last() == node_view(kids@[j as int]));
        }
        count = count.saturating_add(c);
        j = j + 1;
    }
    assert(kv.take(j as int) =~= kv);
    count
}

/// Whether condition `c` holds at terminal size `size` with `count`
/// widgets in the tree.
pub open spec fn condition_holds(c: AdjustmentCondition, size: (u16, u16), count: usize) -> bool {
    match c {
        AdjustmentCondition::TerminalSize { min_width, max_width, min_height, max_height } => size.0 >= min_width
            && size.0 <= max_width && size.1 >= min_height && size.1 <= max_height,
        AdjustmentCondition::WidgetCount { min_count, max_count } => count >= min_count && count <= max_count,
        _ => false,
    }
}

/// Whether condition `c` holds; see `condition_holds`.
pub fn evaluate_adjustment_condition(c: &AdjustmentCondition, size: (u16, u16), count: usize) -> (res: bool)
    ensures
        res == condition_holds(*c, size, count),
{
    match c {
        AdjustmentCondition::TerminalSize { min_width, max_width, min_height, max_height } => size.0 >= *min_width
            && size.0 <= *max_width && size.1 >= *min_height && size.1 <= *max_height,
        AdjustmentCondition::WidgetCount { min_count, max_count } => count >= *min_count && count <= *max_count,
        _ => false,
    }
}

/// A copy of a layout tree.
pub fn copy_node(n: &LayoutNode) -> (res: LayoutNode)
    ensures
        node_view(res) == node_view(*n),
    decreases n,
{
    proof {
        lemma_children_views(*n);
    }
    let kids = &n.children;
    let mut out: Vec<LayoutNode> = Vec::new();
    let mut j: usize = 0;
    while j < kids.len()
        invariant
            j <= kids@.len(),
            kids == &n.children,
            views(out@) == views(kids@).take(j as int),
        decreases kids@.len() - j,
    {
        proof {
            assert(decreases_to!(*n => n.children));
            assert(decreases_to!(n.children => n.children@));
            assert(decreases_to!(n.children@ => n.children@[j as int]));
            assert(decreases_to!(*n => kids@[j as int]));
        }
        let c = copy_node(&kids[j]);
        let ghost before = out@;
        out.push(c);
        assert(views(out@) =~= views(before).push(node_view(c)));
        assert(views(kids@).take(j + 1) =~= views(kids@).take(j as int).push(views(kids@)[j as int]));
        j = j + 1;
    }
    assert(views(kids@).take(j as int) =~= views(kids@));
    let widget_id = match &n.widget_id {
        Some(w) => Some(w.clone()),
        None => None,
    };
    let res = LayoutNode {
        id: n.id.clone(),
        direction: n.direction,
        constraints: copy_constraints(&n.constraints),
        children: out,
        widget_id,
        size_constraints: n.size_constraints,
        advanced_constraints: n.advanced_constraints,
        margin: n.margin,
        padding: n.padding,
        is_visible: n.is_visible,
        z_index: n.z_index,
        priority: n.priority,
        is_collapsible: n.is_collapsible,
        is_collapsed: n.is_collapsed,
    };
    proof {
        lemma_children_views(res);
        assert(node_view(res) =~= node_view(*n));
    }
    res
}

/// A tree after the adjustments `adjs`, in order, each looking from the
/// root.
pub open spec fn responsive_edits(adjs: Seq<LayoutAdjustment>, n: NodeView) -> NodeView
    decreases adjs.len(),
{
    if adjs.len() == 0 {
        n
    } else {
        edited(responsive_edits(adjs.drop_last(), n), adjustment_edit(adjs.last()), false).0
    }
}

/// A tree after those of the dynamic adjustments `adjs`, in order, that
/// are enabled and whose conditions hold at `size` with `count` widgets.
pub open spec fn dynamic_edits(adjs: Seq<DynamicAdjustment>, size: (u16, u16), count: usize, n: NodeView) -> NodeView
    decreases adjs.len(),
{
    if adjs.len() == 0 {
        n
    } else {
        let m = dynamic_edits(adjs.drop_last(), size, count, n);
        let a = adjs.last();
        if a.enabled && condition_holds(a.condition, size, count) {
            edited(m, adjustment_edit(a.adjustment), false).0
        } else {
            m
        }
    }
}

/// The breakpoint in force for a terminal of `size`, if any.
pub open spec fn active_index(bps: Seq<ResponsiveBreakpoint>, size: (u16, u16)) -> Option<int> {
    if exists|i: int| is_active_breakpoint(bps, size, i) {
        Some(choose|i: int| is_active_breakpoint(bps, size, i))
    } else {
        None
    }
}

/// At most one breakpoint is in force.
proof fn lemma_active_unique(bps: Seq<ResponsiveBreakpoint>, size: (u16, u16), i: int, j: int)
    requires
        is_active_breakpoint(bps, size, i),
        is_active_breakpoint(bps, size, j),
    ensures
        i == j,
{
    if i < j {
        assert(fits(bps[j], size));
        assert(fits(bps[i], size));
    } else if j < i {
        assert(fits(bps[j], size));
        assert(fits(bps[i], size));
    }
}

/// The tree `n` after the breakpoint in force at `size` in `bps`, the
/// compact mode's scaling by `spacing` when `compact`, and the dynamic
/// adjustments `dyns` that apply, counting the widgets of `n`.
pub open spec fn adjusted(
    n: NodeView,
    bps: Seq<ResponsiveBreakpoint>,
    size: (u16, u16),
    compact: bool,
    spacing: (u16, u16),
    dyns: Seq<DynamicAdjustment>,
) -> NodeView {
    let r = match active_index(bps, size) {
        Some(i) => responsive_edits(bps[i].layout_adjustments@, n),
        None => n,
    };
    let c = if compact {
        edited(r, EditView::CompactScale(spacing.0, spacing.1), false).0
    } else {
        r
    };
    dynamic_edits(dyns, size, capped(widget_count(n)), c)
}

/// The tree after the adjustments `adjs`, in order; see `responsive_edits`.
fn apply_adjustments(node: LayoutNode, adjs: &Vec<LayoutAdjustment>) -> (res: LayoutNode)
    ensures
        node_view(res) == responsive_edits(adjs@, node_view(node)),
{
    let ghost n0 = node_view(node);
    let mut n = node;
    let mut k: usize = 0;
    while k < adjs.len()
        invariant
            k <= adjs@.len(),
            node_view(n) == responsive_edits(adjs@.take(k as int), n0),
        decreases adjs@.len() - k,
    {
        let (m, _) = edit_node(n, &adjs[k], false);
        n = m;
        proof {
            assert(adjs@.take(k + 1).drop_last() =~= adjs@.take(k as int));
        }
        k = k + 1;
    }
    assert(adjs@.take(k as int) =~= adjs@);
    n
}

/// The tree after the dynamic adjustments that apply.
fn apply_dynamic(node: LayoutNode, adjs: &Vec<DynamicAdjustment>, size: (u16, u16), count: usize) -> (res: LayoutNode)
    ensures
        node_view(res) == dynamic_edits(adjs@, size, count, node_view(node)),
{
    let ghost n0 = node_view(node);
    let mut n = node;
    let mut k: usize = 0;
    while k < adjs.len()
        invariant
            k <= adjs@.len(),
            node_view(n) == dynamic_edits(adjs@.take(k as int), size, count, n0),
        decreases adjs@.len() - k,
    {
        let a = &adjs[k];
        proof {
            assert(adjs@.take(k + 1).drop_last() =~= adjs@.take(k as int));
        }
        if a.enabled && evaluate_adjustment_condition(&a.condition, size, count) {
            let (m, _) = edit_node(n, &a.adjustment, false);
            n = m;
        }
        k = k + 1;
    }
    assert(adjs@.take(k as int) =~= adjs@);
    n
}

/// The terminal's whole area.
pub open spec fn screen(size: (u16, u16)) -> Rect {
    Rect { x: 0, y: 0, width: size.0, height: size.1 }
}

/// Nothing placed.
pub open spec fn nothing_placed() -> Placed {
    Placed { areas: Seq::empty(), overflow: Seq::empty(), hidden: Seq::empty() }
}

/// What computing a layout comes to.
pub enum LayoutOutcome {
    /// Where the widgets go.
    Done(Placed),
    /// There is no layout tree.
    NoRoot,
    /// Placing the widgets failed.
    Failed(PlaceError),
}

/// The layout kept for `key`, the latest when several are.
pub open spec fn cached(c: Seq<((u16, u16, bool), Placed)>, key: (u16, u16, bool)) -> Option<Placed>
    decreases c.len(),
{
    if c.len() == 0 {
        None
    } else if c.last().0 == key {
        Some(c.last().1)
    } else {
        cached(c.drop_last(), key)
    }
}

/// The layouts kept after keeping `p` for `key`: the oldest goes first
/// when `limit` are kept already.
pub open spec fn kept(c: Seq<((u16, u16, bool), Placed)>, limit: usize, key: (u16, u16, bool), p: Placed) -> Seq<
    ((u16, u16, bool), Placed),
> {
    let d = if c.len() >= limit && c.len() > 0 { c.drop_first() } else { c };
    d.push((key, p))
}

/// One more, at most the largest `u64`.
pub open spec fn bump(v: u64) -> u64 {
    if v < u64::MAX { (v + 1) as u64 } else { v }
}

/// The text of a failure to place the widgets.
pub open spec fn place_error_text(e: PlaceError) -> Seq<char> {
    match e {
        PlaceError::Overflow => "Layout area overflow"@,
        PlaceError::Mismatch(a, b) => "Layout calculation mismatch: expected "@ + decimal_text(a as nat) + " areas, got "@
            + decimal_text(b as nat),
    }
}

/// Whether `res` is what outcome `o` gives on a terminal of `size`.
pub open spec fn outcome_is(res: Result<LayoutResult, LayoutError>, o: LayoutOutcome, size: (u16, u16)) -> bool {
    match o {
        LayoutOutcome::Done(p) => res matches Ok(r) && placed_view(r) == p && r.total_area == screen(size),
        LayoutOutcome::NoRoot => res matches Err(LayoutError::ConfigError { message }) && message@
            == "No root layout node configured"@,
        LayoutOutcome::Failed(e) => res matches Err(LayoutError::CalculationError { message }) && message@
            == place_error_text(e),
    }
}

/// The first node of a tree, a node before its children, whose number of
/// constraints is not its number of children: its id and both numbers.
pub open spec fn first_mismatch(n: NodeView) -> Option<(Seq<char>, nat, nat)>
    decreases n,
{
    if n.children.len() != 0 && n.constraints.len() != n.children.len() {
        Some((n.id, n.children.len(), n.constraints.len()))
    } else {
        first_mismatch_all(n.children)
    }
}

/// The first such node in a sequence of trees.
pub open spec fn first_mismatch_all(s: Seq<NodeView>) -> Option<(Seq<char>, nat, nat)>
    decreases s,
{
    if s.len() == 0 {
        None
    } else {
        proof {
            vstd::seq::axiom_seq_len_decreases(s, s.drop_last());
        }
        match first_mismatch_all(s.drop_last()) {
            Some(t) => Some(t),
            None => first_mismatch(s.last()),
        }
    }
}

/// The text of a tree refused for such a node.
pub open spec fn mismatch_text(t: (Seq<char>, nat, nat)) -> Seq<char> {
    "Node '"@ + t.0 + "' has "@ + decimal_text(t.1) + " children but "@ + decimal_text(t.2) + " constraints"@
}

/// Refuses a tree with a node whose number of constraints is not its
/// number of children; see `first_mismatch`.
pub fn validate_layout_node(node: &LayoutNode) -> (res: Result<(), LayoutError>)
    ensures
        res is Ok <==> first_mismatch(node_view(*node)) is None,
        res matches Err(e) ==> (first_mismatch(node_view(*node)) matches Some(t) && (e matches LayoutError::ConfigError {
            message,
        } && message@ == mismatch_text(t))),
    decreases node,
{
    proof {
        lemma_children_views(*node);
    }
    let kids = &node.children;
    if kids.len() != 0 && node.constraints.len() != kids.len() {
        let mut s = String::from_str("Node '");
        s.append(node.id.as_str());
        s.append("' has ");
        let a = crate::action::decimal_string(kids.len());
        s.append(a.as_str());
        s.append(" children but ");
        let b = crate::action::decimal_string(node.constraints.len());
        s.append(b.as_str());
        s.append(" constraints");
        return Err(LayoutError::ConfigError { message: s });
    }
    let ghost kv = views(kids@);
    assert(kv.take(0) =~= Seq::<NodeView>::empty());
    assert(first_mismatch(node_view(*node)) == first_mismatch_all(kv));
    let mut j: usize = 0;
    while j < kids.len()
        invariant
            j <= kids@.len(),
            kv == views(kids@),
            kids == &node.children,
            first_mismatch(node_view(*node)) == first_mismatch_all(kv),
            first_mismatch_all(kv.take(j as int)) is None,
        decreases kids@.len() - j,
    {
        proof {
            assert(decreases_to!(*node => node.children));
            assert(decreases_to!(node.children => node.children@));
            assert(decreases_to!(node.children@ => node.children@[j as int]));
            assert(decreases_to!(*node => kids@[j as int]));
            assert(kv.take(j + 1).drop_last() =~= kv.take(j as int));
            assert(kv.take(j + 1).last() == node_view(kids@[j as int]));
        }
        let r = validate_layout_node(&kids[j]);
        if r.is_err() {
            proof {
                lemma_mismatch_stays(kv, j + 1);
            }
            return r;
        }
        j = j + 1;
    }
    assert(kv.take(j as int) =~= kv);
    Ok(())
}

/// Once a prefix holds such a node, the whole sequence has it first.
proof fn lemma_mismatch_stays(s: Seq<NodeView>, j: int)
    requires
        0 <= j <= s.len(),
        first_mismatch_all(s.take(j)) is Some,
    ensures
        first_mismatch_all(s) == first_mismatch_all(s.take(j)),
    decreases s.len() - j,
{
    if j < s.len() {
        assert(s.take(j + 1).drop_last() =~= s.take(j));
        lemma_mismatch_stays(s, j + 1);
    } else {
        assert(s.take(j) =~= s);
    }
}

/// A layout just kept is the one found for its key.
pub proof fn law_kept_is_found(c: Seq<((u16, u16, bool), Placed)>, limit: usize, key: (u16, u16, bool), p: Placed)
    ensures
        cached(kept(c, limit, key, p), key) == Some(p),
{
}

/// The failure to place widgets as a layout error.
fn place_error_to(e: PlaceError) -> (res: LayoutError)
    ensures
        res matches LayoutError::CalculationError { message } && message@ == place_error_text(e),
{
    match e {
        PlaceError::Overflow => LayoutError::CalculationError { message: String::from_str("Layout area overflow") },
        PlaceError::Mismatch(a, b) => {
            let mut s = String::from_str("Layout calculation mismatch: expected ");
            let x = crate::action::decimal_string(a);
            s.append(x.as_str());
            s.append(" areas, got ");
            let y = crate::action::decimal_string(b);
            s.append(y.as_str());
            LayoutError::CalculationError { message: s }
        },
    }
}

impl LayoutManager {
    /// The key a layout is kept under: the terminal's size and the compact
    /// mode.
    pub open spec fn key(&self) -> (u16, u16, bool) {
        (self.size().0, self.size().1, self.compact())
    }

    /// The layout computed anew: the tree after the adjustments in force,
    /// placed within the whole terminal.
    pub open spec fn fresh_outcome(&self) -> LayoutOutcome {
        match self.root() {
            None => LayoutOutcome::NoRoot,
            Some(r) => match place(
                self.priority_state(),
                self.min_widget(),
                adjusted(r, self.breakpoint_list(), self.size(), self.compact(), self.spacing(), self.dynamics()),
                screen(self.size()),
                nothing_placed(),
            ) {
                Ok(p) => LayoutOutcome::Done(p),
                Err(e) => LayoutOutcome::Failed(e),
            },
        }
    }

    /// What computing the layout gives: the whole terminal for a widget
    /// filling it; else the layout kept for the key when layouts are kept;
    /// else the layout computed anew.
    pub open spec fn layout_outcome(&self) -> LayoutOutcome {
        match self.fullscreen() {
            Some(w) => LayoutOutcome::Done(
                Placed { areas: seq![(w, screen(self.size()))], overflow: Seq::empty(), hidden: Seq::empty() },
            ),
            None => if self.caching() && cached(self.cache(), self.key()) is Some {
                LayoutOutcome::Done(cached(self.cache(), self.key())->0)
            } else {
                self.fresh_outcome()
            },
        }
    }

    /// The layouts kept after computing one: a layout computed anew is
    /// kept when layouts are.
    pub open spec fn cache_after(&self) -> Seq<((u16, u16, bool), Placed)> {
        if self.fullscreen() is None && self.caching() && cached(self.cache(), self.key()) is None {
            match self.fresh_outcome() {
                LayoutOutcome::Done(p) => kept(self.cache(), self.cache_limit(), self.key(), p),
                _ => self.cache(),
            }
        } else {
            self.cache()
        }
    }

    /// The counts after computing a layout: none for a widget filling the
    /// terminal; else a hit when a layout kept is found, else a miss.
    pub open spec fn metrics_after(&self) -> LayoutPerformanceMetrics {
        let m = self.metrics();
        if self.fullscreen() is Some {
            m
        } else if self.caching() && cached(self.cache(), self.key()) is Some {
            LayoutPerformanceMetrics { total_calculations: bump(m.total_calculations), cache_hits: bump(m.cache_hits), ..m }
        } else {
            LayoutPerformanceMetrics {
                total_calculations: bump(m.total_calculations),
                cache_misses: bump(m.cache_misses),
                ..m
            }
        }
    }

    /// Whether `new` has all of `old` but its kept layouts and counts.
    pub open spec fn same_but_kept(old: Self, new: Self) -> bool {
        &&& Self::same_frame(old, new)
        &&& new.breakpoint_list() == old.breakpoint_list()
        &&& new.priority_state() == old.priority_state() && new.focus_state() == old.focus_state()
        &&& new.root() == old.root() && new.caching() == old.caching() && new.cache_limit() == old.cache_limit()
        &&& new.min_widget() == old.min_widget() && new.spacing() == old.spacing()
        &&& new.dynamics() == old.dynamics()
    }

    /// The tree `root` after the adjustments in force.
    fn adjusted_tree(&self, root: &LayoutNode) -> (res: LayoutNode)
        ensures
            node_view(res) == adjusted(
                node_view(*root),
                self.breakpoint_list(),
                self.size(),
                self.compact(),
                self.spacing(),
                self.dynamics(),
            ),
    {
        let n = copy_node(root);
        let count = count_widgets_in_node(root);
        let idx = find_active_breakpoint(&self.responsive_breakpoints, self.terminal_size);
        let n = match idx {
            Some(i) => {
                proof {
                    let c = choose|j: int| is_active_breakpoint(self.responsive_breakpoints@, self.terminal_size, j);
                    lemma_active_unique(self.responsive_breakpoints@, self.terminal_size, c, i as int);
                }
                apply_adjustments(n, &self.responsive_breakpoints[i].layout_adjustments)
            },
            None => {
                assert(!exists|j: int| is_active_breakpoint(self.responsive_breakpoints@, self.terminal_size, j));
                n
            },
        };
        let n = if self.compact_mode {
            compact_node(n, self.compact_spacing.0, self.compact_spacing.1)
        } else {
            n
        };
        apply_dynamic(n, &self.dynamic_adjustments, self.terminal_size, count)
    }

    /// The layout computed anew; see `fresh_outcome`.
    fn compute_fresh(&self, screen: Rect) -> (res: Result<LayoutResult, LayoutError>)
        requires
            screen == crate::layout::screen(self.size()),
        ensures
            outcome_is(res, self.fresh_outcome(), self.size()),
    {
        let tree = match &self.root_node {
            None => {
                return Err(LayoutError::ConfigError { message: String::from_str("No root layout node configured") });
            },
            Some(root) => self.adjusted_tree(root),
        };
        let mut acc = LayoutResult::empty(screen);
        match place_node(&self.layout_priority_manager, self.min_widget_size, &tree, screen, &mut acc) {
            Err(e) => Err(place_error_to(e)),
            Ok(()) => Ok(acc),
        }
    }

    /// The position of the layout kept for `key`, the latest of several.
    fn kept_index(&self, key: (u16, u16, bool)) -> (res: Option<usize>)
        ensures
            res matches Some(i) ==> i < self.cache().len() && cached(self.cache(), key) == Some(self.cache()[i as int].1),
            res is None ==> cached(self.cache(), key) is None,
    {
        let ghost v = self.cache();
        let mut i: usize = self.layout_cache.len();
        assert(v.take(i as int) =~= v);
        while i > 0
            invariant
                i <= v.len(),
                v == self.cache(),
                v.len() == self.layout_cache@.len(),
                cached(v, key) == cached(v.take(i as int), key),
            decreases i,
        {
            let k = i - 1;
            assert(v.take(i as int).drop_last() =~= v.take(k as int));
            let e = &self.layout_cache[k].0;
            if e.0 == key.0 && e.1 == key.1 && e.2 == key.2 {
                return Some(k);
            }
            i = k;
        }
        None
    }

    /// Computes where the widgets go; see `layout_outcome`. A layout
    /// computed anew is kept when layouts are, the oldest going when too
    /// many are kept; the counts of hits and misses follow `metrics_after`.
    pub fn calculate_layout(&mut self) -> (res: Result<LayoutResult, LayoutError>)
        ensures
            outcome_is(res, old(self).layout_outcome(), old(self).size()),
            final(self).cache() == old(self).cache_after(),
            final(self).metrics() == old(self).metrics_after(),
            Self::same_but_kept(*old(self), *final(self)),
    {
        let screen = Rect { x: 0, y: 0, width: self.terminal_size.0, height: self.terminal_size.1 };
        if let Some(w) = &self.fullscreen_widget {
            let mut r = LayoutResult::empty(screen);
            r.widget_areas.push((w.clone(), screen));
            assert(placed_view(r).areas =~= seq![(w.name(), screen)]);
            return Ok(r);
        }
        let key = (self.terminal_size.0, self.terminal_size.1, self.compact_mode);
        if self.cache_enabled {
            match self.kept_index(key) {
                Some(i) => {
                    let mut r = self.layout_cache[i].1.copy();
                    r.total_area = screen;
                    let m = self.performance_metrics;
                    self.performance_metrics = LayoutPerformanceMetrics {
                        total_calculations: m.total_calculations.saturating_add(1),
                        cache_hits: m.cache_hits.saturating_add(1),
                        cache_misses: m.cache_misses,
                    };
                    return Ok(r);
                },
                None => {},
            }
        }
        let m = self.performance_metrics;
        self.performance_metrics = LayoutPerformanceMetrics {
            total_calculations: m.total_calculations.saturating_add(1),
            cache_hits: m.cache_hits,
            cache_misses: m.cache_misses.saturating_add(1),
        };
        let fresh = self.compute_fresh(screen);
        let acc = match fresh {
            Err(e) => {
                return Err(e);
            },
            Ok(acc) => acc,
        };
        if self.cache_enabled {
            let ghost before = self.cache();
            if self.layout_cache.len() >= self.max_cache_size && self.layout_cache.len() > 0 {
                self.layout_cache.remove(0);
            }
            self.layout_cache.push((key, acc.copy()));
            assert(self.cache() =~= kept(before, self.max_cache_size, key, placed_view(acc)));
        }
        Ok(acc)
    }

    /// The areas of the children of `node` within `area`, placed by
    /// priority; refused when a position moves past `u16` or too many
    /// children share an area.
    pub fn calculate_priority_based_layout(&self, node: &LayoutNode, area: Rect) -> (res: Result<Vec<Rect>, LayoutError>)
        ensures
            res matches Ok(v) ==> crate::engine::priority_layout(self.priority_state(), node_view(*node), area) == Some(v@),
            res matches Err(e) ==> (crate::engine::priority_layout(self.priority_state(), node_view(*node), area) is None
                && (e matches LayoutError::CalculationError { message } && message@ == place_error_text(PlaceError::Overflow))),
    {
        match crate::engine::priority_areas(&self.layout_priority_manager, node, area) {
            Some(v) => Ok(v),
            None => Err(place_error_to(PlaceError::Overflow)),
        }
    }
}

/// The dynamic adjustments of `s` but those with id `id`, in order.
pub open spec fn without_id(s: Seq<DynamicAdjustment>, id: Seq<char>) -> Seq<DynamicAdjustment>
    decreases s.len(),
{
    if s.len() == 0 {
        s
    } else if s.last().id@ == id {
        without_id(s.drop_last(), id)
    } else {
        without_id(s.drop_last(), id).push(s.last())
    }
}

proof fn lemma_without_id_len(s: Seq<DynamicAdjustment>, id: Seq<char>)
    ensures
        without_id(s, id).len() <= s.len(),
        without_id(s, id).len() == s.len() <==> forall|i: int| 0 <= i < s.len() ==> #[trigger] s[i].id@ != id,
    decreases s.len(),
{
    if s.len() > 0 {
        lemma_without_id_len(s.drop_last(), id);
        if s.last().id@ != id {
            assert forall|i: int| 0 <= i < s.len() - 1 implies #[trigger] s.drop_last()[i] == s[i] by {}
            if without_id(s, id).len() == s.len() {
                assert forall|i: int| 0 <= i < s.len() implies #[trigger] s[i].id@ != id by {
                    if i < s.len() - 1 {
                        assert(s.drop_last()[i] == s[i]);
                    }
                }
            }
        } else {
            assert(s[s.len() - 1].id@ == id);
        }
    }
}

/// The area `p` gives the widget named `name`, if any.
pub open spec fn area_in(p: Placed, name: Seq<char>) -> Option<Rect> {
    let i = crate::engine::last_named(p.areas, name);
    if i >= 0 { Some(p.areas[i].1) } else { None }
}

impl LayoutManager {
    /// Sets the layout tree: refused, and nothing changed, when a node's
    /// number of constraints is not its number of children (see
    /// `first_mismatch`); the layouts kept are dropped.
    pub fn set_root_node(&mut self, node: LayoutNode) -> (res: Result<(), LayoutError>)
        ensures
            res is Ok <==> first_mismatch(node_view(node)) is None,
            res matches Err(e) ==> (first_mismatch(node_view(node)) matches Some(t) && (e matches LayoutError::ConfigError {
                message,
            } && message@ == mismatch_text(t))),
            res is Err ==> *final(self) == *old(self),
            res is Ok ==> final(self).root() == Some(node_view(node)) && final(self).cache().len() == 0,
            Self::same_frame(*old(self), *final(self)),
            final(self).breakpoint_list() == old(self).breakpoint_list(),
            final(self).dynamics() == old(self).dynamics(),
            final(self).metrics() == old(self).metrics(),
    {
        match validate_layout_node(&node) {
            Err(e) => Err(e),
            Ok(()) => {
                self.root_node = Some(node);
                self.layout_cache.clear();
                assert(self.cache() =~= Seq::empty());
                Ok(())
            },
        }
    }

    /// The layout tree, if one is set.
    pub fn root_node(&self) -> (res: Option<&LayoutNode>)
        ensures
            res matches Some(n) ==> self.root() == Some(node_view(*n)),
            res is None ==> self.root() is None,
    {
        self.root_node.as_ref()
    }

    /// Adds a dynamic adjustment, last; the layouts kept are dropped.
    pub fn add_dynamic_adjustment(&mut self, adjustment: DynamicAdjustment)
        ensures
            final(self).dynamics() == old(self).dynamics().push(adjustment),
            final(self).cache().len() == 0,
            final(self).root() == old(self).root(),
            Self::same_frame(*old(self), *final(self)),
    {
        self.dynamic_adjustments.push(adjustment);
        self.layout_cache.clear();
        assert(self.cache() =~= Seq::empty());
    }

    /// Removes the dynamic adjustments with id `id`, telling whether there
    /// was any; the layouts kept are dropped when one was.
    pub fn remove_dynamic_adjustment(&mut self, id: &str) -> (res: bool)
        ensures
            final(self).dynamics() == without_id(old(self).dynamics(), id@),
            res == exists|i: int| 0 <= i < old(self).dynamics().len() && #[trigger] old(self).dynamics()[i].id@ == id@,
            res ==> final(self).cache().len() == 0,
            !res ==> final(self).cache() == old(self).cache(),
            final(self).root() == old(self).root(),
            Self::same_frame(*old(self), *final(self)),
    {
        let mut rest: Vec<DynamicAdjustment> = Vec::new();
        std::mem::swap(&mut rest, &mut self.dynamic_adjustments);
        let ghost all = rest@;
        let initial = rest.len();
        let mut kept: Vec<DynamicAdjustment> = Vec::new();
        let ghost mut i: int = 0;
        assert(all.take(0) =~= Seq::<DynamicAdjustment>::empty());
        while rest.len() > 0
            invariant
                0 <= i <= all.len(),
                initial == all.len(),
                rest@ == all.skip(i),
                kept@ == without_id(all.take(i), id@),
            decreases rest@.len(),
        {
            let ghost rest_before = rest@;
            let a = rest.remove(0);
            proof {
                assert(rest_before[0] == all[i]);
                assert(rest@ =~= all.skip(i + 1));
                assert(all.take(i + 1).drop_last() =~= all.take(i));
                assert(all.take(i + 1).last() == all[i]);
            }
            if !text_eq(a.id.as_str(), id) {
                kept.push(a);
            }
            proof {
                i = i + 1;
            }
        }
        assert(all.take(i) =~= all);
        proof {
            lemma_without_id_len(all, id@);
        }
        let removed = kept.len() < initial;
        self.dynamic_adjustments = kept;
        if removed {
            self.layout_cache.clear();
            assert(self.cache() =~= Seq::empty());
        }
        removed
    }

    /// The counts of layouts computed and found kept.
    pub fn performance_metrics(&self) -> (res: LayoutPerformanceMetrics)
        ensures
            res == self.metrics(),
    {
        self.performance_metrics
    }

    /// The area of a widget in the layout computed now; see
    /// `calculate_layout`.
    pub fn get_widget_area(&mut self, widget_id: &WidgetId) -> (res: Result<Option<Rect>, LayoutError>)
        ensures
            old(self).layout_outcome() matches LayoutOutcome::Done(p) ==> res == Ok::<Option<Rect>, LayoutError>(
                area_in(p, widget_id.name()),
            ),
            old(self).layout_outcome() is NoRoot ==> (res matches Err(LayoutError::ConfigError { message }) && message@
                == "No root layout node configured"@),
            old(self).layout_outcome() matches LayoutOutcome::Failed(e) ==> (res matches Err(
                LayoutError::CalculationError { message },
            ) && message@ == place_error_text(e)),
            final(self).cache() == old(self).cache_after(),
            final(self).metrics() == old(self).metrics_after(),
            Self::same_but_kept(*old(self), *final(self)),
    {
        let r = self.calculate_layout()?;
        Ok(r.area_of(widget_id))
    }

    /// Whether a widget is neither hidden nor overflowing in the layout
    /// computed now.
    pub fn is_widget_visible(&mut self, widget_id: &WidgetId) -> (res: Result<bool, LayoutError>)
        ensures
            old(self).layout_outcome() matches LayoutOutcome::Done(p) ==> res == Ok::<bool, LayoutError>(
                !p.hidden.contains(widget_id.name()) && !p.overflow.contains(widget_id.name()),
            ),
            !(old(self).layout_outcome() is Done) ==> res is Err,
            final(self).cache() == old(self).cache_after(),
            final(self).metrics() == old(self).metrics_after(),
            Self::same_but_kept(*old(self), *final(self)),
    {
        let r = self.calculate_layout()?;
        let hidden = FocusManager::contains_id(r.hidden_widgets.as_slice(), widget_id);
        let over = FocusManager::contains_id(r.overflow_widgets.as_slice(), widget_id);
        Ok(!hidden && !over)
    }

    /// The widgets given an area in the layout computed now, in order.
    pub fn get_visible_widgets(&mut self) -> (res: Result<Vec<WidgetId>, LayoutError>)
        ensures
            old(self).layout_outcome() matches LayoutOutcome::Done(p) ==> (res matches Ok(v) && names(v@)
                == p.areas.map_values(|e: (Seq<char>, Rect)| e.0)),
            !(old(self).layout_outcome() is Done) ==> res is Err,
            final(self).cache() == old(self).cache_after(),
            final(self).metrics() == old(self).metrics_after(),
            Self::same_but_kept(*old(self), *final(self)),
    {
        let r = self.calculate_layout()?;
        let mut out: Vec<WidgetId> = Vec::new();
        let mut i: usize = 0;
        while i < r.widget_areas.len()
            invariant
                i <= r.widget_areas@.len(),
                names(out@) == placed_view(r).areas.map_values(|e: (Seq<char>, Rect)| e.0).take(i as int),
            decreases r.widget_areas@.len() - i,
        {
            let ghost before = out@;
            out.push(r.widget_areas[i].0.clone());
            assert(names(out@) =~= names(before).push(r.widget_areas@[i as int].0.name()));
            i = i + 1;
            assert(names(out@) =~= placed_view(r).areas.map_values(|e: (Seq<char>, Rect)| e.0).take(i as int));
        }
        assert(placed_view(r).areas.map_values(|e: (Seq<char>, Rect)| e.0).take(i as int) =~= placed_view(r).areas.map_values(
            |e: (Seq<char>, Rect)| e.0,
        ));
        Ok(out)
    }

    /// The widgets that do not fit in the layout computed now, in order.
    pub fn get_overflow_widgets(&mut self) -> (res: Result<Vec<WidgetId>, LayoutError>)
        ensures
            old(self).layout_outcome() matches LayoutOutcome::Done(p) ==> (res matches Ok(v) && names(v@) == p.overflow),
            !(old(self).layout_outcome() is Done) ==> res is Err,
            final(self).cache() == old(self).cache_after(),
            final(self).metrics() == old(self).metrics_after(),
            Self::same_but_kept(*old(self), *final(self)),
    {
        let r = self.calculate_layout()?;
        Ok(r.overflow_widgets)
    }

    /// The widgets hidden in the layout computed now, in order.
    pub fn get_hidden_widgets(&mut self) -> (res: Result<Vec<WidgetId>, LayoutError>)
        ensures
            old(self).layout_outcome() matches LayoutOutcome::Done(p) ==> (res matches Ok(v) && names(v@) == p.hidden),
            !(old(self).layout_outcome() is Done) ==> res is Err,
            final(self).cache() == old(self).cache_after(),
            final(self).metrics() == old(self).metrics_after(),
            Self::same_but_kept(*old(self), *final(self)),
    {
        let r = self.calculate_layout()?;
        Ok(r.hidden_widgets)
    }
}

/// Asking for the layout again, with nothing but the kept layouts and the
/// counts changed in between, gives the same answer, when layouts are kept
/// and no widget fills the screen.
pub proof fn law_layout_repeats(before: LayoutManager, after: LayoutManager)
    requires
        before.fullscreen() is None,
        before.caching(),
        before.layout_outcome() is Done,
        after.cache() == before.cache_after(),
        LayoutManager::same_but_kept(before, after),
    ensures
        after.layout_outcome() == before.layout_outcome(),
{
    if cached(before.cache(), before.key()) is None {
        law_kept_is_found(before.cache(), before.cache_limit(), before.key(), before.layout_outcome()->Done_0);
    }
}

/// The widgets of a tree that may fill the screen, a node before its
/// children: those whose advanced constraints, if any, do not let them hide.
pub open spec fn fullscreen_capable(n: NodeView) -> Seq<Seq<char>>
    decreases n,
{
    let own: Seq<Seq<char>> = match n.widget {
        Some(w) => if n.advanced matches Some(a) && a.hideable {
            Seq::empty()
        } else {
            seq![w]
        },
        None => Seq::empty(),
    };
    own + fullscreen_capable_all(n.children)
}

/// Those of a sequence of trees, in order.
pub open spec fn fullscreen_capable_all(s: Seq<NodeView>) -> Seq<Seq<char>>
    decreases s,
{
    if s.len() == 0 {
        Seq::empty()
    } else {
        proof {
            vstd::seq::axiom_seq_len_decreases(s, s.drop_last());
        }
        fullscreen_capable_all(s.drop_last()) + fullscreen_capable(s.last())
    }
}

/// Adds the widgets of `node` that may fill the screen to `out`.
fn collect_fullscreen_widgets(node: &LayoutNode, out: &mut Vec<WidgetId>)
    ensures
        names(final(out)@) == names(old(out)@) + fullscreen_capable(node_view(*node)),
    decreases node,
{
    proof {
        lemma_children_views(*node);
    }
    let ghost start = names(out@);
    if let Some(w) = &node.widget_id {
        let can = match &node.advanced_constraints {
            Some(a) => !a.hideable,
            None => true,
        };
        if can {
            out.push(w.clone());
            assert(names(out@) =~= start + seq![w.name()]);
        } else {
            assert(names(out@) =~= start + Seq::<Seq<char>>::empty());
        }
    } else {
        assert(names(out@) =~= start + Seq::<Seq<char>>::empty());
    }
    let ghost mid = names(out@);
    let kids = &node.children;
    let ghost kv = views(kids@);
    assert(kv.take(0) =~= Seq::<NodeView>::empty());
    assert(mid =~= mid + fullscreen_capable_all(kv.take(0)));
    let mut j: usize = 0;
    while j < kids.len()
        invariant
            j <= kids@.len(),
            kv == views(kids@),
            kids == &node.children,
            names(out@) == mid + fullscreen_capable_all(kv.take(j as int)),
        decreases kids@.len() - j,
    {
        proof {
            assert(decreases_to!(*node => node.children));
            assert(decreases_to!(node.children => node.children@));
            assert(decreases_to!(node.children@ => node.children@[j as int]));
            assert(decreases_to!(*node => kids@[j as int]));
            assert(kv.take(j + 1).drop_last() =~= kv.take(j as int));
            assert(kv.take(j + 1).last() == node_view(kids@[j as int]));
        }
        collect_fullscreen_widgets(&kids[j], out);
        proof {
            assert(names(out@) =~= mid + fullscreen_capable_all(kv.take(j + 1)));
        }
        j = j + 1;
    }
    assert(kv.take(j as int) =~= kv);
    assert(names(out@) =~= start + fullscreen_capable(node_view(*node)));
}

impl LayoutManager {
    /// The widgets of the layout tree that may fill the screen, in order.
    pub fn get_fullscreen_capable_widgets(&self) -> (res: Vec<WidgetId>)
        ensures
            names(res@) == match self.root() {
                Some(r) => fullscreen_capable(r),
                None => Seq::empty(),
            },
    {
        let mut out: Vec<WidgetId> = Vec::new();
        if let Some(r) = &self.root_node {
            collect_fullscreen_widgets(r, &mut out);
            assert(names(out@) =~= Seq::<Seq<char>>::empty() + fullscreen_capable(node_view(*r)));
        } else {
            assert(names(out@) =~= Seq::<Seq<char>>::empty());
        }
        out
    }

    /// The fraction, numerator and denominator, the compact mode scales
    /// margins and padding by.
    pub fn compact_spacing_factor(&self) -> (res: (u16, u16))
        ensures
            res == self.spacing(),
    {
        self.compact_spacing
    }

    /// Sets the fraction the compact mode scales spacing by, `num / den`;
    /// a fraction above one, or over zero, counts as one. The layouts kept
    /// are dropped when the layout is compact.
    pub fn set_compact_spacing_factor(&mut self, num: u16, den: u16)
        ensures
            final(self).spacing() == if den == 0 || num > den {
                (1u16, 1u16)
            } else {
                (num, den)
            },
            old(self).compact() ==> final(self).cache().len() == 0,
            !old(self).compact() ==> final(self).cache() == old(self).cache(),
            Self::same_frame(*old(self), *final(self)),
            final(self).root() == old(self).root(),
    {
        self.compact_spacing = if den == 0 || num > den { (1, 1) } else { (num, den) };
        if self.compact_mode {
            self.layout_cache.clear();
            assert(self.cache() =~= Seq::empty());
        }
    }

    /// Figures of the layout computed now: widgets placed, hidden and
    /// overflowing, the terminal's size, the breakpoint in force, how many
    /// layouts are kept after it, the compact mode and the widget filling
    /// the screen.
    pub fn get_layout_stats(&mut self) -> (res: Result<LayoutStats, LayoutError>)
        ensures
            old(self).layout_outcome() matches LayoutOutcome::Done(p) ==> (res matches Ok(st) && {
                &&& st.total_widgets == p.areas.len() && st.visible_widgets == p.areas.len()
                &&& st.hidden_widgets == p.hidden.len() && st.overflow_widgets == p.overflow.len()
                &&& st.terminal_size == old(self).size()
                &&& st.active_breakpoint matches Some(b) ==> (active_index(old(self).breakpoint_list(), old(self).size())
                    matches Some(i) && b@ == old(self).breakpoint_list()[i].name@)
                &&& st.active_breakpoint is None ==> active_index(old(self).breakpoint_list(), old(self).size()) is None
                &&& st.cache_size == old(self).cache_after().len()
                &&& st.compact_mode == old(self).compact()
                &&& st.fullscreen_widget matches Some(w) ==> old(self).fullscreen() == Some(w.name())
                &&& st.fullscreen_widget is None ==> old(self).fullscreen() is None
            }),
            !(old(self).layout_outcome() is Done) ==> res is Err,
            final(self).cache() == old(self).cache_after(),
            final(self).metrics() == old(self).metrics_after(),
            Self::same_but_kept(*old(self), *final(self)),
    {
        let r = self.calculate_layout()?;
        let idx = find_active_breakpoint(&self.responsive_breakpoints, self.terminal_size);
        let active_breakpoint = match idx {
            Some(i) => {
                proof {
                    let c = choose|j: int| is_active_breakpoint(self.responsive_breakpoints@, self.terminal_size, j);
                    lemma_active_unique(self.responsive_breakpoints@, self.terminal_size, c, i as int);
                }
                Some(self.responsive_breakpoints[i].name.clone())
            },
            None => {
                assert(!exists|j: int| is_active_breakpoint(self.responsive_breakpoints@, self.terminal_size, j));
                None
            },
        };
        let fullscreen_widget = match &self.fullscreen_widget {
            Some(w) => Some(w.clone()),
            None => None,
        };
        Ok(
            LayoutStats {
                total_widgets: r.widget_areas.len(),
                visible_widgets: r.widget_areas.len(),
                hidden_widgets: r.hidden_widgets.len(),
                overflow_widgets: r.overflow_widgets.len(),
                terminal_size: self.terminal_size,
                active_breakpoint,
                cache_size: self.layout_cache.len(),
                compact_mode: self.compact_mode,
                fullscreen_widget,
            },
        )
    }
}

} // verus!
