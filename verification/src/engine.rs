//! Where each widget of a layout tree goes: the areas of a node's children,
//! by their constraints or by the widgets' priorities, and the walk of the
//! tree that places, hides or overflows each widget.

use vstd::prelude::*;
use crate::action::{decimal_string, decimal_text};
use crate::layout::{
    AdvancedSizeConstraints, LayoutConstraints, LayoutDirection, LayoutError, LayoutNode, LayoutPriorityManager, NodeView, Rect,
    aspect_fit, inset, node_view, views, lemma_children_views,
};
use crate::widget::{WidgetId, SizeConstraints, clamp_dim, names};
use ratatui::layout::{Constraint as RC, Direction as RD, Layout, Rect as RR};
use crate::layout::LayoutConstraints as LC;

verus! {

/// The empty area at the origin.
pub open spec fn zero_rect() -> Rect {
    Rect { x: 0, y: 0, width: 0, height: 0 }
}

/// Whether taking `top`, `right`, `bottom` and `left` cells off `area`
/// stays within `u16`.
pub open spec fn inset_fits(area: Rect, top: u16, right: u16, bottom: u16, left: u16) -> bool {
    &&& area.x + left <= u16::MAX
    &&& area.y + top <= u16::MAX
    &&& left + right <= u16::MAX
    &&& top + bottom <= u16::MAX
}

/// `v` scaled by a widget's priority `p`: a tenth more per point above
/// zero, a twentieth less per point below; rounded down, nothing below
/// zero, at most the largest `u16`.
pub open spec fn priority_scaled(v: u16, p: i32) -> u16 {
    let prod: int = if p > 0 { v * (10 + p) } else { v * (20 + p) };
    let den: int = if p > 0 { 10 } else { 20 };
    if prod < 0 {
        0
    } else if prod / den > u16::MAX {
        u16::MAX
    } else {
        (prod / den) as u16
    }
}

/// `v` scaled by `p`; see `priority_scaled`.
pub fn scale_by_priority(v: u16, p: i32) -> (res: u16)
    ensures
        res == priority_scaled(v, p),
{
    let f: i64 = if p > 0 { 10i64 + p as i64 } else { 20i64 + p as i64 };
    let den: i64 = if p > 0 { 10 } else { 20 };
    let a: i64 = v as i64;
    assert(-65535 * 2147483628 <= a * f <= 65535 * 2147483657) by (nonlinear_arith)
        requires
            0 <= a <= 65535,
            -2147483628 <= f <= 2147483657,
    ;
    let prod: i64 = a * f;
    if prod < 0 {
        0
    } else {
        let q: i64 = prod / den;
        if q > 65535 { 65535 } else { q as u16 }
    }
}

/// `v` times `num / den`, rounded down, at most the largest `u16`; over a
/// zero denominator, nothing when `v` or `num` is zero, else the largest
/// `u16`.
pub open spec fn ratio_of(v: u16, num: u16, den: u16) -> u16 {
    if den == 0 {
        if v == 0 || num == 0 { 0 } else { u16::MAX }
    } else if (v as int) * (num as int) / (den as int) > u16::MAX {
        u16::MAX
    } else {
        ((v as int) * (num as int) / (den as int)) as u16
    }
}

/// `v` times `num / den`; see `ratio_of`.
pub fn scale_ratio(v: u16, num: u16, den: u16) -> (res: u16)
    ensures
        res == ratio_of(v, num, den),
{
    if den == 0 {
        return if v == 0 || num == 0 { 0 } else { 65535 };
    }
    let a = v as u64;
    let b = num as u64;
    assert(a * b <= 65535 * 65535) by (nonlinear_arith)
        requires
            a <= 65535,
            b <= 65535,
    ;
    let q: u64 = a * b / (den as u64);
    if q > 65535 { 65535 } else { q as u16 }
}

/// The area of a widget's leaf node within `area`: less its padding, then
/// brought within its constraints; keeping an aspect ratio of `aw` to `ah`,
/// the width that fills the height is `ratio_of(height, aw, ah)` and the
/// height that fills the width `ratio_of(width, ah, aw)`.
pub open spec fn leaf_area(n: NodeView, area: Rect) -> Rect {
    let w = inset(area, n.padding.top, n.padding.right, n.padding.bottom, n.padding.left);
    match n.advanced {
        Some(a) => {
            let cw = clamp_dim(w.width, a.basic.min_width, a.basic.max_width);
            let ch = clamp_dim(w.height, a.basic.min_height, a.basic.max_height);
            let fin = if a.maintain_aspect_ratio {
                match a.aspect_ratio {
                    Some(r) => aspect_fit(a, cw, ch, ratio_of(ch, r.0, r.1), ratio_of(cw, r.1, r.0)),
                    None => aspect_fit(a, cw, ch, 0, 0),
                }
            } else {
                (cw, ch)
            };
            Rect { x: w.x, y: w.y, width: fin.0, height: fin.1 }
        },
        None => match n.size {
            Some(s) => Rect {
                x: w.x,
                y: w.y,
                width: clamp_dim(w.width, s.min_width, s.max_width),
                height: clamp_dim(w.height, s.min_height, s.max_height),
            },
            None => w,
        },
    }
}

/// The area of a leaf node; see `leaf_area`.
pub fn leaf_area_of(node: &LayoutNode, area: Rect) -> (res: Rect)
    requires
        inset_fits(area, node.padding.top, node.padding.right, node.padding.bottom, node.padding.left),
    ensures
        res == leaf_area(node_view(*node), area),
{
    let w = crate::layout::apply_padding(area, &node.padding);
    match &node.advanced_constraints {
        Some(a) => {
            let (cw, ch) = a.basic.clamp(w.width, w.height);
            let fin = if a.maintain_aspect_ratio {
                match a.aspect_ratio {
                    Some(r) => {
                        let wbh = scale_ratio(ch, r.0, r.1);
                        let hbw = scale_ratio(cw, r.1, r.0);
                        a.fit_aspect_ratio(cw, ch, wbh, hbw)
                    },
                    None => a.fit_aspect_ratio(cw, ch, 0, 0),
                }
            } else {
                (cw, ch)
            };
            Rect { x: w.x, y: w.y, width: fin.0, height: fin.1 }
        },
        None => match &node.size_constraints {
            Some(s) => {
                let (cw, ch) = s.clamp(w.width, w.height);
                Rect { x: w.x, y: w.y, width: cw, height: ch }
            },
            None => w,
        },
    }
}

/// The priority a child of a container is placed by: its widget's, else
/// that of its advanced constraints, else zero.
pub open spec fn child_priority(pm: LayoutPriorityManager, c: NodeView) -> i32 {
    match c.widget {
        Some(w) => pm.priority_of(w),
        None => match c.advanced {
            Some(a) => a.priority,
            None => 0,
        },
    }
}

/// The priority of a child; see `child_priority`.
fn child_priority_of(pm: &LayoutPriorityManager, c: &LayoutNode) -> (res: i32)
    ensures
        res == child_priority(*pm, node_view(*c)),
{
    match &c.widget_id {
        Some(w) => pm.get_widget_priority(w),
        None => match &c.advanced_constraints {
            Some(a) => a.priority,
            None => 0,
        },
    }
}

/// Whether a child asks for a place by priority: its advanced constraints
/// or its widget have a priority other than zero.
pub open spec fn asks_priority(pm: LayoutPriorityManager, c: NodeView) -> bool {
    ||| (c.advanced matches Some(a) && a.priority != 0)
    ||| (c.widget matches Some(w) && pm.priority_of(w) != 0)
}

/// Whether a container's children are placed by priority: priorities are
/// in use and a child asks for it.
pub open spec fn by_priority(pm: LayoutPriorityManager, kids: Seq<NodeView>) -> bool {
    pm.on() && exists|i: int| 0 <= i < kids.len() && asks_priority(pm, #[trigger] kids[i])
}

/// Whether the children of `node` are placed by priority.
pub fn places_by_priority(pm: &LayoutPriorityManager, node: &LayoutNode) -> (res: bool)
    ensures
        res == by_priority(*pm, node_view(*node).children),
{
    proof {
        lemma_children_views(*node);
    }
    if !pm.is_enabled() {
        return false;
    }
    let kids = &node.children;
    let mut i: usize = 0;
    while i < kids.len()
        invariant
            i <= kids@.len(),
            pm.on(),
            node_view(*node).children == views(kids@),
            forall|j: int| 0 <= j < i ==> !asks_priority(*pm, #[trigger] views(kids@)[j]),
        decreases kids@.len() - i,
    {
        let c = &kids[i];
        let asks = match &c.advanced_constraints {
            Some(a) => a.priority != 0,
            None => false,
        } || match &c.widget_id {
            Some(w) => pm.get_widget_priority(w) != 0,
            None => false,
        };
        if asks {
            assert(asks_priority(*pm, views(kids@)[i as int]));
            return true;
        }
        i = i + 1;
    }
    false
}

/// Where a child of priority `p` goes among those placed before it in
/// `order`: after every one of priority `p` or more.
pub open spec fn slot_after(order: Seq<usize>, ps: Seq<i32>, p: i32) -> nat
    decreases order.len(),
{
    if order.len() == 0 {
        0
    } else if ps[order[0] as int] < p {
        0
    } else {
        1 + slot_after(order.drop_first(), ps, p)
    }
}

/// The order in which the first `m` children are placed: by priority, the
/// highest first, those of equal priority in their order.
pub open spec fn priority_order(ps: Seq<i32>, m: nat) -> Seq<usize>
    decreases m,
{
    if m == 0 {
        Seq::empty()
    } else {
        let o = priority_order(ps, (m - 1) as nat);
        o.insert(slot_after(o, ps, ps[m - 1]) as int, (m - 1) as usize)
    }
}

proof fn lemma_slot_within(order: Seq<usize>, ps: Seq<i32>, p: i32)
    ensures
        slot_after(order, ps, p) <= order.len(),
    decreases order.len(),
{
    if order.len() > 0 {
        lemma_slot_within(order.drop_first(), ps, p);
    }
}

/// The order holds each of the first `m` children once.
proof fn lemma_order_indices(ps: Seq<i32>, m: nat)
    requires
        m <= usize::MAX,
    ensures
        priority_order(ps, m).len() == m,
        forall|j: int| 0 <= j < m ==> #[trigger] priority_order(ps, m)[j] < m,
    decreases m,
{
    if m > 0 {
        let o = priority_order(ps, (m - 1) as nat);
        lemma_order_indices(ps, (m - 1) as nat);
        lemma_slot_within(o, ps, ps[m - 1]);
        let q = slot_after(o, ps, ps[m - 1]) as int;
        let r = o.insert(q, (m - 1) as usize);
        assert(priority_order(ps, m) == r);
        assert forall|j: int| 0 <= j < m implies #[trigger] r[j] < m by {
            if j < q {
                assert(r[j] == o[j]);
            } else if j > q {
                assert(r[j] == o[j - 1]);
            }
        }
    }
}

/// The order in which children of priorities `ps` are placed.
fn priority_order_of(ps: &Vec<i32>) -> (res: Vec<usize>)
    ensures
        res@ == priority_order(ps@, ps@.len()),
{
    let mut order: Vec<usize> = Vec::new();
    let mut m: usize = 0;
    while m < ps.len()
        invariant
            m <= ps@.len(),
            order@ == priority_order(ps@, m as nat),
        decreases ps@.len() - m,
    {
        proof {
            lemma_order_indices(ps@, m as nat);
        }
        let p = ps[m];
        let mut q: usize = 0;
        assert(order@.skip(0) =~= order@);
        loop
            invariant
                q <= order@.len(),
                order@.len() == m,
                m < ps@.len(),
                forall|j: int| 0 <= j < m ==> #[trigger] order@[j] < m,
                slot_after(order@, ps@, p) == q + slot_after(order@.skip(q as int), ps@, p),
            ensures
                q <= order@.len(),
                slot_after(order@, ps@, p) == q,
            decreases order@.len() - q,
        {
            if q >= order.len() {
                assert(order@.skip(q as int).len() == 0);
                break;
            }
            let at = order[q];
            assert(order@.skip(q as int)[0] == at);
            if ps[at] < p {
                break;
            }
            assert(order@.skip(q as int).drop_first() =~= order@.skip(q + 1));
            q = q + 1;
        }
        order.insert(q, m);
        m = m + 1;
    }
    order
}

/// What a child takes of what is left, `rem`, as the `k`-th of `count`
/// placed, at priority `p`: with advanced constraints, its preferred size
/// (half of what is left where none is set) scaled by its priority, within
/// what is left; else an equal part of what is left among the children not
/// yet placed. Nothing when there are more of those than a `u16` counts.
pub open spec fn share(c: NodeView, count: nat, k: nat, rem: Rect, p: i32) -> Option<(u16, u16)> {
    match c.advanced {
        Some(a) => {
            let pw: u16 = match a.basic.preferred_width {
                Some(v) => v,
                None => (rem.width / 2) as u16,
            };
            let ph: u16 = match a.basic.preferred_height {
                Some(v) => v,
                None => (rem.height / 2) as u16,
            };
            let w = priority_scaled(pw, p);
            let h = priority_scaled(ph, p);
            Some((if w < rem.width { w } else { rem.width }, if h < rem.height { h } else { rem.height }))
        },
        None => if count - k > u16::MAX {
            None
        } else {
            Some((((rem.width as int) / ((count - k) as int)) as u16, ((rem.height as int) / ((count - k) as int)) as u16))
        },
    }
}

/// The area a child of size `alloc` takes at the start of `rem`, and what
/// is left after it, along `dir`; nothing when the start moves past `u16`.
pub open spec fn advance(dir: LayoutDirection, rem: Rect, alloc: (u16, u16)) -> Option<(Rect, Rect)> {
    match dir {
        LayoutDirection::Horizontal => if rem.x + alloc.0 > u16::MAX {
            None
        } else {
            Some(
                (
                    Rect { x: rem.x, y: rem.y, width: alloc.0, height: rem.height },
                    Rect { x: (rem.x + alloc.0) as u16, width: crate::layout::minus_or_zero(rem.width, alloc.0 as int), ..rem },
                ),
            )
        },
        LayoutDirection::Vertical => if rem.y + alloc.1 > u16::MAX {
            None
        } else {
            Some(
                (
                    Rect { x: rem.x, y: rem.y, width: rem.width, height: alloc.1 },
                    Rect { y: (rem.y + alloc.1) as u16, height: crate::layout::minus_or_zero(rem.height, alloc.1 as int), ..rem },
                ),
            )
        },
    }
}

/// The areas of children `kids` placed by priority in `order`, from the
/// `k`-th on, with `rem` left and `areas` given so far: once nothing is
/// left in a dimension the rest get the empty area.
pub open spec fn priority_fold(
    pm: LayoutPriorityManager,
    kids: Seq<NodeView>,
    dir: LayoutDirection,
    order: Seq<usize>,
    k: nat,
    rem: Rect,
    areas: Seq<Rect>,
) -> Option<Seq<Rect>>
    decreases order.len() - k,
{
    if k >= order.len() {
        Some(areas)
    } else {
        let i = order[k as int] as int;
        if rem.width == 0 || rem.height == 0 {
            priority_fold(pm, kids, dir, order, k + 1, rem, areas.update(i, zero_rect()))
        } else {
            match share(kids[i], kids.len(), k, rem, child_priority(pm, kids[i])) {
                None => None,
                Some(al) => match advance(dir, rem, al) {
                    None => None,
                    Some(pr) => priority_fold(pm, kids, dir, order, k + 1, pr.1, areas.update(i, pr.0)),
                },
            }
        }
    }
}

/// The priorities of children.
pub open spec fn child_priorities(pm: LayoutPriorityManager, kids: Seq<NodeView>) -> Seq<i32> {
    Seq::new(kids.len(), |i: int| child_priority(pm, kids[i]))
}

/// The areas of a container's children within `area` placed by priority;
/// nothing when a position moves past `u16` or too many children share.
pub open spec fn priority_layout(pm: LayoutPriorityManager, n: NodeView, area: Rect) -> Option<Seq<Rect>> {
    priority_fold(
        pm,
        n.children,
        n.direction,
        priority_order(child_priorities(pm, n.children), n.children.len()),
        0,
        area,
        Seq::new(n.children.len(), |i: int| zero_rect()),
    )
}

/// What a child takes; see `share`.
fn share_of(c: &LayoutNode, count: usize, k: usize, rem: Rect, p: i32) -> (res: Option<(u16, u16)>)
    requires
        k < count,
    ensures
        res == share(node_view(*c), count as nat, k as nat, rem, p),
{
    match &c.advanced_constraints {
        Some(a) => {
            let pw = match a.basic.preferred_width {
                Some(v) => v,
                None => rem.width / 2,
            };
            let ph = match a.basic.preferred_height {
                Some(v) => v,
                None => rem.height / 2,
            };
            let w = scale_by_priority(pw, p);
            let h = scale_by_priority(ph, p);
            Some((if w < rem.width { w } else { rem.width }, if h < rem.height { h } else { rem.height }))
        },
        None => {
            let left = count - k;
            if left > 65535 {
                None
            } else {
                let d = left as u16;
                Some((rem.width / d, rem.height / d))
            }
        },
    }
}

/// The area a child takes and what is left; see `advance`.
fn advance_by(dir: LayoutDirection, rem: Rect, alloc: (u16, u16)) -> (res: Option<(Rect, Rect)>)
    ensures
        res == advance(dir, rem, alloc),
{
    match dir {
        LayoutDirection::Horizontal => if rem.x as u32 + alloc.0 as u32 > 65535 {
            None
        } else {
            Some(
                (
                    Rect { x: rem.x, y: rem.y, width: alloc.0, height: rem.height },
                    Rect { x: rem.x + alloc.0, y: rem.y, width: rem.width.saturating_sub(alloc.0), height: rem.height },
                ),
            )
        },
        LayoutDirection::Vertical => if rem.y as u32 + alloc.1 as u32 > 65535 {
            None
        } else {
            Some(
                (
                    Rect { x: rem.x, y: rem.y, width: rem.width, height: alloc.1 },
                    Rect { x: rem.x, y: rem.y + alloc.1, width: rem.width, height: rem.height.saturating_sub(alloc.1) },
                ),
            )
        },
    }
}

/// The areas of the children of `node` within `area`, placed by priority;
/// see `priority_layout`.
pub fn priority_areas(pm: &LayoutPriorityManager, node: &LayoutNode, area: Rect) -> (res: Option<Vec<Rect>>)
    ensures
        res matches Some(v) ==> priority_layout(*pm, node_view(*node), area) == Some(v@),
        res is None ==> priority_layout(*pm, node_view(*node), area) is None,
{
    let kids = &node.children;
    let ghost kv = views(kids@);
    proof {
        lemma_children_views(*node);
    }
    let mut ps: Vec<i32> = Vec::new();
    let mut i: usize = 0;
    while i < kids.len()
        invariant
            i <= kids@.len(),
            kv == views(kids@),
            ps@ == child_priorities(*pm, kv).take(i as int),
        decreases kids@.len() - i,
    {
        let p = child_priority_of(pm, &kids[i]);
        ps.push(p);
        i = i + 1;
        assert(ps@ =~= child_priorities(*pm, kv).take(i as int));
    }
    assert(ps@ =~= child_priorities(*pm, kv));
    let order = priority_order_of(&ps);
    proof {
        lemma_order_indices(ps@, ps@.len());
    }
    let mut areas: Vec<Rect> = Vec::new();
    let mut j: usize = 0;
    while j < kids.len()
        invariant
            j <= kids@.len(),
            areas@ =~= Seq::new(j as nat, |x: int| zero_rect()),
        decreases kids@.len() - j,
    {
        areas.push(Rect { x: 0, y: 0, width: 0, height: 0 });
        j = j + 1;
    }
    let ghost start = priority_layout(*pm, node_view(*node), area);
    assert(start == priority_fold(*pm, kv, node.direction, order@, 0, area, areas@));
    let mut rem = area;
    let mut k: usize = 0;
    while k < order.len()
        invariant
            k <= order@.len(),
            order@.len() == kids@.len(),
            areas@.len() == kids@.len(),
            forall|x: int| 0 <= x < order@.len() ==> #[trigger] order@[x] < kids@.len(),
            kv == views(kids@),
            start == priority_layout(*pm, node_view(*node), area),
            start == priority_fold(*pm, kv, node.direction, order@, k as nat, rem, areas@),
        decreases order@.len() - k,
    {
        let i = order[k];
        assert(i < kids@.len());
        if rem.width == 0 || rem.height == 0 {
            areas.set(i, Rect { x: 0, y: 0, width: 0, height: 0 });
        } else {
            let p = child_priority_of(pm, &kids[i]);
            assert(kv[i as int] == node_view(kids@[i as int]));
            assert(kv.len() == kids@.len());
            match share_of(&kids[i], kids.len(), k, rem, p) {
                None => {
                    assert(start is None);
                    return None;
                },
                Some(al) => match advance_by(node.direction, rem, al) {
                    None => {
                        assert(start is None);
                        return None;
                    },
                    Some(pr) => {
                        areas.set(i, pr.0);
                        rem = pr.1;
                    },
                },
            }
        }
        k = k + 1;
    }
    Some(areas)
}

/// The areas ratatui's `Layout::split` gives for `direction` and
/// `constraints` within `area`.
pub uninterp spec fn layout_split(direction: LayoutDirection, constraints: Seq<LayoutConstraints>, area: Rect) -> Seq<Rect>;

/// Splits `area` with ratatui's `Layout::new(direction, constraints)
/// .split(area)`, each constraint taken one for one (`Fill` as `Fill(1)`).
/// Claimed of it: the result is `layout_split` of the arguments, with one
/// area per constraint (the crate makes one segment per constraint, and a
/// solve depends on its layout and area alone).
/// Left unsaid: the crate panics when its solver refuses the constraints,
/// which its source treats as not happening; no input is ruled out here.
#[verifier::external_body]
fn split_area(direction: LayoutDirection, constraints: &Vec<LayoutConstraints>, area: Rect) -> (res: Vec<Rect>)
    ensures
        res@ == layout_split(direction, constraints@, area),
        res@.len() == constraints@.len(),
{
    Layout::new(match direction {
        LayoutDirection::Horizontal => RD::Horizontal,
        LayoutDirection::Vertical => RD::Vertical,
    }, constraints.iter().map(|c| match *c {
        LC::Length(n) => RC::Length(n),
        LC::Percentage(n) => RC::Percentage(n),
        LC::Min(n) => RC::Min(n),
        LC::Max(n) => RC::Max(n),
        LC::Fill => RC::Fill(1),
        LC::Ratio(a, b) => RC::Ratio(a, b),
    })).split(RR { x: area.x, y: area.y, width: area.width, height: area.height }).iter().map(
        |p| Rect { x: p.x, y: p.y, width: p.width, height: p.height },
    ).collect()
}

/// Why a layout could not be computed.
#[derive(Debug, Clone, Copy, PartialEq, Eq, Structural)]
pub enum PlaceError {
    /// A position or a spacing went past the largest `u16`, or too many
    /// children shared an area.
    Overflow,
    /// A container had this many children but this many areas.
    Mismatch(usize, usize),
}

/// Where the widgets go: their areas, by name, and those that did not fit
/// (overflowing) or were hidden, in the order met.
pub struct Placed {
    pub areas: Seq<(Seq<char>, Rect)>,
    pub overflow: Seq<Seq<char>>,
    pub hidden: Seq<Seq<char>>,
}

/// The last position of `name` among `areas`, or -1.
pub open spec fn last_named(areas: Seq<(Seq<char>, Rect)>, name: Seq<char>) -> int
    decreases areas.len(),
{
    if areas.len() == 0 {
        -1
    } else if areas.last().0 == name {
        areas.len() - 1
    } else {
        last_named(areas.drop_last(), name)
    }
}

/// `areas` with `name` given area `r`: in its place when it is there, else
/// at the end.
pub open spec fn put(areas: Seq<(Seq<char>, Rect)>, name: Seq<char>, r: Rect) -> Seq<(Seq<char>, Rect)> {
    let i = last_named(areas, name);
    if i >= 0 {
        areas.update(i, (name, r))
    } else {
        areas.push((name, r))
    }
}

proof fn lemma_last_named_within(areas: Seq<(Seq<char>, Rect)>, name: Seq<char>)
    ensures
        -1 <= last_named(areas, name) < areas.len(),
        last_named(areas, name) >= 0 ==> areas[last_named(areas, name)].0 == name,
    decreases areas.len(),
{
    if areas.len() > 0 {
        lemma_last_named_within(areas.drop_last(), name);
    }
}

/// The area a collapsed widget takes at the corner of `area`: its collapsed
/// size within `area`; nothing unless the node is collapsed, may be,
/// holds a widget and has a collapsed size.
pub open spec fn collapsed_area(n: NodeView, area: Rect) -> Option<Rect> {
    if n.collapsed && n.collapsible && n.widget is Some {
        match n.advanced {
            Some(a) => match a.collapsed_size {
                Some(cs) => Some(
                    Rect {
                        x: area.x,
                        y: area.y,
                        width: if cs.0 < area.width { cs.0 } else { area.width },
                        height: if cs.1 < area.height { cs.1 } else { area.height },
                    },
                ),
                None => None,
            },
            None => None,
        }
    } else {
        None
    }
}

/// The widgets of tree `n` placed within `area` after those of `acc`, with
/// priorities `pm` and least widget size `min`: an invisible node hides its
/// widget; a collapsed one takes its collapsed area; else the area less the
/// margin goes to the widget of a leaf, less its padding and within its
/// constraints (a widget smaller than `min` is hidden when it may be, else
/// overflows), or is shared among a container's children, by priority or
/// by the container's constraints.
pub open spec fn place(pm: LayoutPriorityManager, min: (u16, u16), n: NodeView, area: Rect, acc: Placed) -> Result<Placed, PlaceError>
    decreases n,
{
    if !n.visible {
        match n.widget {
            Some(w) => Ok(Placed { hidden: acc.hidden.push(w), ..acc }),
            None => Ok(acc),
        }
    } else if collapsed_area(n, area) is Some {
        Ok(Placed { areas: put(acc.areas, n.widget->0, collapsed_area(n, area)->0), ..acc })
    } else if !inset_fits(area, n.margin.top, n.margin.right, n.margin.bottom, n.margin.left) {
        Err(PlaceError::Overflow)
    } else {
        let content = inset(area, n.margin.top, n.margin.right, n.margin.bottom, n.margin.left);
        if n.children.len() == 0 {
            match n.widget {
                None => Ok(acc),
                Some(w) => if !inset_fits(content, n.padding.top, n.padding.right, n.padding.bottom, n.padding.left) {
                    Err(PlaceError::Overflow)
                } else {
                    let f = leaf_area(n, content);
                    if f.width < min.0 || f.height < min.1 {
                        if n.advanced matches Some(a) && a.hideable {
                            Ok(Placed { hidden: acc.hidden.push(w), ..acc })
                        } else {
                            Ok(Placed { overflow: acc.overflow.push(w), ..acc })
                        }
                    } else {
                        Ok(Placed { areas: put(acc.areas, w, f), ..acc })
                    }
                },
            }
        } else {
            let rects = if by_priority(pm, n.children) {
                priority_layout(pm, n, content)
            } else {
                Some(layout_split(n.direction, n.constraints, content))
            };
            match rects {
                None => Err(PlaceError::Overflow),
                Some(rs) => if rs.len() != n.children.len() {
                    Err(PlaceError::Mismatch(n.children.len() as usize, rs.len() as usize))
                } else {
                    place_all(pm, min, n.children, rs, acc)
                },
            }
        }
    }
}

/// The trees `kids` placed in order, each within the area of the same
/// position in `rs`, after `acc`; the first error stops it.
pub open spec fn place_all(
    pm: LayoutPriorityManager,
    min: (u16, u16),
    kids: Seq<NodeView>,
    rs: Seq<Rect>,
    acc: Placed,
) -> Result<Placed, PlaceError>
    decreases kids,
{
    if kids.len() == 0 {
        Ok(acc)
    } else {
        proof {
            vstd::seq::axiom_seq_len_decreases(kids, kids.drop_last());
        }
        match place_all(pm, min, kids.drop_last(), rs, acc) {
            Err(e) => Err(e),
            Ok(a) => place(pm, min, kids.last(), rs[kids.len() - 1], a),
        }
    }
}

/// Once a prefix of the children fails, all of them fail alike.
proof fn lemma_err_stays(pm: LayoutPriorityManager, min: (u16, u16), kids: Seq<NodeView>, rs: Seq<Rect>, acc: Placed, j: int)
    requires
        0 <= j <= kids.len(),
        place_all(pm, min, kids.take(j), rs, acc) is Err,
    ensures
        place_all(pm, min, kids, rs, acc) == place_all(pm, min, kids.take(j), rs, acc),
    decreases kids.len() - j,
{
    if j < kids.len() {
        assert(kids.take(j + 1).drop_last() =~= kids.take(j));
        lemma_err_stays(pm, min, kids, rs, acc, j + 1);
    } else {
        assert(kids.take(j) =~= kids);
    }
}

/// Where the widgets of a layout go: their areas, the whole area, and the
/// widgets that did not fit or were hidden.
#[derive(Debug)]
pub struct LayoutResult {
    pub widget_areas: Vec<(WidgetId, Rect)>,
    pub total_area: Rect,
    pub overflow_widgets: Vec<WidgetId>,
    pub hidden_widgets: Vec<WidgetId>,
}

/// Widget areas by name.
pub open spec fn named_areas(s: Seq<(WidgetId, Rect)>) -> Seq<(Seq<char>, Rect)> {
    s.map_values(|p: (WidgetId, Rect)| (p.0.name(), p.1))
}

/// A layout result as plain values.
pub open spec fn placed_view(r: LayoutResult) -> Placed {
    Placed { areas: named_areas(r.widget_areas@), overflow: names(r.overflow_widgets@), hidden: names(r.hidden_widgets@) }
}

impl LayoutResult {
    /// Nothing placed yet within `total_area`.
    pub fn empty(total_area: Rect) -> (res: Self)
        ensures
            res.total_area == total_area,
            placed_view(res) == (Placed { areas: Seq::empty(), overflow: Seq::empty(), hidden: Seq::empty() }),
    {
        let res = LayoutResult {
            widget_areas: Vec::new(),
            total_area,
            overflow_widgets: Vec::new(),
            hidden_widgets: Vec::new(),
        };
        assert(placed_view(res).areas =~= Seq::empty());
        assert(placed_view(res).overflow =~= Seq::empty());
        assert(placed_view(res).hidden =~= Seq::empty());
        res
    }

    /// A copy of this result.
    pub fn copy(&self) -> (res: Self)
        ensures
            res.total_area == self.total_area,
            placed_view(res) == placed_view(*self),
    {
        let mut areas: Vec<(WidgetId, Rect)> = Vec::new();
        let mut i: usize = 0;
        while i < self.widget_areas.len()
            invariant
                i <= self.widget_areas@.len(),
                named_areas(areas@) == named_areas(self.widget_areas@).take(i as int),
            decreases self.widget_areas@.len() - i,
        {
            let w = self.widget_areas[i].0.clone();
            let ghost before = areas@;
            areas.push((w, self.widget_areas[i].1));
            assert(named_areas(areas@) =~= named_areas(before).push(named_areas(self.widget_areas@)[i as int]));
            i = i + 1;
            assert(named_areas(areas@) =~= named_areas(self.widget_areas@).take(i as int));
        }
        assert(named_areas(self.widget_areas@).take(i as int) =~= named_areas(self.widget_areas@));
        LayoutResult {
            widget_areas: areas,
            total_area: self.total_area,
            overflow_widgets: crate::widget::copy_ids(&self.overflow_widgets),
            hidden_widgets: crate::widget::copy_ids(&self.hidden_widgets),
        }
    }

    /// The area of the widget named like `widget_id`, if it has one.
    pub fn area_of(&self, widget_id: &WidgetId) -> (res: Option<Rect>)
        ensures
            res == (if last_named(named_areas(self.widget_areas@), widget_id.name()) >= 0 {
                Some(named_areas(self.widget_areas@)[last_named(named_areas(self.widget_areas@), widget_id.name())].1)
            } else {
                None
            }),
    {
        let ghost v = named_areas(self.widget_areas@);
        let mut i: usize = self.widget_areas.len();
        assert(v.take(i as int) =~= v);
        while i > 0
            invariant
                i <= v.len(),
                v == named_areas(self.widget_areas@),
                last_named(v, widget_id.name()) == last_named(v.take(i as int), widget_id.name()),
            decreases i,
        {
            let k = i - 1;
            assert(v.take(i as int).drop_last() =~= v.take(k as int));
            if self.widget_areas[k].0.same_as(widget_id) {
                return Some(self.widget_areas[k].1);
            }
            i = k;
        }
        None
    }
}

/// Gives the widget `w` area `r`; see `put`.
fn put_area(areas: &mut Vec<(WidgetId, Rect)>, w: WidgetId, r: Rect)
    ensures
        named_areas(final(areas)@) == put(named_areas(old(areas)@), w.name(), r),
{
    let ghost v = named_areas(areas@);
    let mut i: usize = areas.len();
    assert(v.take(i as int) =~= v);
    while i > 0
        invariant
            i <= v.len(),
            v == named_areas(areas@),
            v == named_areas(old(areas)@),
            last_named(v, w.name()) == last_named(v.take(i as int), w.name()),
        decreases i,
    {
        let k = i - 1;
        assert(v.take(i as int).drop_last() =~= v.take(k as int));
        if areas[k].0.same_as(&w) {
            areas.set(k, (w, r));
            assert(named_areas(areas@) =~= put(v, w.name(), r));
            return;
        }
        i = k;
    }
    areas.push((w, r));
    assert(named_areas(areas@) =~= put(v, w.name(), r));
}

/// The collapsed area of a node; see `collapsed_area`.
fn collapsed_area_of(node: &LayoutNode, area: Rect) -> (res: Option<Rect>)
    ensures
        res == collapsed_area(node_view(*node), area),
{
    if node.is_collapsed && node.is_collapsible && node.widget_id.is_some() {
        match &node.advanced_constraints {
            Some(a) => match a.collapsed_size {
                Some(cs) => Some(
                    Rect {
                        x: area.x,
                        y: area.y,
                        width: if cs.0 < area.width { cs.0 } else { area.width },
                        height: if cs.1 < area.height { cs.1 } else { area.height },
                    },
                ),
                None => None,
            },
            None => None,
        }
    } else {
        None
    }
}

/// Places the widgets of `node` within `area` into `acc`; see `place`.
pub fn place_node(
    pm: &LayoutPriorityManager,
    min: (u16, u16),
    node: &LayoutNode,
    area: Rect,
    acc: &mut LayoutResult,
) -> (res: Result<(), PlaceError>)
    ensures
        final(acc).total_area == old(acc).total_area,
        res is Ok ==> place(*pm, min, node_view(*node), area, placed_view(*old(acc))) == Ok::<Placed, PlaceError>(
            placed_view(*final(acc)),
        ),
        res matches Err(e) ==> place(*pm, min, node_view(*node), area, placed_view(*old(acc))) == Err::<Placed, PlaceError>(e),
    decreases node,
{
    let ghost nv = node_view(*node);
    proof {
        lemma_children_views(*node);
    }
    if !node.is_visible {
        if let Some(w) = &node.widget_id {
            acc.hidden_widgets.push(w.clone());
            assert(placed_view(*acc).hidden =~= placed_view(*old(acc)).hidden.push(w.name()));
        }
        assert(placed_view(*acc) =~= match nv.widget {
            Some(w) => Placed { hidden: placed_view(*old(acc)).hidden.push(w), ..placed_view(*old(acc)) },
            None => placed_view(*old(acc)),
        });
        return Ok(());
    }
    match (&node.widget_id, collapsed_area_of(node, area)) {
        (Some(w), Some(r)) => {
            put_area(&mut acc.widget_areas, w.clone(), r);
            return Ok(());
        },
        _ => {},
    }
    let m = &node.margin;
    if !(area.x as u32 + m.left as u32 <= 65535 && area.y as u32 + m.top as u32 <= 65535 && m.left as u32 + m.right as u32
        <= 65535 && m.top as u32 + m.bottom as u32 <= 65535) {
        return Err(PlaceError::Overflow);
    }
    let content = crate::layout::apply_margin(area, m);
    if node.children.len() == 0 {
        match &node.widget_id {
            None => {
                return Ok(());
            },
            Some(w) => {
                let p = &node.padding;
                if !(content.x as u32 + p.left as u32 <= 65535 && content.y as u32 + p.top as u32 <= 65535 && p.left as u32
                    + p.right as u32 <= 65535 && p.top as u32 + p.bottom as u32 <= 65535) {
                    return Err(PlaceError::Overflow);
                }
                let f = leaf_area_of(node, content);
                if f.width < min.0 || f.height < min.1 {
                    let hide = match &node.advanced_constraints {
                        Some(a) => a.hideable,
                        None => false,
                    };
                    if hide {
                        acc.hidden_widgets.push(w.clone());
                        assert(placed_view(*acc).hidden =~= placed_view(*old(acc)).hidden.push(w.name()));
                    } else {
                        acc.overflow_widgets.push(w.clone());
                        assert(placed_view(*acc).overflow =~= placed_view(*old(acc)).overflow.push(w.name()));
                    }
                } else {
                    put_area(&mut acc.widget_areas, w.clone(), f);
                }
                return Ok(());
            },
        }
    }
    let rects = if places_by_priority(pm, node) {
        priority_areas(pm, node, content)
    } else {
        Some(split_area(node.direction, &node.constraints, content))
    };
    let rs = match rects {
        None => {
            return Err(PlaceError::Overflow);
        },
        Some(rs) => rs,
    };
    let kids = &node.children;
    if rs.len() != kids.len() {
        return Err(PlaceError::Mismatch(kids.len(), rs.len()));
    }
    let ghost kv = views(kids@);
    let ghost a0 = placed_view(*acc);
    let ghost start = place(*pm, min, nv, area, a0);
    assert(start == place_all(*pm, min, kv, rs@, a0));
    assert(kv.take(0) =~= Seq::<NodeView>::empty());
    let mut j: usize = 0;
    while j < kids.len()
        invariant
            j <= kids@.len(),
            rs@.len() == kids@.len(),
            kv == views(kids@),
            nv == node_view(*node),
            nv.children == kv,
            start == place_all(*pm, min, kv, rs@, a0),
            start == place(*pm, min, nv, area, a0),
            a0 == placed_view(*old(acc)),
            kids == &node.children,
            place_all(*pm, min, kv.take(j as int), rs@, a0) == Ok::<Placed, PlaceError>(placed_view(*acc)),
            acc.total_area == old(acc).total_area,
        decreases kids@.len() - j,
    {
        proof {
            assert(decreases_to!(*node => node.children));
            assert(decreases_to!(node.children => node.children@));
            assert(decreases_to!(node.children@ => node.children@[j as int]));
            assert(decreases_to!(*node => kids@[j as int]));
        }
        let r = place_node(pm, min, &kids[j], rs[j], acc);
        proof {
            assert(kv.take(j + 1).drop_last() =~= kv.take(j as int));
            assert(kv.take(j + 1).last() == node_view(kids@[j as int]));
        }
        match r {
            Err(e) => {
                proof {
                    lemma_err_stays(*pm, min, kv, rs@, a0, j + 1);
                }
                return Err(e);
            },
            Ok(()) => {},
        }
        j = j + 1;
    }
    assert(kv.take(j as int) =~= kv);
    Ok(())
}

/// Keeping an aspect ratio, the size chosen within `w` by `h` (with the
/// width that fills the height and the height that fills the width worked
/// out from the ratio) never exceeds the space given, when no least size
/// is set.
pub proof fn law_aspect_fit_within(c: AdvancedSizeConstraints, w: u16, h: u16)
    requires
        c.maintain_aspect_ratio,
        c.aspect_ratio is Some,
        c.basic.min_width is None,
        c.basic.min_height is None,
    ensures
        ({
            let r = c.aspect_ratio->0;
            let res = aspect_fit(c, w, h, ratio_of(h, r.0, r.1), ratio_of(w, r.1, r.0));
            res.0 <= w && res.1 <= h
        }),
{
    let r = c.aspect_ratio->0;
    let aw = r.0;
    let ah = r.1;
    let wbh = ratio_of(h, aw, ah);
    let hbw = ratio_of(w, ah, aw);
    if wbh > w {
        assert(hbw <= h) by {
            if ah == 0 {
                assert(aw != 0);
            } else if aw == 0 {
                assert(wbh == 0);
            } else {
                let q1 = (h as int) * (aw as int) / (ah as int);
                assert(q1 >= w + 1);
                assert((h as int) * (aw as int) >= (w as int + 1) * (ah as int)) by (nonlinear_arith)
                    requires
                        q1 == (h as int) * (aw as int) / (ah as int),
                        q1 >= w + 1,
                        ah > 0,
                ;
                assert((w as int) * (ah as int) / (aw as int) <= h) by (nonlinear_arith)
                    requires
                        (h as int) * (aw as int) >= (w as int + 1) * (ah as int),
                        aw > 0,
                        ah > 0,
                        w >= 0,
                        h >= 0,
                ;
            }
        }
    }
}

/// Keeping an aspect ratio with no bounds on the size, the widget fills
/// the height when the width that fills it fits in the space given, and
/// else fills the width, at the height that fills it.
pub proof fn law_aspect_fit_fills(c: AdvancedSizeConstraints, w: u16, h: u16)
    requires
        c.maintain_aspect_ratio,
        c.aspect_ratio is Some,
        c.basic.min_width is None,
        c.basic.min_height is None,
        c.basic.max_width is None,
        c.basic.max_height is None,
    ensures
        ({
            let r = c.aspect_ratio->0;
            let wbh = ratio_of(h, r.0, r.1);
            let hbw = ratio_of(w, r.1, r.0);
            let res = aspect_fit(c, w, h, wbh, hbw);
            &&& wbh <= w ==> res == (wbh, h)
            &&& wbh > w ==> res == (w, hbw)
        }),
{
}

} // verus!
