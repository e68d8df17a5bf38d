//! Rendering work that can be spared: regions of the screen marked for
//! redrawing, widgets whose content has not changed, batches of render
//! operations, and a cache of rendered content, of whatever type the caller
//! draws into. The frame timings stay with the caller.

use vstd::prelude::*;
use crate::action::{decimal_string, decimal_text};
use crate::layout::Rect;
use crate::error::clock_now_ms;
use crate::feedback::{keep_unflagged, remove_flagged};
use crate::named::{
    entry_of, find_entry, lemma_absent_entry, lemma_entry_of_distinct, lemma_entry_update, lemma_remove_distinct,
    names_distinct,
};
use crate::text::text_eq;

verus! {

/// How rendering is tuned.
#[derive(Debug, Clone, Copy)]
pub struct RenderingConfig {
    /// The frame rate aimed at, in frames per second.
    pub target_fps: u32,
    pub monitor_fps: bool,
    pub enable_cache: bool,
    /// How long cached content stays valid, in milliseconds.
    pub cache_ttl_ms: u64,
    pub max_cache_entries: usize,
    pub incremental_rendering: bool,
    pub dirty_region_tracking: bool,
    pub enable_batching: bool,
    /// How many render operations make a batch.
    pub batch_size: usize,
    pub async_rendering: bool,
}

impl RenderingConfig {
    /// Sixty frames per second, every optimization on but asynchronous
    /// rendering, a cache of 1000 entries valid for a second, batches of
    /// ten operations.
    pub fn default() -> (res: Self)
        ensures
            res.target_fps == 60 && res.monitor_fps && res.enable_cache,
            res.cache_ttl_ms == 1000 && res.max_cache_entries == 1000,
            res.incremental_rendering && res.dirty_region_tracking && res.enable_batching,
            res.batch_size == 10 && !res.async_rendering,
    {
        RenderingConfig {
            target_fps: 60,
            monitor_fps: true,
            enable_cache: true,
            cache_ttl_ms: 1000,
            max_cache_entries: 1000,
            incremental_rendering: true,
            dirty_region_tracking: true,
            enable_batching: true,
            batch_size: 10,
            async_rendering: false,
        }
    }
}

/// What a rendering recommendation is about.
#[derive(Debug, Clone, Copy, PartialEq, Eq, Structural)]
pub enum RenderingOptimizationType {
    ReduceRenderComplexity,
    ImproveCaching,
    EnableBatching,
    OptimizeIncrementalRendering,
    ReduceRedrawFrequency,
    OptimizeWidgetLayout,
}

/// How urgent a recommendation is.
#[derive(Debug, Clone, Copy, PartialEq, Eq, Structural)]
pub enum OptimizationPriority {
    Low,
    Medium,
    High,
    Critical,
}

/// A region of the screen that a widget needs redrawn, with a priority.
#[derive(Debug)]
pub struct DirtyRegion {
    pub area: Rect,
    pub priority: u8,
    pub widget_id: String,
}

/// A render operation waiting in a batch; its time in milliseconds.
#[derive(Debug)]
pub struct RenderOperation {
    pub widget_id: String,
    pub area: Rect,
    pub priority: u8,
    pub timestamp_ms: u64,
}

/// Whether the right and bottom edges of `r` are on the screen's
/// coordinates.
pub open spec fn rect_fits(r: Rect) -> bool {
    r.x + r.width <= u16::MAX && r.y + r.height <= u16::MAX
}

/// Whether every region of the widget `id` among `s` lies within the
/// screen's coordinates, and `area` too when there is such a region: the
/// regions of a widget are compared with a new area of it, which adds
/// their coordinates.
pub open spec fn fits_for(s: Seq<RegionView>, id: Seq<char>, area: Rect) -> bool {
    forall|k: int| 0 <= k < s.len() && (#[trigger] s[k]).2 == id ==> rect_fits(area) && rect_fits(s[k].0)
}

/// Whether two areas share a cell.
pub open spec fn overlaps(a: Rect, b: Rect) -> bool {
    &&& a.x < b.x + b.width
    &&& b.x < a.x + a.width
    &&& a.y < b.y + b.height
    &&& b.y < a.y + a.height
}

/// The smaller of two coordinates.
pub open spec fn min_u16(a: u16, b: u16) -> u16 {
    if a <= b { a } else { b }
}

/// The larger of two integers.
pub open spec fn max_int(a: int, b: int) -> int {
    if a >= b { a } else { b }
}

/// The smallest area that holds both `a` and `b`.
pub open spec fn merged(a: Rect, b: Rect) -> Rect {
    let x = min_u16(a.x, b.x);
    let y = min_u16(a.y, b.y);
    let right = max_int(a.x + a.width, b.x + b.width);
    let bottom = max_int(a.y + a.height, b.y + b.height);
    Rect { x, y, width: (right - x) as u16, height: (bottom - y) as u16 }
}

/// Whether two areas share a cell.
fn regions_overlap(a: Rect, b: Rect) -> (res: bool)
    requires
        rect_fits(a),
        rect_fits(b),
    ensures
        res == overlaps(a, b),
{
    a.x < b.x + b.width && b.x < a.x + a.width && a.y < b.y + b.height && b.y < a.y + a.height
}

/// The smallest area that holds both `a` and `b`.
fn merge_rects(a: Rect, b: Rect) -> (res: Rect)
    requires
        rect_fits(a),
        rect_fits(b),
    ensures
        res == merged(a, b),
        rect_fits(res),
{
    let x = if a.x <= b.x { a.x } else { b.x };
    let y = if a.y <= b.y { a.y } else { b.y };
    let right = if a.x + a.width >= b.x + b.width { a.x + a.width } else { b.x + b.width };
    let bottom = if a.y + a.height >= b.y + b.height { a.y + a.height } else { b.y + b.height };
    Rect { x, y, width: right - x, height: bottom - y }
}

/// The merge of two areas on the screen's coordinates holds both, and is
/// itself on the screen's coordinates.
pub proof fn law_merged_covers(a: Rect, b: Rect)
    requires
        rect_fits(a),
        rect_fits(b),
    ensures
        rect_fits(merged(a, b)),
        merged(a, b).x <= a.x && merged(a, b).x <= b.x,
        merged(a, b).y <= a.y && merged(a, b).y <= b.y,
        merged(a, b).x + merged(a, b).width >= a.x + a.width,
        merged(a, b).x + merged(a, b).width >= b.x + b.width,
        merged(a, b).y + merged(a, b).height >= a.y + a.height,
        merged(a, b).y + merged(a, b).height >= b.y + b.height,
{
}

/// A dirty region as plain values: area, priority, widget.
pub type RegionView = (Rect, u8, Seq<char>);

/// A dirty region as plain values.
pub open spec fn region_view(r: DirtyRegion) -> RegionView {
    (r.area, r.priority, r.widget_id@)
}

/// Dirty regions as plain values.
pub open spec fn regions_view(s: Seq<DirtyRegion>) -> Seq<RegionView> {
    s.map_values(|r: DirtyRegion| region_view(r))
}

/// Whether regions are in descending order of priority.
pub open spec fn regions_descending(s: Seq<RegionView>) -> bool {
    forall|i: int, j: int| 0 <= i < j < s.len() ==> (#[trigger] s[i]).1 >= (#[trigger] s[j]).1
}

/// The regions of `s` with priority `p`, in order.
pub open spec fn regions_of_priority(s: Seq<RegionView>, p: u8) -> Seq<RegionView> {
    s.filter(|e: RegionView| e.1 == p)
}

/// Whether `res` lists the regions of `input` by descending priority,
/// regions of equal priority in the order they had.
pub open spec fn region_listing(res: Seq<RegionView>, input: Seq<RegionView>) -> bool {
    &&& regions_descending(res)
    &&& forall|p: u8| #[trigger] regions_of_priority(res, p) == regions_of_priority(input, p)
}

/// Filtering regions none of which has priority `p` gives nothing.
proof fn lemma_no_region_of_priority(s: Seq<RegionView>, p: u8)
    requires
        forall|i: int| 0 <= i < s.len() ==> (#[trigger] s[i]).1 != p,
    ensures
        regions_of_priority(s, p) == Seq::<RegionView>::empty(),
    decreases s.len(),
{
    reveal(Seq::filter);
    if s.len() > 0 {
        lemma_no_region_of_priority(s.drop_last(), p);
    }
}

/// Inserting `x` before the first region of lower priority keeps the order
/// and adds `x` last among its priority.
proof fn lemma_insert_region(s: Seq<RegionView>, x: RegionView, q: int)
    requires
        regions_descending(s),
        0 <= q <= s.len(),
        forall|k: int| 0 <= k < q ==> (#[trigger] s[k]).1 >= x.1,
        q < s.len() ==> s[q].1 < x.1,
    ensures
        regions_descending(s.insert(q, x)),
        forall|p: u8|
            #[trigger] regions_of_priority(s.insert(q, x), p) == if x.1 == p {
                regions_of_priority(s, p).push(x)
            } else {
                regions_of_priority(s, p)
            },
{
    let t = s.insert(q, x);
    assert forall|j: int| q <= j < s.len() implies (#[trigger] s[j]).1 < x.1 by {
        if j > q {
            assert(s[q].1 >= s[j].1);
        }
    }
    assert forall|i: int, j: int| 0 <= i < j < t.len() implies (#[trigger] t[i]).1 >= (#[trigger] t[j]).1 by {
        if i < q && j == q {
        } else if i == q {
            assert(t[j] == s[j - 1]);
        } else if i < q && j > q {
            assert(t[i] == s[i] && t[j] == s[j - 1]);
        } else if i > q {
            assert(t[i] == s[i - 1] && t[j] == s[j - 1]);
        }
    }
    let front = s.take(q);
    let back = s.skip(q);
    assert(s =~= front + back);
    assert(t =~= front + seq![x] + back);
    assert forall|p: u8|
        #[trigger] regions_of_priority(t, p) == if x.1 == p {
            regions_of_priority(s, p).push(x)
        } else {
            regions_of_priority(s, p)
        } by {
        let pred = |e: RegionView| e.1 == p;
        Seq::filter_distributes_over_add(front + seq![x], back, pred);
        Seq::filter_distributes_over_add(front, seq![x], pred);
        Seq::filter_distributes_over_add(front, back, pred);
        Seq::<RegionView>::empty().lemma_filter_push(x, pred);
        assert(seq![x] =~= Seq::<RegionView>::empty().push(x));
        reveal(Seq::filter);
        assert(Seq::<RegionView>::empty().filter(pred) =~= Seq::<RegionView>::empty());
        if x.1 == p {
            assert forall|i: int| 0 <= i < back.len() implies (#[trigger] back[i]).1 != p by {
                assert(back[i] == s[q + i]);
            }
            lemma_no_region_of_priority(back, p);
            assert(regions_of_priority(back, p) == back.filter(pred));
            assert(front.filter(pred) + back.filter(pred) =~= front.filter(pred));
            assert(front.filter(pred) + seq![x] + back.filter(pred) =~= front.filter(pred).push(x));
        } else {
            assert(front.filter(pred) + Seq::<RegionView>::empty() =~= front.filter(pred));
        }
    }
}

/// The regions in descending order of priority, regions of equal priority
/// in the order given.
fn sort_regions(input: Vec<DirtyRegion>) -> (res: Vec<DirtyRegion>)
    ensures
        region_listing(regions_view(res@), regions_view(input@)),
{
    let mut res: Vec<DirtyRegion> = Vec::new();
    let mut rest = input;
    let ghost all = regions_view(rest@);
    let total = rest.len();
    let mut i: usize = 0;
    proof {
        reveal(Seq::filter);
        assert forall|p: u8| #[trigger] regions_of_priority(regions_view(res@), p) == regions_of_priority(
            all.take(0),
            p,
        ) by {
            assert(regions_view(res@) =~= all.take(0));
        }
    }
    while rest.len() > 0
        invariant
            i <= all.len(),
            i + rest@.len() == all.len(),
            total == all.len(),
            regions_view(rest@) == all.skip(i as int),
            regions_descending(regions_view(res@)),
            forall|p: u8| #[trigger] regions_of_priority(regions_view(res@), p) == regions_of_priority(
                all.take(i as int),
                p,
            ),
        decreases rest@.len(),
    {
        let ghost rest_before = rest@;
        let x = rest.remove(0);
        let ghost xv = region_view(x);
        proof {
            assert(regions_view(rest_before).len() == rest_before.len());
            assert(regions_view(rest_before)[0] == xv);
            assert(all.skip(i as int)[0] == all[i as int]);
            assert(all[i as int] == xv);
            assert(rest@ =~= rest_before.subrange(1, rest_before.len() as int));
            assert forall|k: int| 0 <= k < rest@.len() implies #[trigger] regions_view(rest@)[k] == all.skip(i + 1)[k] by {
                assert(regions_view(rest_before)[k + 1] == all.skip(i as int)[k + 1]);
            }
            assert(regions_view(rest@) =~= all.skip(i + 1));
        }
        let mut q: usize = 0;
        while q < res.len() && res[q].priority >= x.priority
            invariant
                q <= res@.len(),
                forall|k: int| 0 <= k < q ==> (#[trigger] res@[k]).priority >= x.priority,
            decreases res@.len() - q,
        {
            q = q + 1;
        }
        let ghost before = regions_view(res@);
        proof {
            assert forall|k: int| 0 <= k < q implies (#[trigger] before[k]).1 >= xv.1 by {
                assert(before[k] == region_view(res@[k]));
            }
            if q < res@.len() {
                assert(before[q as int] == region_view(res@[q as int]));
            }
            lemma_insert_region(before, xv, q as int);
            assert forall|p: u8|
                #[trigger] regions_of_priority(all.take(i + 1), p) == if xv.1 == p {
                    regions_of_priority(all.take(i as int), p).push(xv)
                } else {
                    regions_of_priority(all.take(i as int), p)
                } by {
                assert(all.take(i + 1) =~= all.take(i as int).push(xv));
                all.take(i as int).lemma_filter_push(xv, |e: RegionView| e.1 == p);
            }
        }
        res.insert(q, x);
        proof {
            assert(regions_view(res@) =~= before.insert(q as int, xv));
        }
        i = i + 1;
    }
    proof {
        assert(all.take(i as int) =~= all);
    }
    res
}

/// Whether region `r` belongs to the widget `id` and shares a cell with
/// `area`.
pub open spec fn merges_with(r: RegionView, id: Seq<char>, area: Rect) -> bool {
    r.2 == id && overlaps(r.0, area)
}

/// Whether `j` is the first region of `s` that merges with a new region of
/// the widget `id` over `area`.
pub open spec fn first_merge(s: Seq<RegionView>, id: Seq<char>, area: Rect, j: int) -> bool {
    &&& 0 <= j < s.len()
    &&& merges_with(s[j], id, area)
    &&& forall|k: int| 0 <= k < j ==> !merges_with(#[trigger] s[k], id, area)
}

/// The regions after marking `area` of the widget `id` dirty with
/// `priority`, before sorting: the first region of that widget that shares
/// a cell with it grows to hold it and takes the higher priority; if there
/// is none, the new region comes last.
pub open spec fn marked(s: Seq<RegionView>, id: Seq<char>, area: Rect, priority: u8) -> Seq<RegionView> {
    if exists|j: int| first_merge(s, id, area, j) {
        let j = choose|j: int| first_merge(s, id, area, j);
        s.update(j, (merged(s[j].0, area), if s[j].1 >= priority { s[j].1 } else { priority }, s[j].2))
    } else {
        s.push((area, priority, id))
    }
}

/// The content hash last recorded for the widget `id` among `entries`.
pub open spec fn hash_of(entries: Seq<(String, u64)>, id: Seq<char>) -> Option<u64>
    decreases entries.len(),
{
    if entries.len() == 0 {
        None
    } else if entries.last().0@ == id {
        Some(entries.last().1)
    } else {
        hash_of(entries.drop_last(), id)
    }
}

/// Whether `k` is the last entry of the widget `id`.
pub open spec fn last_hash_entry(entries: Seq<(String, u64)>, id: Seq<char>, k: int) -> bool {
    &&& 0 <= k < entries.len()
    &&& entries[k].0@ == id
    &&& forall|j: int| k < j < entries.len() ==> (#[trigger] entries[j]).0@ != id
}

/// Replacing the hash of the last entry of a widget changes that widget's
/// hash and no other's.
proof fn lemma_hash_update(entries: Seq<(String, u64)>, k: int, name: String, h: u64)
    requires
        last_hash_entry(entries, name@, k),
    ensures
        forall|w: Seq<char>|
            #[trigger] hash_of(entries.update(k, (name, h)), w) == if w == name@ {
                Some(h)
            } else {
                hash_of(entries, w)
            },
    decreases entries.len(),
{
    let updated = entries.update(k, (name, h));
    if k < entries.len() - 1 {
        let rest = entries.drop_last();
        assert forall|j: int| k < j < rest.len() implies (#[trigger] rest[j]).0@ != name@ by {
            assert(rest[j] == entries[j]);
        }
        lemma_hash_update(rest, k, name, h);
        assert(updated.drop_last() =~= rest.update(k, (name, h)));
        assert(updated.last() == entries.last());
        assert(entries.last() == entries[entries.len() - 1]);
        assert forall|w: Seq<char>|
            #[trigger] hash_of(updated, w) == if w == name@ {
                Some(h)
            } else {
                hash_of(entries, w)
            } by {
            assert(hash_of(rest.update(k, (name, h)), w) == if w == name@ {
                Some(h)
            } else {
                hash_of(rest, w)
            });
        }
    } else {
        assert(updated.drop_last() =~= entries.drop_last());
        assert forall|w: Seq<char>|
            #[trigger] hash_of(updated, w) == if w == name@ {
                Some(h)
            } else {
                hash_of(entries, w)
            } by {
            if w != name@ {
                assert(entries.last().0@ == name@);
            }
        }
    }
}

/// What looking up cached content came to.
#[derive(Debug, Clone, Copy, PartialEq, Eq, Structural)]
pub enum CacheLookup {
    /// The cache is off.
    Disabled,
    /// Nothing is cached under the key.
    Missing,
    /// The cached content is older than the cache's lifetime; it is to be
    /// dropped.
    Expired,
    /// The content changed since it was cached; it is to be dropped.
    Changed,
    /// The cached content can be used.
    Hit,
}

/// What looking up cached content created at `created_at` with hash
/// `cached_hash` comes to at `now`, for content with hash `content_hash`.
pub open spec fn lookup_outcome(
    enabled: bool,
    ttl: u64,
    entry: Option<(u64, u64)>,
    content_hash: u64,
    now: u64,
) -> CacheLookup {
    if !enabled {
        CacheLookup::Disabled
    } else {
        match entry {
            None => CacheLookup::Missing,
            Some((created_at, cached_hash)) => if (if now >= created_at {
                now - created_at
            } else {
                0
            }) > ttl {
                CacheLookup::Expired
            } else if cached_hash != content_hash {
                CacheLookup::Changed
            } else {
                CacheLookup::Hit
            },
        }
    }
}

/// The key under which the content of a widget over an area is cached:
/// the widget, then the area's column, row, width and height, joined by
/// colons.
pub open spec fn cache_key(id: Seq<char>, area: Rect) -> Seq<char> {
    id + ":"@ + decimal_text(area.x as nat) + ":"@ + decimal_text(area.y as nat) + ":"@ + decimal_text(
        area.width as nat,
    ) + ":"@ + decimal_text(area.height as nat)
}

/// Whether cache entry `a`, by the time it was last used and then how
/// often, is to be dropped no later than `b`.
pub open spec fn used_no_later(a: (u64, u64), b: (u64, u64)) -> bool {
    a.0 < b.0 || (a.0 == b.0 && a.1 <= b.1)
}

/// Whether `picked` lists `count` distinct entries of `entries` (or all of
/// them, if there are fewer) none of which was used later than an entry
/// left out.
pub open spec fn least_used(entries: Seq<(u64, u64)>, count: nat, picked: Seq<usize>) -> bool {
    &&& picked.len() == if count <= entries.len() { count } else { entries.len() }
    &&& forall|i: int| 0 <= i < picked.len() ==> (#[trigger] picked[i]) < entries.len()
    &&& forall|i: int, j: int| 0 <= i < j < picked.len() ==> picked[i] != picked[j]
    &&& forall|i: int, k: int|
        0 <= i < picked.len() && 0 <= k < entries.len() && !picked.contains(k as usize) ==> used_no_later(
            #[trigger] entries[picked[i] as int],
            #[trigger] entries[k],
        )
}

/// The positions of the `count` cache entries to drop first: those used
/// least recently, and among those used at the same time the least often.
/// Each entry is given by the time it was last used and how often it was.
pub fn select_evictions(entries: &Vec<(u64, u64)>, count: usize) -> (res: Vec<usize>)
    ensures
        least_used(entries@, count as nat, res@),
{
    let mut chosen: Vec<bool> = Vec::new();
    let mut k: usize = 0;
    while k < entries.len()
        invariant
            k <= entries@.len(),
            chosen@.len() == k,
            forall|m: int| 0 <= m < k ==> !chosen@[m],
        decreases entries@.len() - k,
    {
        chosen.push(false);
        k = k + 1;
    }
    let mut res: Vec<usize> = Vec::new();
    while res.len() < count && res.len() < entries.len()
        invariant
            chosen@.len() == entries@.len(),
            res@.len() <= entries@.len(),
            res@.len() <= count,
            forall|i: int| 0 <= i < res@.len() ==> (#[trigger] res@[i]) < entries@.len(),
            forall|i: int, j: int| 0 <= i < j < res@.len() ==> res@[i] != res@[j],
            forall|m: int| 0 <= m < entries@.len() ==> (#[trigger] chosen@[m] <==> res@.contains(m as usize)),
            forall|i: int, m: int|
                0 <= i < res@.len() && 0 <= m < entries@.len() && !chosen@[m] ==> used_no_later(
                    #[trigger] entries@[res@[i] as int],
                    #[trigger] entries@[m],
                ),
        decreases entries@.len() - res@.len(),
    {
        let mut best: usize = 0;
        let mut found = false;
        let mut m: usize = 0;
        while m < entries.len()
            invariant
                m <= entries@.len(),
                chosen@.len() == entries@.len(),
                found ==> best < entries@.len() && !chosen@[best as int],
                found ==> forall|n: int| 0 <= n < m && !chosen@[n] ==> used_no_later(
                    entries@[best as int],
                    #[trigger] entries@[n],
                ),
                !found ==> forall|n: int| 0 <= n < m ==> #[trigger] chosen@[n],
            decreases entries@.len() - m,
        {
            if !chosen[m] {
                if !found || entries[m].0 < entries[best].0 || (entries[m].0 == entries[best].0 && entries[m].1
                    < entries[best].1) {
                    best = m;
                    found = true;
                }
            }
            m = m + 1;
        }
        proof {
            if !found {
                // every entry is chosen, so all of them are in `res`
                assert forall|n: usize| (n as int) < entries@.len() implies #[trigger] res@.contains(n) by {
                    assert(chosen@[n as int]);
                }
                lemma_distinct_cover(res@, entries@.len());
            }
        }
        let ghost before = res@;
        chosen.set(best, true);
        res.push(best);
        proof {
            assert forall|m2: int| 0 <= m2 < entries@.len() implies (#[trigger] chosen@[m2] <==> res@.contains(
                m2 as usize,
            )) by {
                if res@.contains(m2 as usize) {
                    let w = choose|w: int| 0 <= w < res@.len() && res@[w] == m2 as usize;
                    if w < before.len() {
                        assert(before[w] == m2 as usize);
                        assert(before.contains(m2 as usize));
                    }
                }
                if m2 != best as int && before.contains(m2 as usize) {
                    let w = choose|w: int| 0 <= w < before.len() && before[w] == m2 as usize;
                    assert(res@[w] == m2 as usize);
                }
                if m2 == best as int {
                    assert(res@[before.len() as int] == best);
                }
            }
            assert forall|i: int, j: int| 0 <= i < j < res@.len() implies res@[i] != res@[j] by {
                if j == before.len() {
                    assert(!before.contains(best)) by {
                        if before.contains(best) {
                            let w = choose|w: int| 0 <= w < before.len() && before[w] == best;
                        }
                    }
                    assert(before[i] == res@[i]);
                }
            }
        }
    }
    res
}

/// Distinct positions below `n`, covering all of them, number `n`.
proof fn lemma_distinct_cover(s: Seq<usize>, n: nat)
    requires
        forall|i: int| 0 <= i < s.len() ==> (#[trigger] s[i]) < n,
        forall|i: int, j: int| 0 <= i < j < s.len() ==> s[i] != s[j],
        forall|k: usize| (k as int) < n ==> #[trigger] s.contains(k),
        n <= usize::MAX,
    ensures
        s.len() >= n,
{
    let t = s.map_values(|x: usize| x as int);
    assert(t.no_duplicates()) by {
        assert forall|i: int, j: int| 0 <= i < t.len() && 0 <= j < t.len() && i != j implies t[i] != t[j] by {
            if i < j {
                assert(s[i] != s[j]);
            } else {
                assert(s[j] != s[i]);
            }
        }
    }
    t.unique_seq_to_set();
    vstd::set_lib::lemma_int_range(0, n as int);
    let r = vstd::set_lib::set_int_range(0, n as int);
    assert(r.subset_of(t.to_set())) by {
        assert forall|k: int| r.contains(k) implies t.to_set().contains(k) by {
            assert(s.contains(k as usize));
            assert((k as usize) as int == k);
            let w = choose|w: int| 0 <= w < s.len() && s[w] == k as usize;
            assert(t[w] == k);
        }
    }
    vstd::seq_lib::seq_to_set_is_finite(t);
    vstd::set_lib::lemma_len_subset(r, t.to_set());
}

/// A render operation as plain values: widget, area, priority, time.
pub open spec fn operation_view(o: RenderOperation) -> (Seq<char>, Rect, u8, u64) {
    (o.widget_id@, o.area, o.priority, o.timestamp_ms)
}

/// Render operations as plain values.
pub open spec fn operations_view(s: Seq<RenderOperation>) -> Seq<(Seq<char>, Rect, u8, u64)> {
    s.map_values(|o: RenderOperation| operation_view(o))
}

/// The cache key of the content of a widget over an area.
pub fn cache_key_of(widget_id: &str, area: Rect) -> (res: String)
    ensures
        res@ == cache_key(widget_id@, area),
{
    let mut key = String::from_str(widget_id);
    key.append(":");
    key.append(decimal_string(area.x as usize).as_str());
    key.append(":");
    key.append(decimal_string(area.y as usize).as_str());
    key.append(":");
    key.append(decimal_string(area.width as usize).as_str());
    key.append(":");
    key.append(decimal_string(area.height as usize).as_str());
    key
}

/// Rendered content of type `B` kept for a widget over an area: when it was
/// made and last used (in milliseconds), how often it was used, and the
/// hash of what it shows.
pub struct RenderCacheEntry<B> {
    pub content: B,
    pub created_at_ms: u64,
    pub last_accessed_ms: u64,
    pub access_count: u64,
    pub area: Rect,
    pub hash: u64,
}

/// When an entry was made and the hash of its content, if there is one.
pub open spec fn entry_stamp<B>(e: Option<RenderCacheEntry<B>>) -> Option<(u64, u64)> {
    match e {
        Some(x) => Some((x.created_at_ms, x.hash)),
        None => None,
    }
}

/// The entries by when they were last used and how often.
pub open spec fn usage_of<B>(cache: Seq<(String, RenderCacheEntry<B>)>) -> Seq<(u64, u64)> {
    cache.map_values(|e: (String, RenderCacheEntry<B>)| (e.1.last_accessed_ms, e.1.access_count))
}

/// Flags set on the positions `picked`, for `n` entries.
pub open spec fn picked_flags(picked: Seq<usize>, n: nat) -> Seq<bool> {
    Seq::new(n, |i: int| picked.contains(i as usize))
}

/// Whether `after` is `before` without `count` entries (or all of them, if
/// there are fewer), none used later than an entry kept.
pub open spec fn evicted_from<B>(
    before: Seq<(String, RenderCacheEntry<B>)>,
    after: Seq<(String, RenderCacheEntry<B>)>,
    count: nat,
) -> bool {
    exists|picked: Seq<usize>|
        #[trigger] least_used(usage_of(before), count, picked) && after == keep_unflagged(
            before,
            picked_flags(picked, before.len()),
        )
}

/// The bookkeeping of rendering: the configuration, the cache of rendered
/// content of type `B` by key, how often cached content was found usable
/// and how often not, the regions marked for redrawing (by descending
/// priority), the content hash each widget was last drawn with, and the
/// render operations waiting for a batch.
#[verifier::reject_recursive_types(B)]
pub struct RenderingPerformanceManager<B> {
    config: RenderingConfig,
    render_cache: Vec<(String, RenderCacheEntry<B>)>,
    cache_hits: u64,
    cache_misses: u64,
    dirty_regions: Vec<DirtyRegion>,
    last_render_hash: Vec<(String, u64)>,
    render_queue: Vec<RenderOperation>,
}

impl<B> RenderingPerformanceManager<B> {
    /// The cached content by key; the last entry of a key holds it.
    pub closed spec fn cache(&self) -> Seq<(String, RenderCacheEntry<B>)> {
        self.render_cache@
    }

    /// The configuration.
    pub closed spec fn cfg(&self) -> RenderingConfig {
        self.config
    }

    /// How often cached content was found usable.
    pub closed spec fn hits(&self) -> u64 {
        self.cache_hits
    }

    /// How often cached content was looked for and not usable.
    pub closed spec fn misses(&self) -> u64 {
        self.cache_misses
    }

    /// The regions marked for redrawing.
    pub closed spec fn dirty(&self) -> Seq<RegionView> {
        regions_view(self.dirty_regions@)
    }

    /// The content hashes widgets were last drawn with.
    pub closed spec fn hashes(&self) -> Seq<(String, u64)> {
        self.last_render_hash@
    }

    /// The render operations waiting for a batch.
    pub closed spec fn queue(&self) -> Seq<(Seq<char>, Rect, u8, u64)> {
        operations_view(self.render_queue@)
    }

    /// The regions are in descending order of priority and on the screen's
    /// coordinates.
    pub closed spec fn well_formed(&self) -> bool {
        &&& regions_descending(self.dirty())
        &&& names_distinct(self.cache())
    }

    /// Nothing cached, marked, drawn or queued yet.
    pub fn new(config: RenderingConfig) -> (res: Self)
        ensures
            res.well_formed(),
            res.cfg() == config,
            res.hits() == 0 && res.misses() == 0,
            res.cache().len() == 0,
            res.dirty().len() == 0,
            res.hashes().len() == 0,
            res.queue().len() == 0,
    {
        let res = RenderingPerformanceManager {
            config,
            render_cache: Vec::new(),
            cache_hits: 0,
            cache_misses: 0,
            dirty_regions: Vec::new(),
            last_render_hash: Vec::new(),
            render_queue: Vec::new(),
        };
        assert(res.dirty() =~= Seq::<RegionView>::empty());
        assert(res.queue() =~= Seq::<(Seq<char>, Rect, u8, u64)>::empty());
        res
    }

    /// The configuration.
    pub fn get_config(&self) -> (res: RenderingConfig)
        ensures
            res == self.cfg(),
    {
        self.config
    }

    /// Whether content of a widget over `area` is worth caching: only with
    /// the cache on, for areas at least ten cells wide and three high, while
    /// the cache is not full.
    pub fn should_cache_render(&self, widget_id: &str, area: Rect) -> (res: bool)
        ensures
            res == (self.cfg().enable_cache && area.width >= 10 && area.height >= 3 && self.cache().len()
                < self.cfg().max_cache_entries),
    {
        let cache_len = self.render_cache.len();
        if !self.config.enable_cache {
            return false;
        }
        if area.width < 10 || area.height < 3 {
            return false;
        }
        if cache_len >= self.config.max_cache_entries {
            return false;
        }
        true
    }

    /// Records the lookup of cached content at `now_ms`: `entry` is when
    /// the content found under its key was cached and its hash, if any.
    /// A usable entry counts as a hit, any other lookup with the cache on as
    /// a miss.
    pub fn record_cache_lookup(&mut self, entry: Option<(u64, u64)>, content_hash: u64, now_ms: u64) -> (res: CacheLookup)
        requires
            old(self).hits() < u64::MAX,
            old(self).misses() < u64::MAX,
        ensures
            res == lookup_outcome(old(self).cfg().enable_cache, old(self).cfg().cache_ttl_ms, entry, content_hash, now_ms),
            final(self).hits() == old(self).hits() + if res == CacheLookup::Hit { 1int } else { 0int },
            final(self).misses() == old(self).misses() + if res == CacheLookup::Missing || res == CacheLookup::Expired
                || res == CacheLookup::Changed {
                1int
            } else {
                0int
            },
            final(self).cfg() == old(self).cfg(),
            final(self).dirty() == old(self).dirty(),
            final(self).hashes() == old(self).hashes(),
            final(self).queue() == old(self).queue(),
            final(self).cache() == old(self).cache(),
            final(self).well_formed() == old(self).well_formed(),
    {
        if !self.config.enable_cache {
            return CacheLookup::Disabled;
        }
        match entry {
            None => {
                self.cache_misses = self.cache_misses + 1;
                CacheLookup::Missing
            },
            Some((created_at, cached_hash)) => {
                let elapsed = if now_ms >= created_at { now_ms - created_at } else { 0 };
                if elapsed > self.config.cache_ttl_ms {
                    self.cache_misses = self.cache_misses + 1;
                    CacheLookup::Expired
                } else if cached_hash != content_hash {
                    self.cache_misses = self.cache_misses + 1;
                    CacheLookup::Changed
                } else {
                    self.cache_hits = self.cache_hits + 1;
                    CacheLookup::Hit
                }
            },
        }
    }

    /// Marks `area` of the widget `widget_id` for redrawing with
    /// `priority`: with region tracking on, it joins the first region of
    /// the same widget it shares a cell with, or comes as a new region; the
    /// regions stay in descending order of priority, regions of equal
    /// priority in the order they had.
    pub fn mark_dirty(&mut self, widget_id: String, area: Rect, priority: u8)
        requires
            old(self).well_formed(),
            fits_for(old(self).dirty(), widget_id@, area),
        ensures
            final(self).well_formed(),
            old(self).cfg().dirty_region_tracking ==> region_listing(
                final(self).dirty(),
                marked(old(self).dirty(), widget_id@, area, priority),
            ),
            !old(self).cfg().dirty_region_tracking ==> final(self).dirty() == old(self).dirty(),
            final(self).cfg() == old(self).cfg(),
            final(self).hits() == old(self).hits(),
            final(self).misses() == old(self).misses(),
            final(self).hashes() == old(self).hashes(),
            final(self).queue() == old(self).queue(),
            final(self).cache() == old(self).cache(),
    {
        if !self.config.dirty_region_tracking {
            return;
        }
        let ghost id = widget_id@;
        let mut regions: Vec<DirtyRegion> = Vec::new();
        std::mem::swap(&mut regions, &mut self.dirty_regions);
        let ghost s = regions_view(regions@);
        assert(s.len() == regions@.len());
        let mut j: usize = 0;
        let mut found = false;
        while !found && j < regions.len()
            invariant
                id == widget_id@,
                s == regions_view(regions@),
                s.len() == regions@.len(),
                fits_for(s, id, area),
                j <= regions@.len(),
                found ==> j < regions@.len() && merges_with(s[j as int], id, area),
                forall|k: int| 0 <= k < j ==> !merges_with(#[trigger] s[k], id, area),
            decreases regions@.len() - j, if found { 0int } else { 1int },
        {
            proof {
                assert(s[j as int] == region_view(regions@[j as int]));
            }
            let same = text_eq(regions[j].widget_id.as_str(), widget_id.as_str());
            proof {
                if same {
                    assert(s[j as int].2 == regions@[j as int].widget_id@);
                    assert(rect_fits(s[j as int].0) && rect_fits(area));
                }
            }
            let hit = same && regions_overlap(regions[j].area, area);
            proof {
                assert(s[j as int].2 == regions@[j as int].widget_id@);
                assert(s[j as int].0 == regions@[j as int].area);
                assert(hit == merges_with(s[j as int], id, area));
            }
            if hit {
                found = true;
            } else {
                j = j + 1;
            }
        }
        if found {
            proof {
                assert(first_merge(s, id, area, j as int));
            }
            let old_region = regions.remove(j);
            proof {
                assert(s[j as int] == region_view(old_region));
            }
            let grown = DirtyRegion {
                area: merge_rects(old_region.area, area),
                priority: if old_region.priority >= priority { old_region.priority } else { priority },
                widget_id: old_region.widget_id,
            };
            regions.insert(j, grown);
            proof {
                let target = s.update(j as int, (merged(s[j as int].0, area), if s[j as int].1 >= priority {
                    s[j as int].1
                } else {
                    priority
                }, s[j as int].2));
                assert(regions_view(regions@) =~= target);
                assert forall|k: int| 0 <= k < j implies !merges_with(#[trigger] s[k], id, area) by {}
                let c = choose|c: int| first_merge(s, id, area, c);
                if c < j {
                    assert(!merges_with(s[c], id, area));
                } else if c > j {
                    assert(!merges_with(s[j as int], id, area));
                }
                assert(c == j);
                assert(marked(s, id, area, priority) == target);
            }
        } else {
            proof {
                assert forall|c: int| !first_merge(s, id, area, c) by {
                    if 0 <= c < s.len() {
                        assert(!merges_with(s[c], id, area));
                    }
                }
            }
            regions.push(DirtyRegion { area, priority, widget_id });
            proof {
                assert(regions_view(regions@) =~= s.push((area, priority, id)));
                assert(marked(s, id, area, priority) == s.push((area, priority, id)));
            }
        }
        self.dirty_regions = sort_regions(regions);
    }

    /// The regions marked for redrawing, by descending priority; none is
    /// left marked.
    pub fn get_dirty_regions(&mut self) -> (res: Vec<DirtyRegion>)
        requires
            old(self).well_formed(),
        ensures
            regions_view(res@) == old(self).dirty(),
            final(self).dirty().len() == 0,
            final(self).well_formed(),
            final(self).cfg() == old(self).cfg(),
            final(self).hits() == old(self).hits(),
            final(self).misses() == old(self).misses(),
            final(self).hashes() == old(self).hashes(),
            final(self).queue() == old(self).queue(),
            final(self).cache() == old(self).cache(),
    {
        let mut regions: Vec<DirtyRegion> = Vec::new();
        std::mem::swap(&mut regions, &mut self.dirty_regions);
        assert(self.dirty() =~= Seq::<RegionView>::empty());
        regions
    }

    /// Whether the widget `widget_id` is to be drawn again for content with
    /// hash `content_hash`: with incremental rendering off, never (the
    /// whole screen is drawn); else unless it was last drawn with the same
    /// hash. A widget to be drawn has the hash recorded.
    pub fn should_use_incremental_rendering(&mut self, widget_id: &str, content_hash: u64) -> (res: bool)
        ensures
            res == (old(self).cfg().incremental_rendering && hash_of(old(self).hashes(), widget_id@) != Some(
                content_hash,
            )),
            forall|w: Seq<char>|
                #[trigger] hash_of(final(self).hashes(), w) == if res && w == widget_id@ {
                    Some(content_hash)
                } else {
                    hash_of(old(self).hashes(), w)
                },
            final(self).cfg() == old(self).cfg(),
            final(self).hits() == old(self).hits(),
            final(self).misses() == old(self).misses(),
            final(self).dirty() == old(self).dirty(),
            final(self).queue() == old(self).queue(),
            final(self).cache() == old(self).cache(),
            final(self).well_formed() == old(self).well_formed(),
    {
        if !self.config.incremental_rendering {
            return false;
        }
        let ghost entries = self.last_render_hash@;
        let mut i: usize = self.last_render_hash.len();
        assert(entries.take(i as int) =~= entries);
        while i > 0
            invariant
                *self == *old(self),
                old(self).cfg().incremental_rendering,
                entries == self.last_render_hash@,
                i <= entries.len(),
                hash_of(entries, widget_id@) == hash_of(entries.take(i as int), widget_id@),
                forall|j: int| i <= j < entries.len() ==> (#[trigger] entries[j]).0@ != widget_id@,
            decreases i,
        {
            let k = i - 1;
            assert(entries.take(i as int).drop_last() =~= entries.take(k as int));
            if text_eq(self.last_render_hash[k].0.as_str(), widget_id) {
                let last = self.last_render_hash[k].1;
                proof {
                    assert(entries.take(i as int).last() == entries[k as int]);
                    assert(hash_of(entries, widget_id@) == Some(last));
                    assert(old(self).hashes() == entries);
                }
                if last == content_hash {
                    return false;
                }
                let name = self.last_render_hash[k].0.clone();
                proof {
                    assert(last_hash_entry(entries, name@, k as int));
                    lemma_hash_update(entries, k as int, name, content_hash);
                }
                self.last_render_hash.set(k, (name, content_hash));
                return true;
            }
            i = k;
        }
        let ghost before = self.last_render_hash@;
        self.last_render_hash.push((String::from_str(widget_id), content_hash));
        proof {
            assert(self.last_render_hash@.drop_last() =~= before);
        }
        true
    }

    /// Queues a render operation: with batching on it joins the batch, and
    /// a full batch is drawn and emptied.
    pub fn queue_render_operation(&mut self, operation: RenderOperation)
        ensures
            !old(self).cfg().enable_batching ==> final(self).queue() == old(self).queue(),
            old(self).cfg().enable_batching ==> {
                let q = old(self).queue().push(operation_view(operation));
                if q.len() >= old(self).cfg().batch_size {
                    final(self).queue().len() == 0
                } else {
                    final(self).queue() == q
                }
            },
            final(self).cfg() == old(self).cfg(),
            final(self).hits() == old(self).hits(),
            final(self).misses() == old(self).misses(),
            final(self).dirty() == old(self).dirty(),
            final(self).hashes() == old(self).hashes(),
            final(self).cache() == old(self).cache(),
            final(self).well_formed() == old(self).well_formed(),
    {
        if !self.config.enable_batching {
            return;
        }
        let ghost before = self.render_queue@;
        self.render_queue.push(operation);
        assert(self.queue() =~= operations_view(before).push(operation_view(operation)));
        if self.render_queue.len() >= self.config.batch_size {
            self.render_queue = Vec::new();
            assert(self.queue() =~= Seq::<(Seq<char>, Rect, u8, u64)>::empty());
        }
    }

    /// How often cached content was found usable, and how often not.
    pub fn get_cache_stats(&self) -> (res: (u64, u64))
        ensures
            res == (self.hits(), self.misses()),
    {
        (self.cache_hits, self.cache_misses)
    }

    /// Empties the cache and starts its counts afresh.
    pub fn clear_cache(&mut self)
        ensures
            final(self).cache().len() == 0,
            final(self).hits() == 0 && final(self).misses() == 0,
            final(self).cfg() == old(self).cfg(),
            final(self).dirty() == old(self).dirty(),
            final(self).hashes() == old(self).hashes(),
            final(self).queue() == old(self).queue(),
            old(self).well_formed() ==> final(self).well_formed(),
    {
        self.render_cache = Vec::new();
        self.cache_hits = 0;
        self.cache_misses = 0;
    }
}


/// How many entries a full cache of `len` entries drops: enough to come down
/// to three quarters of `max`.
pub open spec fn evict_count(len: nat, max: nat) -> nat {
    let target = max * 3 / 4;
    if len >= target {
        (len - target) as nat
    } else {
        0
    }
}

/// Whether `mid` is the cache `before` made ready for one more entry: a
/// full cache drops entries, the least recently used first.
pub open spec fn made_room<B>(
    before: Seq<(String, RenderCacheEntry<B>)>,
    mid: Seq<(String, RenderCacheEntry<B>)>,
    max: nat,
) -> bool {
    if before.len() >= max {
        evicted_from(before, mid, evict_count(before.len(), max))
    } else {
        mid == before
    }
}

/// A name kept after dropping flagged entries was there before.
pub proof fn lemma_unflagged_names<V>(s: Seq<(String, V)>, flags: Seq<bool>)
    requires
        flags.len() == s.len(),
    ensures
        forall|w: Seq<char>|
            (#[trigger] entry_of(keep_unflagged(s, flags), w)) is Some ==> entry_of(s, w) is Some,
    decreases s.len(),
{
    if s.len() > 0 {
        let t = s.drop_last();
        let f = flags.take(s.len() - 1);
        lemma_unflagged_names(t, f);
        let rest = keep_unflagged(t, f);
        let kept = keep_unflagged(s, flags);
        assert(kept == if !flags[s.len() - 1] {
            rest.push(s.last())
        } else {
            rest
        });
        assert forall|w: Seq<char>| (#[trigger] entry_of(kept, w)) is Some implies entry_of(s, w) is Some by {
            if !flags[s.len() - 1] {
                assert(kept.drop_last() =~= rest);
                assert(kept.last() == s.last());
                if s.last().0@ != w {
                    assert(entry_of(rest, w) is Some);
                }
            } else {
                assert(entry_of(rest, w) is Some);
            }
        }
    }
}

/// Dropping flagged entries keeps names distinct.
pub proof fn lemma_unflagged_distinct<V>(s: Seq<(String, V)>, flags: Seq<bool>)
    requires
        flags.len() == s.len(),
        names_distinct(s),
    ensures
        names_distinct(keep_unflagged(s, flags)),
    decreases s.len(),
{
    if s.len() > 0 {
        let t = s.drop_last();
        let f = flags.take(s.len() - 1);
        assert forall|a: int, b: int| 0 <= a < b < t.len() implies (#[trigger] t[a]).0@ != (#[trigger] t[b]).0@ by {
            assert(t[a] == s[a] && t[b] == s[b]);
        }
        lemma_unflagged_distinct(t, f);
        let rest = keep_unflagged(t, f);
        let kept = keep_unflagged(s, flags);
        if !flags[s.len() - 1] {
            let x = s[s.len() - 1];
            assert forall|j: int| 0 <= j < t.len() implies (#[trigger] t[j]).0@ != x.0@ by {
                assert(t[j] == s[j]);
            }
            lemma_absent_entry(t, x.0@);
            lemma_unflagged_names(t, f);
            crate::named::lemma_entry_of_none(rest, x.0@);
            assert(kept.drop_last() =~= rest);
            assert(kept.last() == x);
            assert forall|a: int, b: int| 0 <= a < b < kept.len() implies (#[trigger] kept[a]).0@ != (
            #[trigger] kept[b]).0@ by {
                assert(kept[a] == rest[a]);
                if b < kept.len() - 1 {
                    assert(kept[b] == rest[b]);
                }
            }
        }
    }
}

impl<B> RenderingPerformanceManager<B> {
    /// Whether `after` is this manager having cached `content`, with hash
    /// `hash`, under `key` over `area` at `now`.
    pub open spec fn cached(self, after: Self, key: Seq<char>, area: Rect, content: B, hash: u64, now: u64) -> bool {
        &&& after.cfg() == self.cfg()
        &&& after.hits() == self.hits()
        &&& after.misses() == self.misses()
        &&& after.dirty() == self.dirty()
        &&& after.hashes() == self.hashes()
        &&& after.queue() == self.queue()
        &&& if !self.cfg().enable_cache {
            after.cache() == self.cache()
        } else {
            exists|mid: Seq<(String, RenderCacheEntry<B>)>|
                #[trigger] made_room(self.cache(), mid, self.cfg().max_cache_entries as nat) && entry_of(
                    after.cache(),
                    key,
                ) == Some(
                    RenderCacheEntry {
                        content,
                        created_at_ms: now,
                        last_accessed_ms: now,
                        access_count: 1,
                        area,
                        hash,
                    },
                ) && forall|w: Seq<char>| w != key ==> #[trigger] entry_of(after.cache(), w) == entry_of(mid, w)
        }
    }

    /// Stores `entry` under `key`, replacing the entry of the key.
    fn put_cache_entry(&mut self, key: String, entry: RenderCacheEntry<B>)
        requires
            old(self).well_formed(),
        ensures
            final(self).well_formed(),
            forall|w: Seq<char>|
                #[trigger] entry_of(final(self).cache(), w) == if w == key@ {
                    Some(entry)
                } else {
                    entry_of(old(self).cache(), w)
                },
            final(self).cfg() == old(self).cfg(),
            final(self).hits() == old(self).hits(),
            final(self).misses() == old(self).misses(),
            final(self).dirty() == old(self).dirty(),
            final(self).hashes() == old(self).hashes(),
            final(self).queue() == old(self).queue(),
    {
        let ghost before = self.render_cache@;
        let ghost stored = (key, entry);
        match find_entry(&self.render_cache, key.as_str()) {
            Some(k) => {
                proof {
                    lemma_entry_update(before, k as int, key, entry);
                }
                self.render_cache.set(k, (key, entry));
                assert(self.render_cache@ =~= before.update(k as int, stored));
                assert forall|a: int| 0 <= a < self.render_cache@.len() implies (
                #[trigger] self.render_cache@[a]).0@ == before[a].0@ by {}
            },
            None => {
                self.render_cache.push((key, entry));
                assert(self.render_cache@.drop_last() =~= before);
                assert forall|a: int, b: int| 0 <= a < b < self.render_cache@.len() implies (
                #[trigger] self.render_cache@[a]).0@ != (#[trigger] self.render_cache@[b]).0@ by {
                    assert(self.render_cache@[a] == before[a]);
                    if b < before.len() {
                        assert(self.render_cache@[b] == before[b]);
                    }
                }
            },
        }
    }

    /// Drops the least recently used entries, the least often used first
    /// among those used at the same time, down to three quarters of the
    /// cache's size.
    fn evict_cache_entries(&mut self)
        requires
            old(self).well_formed(),
            old(self).cfg().max_cache_entries * 3 <= usize::MAX,
        ensures
            final(self).well_formed(),
            evicted_from(
                old(self).cache(),
                final(self).cache(),
                evict_count(old(self).cache().len(), old(self).cfg().max_cache_entries as nat),
            ),
            final(self).cfg() == old(self).cfg(),
            final(self).hits() == old(self).hits(),
            final(self).misses() == old(self).misses(),
            final(self).dirty() == old(self).dirty(),
            final(self).hashes() == old(self).hashes(),
            final(self).queue() == old(self).queue(),
    {
        let ghost before = self.render_cache@;
        let target = self.config.max_cache_entries * 3 / 4;
        let len = self.render_cache.len();
        let to_remove = if len >= target { len - target } else { 0 };
        let mut usage: Vec<(u64, u64)> = Vec::new();
        let mut i: usize = 0;
        while i < len
            invariant
                i <= len,
                len == before.len(),
                before == self.render_cache@,
                usage@ == usage_of(before).take(i as int),
            decreases len - i,
        {
            usage.push((self.render_cache[i].1.last_accessed_ms, self.render_cache[i].1.access_count));
            assert(usage@ =~= usage_of(before).take(i + 1));
            i = i + 1;
        }
        assert(usage@ =~= usage_of(before));
        let picked = select_evictions(&usage, to_remove);
        let mut flags: Vec<bool> = Vec::new();
        let mut m: usize = 0;
        while m < len
            invariant
                m <= len,
                len == before.len(),
                picked@.len() <= len,
                flags@ == Seq::new(m as nat, |x: int| picked@.contains(x as usize)),
            decreases len - m,
        {
            let mut found = false;
            let mut j: usize = 0;
            while j < picked.len()
                invariant
                    j <= picked@.len(),
                    found == picked@.take(j as int).contains(m),
                decreases picked@.len() - j,
            {
                let hit = picked[j] == m;
                proof {
                    let t0 = picked@.take(j as int);
                    let t1 = picked@.take(j + 1);
                    assert(t1 =~= t0.push(picked@[j as int]));
                    if t0.contains(m) {
                        let w = choose|w: int| 0 <= w < t0.len() && #[trigger] t0[w] == m;
                        assert(t1[w] == m);
                    }
                    if hit {
                        assert(t1[j as int] == m);
                    }
                    if t1.contains(m) && !hit {
                        let w = choose|w: int| 0 <= w < t1.len() && #[trigger] t1[w] == m;
                        assert(w != j);
                        assert(t0[w] == m);
                    }
                    assert(t1.contains(m) == (t0.contains(m) || hit));
                }
                if hit {
                    found = true;
                }
                j = j + 1;
            }
            assert(picked@.take(j as int) =~= picked@);
            flags.push(found);
            assert(flags@ =~= Seq::new((m + 1) as nat, |x: int| picked@.contains(x as usize)));
            m = m + 1;
        }
        assert(flags@ =~= picked_flags(picked@, before.len()));
        proof {
            lemma_unflagged_distinct(before, flags@);
        }
        remove_flagged(&mut self.render_cache, &flags);
        assert(least_used(usage_of(before), to_remove as nat, picked@));
    }

    /// Caches `content`, with hash `content_hash`, for the widget
    /// `widget_id` over `area` at `now_ms`, with the cache on: a full cache
    /// first drops entries down to three quarters of its size, the least
    /// recently used first; the new entry replaces that of its key.
    pub fn cache_render_at(&mut self, widget_id: &str, area: Rect, content: B, content_hash: u64, now_ms: u64)
        requires
            old(self).well_formed(),
            old(self).cfg().max_cache_entries * 3 <= usize::MAX,
        ensures
            final(self).well_formed(),
            old(self).cached(*final(self), cache_key(widget_id@, area), area, content, content_hash, now_ms),
    {
        if !self.config.enable_cache {
            return;
        }
        let key = cache_key_of(widget_id, area);
        let ghost before = self.render_cache@;
        if self.render_cache.len() >= self.config.max_cache_entries {
            self.evict_cache_entries();
        }
        let ghost mid = self.render_cache@;
        assert(made_room(before, mid, self.config.max_cache_entries as nat));
        let entry = RenderCacheEntry {
            content,
            created_at_ms: now_ms,
            last_accessed_ms: now_ms,
            access_count: 1,
            area,
            hash: content_hash,
        };
        self.put_cache_entry(key, entry);
    }

    /// Caches `content` now, by the system clock.
    pub fn cache_render(&mut self, widget_id: &str, area: Rect, content: B, content_hash: u64)
        requires
            old(self).well_formed(),
            old(self).cfg().max_cache_entries * 3 <= usize::MAX,
        ensures
            final(self).well_formed(),
            exists|now: u64|
                #[trigger] old(self).cached(*final(self), cache_key(widget_id@, area), area, content, content_hash, now),
    {
        self.cache_render_at(widget_id, area, content, content_hash, clock_now_ms());
    }
}

impl<B: Clone> RenderingPerformanceManager<B> {
    /// Whether `after` is this manager having looked up the content cached
    /// under `key` for content with hash `hash` at `now`, and `res` what it
    /// found: a usable entry is used once more and a clone of its content
    /// returned; an expired or changed entry is dropped; each lookup with
    /// the cache on is counted as a hit or a miss.
    pub open spec fn looked_up(self, after: Self, key: Seq<char>, hash: u64, now: u64, res: Option<B>) -> bool {
        let e = entry_of(self.cache(), key);
        let outcome = lookup_outcome(self.cfg().enable_cache, self.cfg().cache_ttl_ms, entry_stamp(e), hash, now);
        &&& after.cfg() == self.cfg()
        &&& after.dirty() == self.dirty()
        &&& after.hashes() == self.hashes()
        &&& after.queue() == self.queue()
        &&& after.hits() == self.hits() + if outcome == CacheLookup::Hit {
            1int
        } else {
            0int
        }
        &&& after.misses() == self.misses() + if outcome == CacheLookup::Missing || outcome == CacheLookup::Expired
            || outcome == CacheLookup::Changed {
            1int
        } else {
            0int
        }
        &&& forall|w: Seq<char>| w != key ==> #[trigger] entry_of(after.cache(), w) == entry_of(self.cache(), w)
        &&& match outcome {
            CacheLookup::Hit => match e {
                Some(x) => {
                    &&& res matches Some(c) && cloned(x.content, c)
                    &&& entry_of(after.cache(), key) == Some(
                        RenderCacheEntry { last_accessed_ms: now, access_count: (x.access_count + 1) as u64, ..x },
                    )
                },
                None => false,
            },
            CacheLookup::Expired | CacheLookup::Changed => res is None && entry_of(after.cache(), key) is None,
            _ => res is None && after.cache() == self.cache(),
        }
    }

    /// Looks up the content cached for the widget `widget_id` over `area`
    /// at `now_ms`, for content with hash `content_hash`: a clone of it if
    /// it is usable.
    pub fn get_cached_render_at(&mut self, widget_id: &str, area: Rect, content_hash: u64, now_ms: u64) -> (res:
        Option<B>)
        requires
            old(self).well_formed(),
            old(self).hits() < u64::MAX,
            old(self).misses() < u64::MAX,
            entry_of(old(self).cache(), cache_key(widget_id@, area)) matches Some(e) ==> e.access_count < u64::MAX,
        ensures
            final(self).well_formed(),
            old(self).looked_up(*final(self), cache_key(widget_id@, area), content_hash, now_ms, res),
    {
        if !self.config.enable_cache {
            return None;
        }
        let key = cache_key_of(widget_id, area);
        let ghost before = self.render_cache@;
        match find_entry(&self.render_cache, key.as_str()) {
            None => {
                self.record_cache_lookup(None, content_hash, now_ms);
                None
            },
            Some(k) => {
                let stamp = (self.render_cache[k].1.created_at_ms, self.render_cache[k].1.hash);
                match self.record_cache_lookup(Some(stamp), content_hash, now_ms) {
                    CacheLookup::Hit => {
                        let (name, mut entry) = self.render_cache.remove(k);
                        let ghost old_entry = entry;
                        entry.last_accessed_ms = now_ms;
                        entry.access_count = entry.access_count + 1;
                        let c = entry.content.clone();
                        let ghost stored = (name, entry);
                        self.render_cache.insert(k, (name, entry));
                        proof {
                            assert(self.render_cache@ =~= before.update(k as int, stored));
                            lemma_entry_update(before, k as int, stored.0, stored.1);
                            assert forall|a: int, b: int| 0 <= a < b < self.render_cache@.len() implies (
                            #[trigger] self.render_cache@[a]).0@ != (#[trigger] self.render_cache@[b]).0@ by {
                                assert(self.render_cache@[a].0@ == before[a].0@);
                                assert(self.render_cache@[b].0@ == before[b].0@);
                            }
                        }
                        Some(c)
                    },
                    _ => {
                        self.render_cache.remove(k);
                        proof {
                            lemma_entry_of_distinct(before, k as int);
                            lemma_remove_distinct(before, k as int);
                        }
                        None
                    },
                }
            },
        }
    }

    /// Looks up cached content now, by the system clock.
    pub fn get_cached_render(&mut self, widget_id: &str, area: Rect, content_hash: u64) -> (res: Option<B>)
        requires
            old(self).well_formed(),
            old(self).hits() < u64::MAX,
            old(self).misses() < u64::MAX,
            entry_of(old(self).cache(), cache_key(widget_id@, area)) matches Some(e) ==> e.access_count < u64::MAX,
        ensures
            final(self).well_formed(),
            exists|now: u64|
                #[trigger] old(self).looked_up(*final(self), cache_key(widget_id@, area), content_hash, now, res),
    {
        self.get_cached_render_at(widget_id, area, content_hash, clock_now_ms())
    }
}


/// Law: content cached for a widget over an area reads back, as a clone,
/// for content of the same hash, until the cache's lifetime has passed.
pub proof fn law_cached_render_reads_back<B: Clone>(
    before: RenderingPerformanceManager<B>,
    cached: RenderingPerformanceManager<B>,
    after: RenderingPerformanceManager<B>,
    key: Seq<char>,
    area: Rect,
    content: B,
    hash: u64,
    now: u64,
    later: u64,
    res: Option<B>,
)
    requires
        before.cfg().enable_cache,
        before.cached(cached, key, area, content, hash, now),
        cached.looked_up(after, key, hash, later, res),
        now <= later,
        later - now <= before.cfg().cache_ttl_ms,
    ensures
        res matches Some(c) && cloned(content, c),
{
}

} // verus!
