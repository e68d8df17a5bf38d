//! How much memory the interface's widgets take: what each widget has
//! allocated and freed, the total and its peak, and which widgets have
//! gone stale.

use vstd::prelude::*;
use crate::error::clock_now_ms;
use crate::feedback::{keep_where, lemma_flags_match, remove_flagged};
use crate::named::{drop_named, entry_of, find_entry, set_entry};

verus! {

/// The memory of a widget, in bytes; when it last changed, in
/// milliseconds.
#[derive(Debug)]
pub struct WidgetMemoryUsage {
    pub widget_id: String,
    pub widget_type: String,
    pub current_usage: usize,
    pub peak_usage: usize,
    pub allocation_count: u64,
    pub last_updated_ms: u64,
    pub render_buffer_size: usize,
    pub cached_data_size: usize,
}

impl Clone for WidgetMemoryUsage {
    fn clone(&self) -> (res: Self)
        ensures
            res.widget_id@ == self.widget_id@,
            res.widget_type@ == self.widget_type@,
            res.current_usage == self.current_usage,
            res.peak_usage == self.peak_usage,
            res.allocation_count == self.allocation_count,
            res.last_updated_ms == self.last_updated_ms,
            res.render_buffer_size == self.render_buffer_size,
            res.cached_data_size == self.cached_data_size,
    {
        WidgetMemoryUsage {
            widget_id: self.widget_id.clone(),
            widget_type: self.widget_type.clone(),
            current_usage: self.current_usage,
            peak_usage: self.peak_usage,
            allocation_count: self.allocation_count,
            last_updated_ms: self.last_updated_ms,
            render_buffer_size: self.render_buffer_size,
            cached_data_size: self.cached_data_size,
        }
    }
}

/// What to do about a widget whose memory keeps growing.
#[derive(Debug, Clone, Copy, PartialEq, Eq, Structural)]
pub enum LeakAction {
    Monitor,
    ClearCache,
    RestartWidget,
    ReduceBufferSize,
    ForceCleanup,
}

/// What a cleanup freed; its duration in milliseconds.
#[derive(Debug)]
pub struct CleanupReport {
    pub freed_memory: usize,
    pub cleaned_widgets: Vec<String>,
    pub cleared_buffers: usize,
    pub cleanup_duration_ms: u64,
    pub success: bool,
    pub errors: Vec<String>,
}

/// A widget's memory as plain values: identifier, type, current, peak,
/// allocations, last change, render buffer and cached data.
pub struct UsageView {
    pub id: Seq<char>,
    pub kind: Seq<char>,
    pub current: usize,
    pub peak: usize,
    pub allocations: u64,
    pub updated: u64,
    pub buffer: usize,
    pub cached: usize,
}

/// A widget's memory as plain values.
pub open spec fn usage_view(u: WidgetMemoryUsage) -> UsageView {
    UsageView {
        id: u.widget_id@,
        kind: u.widget_type@,
        current: u.current_usage,
        peak: u.peak_usage,
        allocations: u.allocation_count,
        updated: u.last_updated_ms,
        buffer: u.render_buffer_size,
        cached: u.cached_data_size,
    }
}

/// The memory of widget `id` of type `kind` after allocating `size` bytes
/// at `now`: a new widget starts from nothing, with no buffer and no
/// cached data; a known one keeps its identifier, type, buffer and cache.
pub open spec fn after_allocation(
    prior: Option<WidgetMemoryUsage>,
    id: Seq<char>,
    kind: Seq<char>,
    size: usize,
    now: u64,
) -> UsageView {
    let base = match prior {
        Some(u) => usage_view(u),
        None => UsageView { id, kind, current: 0, peak: 0, allocations: 0, updated: now, buffer: 0, cached: 0 },
    };
    let grown = (base.current + size) as usize;
    UsageView {
        current: grown,
        peak: if grown > base.peak { grown } else { base.peak },
        allocations: (base.allocations + 1) as u64,
        updated: now,
        ..base
    }
}

/// The memory of a widget after freeing `size` bytes at `now`: down to
/// nothing at least; all else stays.
pub open spec fn after_free(u: WidgetMemoryUsage, size: usize, now: u64) -> UsageView {
    UsageView {
        current: if u.current_usage >= size { (u.current_usage - size) as usize } else { 0usize },
        updated: now,
        ..usage_view(u)
    }
}

/// How the memory of the interface is watched. Thresholds that the
/// original states as ratios are in thousandths here (1500 is 1.5), and
/// durations in milliseconds.
#[derive(Debug, Clone, Copy, PartialEq, Eq, Structural)]
pub struct TuiMemoryConfig {
    /// The most memory the interface should take, in bytes.
    pub max_tui_memory: usize,
    /// The most memory a widget should take, in bytes.
    pub max_widget_memory: usize,
    pub monitoring_interval_ms: u64,
    pub track_widget_memory: bool,
    pub enable_buffer_pooling: bool,
    pub max_cached_buffers: usize,
    pub buffer_cache_ttl_ms: u64,
    pub enable_leak_detection: bool,
    /// The growth over its baseline past which a widget is said to leak.
    pub leak_threshold_permille: u64,
    pub enable_auto_cleanup: bool,
    /// The share of the most memory at which a cleanup runs.
    pub cleanup_threshold_permille: u64,
    pub enable_pressure_warnings: bool,
    /// The share of the most memory at which pressure is reported.
    pub pressure_warning_threshold_permille: u64,
}

impl TuiMemoryConfig {
    /// 50 MiB in all and 5 MiB a widget, checked every five seconds;
    /// widgets tracked; up to 100 buffers pooled and cached for 30 seconds;
    /// leaks past 1.5 times reported; cleanup at 80% and warnings at 90%
    /// of the most memory.
    pub fn default() -> (res: Self)
        ensures
            res == (TuiMemoryConfig {
                max_tui_memory: 52428800,
                max_widget_memory: 5242880,
                monitoring_interval_ms: 5000,
                track_widget_memory: true,
                enable_buffer_pooling: true,
                max_cached_buffers: 100,
                buffer_cache_ttl_ms: 30000,
                enable_leak_detection: true,
                leak_threshold_permille: 1500,
                enable_auto_cleanup: true,
                cleanup_threshold_permille: 800,
                enable_pressure_warnings: true,
                pressure_warning_threshold_permille: 900,
            }),
    {
        TuiMemoryConfig {
            max_tui_memory: 50 * 1024 * 1024,
            max_widget_memory: 5 * 1024 * 1024,
            monitoring_interval_ms: 5000,
            track_widget_memory: true,
            enable_buffer_pooling: true,
            max_cached_buffers: 100,
            buffer_cache_ttl_ms: 30000,
            enable_leak_detection: true,
            leak_threshold_permille: 1500,
            enable_auto_cleanup: true,
            cleanup_threshold_permille: 800,
            enable_pressure_warnings: true,
            pressure_warning_threshold_permille: 900,
        }
    }
}

/// Whether `used` bytes reach the share `permille` of `max`, as the ratio
/// of the two compares with it: with no most memory, any use reaches it and
/// none does not.
pub open spec fn ratio_reaches(used: usize, max: usize, permille: u64) -> bool {
    if max == 0 {
        used > 0
    } else {
        used * 1000 >= max * permille
    }
}

/// Whether `used` bytes reach the share `permille` of `max`.
fn reaches(used: usize, max: usize, permille: u64) -> (res: bool)
    ensures
        res == ratio_reaches(used, max, permille),
{
    if max == 0 {
        used > 0
    } else {
        let u = used as u128;
        let m = max as u128;
        let p = permille as u128;
        assert(m * p <= 0xffff_ffff_ffff_ffff * 0xffff_ffff_ffff_ffff) by (nonlinear_arith)
            requires
                m <= 0xffff_ffff_ffff_ffff,
                p <= 0xffff_ffff_ffff_ffff,
        ;
        u * 1000 >= m * p
    }
}

/// The memory the widgets take: whether it is tracked, the total now and
/// at its peak, how many allocations and frees there were, and each
/// widget's share by its identifier.
pub struct TuiMemoryManager {
    config: TuiMemoryConfig,
    current_memory_usage: usize,
    peak_memory_usage: usize,
    total_allocations: u64,
    total_deallocations: u64,
    widget_usage: Vec<(String, WidgetMemoryUsage)>,
    resources: RenderResources,
}

impl TuiMemoryManager {
    /// Whether widget memory is tracked.
    pub closed spec fn tracking(&self) -> bool {
        self.config.track_widget_memory
    }

    /// The memory taken now.
    pub closed spec fn current(&self) -> usize {
        self.current_memory_usage
    }

    /// The most memory taken at once.
    pub closed spec fn peak(&self) -> usize {
        self.peak_memory_usage
    }

    /// How many allocations were tracked.
    pub closed spec fn allocations(&self) -> u64 {
        self.total_allocations
    }

    /// How many frees were tracked.
    pub closed spec fn deallocations(&self) -> u64 {
        self.total_deallocations
    }

    /// Each widget's memory, by identifier.
    pub closed spec fn widgets(&self) -> Seq<(String, WidgetMemoryUsage)> {
        self.widget_usage@
    }

    /// The render buffers and the usage baselines.
    pub closed spec fn res(&self) -> RenderResources {
        self.resources
    }

    /// The settings the memory is watched by.
    pub closed spec fn cfg(&self) -> TuiMemoryConfig {
        self.config
    }

    /// Whether `other` is set up as this one and has the same totals.
    pub open spec fn counts_same(&self, other: Self) -> bool {
        &&& self.cfg() == other.cfg()
        &&& self.tracking() == other.tracking() && self.current() == other.current()
        &&& self.peak() == other.peak() && self.allocations() == other.allocations()
        &&& self.deallocations() == other.deallocations()
    }

    /// The peak is at least the memory taken now.
    pub closed spec fn well_formed(&self) -> bool {
        self.peak_memory_usage >= self.current_memory_usage
    }

    /// Nothing allocated yet.
    pub fn new(config: TuiMemoryConfig) -> (res: Self)
        ensures
            res.well_formed(),
            res.cfg() == config,
            res.tracking() == config.track_widget_memory,
            res.current() == 0 && res.peak() == 0,
            res.allocations() == 0 && res.deallocations() == 0,
            res.widgets().len() == 0,
            res.res().pooling() == config.enable_buffer_pooling,
            res.res().max_buffers() == config.max_cached_buffers,
            res.res().ttl() == config.buffer_cache_ttl_ms,
            res.res().pool().len() == 0 && res.res().cache().len() == 0 && res.res().baselines().len() == 0,
    {
        TuiMemoryManager {
            config,
            current_memory_usage: 0,
            peak_memory_usage: 0,
            total_allocations: 0,
            total_deallocations: 0,
            widget_usage: Vec::new(),
            resources: RenderResources::new(
                config.enable_buffer_pooling,
                config.max_cached_buffers,
                config.buffer_cache_ttl_ms,
            ),
        }
    }

    /// Whether `new` is `old` after recording that widget `id` of type
    /// `kind` allocated `size` bytes at `now`: when tracking, the total and
    /// the widget's share grow, and so do their peaks if passed; nothing
    /// else changes.
    pub open spec fn allocation_recorded(old: Self, new: Self, id: Seq<char>, kind: Seq<char>, size: usize, now: u64) -> bool {
        &&& new.tracking() == old.tracking() && new.cfg() == old.cfg() && new.res() == old.res()
        &&& new.deallocations() == old.deallocations()
        &&& !old.tracking() ==> new.current() == old.current() && new.peak() == old.peak() && new.allocations()
            == old.allocations() && new.widgets() == old.widgets()
        &&& old.tracking() ==> {
            &&& new.current() == old.current() + size
            &&& new.peak() == if old.current() + size > old.peak() {
                (old.current() + size) as usize
            } else {
                old.peak()
            }
            &&& new.allocations() == old.allocations() + 1
            &&& forall|w: Seq<char>| w != id ==> #[trigger] entry_of(new.widgets(), w) == entry_of(old.widgets(), w)
            &&& entry_of(new.widgets(), id) matches Some(u) && usage_view(u) == after_allocation(
                entry_of(old.widgets(), id),
                id,
                kind,
                size,
                now,
            )
        }
    }

    /// Whether the memory taken calls for a cleanup: automatic cleanup is on
    /// and the use reaches the cleanup share of the most memory.
    pub open spec fn cleanup_due(self) -> bool {
        self.cfg().enable_auto_cleanup && ratio_reaches(
            self.current(),
            self.cfg().max_tui_memory,
            self.cfg().cleanup_threshold_permille,
        )
    }

    /// Whether `new` is `old` after a cleanup at `now`: the cached buffers
    /// that a cleanup drops, the whole pool and the stale widgets are gone,
    /// and nothing else changes.
    pub open spec fn cleaned(old: Self, new: Self, now: u64) -> bool {
        &&& new.counts_same(old)
        &&& new.widgets() == keep_where(old.widgets(), |e: (String, WidgetMemoryUsage)| !is_stale(e, now))
        &&& new.res().cache() == cache_cleaned(
            old.res().cache(),
            now,
            old.res().max_buffers() as nat,
            old.res().ttl(),
        )
        &&& new.res().pool().len() == 0
        &&& new.res().pooling() == old.res().pooling() && new.res().max_buffers() == old.res().max_buffers()
        &&& new.res().ttl() == old.res().ttl() && new.res().baselines() == old.res().baselines()
    }

    /// Whether the memory taken is high enough to warn of: warnings are on
    /// and the use reaches the warning share of the most memory.
    pub fn pressure_warning(&self) -> (res: bool)
        ensures
            res == (self.cfg().enable_pressure_warnings && ratio_reaches(
                self.current(),
                self.cfg().max_tui_memory,
                self.cfg().pressure_warning_threshold_permille,
            )),
    {
        self.config.enable_pressure_warnings && reaches(
            self.current_memory_usage,
            self.config.max_tui_memory,
            self.config.pressure_warning_threshold_permille,
        )
    }

    /// Records that the widget `widget_id` of type `widget_type` allocated
    /// `size` bytes at `now_ms`: the total and the widget's share grow, and
    /// so do their peaks if passed. When tracking and the memory taken then
    /// calls for it, a cleanup follows at `now_ms`.
    pub fn track_widget_allocation(&mut self, widget_id: &str, widget_type: &str, size: usize, now_ms: u64)
        requires
            old(self).well_formed(),
            old(self).tracking() ==> old(self).current() + size <= usize::MAX,
            old(self).tracking() ==> old(self).allocations() < u64::MAX,
            old(self).tracking() ==> match entry_of(old(self).widgets(), widget_id@) {
                Some(u) => u.current_usage + size <= usize::MAX && u.allocation_count < u64::MAX,
                None => true,
            },
            old(self).tracking() ==> old(self).res().cache().len() + old(self).res().pool().len() <= usize::MAX,
        ensures
            final(self).well_formed(),
            exists|mid: Self|
                #[trigger] TuiMemoryManager::allocation_recorded(*old(self), mid, widget_id@, widget_type@, size, now_ms)
                    && if mid.tracking() && mid.cleanup_due() {
                    TuiMemoryManager::cleaned(mid, *final(self), now_ms)
                } else {
                    *final(self) == mid
                },
    {
        self.record_allocation(widget_id, widget_type, size, now_ms);
        let ghost mid = *self;
        if self.config.track_widget_memory && self.config.enable_auto_cleanup && reaches(
            self.current_memory_usage,
            self.config.max_tui_memory,
            self.config.cleanup_threshold_permille,
        ) {
            self.force_cleanup_at(now_ms);
        }
        assert(TuiMemoryManager::allocation_recorded(*old(self), mid, widget_id@, widget_type@, size, now_ms));
    }

    /// Records the allocation itself, with nothing else.
    fn record_allocation(&mut self, widget_id: &str, widget_type: &str, size: usize, now_ms: u64)
        requires
            old(self).well_formed(),
            old(self).tracking() ==> old(self).current() + size <= usize::MAX,
            old(self).tracking() ==> old(self).allocations() < u64::MAX,
            old(self).tracking() ==> match entry_of(old(self).widgets(), widget_id@) {
                Some(u) => u.current_usage + size <= usize::MAX && u.allocation_count < u64::MAX,
                None => true,
            },
        ensures
            final(self).well_formed(),
            TuiMemoryManager::allocation_recorded(*old(self), *final(self), widget_id@, widget_type@, size, now_ms),
    {
        if !self.config.track_widget_memory {
            return;
        }
        self.current_memory_usage = self.current_memory_usage + size;
        if self.current_memory_usage > self.peak_memory_usage {
            self.peak_memory_usage = self.current_memory_usage;
        }
        let mut usage = match find_entry(&self.widget_usage, widget_id) {
            Some(k) => self.widget_usage[k].1.clone(),
            None => WidgetMemoryUsage {
                widget_id: String::from_str(widget_id),
                widget_type: String::from_str(widget_type),
                current_usage: 0,
                peak_usage: 0,
                allocation_count: 0,
                last_updated_ms: now_ms,
                render_buffer_size: 0,
                cached_data_size: 0,
            },
        };
        usage.current_usage = usage.current_usage + size;
        usage.allocation_count = usage.allocation_count + 1;
        usage.last_updated_ms = now_ms;
        if usage.current_usage > usage.peak_usage {
            usage.peak_usage = usage.current_usage;
        }
        set_entry(&mut self.widget_usage, widget_id, usage);
        self.total_allocations = self.total_allocations + 1;
    }

    /// Records that the widget `widget_id` freed `size` bytes at `now_ms`:
    /// the total and the widget's share shrink, down to nothing at least.
    pub fn track_widget_deallocation(&mut self, widget_id: &str, size: usize, now_ms: u64)
        requires
            old(self).well_formed(),
            old(self).tracking() ==> old(self).deallocations() < u64::MAX,
        ensures
            final(self).well_formed(),
            !old(self).tracking() ==> final(self).current() == old(self).current() && final(self).deallocations()
                == old(self).deallocations() && final(self).widgets() == old(self).widgets(),
            old(self).tracking() ==> {
                &&& final(self).current() == if old(self).current() >= size {
                    (old(self).current() - size) as usize
                } else {
                    0usize
                }
                &&& final(self).deallocations() == old(self).deallocations() + 1
                &&& forall|w: Seq<char>|
                    w != widget_id@ ==> #[trigger] entry_of(final(self).widgets(), w) == entry_of(old(self).widgets(), w)
                &&& match entry_of(old(self).widgets(), widget_id@) {
                    None => entry_of(final(self).widgets(), widget_id@) is None,
                    Some(u) => entry_of(final(self).widgets(), widget_id@) matches Some(v) && usage_view(v)
                        == after_free(u, size, now_ms),
                }
            },
            final(self).tracking() == old(self).tracking(),
            final(self).peak() == old(self).peak(),
            final(self).allocations() == old(self).allocations(),
            final(self).res() == old(self).res(),
            final(self).cfg() == old(self).cfg(),
    {
        if !self.config.track_widget_memory {
            return;
        }
        self.current_memory_usage = if self.current_memory_usage >= size {
            self.current_memory_usage - size
        } else {
            0
        };
        match find_entry(&self.widget_usage, widget_id) {
            Some(k) => {
                let mut usage = self.widget_usage[k].1.clone();
                usage.current_usage = if usage.current_usage >= size { usage.current_usage - size } else { 0 };
                usage.last_updated_ms = now_ms;
                set_entry(&mut self.widget_usage, widget_id, usage);
            },
            None => {},
        }
        self.total_deallocations = self.total_deallocations + 1;
    }

    /// A copy of what is known of the memory of widget `widget_id`, if it is
    /// tracked.
    pub fn get_widget_usage(&self, widget_id: &str) -> (res: Option<WidgetMemoryUsage>)
        ensures
            match entry_of(self.widgets(), widget_id@) {
                Some(u) => res matches Some(r) && usage_view(r) == usage_view(u),
                None => res is None,
            },
    {
        match find_entry(&self.widget_usage, widget_id) {
            Some(k) => Some(self.widget_usage[k].1.clone()),
            None => None,
        }
    }

    /// The memory taken now and at its peak, and how many allocations and
    /// frees were tracked.
    pub fn get_memory_counts(&self) -> (res: (usize, usize, u64, u64))
        ensures
            res == (self.current(), self.peak(), self.allocations(), self.deallocations()),
    {
        (self.current_memory_usage, self.peak_memory_usage, self.total_allocations, self.total_deallocations)
    }
}


/// Whether a widget's memory last changed more than five minutes before
/// `now`.
pub open spec fn is_stale(e: (String, WidgetMemoryUsage), now: u64) -> bool {
    e.1.last_updated_ms + 300000 < now
}

/// The names of the stale widgets of `s` at `now`, in order.
pub open spec fn stale_names(s: Seq<(String, WidgetMemoryUsage)>, now: u64) -> Seq<Seq<char>>
    decreases s.len(),
{
    if s.len() == 0 {
        Seq::empty()
    } else {
        let rest = stale_names(s.drop_last(), now);
        if is_stale(s.last(), now) {
            rest.push(s.last().0@)
        } else {
            rest
        }
    }
}

impl TuiMemoryManager {
    /// Stops tracking the widgets whose memory last changed more than five
    /// minutes before `now_ms`; returns their names, in order.
    pub fn cleanup_widget_tracking_at(&mut self, now_ms: u64) -> (res: Vec<String>)
        requires
            old(self).well_formed(),
        ensures
            final(self).well_formed(),
            final(self).widgets() == keep_where(
                old(self).widgets(),
                |e: (String, WidgetMemoryUsage)| !is_stale(e, now_ms),
            ),
            crate::startup::texts_of(res@) == stale_names(old(self).widgets(), now_ms),
            final(self).tracking() == old(self).tracking(),
            final(self).current() == old(self).current(),
            final(self).peak() == old(self).peak(),
            final(self).allocations() == old(self).allocations(),
            final(self).deallocations() == old(self).deallocations(),
            final(self).res() == old(self).res(),
            final(self).cfg() == old(self).cfg(),
    {
        let ghost keep = |e: (String, WidgetMemoryUsage)| !is_stale(e, now_ms);
        let ghost all = self.widget_usage@;
        let mut drop: Vec<bool> = Vec::new();
        let mut names: Vec<String> = Vec::new();
        let mut k: usize = 0;
        assert(all.take(0) =~= Seq::<(String, WidgetMemoryUsage)>::empty());
        assert(crate::startup::texts_of(names@) =~= Seq::<Seq<char>>::empty());
        while k < self.widget_usage.len()
            invariant
                k <= self.widget_usage@.len(),
                all == self.widget_usage@,
                drop@.len() == k,
                forall|m: int| 0 <= m < k ==> drop@[m] == !keep(all[m]),
                keep == (|e: (String, WidgetMemoryUsage)| !is_stale(e, now_ms)),
                crate::startup::texts_of(names@) == stale_names(all.take(k as int), now_ms),
            decreases self.widget_usage@.len() - k,
        {
            assert(all.take(k + 1).drop_last() =~= all.take(k as int));
            assert(all.take(k + 1).last() == all[k as int]);
            let last = self.widget_usage[k].1.last_updated_ms;
            let stale = last < now_ms && now_ms - last > 300000;
            assert(stale == is_stale(all[k as int], now_ms));
            if stale {
                let ghost before = names@;
                names.push(self.widget_usage[k].0.clone());
                assert(crate::startup::texts_of(names@) =~= crate::startup::texts_of(before).push(all[k as int].0@));
            }
            drop.push(stale);
            k = k + 1;
        }
        assert(all.take(k as int) =~= all);
        proof {
            lemma_flags_match(self.widget_usage@, drop@, keep);
        }
        remove_flagged(&mut self.widget_usage, &drop);
        names
    }

    /// Stops tracking the widgets whose memory last changed more than five
    /// minutes ago, by the system clock; returns their names.
    pub fn cleanup_widget_tracking(&mut self) -> (res: Vec<String>)
        requires
            old(self).well_formed(),
        ensures
            final(self).well_formed(),
            exists|now: u64|
                final(self).widgets() == keep_where(
                    old(self).widgets(),
                    |e: (String, WidgetMemoryUsage)| !is_stale(e, now),
                ) && crate::startup::texts_of(res@) == #[trigger] stale_names(old(self).widgets(), now),
    {
        self.cleanup_widget_tracking_at(clock_now_ms())
    }
}

/// A cached render buffer: its size in cells and when it was cached, in
/// milliseconds.
#[derive(Debug, Clone, Copy, PartialEq, Eq, Structural)]
pub struct CachedBuffer {
    pub width: u16,
    pub height: u16,
    pub cached_at_ms: u64,
}

/// The index of the first of the buffers cached earliest.
pub open spec fn oldest_at(s: Seq<(String, CachedBuffer)>) -> int
    decreases s.len(),
{
    if s.len() <= 1 {
        0
    } else {
        let j = oldest_at(s.drop_last());
        if s.last().1.cached_at_ms < s[j].1.cached_at_ms {
            s.len() - 1
        } else {
            j
        }
    }
}

/// The earliest cached buffer is one of the buffers.
proof fn lemma_oldest_at(s: Seq<(String, CachedBuffer)>)
    requires
        s.len() > 0,
    ensures
        0 <= oldest_at(s) < s.len(),
    decreases s.len(),
{
    if s.len() > 1 {
        lemma_oldest_at(s.drop_last());
    }
}

/// The buffers of `s` after dropping the earliest cached one, `k` times.
pub open spec fn drop_oldest(s: Seq<(String, CachedBuffer)>, k: nat) -> Seq<(String, CachedBuffer)>
    decreases k,
{
    if k == 0 || s.len() == 0 {
        s
    } else {
        drop_oldest(s.remove(oldest_at(s)), (k - 1) as nat)
    }
}

/// Whether a cached buffer is still usable at `now`, when buffers are kept
/// for `ttl` milliseconds.
pub open spec fn buffer_fresh(e: CachedBuffer, now: u64, ttl: u64) -> bool {
    crate::error::elapsed_ms(e.cached_at_ms, now) <= ttl
}

/// The cached buffers left by a cleanup at `now`: the expired ones go, and
/// then the earliest cached ones while more than `max` are left.
pub open spec fn cache_cleaned(s: Seq<(String, CachedBuffer)>, now: u64, max: nat, ttl: u64) -> Seq<
    (String, CachedBuffer),
> {
    let kept = keep_where(s, |e: (String, CachedBuffer)| buffer_fresh(e.1, now, ttl));
    if kept.len() > max {
        drop_oldest(kept, (kept.len() - max) as nat)
    } else {
        kept
    }
}

/// The first buffer of the pool from `from` on that is at least `w` by `h`.
pub open spec fn first_fit(pool: Seq<(u16, u16)>, w: u16, h: u16, from: int) -> Option<int>
    decreases pool.len() - from,
{
    if from < 0 || from >= pool.len() {
        None
    } else if pool[from].0 >= w && pool[from].1 >= h {
        Some(from)
    } else {
        first_fit(pool, w, h, from + 1)
    }
}

/// Whether usage `current` grew past `num / den` times `baseline`, as the
/// ratio of the two compares with the bound: from a baseline of nothing any
/// usage grew without bound, and none did not grow.
pub open spec fn growth_over(current: usize, baseline: usize, num: int, den: int) -> bool {
    if baseline == 0 {
        current > 0
    } else {
        current * den > baseline * num
    }
}

/// What to do about a widget that grew from `baseline` to `current`: past
/// three times restart it, past twice clean up, past one and a half clear
/// its cache, else keep watching.
pub open spec fn leak_action(current: usize, baseline: usize) -> LeakAction {
    if growth_over(current, baseline, 3, 1) {
        LeakAction::RestartWidget
    } else if growth_over(current, baseline, 2, 1) {
        LeakAction::ForceCleanup
    } else if growth_over(current, baseline, 3, 2) {
        LeakAction::ClearCache
    } else {
        LeakAction::Monitor
    }
}

/// What a leak check found for a widget: its identifier, whether it grew
/// past the leak threshold over its baseline, the baseline, the usage now and
/// what to do. The growth rate and the confidence are the ratio of the
/// usage to the baseline and its excess over the bound, in floating point.
#[derive(Debug)]
pub struct LeakCheck {
    pub widget_id: String,
    pub leak_detected: bool,
    pub baseline_usage: usize,
    pub current_usage: usize,
    pub recommended_action: LeakAction,
}

/// A leak check as plain values.
pub open spec fn leak_view(l: LeakCheck) -> (Seq<char>, bool, usize, usize, LeakAction) {
    (l.widget_id@, l.leak_detected, l.baseline_usage, l.current_usage, l.recommended_action)
}

/// The leak checks of the widgets of `widgets` that have a baseline, in
/// order, a leak being growth past `threshold_permille` thousandths.
pub open spec fn leak_checks(
    widgets: Seq<(String, WidgetMemoryUsage)>,
    baselines: Seq<(String, usize)>,
    threshold_permille: u64,
) -> Seq<(Seq<char>, bool, usize, usize, LeakAction)>
    decreases widgets.len(),
{
    if widgets.len() == 0 {
        Seq::empty()
    } else {
        let rest = leak_checks(widgets.drop_last(), baselines, threshold_permille);
        let e = widgets.last();
        match entry_of(baselines, e.0@) {
            Some(b) => rest.push(
                (
                    e.0@,
                    growth_over(e.1.current_usage, b, threshold_permille as int, 1000),
                    b,
                    e.1.current_usage,
                    leak_action(e.1.current_usage, b),
                ),
            ),
            None => rest,
        }
    }
}

/// The baseline of widget `w` after a monitoring pass over `widgets`: each
/// widget met moves its baseline half way to its usage, or starts one at
/// its usage.
pub open spec fn baseline_after(
    widgets: Seq<(String, WidgetMemoryUsage)>,
    baselines: Seq<(String, usize)>,
    w: Seq<char>,
) -> Option<usize>
    decreases widgets.len(),
{
    if widgets.len() == 0 {
        entry_of(baselines, w)
    } else {
        let prev = baseline_after(widgets.drop_last(), baselines, w);
        let e = widgets.last();
        if e.0@ == w {
            Some(
                match prev {
                    Some(b) => ((b + e.1.current_usage) / 2) as usize,
                    None => e.1.current_usage,
                },
            )
        } else {
            prev
        }
    }
}

/// Whether usage `current` grew past `num / den` times `baseline`.
fn grew_past(current: usize, baseline: usize, num: u64, den: u64) -> (res: bool)
    ensures
        res == growth_over(current, baseline, num as int, den as int),
{
    if baseline == 0 {
        current > 0
    } else {
        let c = current as u128;
        let b = baseline as u128;
        let n = num as u128;
        let d = den as u128;
        assert(c * d <= 0xffff_ffff_ffff_ffff * 0xffff_ffff_ffff_ffff && b * n <= 0xffff_ffff_ffff_ffff
            * 0xffff_ffff_ffff_ffff) by (nonlinear_arith)
            requires
                c <= 0xffff_ffff_ffff_ffff,
                d <= 0xffff_ffff_ffff_ffff,
                b <= 0xffff_ffff_ffff_ffff,
                n <= 0xffff_ffff_ffff_ffff,
        ;
        c * d > b * n
    }
}

/// The render buffers kept for reuse and the cached ones, and the usage
/// baselines of the widgets for finding leaks.
pub struct RenderResources {
    pooling: bool,
    max_cached_buffers: usize,
    ttl_ms: u64,
    buffer_pool: Vec<(u16, u16)>,
    buffer_cache: Vec<(String, CachedBuffer)>,
    baselines: Vec<(String, usize)>,
}

impl RenderResources {
    /// Whether buffers are pooled and cached.
    pub closed spec fn pooling(&self) -> bool {
        self.pooling
    }

    /// How many buffers the pool and the cache keep at most.
    pub closed spec fn max_buffers(&self) -> usize {
        self.max_cached_buffers
    }

    /// How long a cached buffer stays usable, in milliseconds.
    pub closed spec fn ttl(&self) -> u64 {
        self.ttl_ms
    }

    /// The sizes of the buffers in the pool, in order.
    pub closed spec fn pool(&self) -> Seq<(u16, u16)> {
        self.buffer_pool@
    }

    /// The cached buffers by key.
    pub closed spec fn cache(&self) -> Seq<(String, CachedBuffer)> {
        self.buffer_cache@
    }

    /// The usage baselines by widget.
    pub closed spec fn baselines(&self) -> Seq<(String, usize)> {
        self.baselines@
    }

    /// Pooling as given, up to `max` buffers kept `ttl` milliseconds,
    /// nothing pooled, cached or measured.
    pub fn new(pooling: bool, max: usize, ttl: u64) -> (res: Self)
        ensures
            res.pooling() == pooling,
            res.max_buffers() == max,
            res.ttl() == ttl,
            res.pool().len() == 0 && res.cache().len() == 0 && res.baselines().len() == 0,
    {
        RenderResources {
            pooling,
            max_cached_buffers: max,
            ttl_ms: ttl,
            buffer_pool: Vec::new(),
            buffer_cache: Vec::new(),
            baselines: Vec::new(),
        }
    }
}

/// Whether `new` has the resources of `old` apart from its pool.
pub open spec fn same_but_pool(old: RenderResources, new: RenderResources) -> bool {
    &&& new.pooling() == old.pooling() && new.max_buffers() == old.max_buffers() && new.ttl() == old.ttl()
    &&& new.cache() == old.cache() && new.baselines() == old.baselines()
}

/// Whether `new` has the resources of `old` apart from its cache.
pub open spec fn same_but_cache(old: RenderResources, new: RenderResources) -> bool {
    &&& new.pooling() == old.pooling() && new.max_buffers() == old.max_buffers() && new.ttl() == old.ttl()
    &&& new.pool() == old.pool() && new.baselines() == old.baselines()
}

impl TuiMemoryManager {
    /// A buffer of at least `width` by `height` cells, by its size: with
    /// pooling, the first pooled buffer large enough leaves the pool
    /// (cleared) and is used; else a new one of exactly that size.
    pub fn get_render_buffer(&mut self, width: u16, height: u16) -> (res: (u16, u16))
        ensures
            final(self).widgets() == old(self).widgets() && final(self).counts_same(*old(self)),
            old(self).well_formed() ==> final(self).well_formed(),
            same_but_pool(old(self).res(), final(self).res()),
            match (if old(self).res().pooling() { first_fit(old(self).res().pool(), width, height, 0) } else { None }) {
                Some(i) => res == old(self).res().pool()[i] && final(self).res().pool() == old(self).res().pool().remove(i),
                None => res == (width, height) && final(self).res().pool() == old(self).res().pool(),
            },
    {
        if !self.resources.pooling {
            return (width, height);
        }
        let n = self.resources.buffer_pool.len();
        let mut i: usize = 0;
        while i < n
            invariant
                n == self.resources.buffer_pool@.len(),
                i <= n,
                *self == *old(self),
                self.resources.pooling,
                first_fit(self.resources.buffer_pool@, width, height, 0) == first_fit(
                    self.resources.buffer_pool@,
                    width,
                    height,
                    i as int,
                ),
            decreases n - i,
        {
            let (w, h) = self.resources.buffer_pool[i];
            if w >= width && h >= height {
                let b = self.resources.buffer_pool.remove(i);
                return b;
            }
            i = i + 1;
        }
        (width, height)
    }

    /// Gives a buffer of `size` back: with pooling it joins the pool unless
    /// the pool is full.
    pub fn return_render_buffer(&mut self, size: (u16, u16))
        ensures
            final(self).widgets() == old(self).widgets() && final(self).counts_same(*old(self)),
            old(self).well_formed() ==> final(self).well_formed(),
            same_but_pool(old(self).res(), final(self).res()),
            final(self).res().pool() == if old(self).res().pooling() && old(self).res().pool().len()
                < old(self).res().max_buffers() {
                old(self).res().pool().push(size)
            } else {
                old(self).res().pool()
            },
    {
        if self.resources.pooling && self.resources.buffer_pool.len() < self.resources.max_cached_buffers {
            self.resources.buffer_pool.push(size);
        }
    }

    /// Drops the cached buffers expired at `now`, then the earliest cached
    /// while more than the limit are left; returns how many went.
    pub fn cleanup_buffer_cache_at(&mut self, now: u64) -> (res: usize)
        ensures
            final(self).widgets() == old(self).widgets() && final(self).counts_same(*old(self)),
            old(self).well_formed() ==> final(self).well_formed(),
            same_but_cache(old(self).res(), final(self).res()),
            final(self).res().cache() == cache_cleaned(old(self).res().cache(), now, old(self).res().max_buffers() as nat, old(self).res().ttl()),
            res == old(self).res().cache().len() - final(self).res().cache().len(),
    {
        let ttl = self.resources.ttl_ms;
        let ghost keep = |e: (String, CachedBuffer)| buffer_fresh(e.1, now, ttl);
        let ghost before = self.resources.buffer_cache@;
        let initial = self.resources.buffer_cache.len();
        let mut drop: Vec<bool> = Vec::new();
        let mut k: usize = 0;
        while k < self.resources.buffer_cache.len()
            invariant
                k <= self.resources.buffer_cache@.len(),
                self.resources.buffer_cache@ == before,
                *self == *old(self),
                drop@.len() == k,
                forall|m: int| 0 <= m < k ==> drop@[m] == !keep(before[m]),
                keep == (|e: (String, CachedBuffer)| buffer_fresh(e.1, now, ttl)),
            decreases self.resources.buffer_cache@.len() - k,
        {
            let t = self.resources.buffer_cache[k].1.cached_at_ms;
            let age: u64 = if now >= t { now - t } else { 0 };
            drop.push(age > ttl);
            k = k + 1;
        }
        proof {
            lemma_flags_match(before, drop@, keep);
            crate::feedback::lemma_keep_where_len(before, keep);
        }
        remove_flagged(&mut self.resources.buffer_cache, &drop);
        let ghost kept = self.resources.buffer_cache@;
        let max = self.resources.max_cached_buffers;
        if self.resources.buffer_cache.len() > max {
            let ghost target = (kept.len() - max) as nat;
            let mut removed: usize = 0;
            while self.resources.buffer_cache.len() > max
                invariant
                    kept.len() > max,
                    target == kept.len() - max,
                    kept.len() <= usize::MAX,
                    removed <= target,
                    self.resources.buffer_cache@.len() == kept.len() - removed,
                    drop_oldest(kept, target) == drop_oldest(self.resources.buffer_cache@, (target - removed) as nat),
                    self.resources.max_cached_buffers == max,
                    self.resources.pooling == old(self).resources.pooling,
                    self.resources.ttl_ms == old(self).resources.ttl_ms,
                    self.resources.buffer_pool == old(self).resources.buffer_pool,
                    self.resources.baselines == old(self).resources.baselines,
                    self.widget_usage == old(self).widget_usage,
                    self.counts_same(*old(self)),
                    self.config.track_widget_memory == old(self).config.track_widget_memory,
                decreases self.resources.buffer_cache@.len(),
            {
                let ghost cur = self.resources.buffer_cache@;
                assert(removed < target);
                let i = oldest_index(&self.resources.buffer_cache);
                self.resources.buffer_cache.remove(i);
                proof {
                    assert(drop_oldest(cur, (target - removed) as nat) == drop_oldest(
                        cur.remove(i as int),
                        (target - removed - 1) as nat,
                    ));
                }
                removed = removed + 1;
            }
            proof {
                assert(drop_oldest(self.resources.buffer_cache@, 0) == self.resources.buffer_cache@);
            }
        }
        initial - self.resources.buffer_cache.len()
    }
}

/// The index of the first of the buffers cached earliest.
fn oldest_index(entries: &Vec<(String, CachedBuffer)>) -> (res: usize)
    requires
        entries@.len() > 0,
    ensures
        res as int == oldest_at(entries@),
        res < entries@.len(),
{
    let mut best: usize = 0;
    let mut i: usize = 1;
    while i < entries.len()
        invariant
            1 <= i <= entries@.len(),
            best as int == oldest_at(entries@.take(i as int)),
            best < i,
        decreases entries@.len() - i,
    {
        proof {
            assert(entries@.take(i + 1).drop_last() =~= entries@.take(i as int));
            lemma_oldest_at(entries@.take(i as int));
        }
        if entries[i].1.cached_at_ms < entries[best].1.cached_at_ms {
            best = i;
        }
        i = i + 1;
    }
    assert(entries@.take(i as int) =~= entries@);
    best
}

/// `n` times `per`, or the largest `usize` when that does not fit.
pub open spec fn saturated_product(n: usize, per: usize) -> int {
    if n * per <= usize::MAX {
        n * per
    } else {
        usize::MAX as int
    }
}

/// The size in bytes of one render buffer of ratatui
/// (`std::mem::size_of::<ratatui::buffer::Buffer>()`). Nothing is stated of
/// the number: it depends on the build.
#[verifier::external_body]
fn buffer_bytes() -> (res: usize) {
    std::mem::size_of::<ratatui::buffer::Buffer>()
}

impl TuiMemoryManager {
    /// Caches a buffer of `size` under `key` at `now`: with pooling, a full
    /// cache is cleaned first, and the key then holds the new buffer.
    pub fn cache_render_buffer_at(&mut self, key: &str, size: (u16, u16), now: u64)
        ensures
            final(self).widgets() == old(self).widgets() && final(self).counts_same(*old(self)),
            old(self).well_formed() ==> final(self).well_formed(),
            same_but_cache(old(self).res(), final(self).res()),
            !old(self).res().pooling() ==> final(self).res().cache() == old(self).res().cache(),
            old(self).res().pooling() ==> forall|w: Seq<char>|
                #[trigger] entry_of(final(self).res().cache(), w) == if w == key@ {
                    Some(CachedBuffer { width: size.0, height: size.1, cached_at_ms: now })
                } else {
                    entry_of(
                        if old(self).res().cache().len() >= old(self).res().max_buffers() {
                            cache_cleaned(old(self).res().cache(), now, old(self).res().max_buffers() as nat, old(self).res().ttl())
                        } else {
                            old(self).res().cache()
                        },
                        w,
                    )
                },
    {
        if !self.resources.pooling {
            return;
        }
        if self.resources.buffer_cache.len() >= self.resources.max_cached_buffers {
            self.cleanup_buffer_cache_at(now);
        }
        set_entry(
            &mut self.resources.buffer_cache,
            key,
            CachedBuffer { width: size.0, height: size.1, cached_at_ms: now },
        );
    }

    /// The size of the buffer cached under `key` if it is still usable at
    /// `now`; an expired one is dropped. Nothing without pooling.
    pub fn get_cached_render_buffer_at(&mut self, key: &str, now: u64) -> (res: Option<(u16, u16)>)
        ensures
            final(self).widgets() == old(self).widgets() && final(self).counts_same(*old(self)),
            old(self).well_formed() ==> final(self).well_formed(),
            same_but_cache(old(self).res(), final(self).res()),
            match (if old(self).res().pooling() { entry_of(old(self).res().cache(), key@) } else { None }) {
                Some(e) => if buffer_fresh(e, now, old(self).res().ttl()) {
                    res == Some((e.width, e.height)) && final(self).res().cache() == old(self).res().cache()
                } else {
                    res is None && forall|w: Seq<char>|
                        #[trigger] entry_of(final(self).res().cache(), w) == if w == key@ {
                            None
                        } else {
                            entry_of(old(self).res().cache(), w)
                        }
                },
                None => res is None && final(self).res().cache() == old(self).res().cache(),
            },
    {
        if !self.resources.pooling {
            return None;
        }
        match find_entry(&self.resources.buffer_cache, key) {
            Some(k) => {
                let e = self.resources.buffer_cache[k].1;
                let age: u64 = if now >= e.cached_at_ms { now - e.cached_at_ms } else { 0 };
                if age <= self.resources.ttl_ms {
                    Some((e.width, e.height))
                } else {
                    drop_named(&mut self.resources.buffer_cache, key);
                    None
                }
            },
            None => None,
        }
    }

    /// A monitoring pass over the widgets, in order: each moves its usage
    /// baseline half way to its usage now, or starts one at it.
    pub fn update_baselines(&mut self)
        ensures
            final(self).widgets() == old(self).widgets() && final(self).counts_same(*old(self)),
            old(self).well_formed() ==> final(self).well_formed(),
            final(self).res().pooling() == old(self).res().pooling(),
            final(self).res().max_buffers() == old(self).res().max_buffers(),
            final(self).res().ttl() == old(self).res().ttl(),
            final(self).res().pool() == old(self).res().pool(),
            final(self).res().cache() == old(self).res().cache(),
            forall|w: Seq<char>|
                #[trigger] entry_of(final(self).res().baselines(), w) == baseline_after(
                    old(self).widgets(),
                    old(self).res().baselines(),
                    w,
                ),
    {
        let ghost widgets = self.widget_usage@;
        let ghost start = self.resources.baselines@;
        let mut i: usize = 0;
        while i < self.widget_usage.len()
            invariant
                widgets == self.widget_usage@,
                i <= widgets.len(),
                self.widget_usage == old(self).widget_usage,
                self.counts_same(*old(self)),
                self.config.track_widget_memory == old(self).config.track_widget_memory,
                self.resources.pooling == old(self).resources.pooling,
                self.resources.max_cached_buffers == old(self).resources.max_cached_buffers,
                self.resources.ttl_ms == old(self).resources.ttl_ms,
                self.resources.buffer_pool == old(self).resources.buffer_pool,
                self.resources.buffer_cache == old(self).resources.buffer_cache,
                start == old(self).resources.baselines@,
                forall|w: Seq<char>|
                    #[trigger] entry_of(self.resources.baselines@, w) == baseline_after(widgets.take(i as int), start, w),
            decreases widgets.len() - i,
        {
            let current = self.widget_usage[i].1.current_usage;
            let next: usize = match find_entry(&self.resources.baselines, self.widget_usage[i].0.as_str()) {
                Some(k) => {
                    let b = self.resources.baselines[k].1;
                    ((b as u128 + current as u128) / 2) as usize
                },
                None => current,
            };
            let ghost before = self.resources.baselines@;
            let name = self.widget_usage[i].0.clone();
            set_entry(&mut self.resources.baselines, name.as_str(), next);
            proof {
                assert forall|w: Seq<char>|
                    #[trigger] entry_of(self.resources.baselines@, w) == baseline_after(widgets.take(i + 1), start, w) by {
                    assert(widgets.take(i + 1).drop_last() =~= widgets.take(i as int));
                    assert(widgets.take(i + 1).last() == widgets[i as int]);
                }
            }
            i = i + 1;
        }
        assert(widgets.take(i as int) =~= widgets);
    }

    /// How many buffers are pooled and how many cached.
    pub fn buffer_counts(&self) -> (res: (usize, usize))
        ensures
            res.0 == self.res().pool().len() && res.1 == self.res().cache().len(),
    {
        (self.resources.buffer_pool.len(), self.resources.buffer_cache.len())
    }

    /// The leak checks of the widgets that have a baseline, in order.
    pub fn detect_memory_leaks(&self) -> (res: Vec<LeakCheck>)
        ensures
            res@.map_values(|l: LeakCheck| leak_view(l)) == leak_checks(
                self.widgets(),
                self.res().baselines(),
                self.cfg().leak_threshold_permille,
            ),
    {
        let ghost widgets = self.widget_usage@;
        let ghost bl = self.resources.baselines@;
        let t = self.config.leak_threshold_permille;
        let mut res: Vec<LeakCheck> = Vec::new();
        let mut i: usize = 0;
        assert(res@.map_values(|l: LeakCheck| leak_view(l)) =~= leak_checks(widgets.take(0), bl, t));
        while i < self.widget_usage.len()
            invariant
                widgets == self.widget_usage@,
                bl == self.resources.baselines@,
                t == self.config.leak_threshold_permille,
                i <= widgets.len(),
                res@.map_values(|l: LeakCheck| leak_view(l)) == leak_checks(widgets.take(i as int), bl, t),
            decreases widgets.len() - i,
        {
            assert(widgets.take(i + 1).drop_last() =~= widgets.take(i as int));
            assert(widgets.take(i + 1).last() == widgets[i as int]);
            match find_entry(&self.resources.baselines, self.widget_usage[i].0.as_str()) {
                Some(k) => {
                    let b = self.resources.baselines[k].1;
                    let current = self.widget_usage[i].1.current_usage;
                    let action = if grew_past(current, b, 3, 1) {
                        LeakAction::RestartWidget
                    } else if grew_past(current, b, 2, 1) {
                        LeakAction::ForceCleanup
                    } else if grew_past(current, b, 3, 2) {
                        LeakAction::ClearCache
                    } else {
                        LeakAction::Monitor
                    };
                    let check = LeakCheck {
                        widget_id: self.widget_usage[i].0.clone(),
                        leak_detected: grew_past(current, b, t, 1000),
                        baseline_usage: b,
                        current_usage: current,
                        recommended_action: action,
                    };
                    let ghost before = res@;
                    res.push(check);
                    assert(res@.map_values(|l: LeakCheck| leak_view(l)) =~= before.map_values(
                        |l: LeakCheck| leak_view(l),
                    ).push(leak_view(check)));
                },
                None => {},
            }
            i = i + 1;
        }
        assert(widgets.take(i as int) =~= widgets);
        res
    }

    /// Frees what can be freed at `now`: the cached buffers that a cleanup
    /// drops, every pooled buffer and the stale widgets. The report counts
    /// the buffers and their bytes and names the widgets; its duration is
    /// left at zero for the caller that times it.
    pub fn force_cleanup_at(&mut self, now: u64) -> (res: CleanupReport)
        requires
            old(self).well_formed(),
            old(self).res().cache().len() + old(self).res().pool().len() <= usize::MAX,
        ensures
            final(self).well_formed(),
            final(self).counts_same(*old(self)),
            final(self).widgets() == keep_where(
                old(self).widgets(),
                |e: (String, WidgetMemoryUsage)| !is_stale(e, now),
            ),
            final(self).res().cache() == cache_cleaned(
                old(self).res().cache(),
                now,
                old(self).res().max_buffers() as nat,
                old(self).res().ttl(),
            ),
            final(self).res().pool().len() == 0,
            final(self).res().pooling() == old(self).res().pooling(),
            final(self).res().max_buffers() == old(self).res().max_buffers(),
            final(self).res().ttl() == old(self).res().ttl(),
            final(self).res().baselines() == old(self).res().baselines(),
            res.cleared_buffers == old(self).res().cache().len() - final(self).res().cache().len()
                + old(self).res().pool().len(),
            exists|per: usize| res.freed_memory == #[trigger] saturated_product(res.cleared_buffers, per),
            crate::startup::texts_of(res.cleaned_widgets@) == stale_names(old(self).widgets(), now),
            res.cleanup_duration_ms == 0,
            res.success,
            res.errors@.len() == 0,
    {
        let from_cache = self.cleanup_buffer_cache_at(now);
        let from_pool = self.resources.buffer_pool.len();
        self.resources.buffer_pool.clear();
        let cleared = from_cache + from_pool;
        let per = buffer_bytes();
        let freed = match cleared.checked_mul(per) {
            Some(f) => f,
            None => usize::MAX,
        };
        assert(freed == saturated_product(cleared, per));
        let cleaned = self.cleanup_widget_tracking_at(now);
        CleanupReport {
            freed_memory: freed,
            cleaned_widgets: cleaned,
            cleared_buffers: cleared,
            cleanup_duration_ms: 0,
            success: true,
            errors: Vec::new(),
        }
    }
}

} // verus!
