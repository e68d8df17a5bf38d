//! Performance monitoring: its vocabulary, the profile of a function kept
//! across its calls, and the counts and timings a monitor keeps.

use vstd::prelude::*;
use vstd::slice::slice_to_vec;
use crate::error::{clock_now_ms, keep_last};
use crate::named::{entry_of, find_entry, lemma_entry_update, set_entry};

verus! {

/// How monitoring data is exported.
#[derive(Debug, Clone, Copy, PartialEq, Eq, Structural)]
pub enum ExportFormat {
    Json,
    Csv,
    Prometheus,
}

/// The figures of a widget; times in microseconds.
#[derive(Debug, Clone, Copy)]
pub struct WidgetStats {
    pub render_time_us: u64,
    pub update_time_us: u64,
    pub memory_usage: usize,
    pub event_count: u64,
    pub error_count: u64,
}

/// What a performance alert is about.
#[derive(Debug, Clone, Copy, PartialEq, Eq, Structural)]
pub enum AlertType {
    HighCpuUsage,
    HighMemoryUsage,
    LowFrameRate,
    HighResponseTime,
    HighErrorRate,
    HighCacheMissRate,
    SystemResource,
    ComponentFailure,
}

/// How serious an alert is.
#[derive(Debug, Clone, Copy, PartialEq, Eq, Structural)]
pub enum AlertSeverity {
    Info,
    Warning,
    Critical,
}

/// The profile of a function across its calls; times in nanoseconds.
/// Before any call the shortest time is the largest one a duration can
/// have.
#[derive(Debug)]
pub struct ProfilingData {
    pub function_name: String,
    pub call_count: u64,
    pub total_time_ns: u128,
    pub average_time_ns: u128,
    pub min_time_ns: u128,
    pub max_time_ns: u128,
    pub memory_allocated: usize,
    pub stack_trace: Vec<String>,
}

/// Something noted for debugging, at a time in milliseconds.
#[derive(Debug)]
pub struct DebugInfo {
    pub component: String,
    pub event_type: String,
    pub timestamp: u64,
    pub data: Vec<(String, String)>,
    pub stack_trace: Option<Vec<String>>,
}

/// Which way each figure is going.
#[derive(Debug, Clone, Copy, PartialEq, Eq, Structural)]
pub struct PerformanceTrends {
    pub fps_trend: TrendDirection,
    pub memory_trend: TrendDirection,
    pub cpu_trend: TrendDirection,
    pub error_trend: TrendDirection,
}

/// Which way a figure is going.
#[derive(Debug, Clone, Copy, PartialEq, Eq, Structural)]
pub enum TrendDirection {
    Improving,
    Stable,
    Degrading,
}

/// What limits performance.
#[derive(Debug, Clone, Copy, PartialEq, Eq, Structural)]
pub enum BottleneckType {
    CpuBound,
    MemoryBound,
    IoBound,
    RenderingBound,
    CacheMiss,
}

/// What a performance recommendation is about.
#[derive(Debug, Clone, Copy, PartialEq, Eq, Structural)]
pub enum RecommendationType {
    OptimizeRendering,
    ReduceMemoryUsage,
    ImproveCache,
    OptimizeAlgorithm,
    UpgradeHardware,
    ConfigurationChange,
}

/// How urgent a performance recommendation is.
#[derive(Debug, Clone, Copy, PartialEq, Eq, Structural)]
pub enum RecommendationPriority {
    Low,
    Medium,
    High,
    Critical,
}

/// How much work a recommendation takes.
#[derive(Debug, Clone, Copy, PartialEq, Eq, Structural)]
pub enum ImplementationEffort {
    Low,
    Medium,
    High,
}

/// The largest duration, in nanoseconds: `u64::MAX` seconds and
/// 999,999,999 nanoseconds.
pub open spec fn max_duration_ns() -> u128 {
    (u64::MAX as u128 * 1_000_000_000 + 999_999_999) as u128
}

/// The profile figures after a call that took `d` nanoseconds: one more
/// call, the total grown by `d`, the average the total over the number of
/// calls (that number taken modulo 2^32, as a `u32` divisor), and the
/// shortest and longest times.
pub open spec fn profiled(count: u64, total: u128, min: u128, max: u128, d: u128) -> (u64, u128, u128, u128, u128) {
    let c = (count + 1) as u64;
    let t = (total + d) as u128;
    (c, t, (t / ((c as int) % 0x1_0000_0000) as u128) as u128, if d < min { d } else { min }, if d > max {
        d
    } else {
        max
    })
}

/// The profile of a function as plain values: calls, total, average,
/// shortest and longest time.
pub open spec fn profile_view(p: ProfilingData) -> (u64, u128, u128, u128, u128) {
    (p.call_count, p.total_time_ns, p.average_time_ns, p.min_time_ns, p.max_time_ns)
}

/// What a profile says of its function apart from the figures: its name,
/// the memory it allocated and its stack trace.
pub open spec fn profile_identity(p: ProfilingData) -> (Seq<char>, usize, Seq<String>) {
    (p.function_name@, p.memory_allocated, p.stack_trace@)
}

/// The name, memory and stack trace of a profile after a call: those of
/// the profile so far, or for a new one the function's name, no memory and
/// no trace.
pub open spec fn identity_after(prior: Option<ProfilingData>, name: Seq<char>) -> (Seq<char>, usize, Seq<String>) {
    match prior {
        Some(p) => profile_identity(p),
        None => (name, 0usize, Seq::<String>::empty()),
    }
}

/// The profile of `function_name` after a call that took `duration_ns`
/// nanoseconds, from its profile so far, if any.
pub fn record_profile(prior: Option<ProfilingData>, function_name: &str, duration_ns: u128) -> (res: ProfilingData)
    requires
        match prior {
            Some(p) => p.call_count < u64::MAX && p.total_time_ns + duration_ns <= u128::MAX && (p.call_count + 1)
                % 0x1_0000_0000 != 0,
            None => true,
        },
    ensures
        profile_view(res) == match prior {
            Some(p) => profiled(p.call_count, p.total_time_ns, p.min_time_ns, p.max_time_ns, duration_ns),
            None => profiled(0, 0, max_duration_ns(), 0, duration_ns),
        },
        profile_identity(res) == identity_after(prior, function_name@),
{
    let mut data = match prior {
        Some(p) => p,
        None => ProfilingData {
            function_name: String::from_str(function_name),
            call_count: 0,
            total_time_ns: 0,
            average_time_ns: 0,
            min_time_ns: 18446744073709551615u128 * 1_000_000_000 + 999_999_999,
            max_time_ns: 0,
            memory_allocated: 0,
            stack_trace: Vec::new(),
        },
    };
    data.call_count = data.call_count + 1;
    data.total_time_ns = data.total_time_ns + duration_ns;
    let divisor = (data.call_count % 0x1_0000_0000) as u128;
    data.average_time_ns = data.total_time_ns / divisor;
    if duration_ns < data.min_time_ns {
        data.min_time_ns = duration_ns;
    }
    if duration_ns > data.max_time_ns {
        data.max_time_ns = duration_ns;
    }
    data
}


/// Whether `d` is the note of an error of `component` with message `error`
/// at time `now`.
pub open spec fn error_note(d: DebugInfo, component: Seq<char>, error: Seq<char>, now: u64) -> bool {
    &&& d.component@ == component
    &&& d.event_type@ == "error"@
    &&& d.timestamp == now
    &&& d.data@.len() == 1
    &&& d.data@[0].0@ == "error"@
    &&& d.data@[0].1@ == error
    &&& d.stack_trace is None
}

/// The count of an event kind among `events`, none counting as zero.
pub open spec fn count_of(events: Seq<(String, u64)>, kind: Seq<char>) -> u64 {
    match entry_of(events, kind) {
        Some(c) => c,
        None => 0,
    }
}

/// The timings of an operation among `timings`, in nanoseconds, oldest
/// first.
pub open spec fn timings_of(timings: Seq<(String, Vec<u128>)>, op: Seq<char>) -> Seq<u128> {
    match entry_of(timings, op) {
        Some(v) => v@,
        None => Seq::empty(),
    }
}

/// The profile figures after a call of `d` nanoseconds, from the profile
/// so far, if any.
pub open spec fn profiled_after(prior: Option<ProfilingData>, d: u128) -> (u64, u128, u128, u128, u128) {
    match prior {
        Some(p) => profiled(p.call_count, p.total_time_ns, p.min_time_ns, p.max_time_ns, d),
        None => profiled(0, 0, max_duration_ns(), 0, d),
    }
}

/// Whether a profile can take one more call of `d` nanoseconds.
pub open spec fn can_profile(prior: Option<ProfilingData>, d: u128) -> bool {
    match prior {
        Some(p) => p.call_count < u64::MAX && p.total_time_ns + d <= u128::MAX && (p.call_count + 1) % 0x1_0000_0000
            != 0,
        None => true,
    }
}

/// Adds `x` last to `v`, dropping the oldest values beyond `max`.
fn push_bounded<T>(v: &mut Vec<T>, x: T, max: usize)
    ensures
        final(v)@ == keep_last(old(v)@.push(x), max as nat),
{
    let ghost pushed = v@.push(x);
    v.push(x);
    while v.len() > max
        invariant
            v@ == pushed.skip(pushed.len() - v@.len()),
            v@.len() <= pushed.len(),
            pushed.len() > max ==> v@.len() >= max,
            pushed.len() <= max ==> v@.len() == pushed.len(),
        decreases v.len(),
    {
        v.remove(0);
    }
    assert(v@ =~= keep_last(pushed, max as nat));
}

/// The counts and timings a performance monitor keeps: frames drawn,
/// errors, events by kind, the latest hundred timings of each operation,
/// the profiles of functions, and notes for debugging. Snapshots, alerts
/// and reports, which need floating point, are kept by the application.
pub struct TuiPerformanceMonitor {
    enable_debug_info: bool,
    max_history_size: usize,
    frame_counter: u64,
    error_counter: u64,
    event_counter: Vec<(String, u64)>,
    operation_timings: Vec<(String, Vec<u128>)>,
    profiling_data: Vec<(String, ProfilingData)>,
    debug_info: Vec<DebugInfo>,
    active_alerts: Vec<PerformanceAlert>,
    alert_history: Vec<PerformanceAlert>,
}

impl TuiPerformanceMonitor {
    /// Frames recorded.
    pub closed spec fn frames(&self) -> u64 {
        self.frame_counter
    }

    /// Errors recorded.
    pub closed spec fn errors(&self) -> u64 {
        self.error_counter
    }

    /// Events counted by kind; the last entry of a kind holds its count.
    pub closed spec fn events(&self) -> Seq<(String, u64)> {
        self.event_counter@
    }

    /// Timings by operation; the last entry of an operation holds them.
    pub closed spec fn timings(&self) -> Seq<(String, Vec<u128>)> {
        self.operation_timings@
    }

    /// Profiles by function; the last entry of a function holds its profile.
    pub closed spec fn profiles(&self) -> Seq<(String, ProfilingData)> {
        self.profiling_data@
    }

    /// The notes for debugging, oldest first.
    pub closed spec fn notes(&self) -> Seq<DebugInfo> {
        self.debug_info@
    }

    /// Whether errors are noted for debugging.
    pub closed spec fn notes_errors(&self) -> bool {
        self.enable_debug_info
    }

    /// The alerts in force, one per kind and component, oldest first.
    pub closed spec fn alerts(&self) -> Seq<PerformanceAlert> {
        self.active_alerts@
    }

    /// The alerts raised, oldest first.
    pub closed spec fn alert_log(&self) -> Seq<PerformanceAlert> {
        self.alert_history@
    }

    /// How many notes are kept at most.
    pub closed spec fn max_notes(&self) -> nat {
        self.max_history_size as nat
    }

    /// Nothing recorded; errors noted for debugging when `enable_debug_info`
    /// is set, keeping up to `max_history_size` notes.
    pub fn new(enable_debug_info: bool, max_history_size: usize) -> (res: Self)
        ensures
            res.frames() == 0,
            res.errors() == 0,
            res.events().len() == 0,
            res.timings().len() == 0,
            res.profiles().len() == 0,
            res.notes().len() == 0,
            res.notes_errors() == enable_debug_info,
            res.max_notes() == max_history_size,
            res.alerts().len() == 0,
            res.alert_log().len() == 0,
    {
        TuiPerformanceMonitor {
            enable_debug_info,
            max_history_size,
            frame_counter: 0,
            error_counter: 0,
            event_counter: Vec::new(),
            operation_timings: Vec::new(),
            profiling_data: Vec::new(),
            debug_info: Vec::new(),
            active_alerts: Vec::new(),
            alert_history: Vec::new(),
        }
    }

    /// Records the timing of an operation, keeping its latest hundred.
    pub fn record_operation_time(&mut self, operation: &str, duration_ns: u128)
        ensures
            timings_of(final(self).timings(), operation@) == keep_last(
                timings_of(old(self).timings(), operation@).push(duration_ns),
                100,
            ),
            forall|w: Seq<char>|
                w != operation@ ==> #[trigger] timings_of(final(self).timings(), w) == timings_of(old(self).timings(), w),
            final(self).frames() == old(self).frames(),
            final(self).errors() == old(self).errors(),
            final(self).events() == old(self).events(),
            final(self).profiles() == old(self).profiles(),
            final(self).notes() == old(self).notes(),
            final(self).notes_errors() == old(self).notes_errors(),
            final(self).max_notes() == old(self).max_notes(),
    {
        let mut v: Vec<u128> = match find_entry(&self.operation_timings, operation) {
            Some(k) => slice_to_vec(self.operation_timings[k].1.as_slice()),
            None => Vec::new(),
        };
        push_bounded(&mut v, duration_ns, 100);
        set_entry(&mut self.operation_timings, operation, v);
    }

    /// Records a frame drawn in `render_time_ns` nanoseconds: one more frame,
    /// and the timing among those of `frame_render`.
    pub fn record_frame(&mut self, render_time_ns: u128)
        requires
            old(self).frames() < u64::MAX,
        ensures
            final(self).frames() == old(self).frames() + 1,
            timings_of(final(self).timings(), "frame_render"@) == keep_last(
                timings_of(old(self).timings(), "frame_render"@).push(render_time_ns),
                100,
            ),
            forall|w: Seq<char>|
                w != "frame_render"@ ==> #[trigger] timings_of(final(self).timings(), w) == timings_of(
                    old(self).timings(),
                    w,
                ),
            final(self).errors() == old(self).errors(),
            final(self).events() == old(self).events(),
            final(self).profiles() == old(self).profiles(),
            final(self).notes() == old(self).notes(),
    {
        self.frame_counter = self.frame_counter + 1;
        self.record_operation_time("frame_render", render_time_ns);
    }

    /// Records an error of `component` at time `now_ms`: one more error, and,
    /// when errors are noted, a note of it after the others, dropping the
    /// oldest beyond the limit.
    pub fn record_error_at(&mut self, component: &str, error: &str, now_ms: u64)
        requires
            old(self).errors() < u64::MAX,
        ensures
            final(self).errors() == old(self).errors() + 1,
            if old(self).notes_errors() {
                exists|d: DebugInfo|
                    #[trigger] error_note(d, component@, error@, now_ms) && final(self).notes() == keep_last(
                        old(self).notes().push(d),
                        old(self).max_notes(),
                    )
            } else {
                final(self).notes() == old(self).notes()
            },
            final(self).frames() == old(self).frames(),
            final(self).events() == old(self).events(),
            final(self).timings() == old(self).timings(),
            final(self).profiles() == old(self).profiles(),
            final(self).notes_errors() == old(self).notes_errors(),
            final(self).max_notes() == old(self).max_notes(),
    {
        self.error_counter = self.error_counter + 1;
        if self.enable_debug_info {
            let mut data: Vec<(String, String)> = Vec::new();
            data.push((String::from_str("error"), String::from_str(error)));
            let note = DebugInfo {
                component: String::from_str(component),
                event_type: String::from_str("error"),
                timestamp: now_ms,
                data,
                stack_trace: None,
            };
            let ghost noted = note;
            push_bounded(&mut self.debug_info, note, self.max_history_size);
            assert(error_note(noted, component@, error@, now_ms));
        }
    }

    /// Records an error of `component` now, by the system clock.
    pub fn record_error(&mut self, component: &str, error: &str)
        requires
            old(self).errors() < u64::MAX,
        ensures
            final(self).errors() == old(self).errors() + 1,
            if old(self).notes_errors() {
                exists|d: DebugInfo, now: u64|
                    #[trigger] error_note(d, component@, error@, now) && final(self).notes() == keep_last(
                        old(self).notes().push(d),
                        old(self).max_notes(),
                    )
            } else {
                final(self).notes() == old(self).notes()
            },
            final(self).frames() == old(self).frames(),
            final(self).events() == old(self).events(),
            final(self).timings() == old(self).timings(),
            final(self).profiles() == old(self).profiles(),
    {
        self.record_error_at(component, error, clock_now_ms());
    }

    /// Counts one more event of kind `event_type`.
    pub fn record_event(&mut self, event_type: &str)
        requires
            count_of(old(self).events(), event_type@) < u64::MAX,
        ensures
            forall|w: Seq<char>|
                #[trigger] entry_of(final(self).events(), w) == if w == event_type@ {
                    Some((count_of(old(self).events(), event_type@) + 1) as u64)
                } else {
                    entry_of(old(self).events(), w)
                },
            final(self).frames() == old(self).frames(),
            final(self).errors() == old(self).errors(),
            final(self).timings() == old(self).timings(),
            final(self).profiles() == old(self).profiles(),
            final(self).notes() == old(self).notes(),
    {
        let count: u64 = match find_entry(&self.event_counter, event_type) {
            Some(k) => self.event_counter[k].1,
            None => 0,
        };
        set_entry(&mut self.event_counter, event_type, count + 1);
    }

    /// Records a call of `function_name` that took `duration_ns`
    /// nanoseconds in its profile.
    pub fn record_profile_call(&mut self, function_name: &str, duration_ns: u128)
        requires
            can_profile(entry_of(old(self).profiles(), function_name@), duration_ns),
        ensures
            entry_of(final(self).profiles(), function_name@) matches Some(p) && profile_view(p) == profiled_after(
                entry_of(old(self).profiles(), function_name@),
                duration_ns,
            ) && profile_identity(p) == identity_after(entry_of(old(self).profiles(), function_name@), function_name@),
            forall|w: Seq<char>|
                w != function_name@ ==> #[trigger] entry_of(final(self).profiles(), w) == entry_of(
                    old(self).profiles(),
                    w,
                ),
            final(self).frames() == old(self).frames(),
            final(self).errors() == old(self).errors(),
            final(self).events() == old(self).events(),
            final(self).timings() == old(self).timings(),
            final(self).notes() == old(self).notes(),
    {
        let ghost before = self.profiling_data@;
        match find_entry(&self.profiling_data, function_name) {
            Some(k) => {
                let (key, prior) = self.profiling_data.remove(k);
                let updated = record_profile(Some(prior), function_name, duration_ns);
                let ghost entry = (key, updated);
                self.profiling_data.insert(k, (key, updated));
                proof {
                    assert(self.profiling_data@ =~= before.update(k as int, entry));
                    lemma_entry_update(before, k as int, entry.0, entry.1);
                }
            },
            None => {
                let p = record_profile(None, function_name, duration_ns);
                self.profiling_data.push((String::from_str(function_name), p));
                assert(self.profiling_data@.drop_last() =~= before);
            },
        }
    }

    /// Frames recorded.
    pub fn frame_count(&self) -> (res: u64)
        ensures
            res == self.frames(),
    {
        self.frame_counter
    }

    /// Errors recorded.
    pub fn error_count(&self) -> (res: u64)
        ensures
            res == self.errors(),
    {
        self.error_counter
    }

    /// Events of kind `event_type` counted.
    pub fn event_count(&self, event_type: &str) -> (res: u64)
        ensures
            res == count_of(self.events(), event_type@),
    {
        match find_entry(&self.event_counter, event_type) {
            Some(k) => self.event_counter[k].1,
            None => 0,
        }
    }

    /// The latest timings of `operation`, oldest first.
    pub fn operation_timings(&self, operation: &str) -> (res: Vec<u128>)
        ensures
            res@ == timings_of(self.timings(), operation@),
    {
        match find_entry(&self.operation_timings, operation) {
            Some(k) => slice_to_vec(self.operation_timings[k].1.as_slice()),
            None => Vec::new(),
        }
    }

    /// The profile of `function_name`, if it was called.
    pub fn profiling_data(&self, function_name: &str) -> (res: Option<&ProfilingData>)
        ensures
            match res {
                Some(p) => entry_of(self.profiles(), function_name@) == Some(*p),
                None => entry_of(self.profiles(), function_name@) is None,
            },
    {
        match find_entry(&self.profiling_data, function_name) {
            Some(k) => Some(&self.profiling_data[k].1),
            None => None,
        }
    }

    /// The notes for debugging, oldest first.
    pub fn debug_info(&self) -> (res: &Vec<DebugInfo>)
        ensures
            res@ == self.notes(),
    {
        &self.debug_info
    }
}

/// A performance alert: its kind, how serious, a message, when (in
/// milliseconds), the value measured and the threshold passed (both in
/// thousandths of their unit), and the component it is about.
#[derive(Debug)]
pub struct PerformanceAlert {
    pub alert_type: AlertType,
    pub severity: AlertSeverity,
    pub message: String,
    pub timestamp: u64,
    pub metric_value_milli: u64,
    pub threshold_milli: u64,
    pub component: String,
}

impl PerformanceAlert {
    /// A copy of the alert.
    pub fn copy(&self) -> (res: Self)
        ensures
            res == *self,
    {
        PerformanceAlert {
            alert_type: self.alert_type,
            severity: self.severity,
            message: self.message.clone(),
            timestamp: self.timestamp,
            metric_value_milli: self.metric_value_milli,
            threshold_milli: self.threshold_milli,
            component: self.component.clone(),
        }
    }
}

/// Whether an alert of the kind and component of `a` is among `s`.
pub open spec fn has_alert_like(s: Seq<PerformanceAlert>, a: PerformanceAlert) -> bool {
    exists|i: int| 0 <= i < s.len() && #[trigger] s[i].alert_type == a.alert_type && s[i].component@ == a.component@
}

/// Whether no two alerts of `s` share a kind and a component.
pub open spec fn alerts_distinct(s: Seq<PerformanceAlert>) -> bool {
    forall|i: int, j: int|
        0 <= i < j < s.len() ==> !(#[trigger] s[i].alert_type == #[trigger] s[j].alert_type && s[i].component@ == s[j].component@)
}

impl TuiPerformanceMonitor {
    /// Records an alert: it comes into force unless one of its kind and
    /// component is; it joins the alerts raised, of which the latest
    /// `max_history_size` are kept.
    pub fn record_alert(&mut self, alert: PerformanceAlert)
        ensures
            final(self).alerts() == if has_alert_like(old(self).alerts(), alert) {
                old(self).alerts()
            } else {
                old(self).alerts().push(alert)
            },
            final(self).alert_log() == keep_last(old(self).alert_log().push(alert), old(self).max_notes()),
            alerts_distinct(old(self).alerts()) ==> alerts_distinct(final(self).alerts()),
            final(self).max_notes() == old(self).max_notes(),
            final(self).frames() == old(self).frames() && final(self).errors() == old(self).errors(),
            final(self).events() == old(self).events() && final(self).notes() == old(self).notes(),
            final(self).timings() == old(self).timings() && final(self).profiles() == old(self).profiles(),
    {
        let mut found = false;
        let mut i: usize = 0;
        while i < self.active_alerts.len()
            invariant
                i <= self.active_alerts@.len(),
                self.active_alerts@ == old(self).active_alerts@,
                found == exists|j: int|
                    0 <= j < i && #[trigger] self.active_alerts@[j].alert_type == alert.alert_type
                        && self.active_alerts@[j].component@ == alert.component@,
            decreases self.active_alerts@.len() - i,
        {
            let a = &self.active_alerts[i];
            if a.alert_type == alert.alert_type && crate::text::text_eq(a.component.as_str(), alert.component.as_str()) {
                found = true;
            }
            i = i + 1;
        }
        let ghost before = self.active_alerts@;
        if !found {
            self.active_alerts.push(alert.copy());
            proof {
                assert forall|x: int, y: int|
                    alerts_distinct(before) && 0 <= x < y < self.active_alerts@.len() implies !(
                    #[trigger] self.active_alerts@[x].alert_type == #[trigger] self.active_alerts@[y].alert_type
                        && self.active_alerts@[x].component@ == self.active_alerts@[y].component@) by {
                    if y == before.len() {
                        assert(before[x] == self.active_alerts@[x]);
                    } else {
                        assert(before[x] == self.active_alerts@[x]);
                        assert(before[y] == self.active_alerts@[y]);
                    }
                }
            }
        }
        let max = self.max_history_size;
        let ghost full = self.alert_history@.push(alert);
        self.alert_history.push(alert);
        let ghost act = self.active_alerts@;
        while self.alert_history.len() > max
            invariant
                max == self.max_history_size,
                max == old(self).max_history_size,
                self.active_alerts@ == act,
                self.frame_counter == old(self).frame_counter,
                self.error_counter == old(self).error_counter,
                self.event_counter@ == old(self).event_counter@,
                self.operation_timings@ == old(self).operation_timings@,
                self.profiling_data@ == old(self).profiling_data@,
                self.debug_info@ == old(self).debug_info@,
                self.alert_history@.len() == full.len() || self.alert_history@.len() >= max,
                self.alert_history@.len() <= full.len(),
                self.alert_history@ == full.skip(full.len() - self.alert_history@.len()),
            decreases self.alert_history@.len(),
        {
            let ghost h = self.alert_history@;
            self.alert_history.remove(0);
            assert(self.alert_history@ =~= h.subrange(1, h.len() as int));
            assert(self.alert_history@ =~= full.skip(full.len() - self.alert_history@.len()));
        }
        assert(full.skip(0) =~= full);
        assert(self.alert_history@ =~= keep_last(full, max as nat));
    }

    /// The alerts in force.
    pub fn get_active_alerts(&self) -> (res: &Vec<PerformanceAlert>)
        ensures
            res@ == self.alerts(),
    {
        &self.active_alerts
    }

    /// The alerts raised, oldest first.
    pub fn alert_history(&self) -> (res: &Vec<PerformanceAlert>)
        ensures
            res@ == self.alert_log(),
    {
        &self.alert_history
    }

    /// Ends every alert in force; those raised stay recorded.
    pub fn clear_alerts(&mut self)
        ensures
            final(self).alerts().len() == 0,
            final(self).alert_log() == old(self).alert_log(),
            final(self).max_notes() == old(self).max_notes(),
    {
        self.active_alerts.clear();
    }
}

/// An alert recorded twice is in force once: recording alerts keeps at
/// most one in force per kind and component.
pub proof fn law_alert_once(before: Seq<PerformanceAlert>, a: PerformanceAlert)
    requires
        alerts_distinct(before),
    ensures
        ({
            let once = if has_alert_like(before, a) { before } else { before.push(a) };
            let twice = if has_alert_like(once, a) { once } else { once.push(a) };
            &&& twice == once
            &&& alerts_distinct(once)
        }),
{
    if !has_alert_like(before, a) {
        let once = before.push(a);
        assert(once[before.len() as int] == a);
        assert(has_alert_like(once, a));
        assert forall|x: int, y: int| 0 <= x < y < once.len() implies !(#[trigger] once[x].alert_type
            == #[trigger] once[y].alert_type && once[x].component@ == once[y].component@) by {
            if y == before.len() {
                assert(before[x] == once[x]);
            } else {
                assert(before[x] == once[x]);
                assert(before[y] == once[y]);
            }
        }
    }
}

} // verus!
