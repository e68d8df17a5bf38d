//! Starting the interface quickly: which components start in which phase,
//! how far each has got, what a request for a component comes to, the
//! figures of a startup and what they suggest. Running the components'
//! own initialization, and the clock, stay with the caller.

use vstd::prelude::*;
use crate::action::{decimal_string, decimal_string_u64, decimal_text, digit_char};
use crate::named::{entry_of, find_entry, set_entry};

verus! {

/// How startup is tuned; times in milliseconds.
#[derive(Debug)]
pub struct StartupConfig {
    /// The startup time aimed at.
    pub target_startup_time: u64,
    pub enable_lazy_loading: bool,
    pub monitor_startup_time: bool,
    pub enable_preloading: bool,
    pub preload_components: Vec<String>,
    pub enable_startup_cache: bool,
    pub cache_ttl_ms: u64,
    pub enable_parallel_init: bool,
    pub max_parallel_tasks: usize,
    pub enable_profiling: bool,
    /// How long a component may take to initialize.
    pub init_timeout_ms: u64,
    /// Whether components of normal priority are left out.
    pub enable_fast_boot: bool,
    pub essential_components: Vec<String>,
}

/// Strings as plain values.
pub open spec fn texts_of(v: Seq<String>) -> Seq<Seq<char>> {
    v.map_values(|s: String| s@)
}

/// Strings from string slices.
fn strings(v: Vec<&str>) -> (res: Vec<String>)
    ensures
        texts_of(res@) == v@.map_values(|s: &str| s@),
{
    let mut res: Vec<String> = Vec::new();
    let mut i: usize = 0;
    while i < v.len()
        invariant
            i <= v@.len(),
            res@.len() == i,
            forall|k: int| 0 <= k < i ==> (#[trigger] res@[k])@ == v@[k]@,
        decreases v@.len() - i,
    {
        res.push(String::from_str(v[i]));
        i = i + 1;
    }
    assert(texts_of(res@) =~= v@.map_values(|s: &str| s@));
    res
}

impl StartupConfig {
    /// A target of three seconds, every optimization on but fast boot,
    /// four components initialized at once, a cache valid for five
    /// minutes, ten seconds for a component; the theme, the layout and the
    /// event handler preloaded, and with the action dispatcher essential.
    pub fn default() -> (res: Self)
        ensures
            res.target_startup_time == 3000 && res.enable_lazy_loading && res.monitor_startup_time,
            res.enable_preloading && res.enable_startup_cache && res.cache_ttl_ms == 300000,
            res.enable_parallel_init && res.max_parallel_tasks == 4 && res.enable_profiling,
            res.init_timeout_ms == 10000 && !res.enable_fast_boot,
            texts_of(res.preload_components@) == seq!["theme"@, "layout"@, "event_handler"@],
            texts_of(res.essential_components@) == seq![
                "theme"@,
                "layout"@,
                "event_handler"@,
                "action_dispatcher"@,
            ],
    {
        let preload_components = strings(vec!["theme", "layout", "event_handler"]);
        let essential_components = strings(vec!["theme", "layout", "event_handler", "action_dispatcher"]);
        StartupConfig {
            target_startup_time: 3000,
            enable_lazy_loading: true,
            monitor_startup_time: true,
            enable_preloading: true,
            preload_components,
            enable_startup_cache: true,
            cache_ttl_ms: 300000,
            enable_parallel_init: true,
            max_parallel_tasks: 4,
            enable_profiling: true,
            init_timeout_ms: 10000,
            enable_fast_boot: false,
            essential_components,
        }
    }
}

/// When a component is initialized.
#[derive(Debug, Clone, Copy, PartialEq, Eq, Structural, PartialOrd, Ord)]
pub enum InitializationPriority {
    /// At once, one after another; they must succeed.
    Critical,
    /// Early.
    High,
    /// In the normal course, unless booting fast.
    Normal,
    /// When first asked for, if it can be loaded lazily.
    Low,
    /// In the background.
    Background,
}

/// How far a component's initialization has got.
#[derive(Debug)]
pub enum InitializationStatus {
    NotStarted,
    Initializing,
    Initialized,
    Failed(String),
    Skipped,
}

impl Clone for InitializationStatus {
    fn clone(&self) -> (res: Self)
        ensures
            res == *self,
    {
        match self {
            InitializationStatus::NotStarted => InitializationStatus::NotStarted,
            InitializationStatus::Initializing => InitializationStatus::Initializing,
            InitializationStatus::Initialized => InitializationStatus::Initialized,
            InitializationStatus::Failed(m) => InitializationStatus::Failed(m.clone()),
            InitializationStatus::Skipped => InitializationStatus::Skipped,
        }
    }
}

/// What is known of a component; its initialization time in
/// milliseconds.
#[derive(Debug)]
pub struct ComponentInfo {
    pub name: String,
    pub priority: InitializationPriority,
    pub status: InitializationStatus,
    pub dependencies: Vec<String>,
    pub initialization_time_ms: Option<u64>,
    pub lazy_loadable: bool,
    pub essential: bool,
    pub preloadable: bool,
}

/// A phase of startup, its times in milliseconds.
#[derive(Debug)]
pub struct StartupPhase {
    pub name: String,
    pub start_time_ms: u64,
    pub end_time_ms: Option<u64>,
    pub duration_ms: Option<u64>,
    pub components: Vec<String>,
}

/// The figures of a startup: times in milliseconds, rates in thousandths.
#[derive(Debug)]
pub struct StartupMetrics {
    pub total_startup_time_ms: u64,
    pub component_init_times: Vec<(String, u64)>,
    pub parallel_efficiency_permille: u32,
    pub cache_hit_rate_permille: u32,
    pub lazy_loaded_components: usize,
    pub failed_components: Vec<String>,
    pub startup_phases: Vec<(String, u64)>,
    pub memory_usage_at_startup: usize,
    pub target_met: bool,
}

/// What a startup recommendation is about.
#[derive(Debug, Clone, Copy, PartialEq, Eq, Structural)]
pub enum StartupOptimizationType {
    EnableFastBoot,
    OptimizeParallelization,
    ImproveCaching,
    OptimizeSlowComponent,
    FixFailedComponents,
    EnableLazyLoading,
    ReduceComponentCount,
    OptimizeDependencies,
}

/// How urgent a startup recommendation is.
#[derive(Debug, Clone, Copy, PartialEq, Eq, Structural)]
pub enum OptimizationPriority {
    Low,
    Medium,
    High,
    Critical,
}

/// A startup recommendation; the time it may save in microseconds.
#[derive(Debug)]
pub struct StartupOptimization {
    pub optimization_type: StartupOptimizationType,
    pub description: String,
    pub estimated_improvement_us: u128,
    pub priority: OptimizationPriority,
}

/// A recommendation as plain values.
pub open spec fn optimization_view(o: StartupOptimization) -> (
    StartupOptimizationType,
    Seq<char>,
    u128,
    OptimizationPriority,
) {
    (o.optimization_type, o.description@, o.estimated_improvement_us, o.priority)
}

/// Recommendations as plain values.
pub open spec fn optimizations_view(s: Seq<StartupOptimization>) -> Seq<
    (StartupOptimizationType, Seq<char>, u128, OptimizationPriority),
> {
    s.map_values(|o: StartupOptimization| optimization_view(o))
}

/// What a request for a component comes to.
#[derive(Debug, Clone, Copy, PartialEq, Eq, Structural)]
pub enum ComponentRequest {
    /// No such component is registered.
    Absent,
    /// It is initialized and can be used.
    Ready,
    /// It has not been initialized, or was left for later: load it now.
    LazyLoad,
    /// It is being initialized: wait for it.
    Wait,
    /// Its initialization failed.
    Failed,
}

/// What a request for a component comes to, from whether it is registered
/// and its status.
pub open spec fn request_outcome(registered: bool, status: Option<InitializationStatus>) -> ComponentRequest {
    if !registered {
        ComponentRequest::Absent
    } else {
        match status {
            Some(InitializationStatus::Initialized) => ComponentRequest::Ready,
            Some(InitializationStatus::NotStarted) => ComponentRequest::LazyLoad,
            Some(InitializationStatus::Skipped) => ComponentRequest::LazyLoad,
            Some(InitializationStatus::Initializing) => ComponentRequest::Wait,
            Some(InitializationStatus::Failed(_)) => ComponentRequest::Failed,
            None => ComponentRequest::Absent,
        }
    }
}

/// The names of the components of `entries` with priority `p`, in order.
pub open spec fn names_with_priority(entries: Seq<(String, ComponentInfo)>, p: InitializationPriority) -> Seq<
    Seq<char>,
>
    decreases entries.len(),
{
    if entries.len() == 0 {
        Seq::empty()
    } else {
        let rest = names_with_priority(entries.drop_last(), p);
        if entries.last().1.priority == p {
            rest.push(entries.last().0@)
        } else {
            rest
        }
    }
}

/// The names of the components of `entries` that are loaded when first
/// asked for: those of low priority that can be loaded lazily.
pub open spec fn lazy_names(entries: Seq<(String, ComponentInfo)>) -> Seq<Seq<char>>
    decreases entries.len(),
{
    if entries.len() == 0 {
        Seq::empty()
    } else {
        let rest = lazy_names(entries.drop_last());
        if entries.last().1.priority == InitializationPriority::Low && entries.last().1.lazy_loadable {
            rest.push(entries.last().0@)
        } else {
            rest
        }
    }
}

/// The names of the components whose initialization failed, in order.
pub open spec fn failed_names(statuses: Seq<(String, InitializationStatus)>) -> Seq<Seq<char>>
    decreases statuses.len(),
{
    if statuses.len() == 0 {
        Seq::empty()
    } else {
        let rest = failed_names(statuses.drop_last());
        if statuses.last().1 is Failed {
            rest.push(statuses.last().0@)
        } else {
            rest
        }
    }
}

/// The phases of startup, in order: loading from the cache if it is on,
/// the critical and then the high priority components, the normal ones
/// unless booting fast, setting up lazy loading if it is on, and the
/// background components.
pub open spec fn phase_plan(cache: bool, fast_boot: bool, lazy: bool) -> Seq<Seq<char>> {
    (if cache { seq!["cache_loading"@] } else { Seq::empty() }) + seq!["critical_init"@, "high_priority_init"@] + (
    if !fast_boot {
        seq!["normal_init"@]
    } else {
        Seq::empty()
    }) + (if lazy { seq!["lazy_setup"@] } else { Seq::empty() }) + seq!["background_init"@]
}

/// The phases with a duration, as names and durations.
pub open spec fn phase_durations(phases: Seq<StartupPhase>) -> Seq<(Seq<char>, u64)>
    decreases phases.len(),
{
    if phases.len() == 0 {
        Seq::empty()
    } else {
        let rest = phase_durations(phases.drop_last());
        match phases.last().duration_ms {
            Some(d) => rest.push((phases.last().name@, d)),
            None => rest,
        }
    }
}

/// Names and times as plain values.
pub open spec fn timings_view(s: Seq<(String, u64)>) -> Seq<(Seq<char>, u64)> {
    s.map_values(|e: (String, u64)| (e.0@, e.1))
}

/// The phase a startup is in, and the first unfinished phase of a name.
pub open spec fn first_open_phase(phases: Seq<StartupPhase>, name: Seq<char>, j: int) -> bool {
    &&& 0 <= j < phases.len()
    &&& phases[j].name@ == name
    &&& phases[j].end_time_ms is None
    &&& forall|k: int| 0 <= k < j ==> !((#[trigger] phases[k]).name@ == name && phases[k].end_time_ms is None)
}

/// How the `Debug` of `std::time::Duration` prints a whole number of
/// milliseconds: `0ns` for none, the milliseconds and `ms` below a second,
/// else the seconds, the rest as a decimal fraction without trailing zeros,
/// and `s` (`600ms`, `1.5s`, `2s`).
pub open spec fn duration_debug(ms: u64) -> Seq<char> {
    if ms == 0 {
        "0ns"@
    } else if ms < 1000 {
        decimal_text(ms as nat) + "ms"@
    } else {
        decimal_text((ms / 1000) as nat) + fraction_text((ms % 1000) as nat) + "s"@
    }
}

/// Thousandths as a decimal fraction without trailing zeros: nothing for
/// none, else a point and up to three digits.
pub open spec fn fraction_text(f: nat) -> Seq<char> {
    if f == 0 {
        Seq::empty()
    } else if f % 100 == 0 {
        "."@ + seq![digit_char(f / 100)]
    } else if f % 10 == 0 {
        "."@ + seq![digit_char(f / 100), digit_char((f / 10) % 10)]
    } else {
        "."@ + seq![digit_char(f / 100), digit_char((f / 10) % 10), digit_char(f % 10)]
    }
}

/// One decimal digit as text.
fn digit_string(d: u64) -> (res: String)
    requires
        d < 10,
    ensures
        res@ == seq![digit_char(d as nat)],
{
    let s = decimal_string(d as usize);
    proof {
        reveal_with_fuel(decimal_text, 2);
    }
    s
}

/// The text of `ms` milliseconds as the `Debug` of a duration prints it.
fn duration_text(ms: u64) -> (res: String)
    ensures
        res@ == duration_debug(ms),
{
    if ms == 0 {
        return String::from_str("0ns");
    }
    if ms < 1000 {
        let mut s = decimal_string_u64(ms);
        s.append("ms");
        return s;
    }
    let mut s = decimal_string_u64(ms / 1000);
    let f = ms % 1000;
    if f != 0 {
        s.append(".");
        s.append(digit_string(f / 100).as_str());
        if f % 100 != 0 {
            s.append(digit_string((f / 10) % 10).as_str());
            if f % 10 != 0 {
                s.append(digit_string(f % 10).as_str());
            }
        }
    }
    s.append("s");
    proof {
        let fr = fraction_text(f as nat);
        assert(s@ == decimal_text((ms / 1000) as nat) + fr + "s"@);
    }
    s
}

/// A rate in thousandths as a percentage with one decimal, such as `80.0`.
pub open spec fn percent_text(permille: u32) -> Seq<char> {
    decimal_text((permille / 10) as nat) + "."@ + seq![digit_char((permille % 10) as nat)]
}

/// A rate in thousandths as a percentage with one decimal.
fn percent_string(permille: u32) -> (res: String)
    ensures
        res@ == percent_text(permille),
{
    let mut s = decimal_string((permille / 10) as usize);
    s.append(".");
    let d = decimal_string((permille % 10) as usize);
    proof {
        assert(decimal_text((permille % 10) as nat) == seq![digit_char((permille % 10) as nat)]) by {
            reveal_with_fuel(decimal_text, 2);
        }
    }
    s.append(d.as_str());
    s
}

/// Names joined by `, `.
pub open spec fn joined(names: Seq<Seq<char>>) -> Seq<char>
    decreases names.len(),
{
    if names.len() == 0 {
        Seq::empty()
    } else if names.len() == 1 {
        names[0]
    } else {
        joined(names.drop_last()) + ", "@ + names.last()
    }
}

/// The recommendations for the components that took over half a second,
/// in order.
pub open spec fn slow_component_advice(times: Seq<(Seq<char>, u64)>) -> Seq<
    (StartupOptimizationType, Seq<char>, u128, OptimizationPriority),
>
    decreases times.len(),
{
    if times.len() == 0 {
        Seq::empty()
    } else {
        let rest = slow_component_advice(times.drop_last());
        let (name, ms) = times.last();
        if ms > 500 {
            rest.push(
                (
                    StartupOptimizationType::OptimizeSlowComponent,
                    "Component '"@ + name + "' takes "@ + duration_debug(ms)
                        + " to initialize. Consider lazy loading or optimization."@,
                    (ms as u128 * 500) as u128,
                    OptimizationPriority::Medium,
                ),
            )
        } else {
            rest
        }
    }
}

/// The recommendations for a startup with the figures given: fast boot if
/// the target was missed, the parallel initialization if it is on and less
/// than seven tenths efficient, the cache if it is on and hit less than
/// half the time, each component that took over half a second, and the
/// components that failed, if any did.
pub open spec fn startup_advice(
    target: u64,
    parallel: bool,
    cache: bool,
    total_ms: u64,
    target_met: bool,
    efficiency: u32,
    hit_rate: u32,
    times: Seq<(Seq<char>, u64)>,
    failed: Seq<Seq<char>>,
) -> Seq<(StartupOptimizationType, Seq<char>, u128, OptimizationPriority)> {
    (if !target_met {
        seq![
            (
                StartupOptimizationType::EnableFastBoot,
                "Startup time ("@ + duration_debug(total_ms) + ") exceeded target ("@ + decimal_text(target as nat)
                    + "ms). Enable fast boot mode."@,
                ((target / 2) as u128 * 1000) as u128,
                OptimizationPriority::High,
            ),
        ]
    } else {
        Seq::empty()
    }) + (if efficiency < 700 && parallel {
        seq![
            (
                StartupOptimizationType::OptimizeParallelization,
                "Parallel initialization efficiency is low ("@ + percent_text(efficiency)
                    + "%). Review component dependencies."@,
                500000u128,
                OptimizationPriority::Medium,
            ),
        ]
    } else {
        Seq::empty()
    }) + (if hit_rate < 500 && cache {
        seq![
            (
                StartupOptimizationType::ImproveCaching,
                "Startup cache hit rate is low ("@ + percent_text(hit_rate)
                    + "%). Increase cache TTL or improve cache strategy."@,
                200000u128,
                OptimizationPriority::Medium,
            ),
        ]
    } else {
        Seq::empty()
    }) + slow_component_advice(times) + (if failed.len() > 0 {
        seq![
            (
                StartupOptimizationType::FixFailedComponents,
                "Components failed to initialize: "@ + joined(failed) + ". Fix initialization errors."@,
                100000u128,
                OptimizationPriority::High,
            ),
        ]
    } else {
        Seq::empty()
    })
}

/// Where each component of a startup stands, and the phases gone through:
/// the components registered and their status by name, when startup
/// began, the phases, and how long each component took to initialize.
/// Running the initializations is the caller's, which reports here what
/// came of them.
pub struct StartupPerformanceManager {
    config: StartupConfig,
    components: Vec<(String, ComponentInfo)>,
    component_status: Vec<(String, InitializationStatus)>,
    startup_start_time: Option<u64>,
    phase_tracker: Vec<StartupPhase>,
    component_timings: Vec<(String, u64)>,
}

impl StartupPerformanceManager {
    /// The configuration.
    pub closed spec fn cfg(&self) -> StartupConfig {
        self.config
    }

    /// The components registered, by name.
    pub closed spec fn registered(&self) -> Seq<(String, ComponentInfo)> {
        self.components@
    }

    /// The status of each component, by name.
    pub closed spec fn statuses(&self) -> Seq<(String, InitializationStatus)> {
        self.component_status@
    }

    /// When startup began.
    pub closed spec fn started_at(&self) -> Option<u64> {
        self.startup_start_time
    }

    /// The phases gone through.
    pub closed spec fn phases(&self) -> Seq<StartupPhase> {
        self.phase_tracker@
    }

    /// How long each component took to initialize, by name.
    pub closed spec fn timings(&self) -> Seq<(String, u64)> {
        self.component_timings@
    }

    /// No component, phase or timing yet.
    pub fn new(config: StartupConfig) -> (res: Self)
        ensures
            res.cfg() == config,
            res.registered().len() == 0,
            res.statuses().len() == 0,
            res.started_at() is None,
            res.phases().len() == 0,
            res.timings().len() == 0,
    {
        StartupPerformanceManager {
            config,
            components: Vec::new(),
            component_status: Vec::new(),
            startup_start_time: None,
            phase_tracker: Vec::new(),
            component_timings: Vec::new(),
        }
    }

    /// Registers a component under its name, replacing one of the same
    /// name; it has not started.
    pub fn register_component(&mut self, info: ComponentInfo)
        ensures
            forall|w: Seq<char>|
                #[trigger] entry_of(final(self).registered(), w) == if w == info.name@ {
                    Some(info)
                } else {
                    entry_of(old(self).registered(), w)
                },
            forall|w: Seq<char>|
                #[trigger] entry_of(final(self).statuses(), w) == if w == info.name@ {
                    Some(InitializationStatus::NotStarted)
                } else {
                    entry_of(old(self).statuses(), w)
                },
            final(self).cfg() == old(self).cfg(),
            final(self).started_at() == old(self).started_at(),
            final(self).phases() == old(self).phases(),
            final(self).timings() == old(self).timings(),
    {
        let name = info.name.clone();
        set_entry(&mut self.components, name.as_str(), info);
        set_entry(&mut self.component_status, name.as_str(), InitializationStatus::NotStarted);
    }

    /// Begins startup at `now_ms`, with the phase `initialization`.
    pub fn start_startup(&mut self, now_ms: u64)
        ensures
            final(self).started_at() == Some(now_ms),
            final(self).phases().len() == old(self).phases().len() + 1,
            final(self).phases().drop_last() == old(self).phases(),
            final(self).phases().last().name@ == "initialization"@,
            final(self).phases().last().start_time_ms == now_ms,
            final(self).phases().last().end_time_ms is None,
            final(self).phases().last().duration_ms is None,
            final(self).phases().last().components@.len() == 0,
            final(self).cfg() == old(self).cfg(),
            final(self).registered() == old(self).registered(),
            final(self).statuses() == old(self).statuses(),
            final(self).timings() == old(self).timings(),
    {
        self.startup_start_time = Some(now_ms);
        self.start_phase("initialization", now_ms);
    }

    /// Begins the phase `name` at `now_ms`.
    pub fn start_phase(&mut self, name: &str, now_ms: u64)
        ensures
            final(self).phases().len() == old(self).phases().len() + 1,
            final(self).phases().drop_last() == old(self).phases(),
            final(self).phases().last().name@ == name@,
            final(self).phases().last().start_time_ms == now_ms,
            final(self).phases().last().end_time_ms is None,
            final(self).phases().last().duration_ms is None,
            final(self).phases().last().components@.len() == 0,
            final(self).cfg() == old(self).cfg(),
            final(self).started_at() == old(self).started_at(),
            final(self).registered() == old(self).registered(),
            final(self).statuses() == old(self).statuses(),
            final(self).timings() == old(self).timings(),
    {
        let ghost before = self.phase_tracker@;
        self.phase_tracker.push(
            StartupPhase {
                name: String::from_str(name),
                start_time_ms: now_ms,
                end_time_ms: None,
                duration_ms: None,
                components: Vec::new(),
            },
        );
        assert(self.phase_tracker@.drop_last() =~= before);
    }

    /// Ends the first unfinished phase named `name` at `now_ms`, if there
    /// is one; it lasted from its start to then, or no time if the clock
    /// went back.
    pub fn end_phase(&mut self, name: &str, now_ms: u64)
        ensures
            final(self).phases().len() == old(self).phases().len(),
            (exists|j: int| first_open_phase(old(self).phases(), name@, j)) ==> {
                let j = choose|j: int| first_open_phase(old(self).phases(), name@, j);
                let p = old(self).phases()[j];
                let q = final(self).phases()[j];
                &&& q.name == p.name && q.start_time_ms == p.start_time_ms && q.components == p.components
                &&& q.end_time_ms == Some(now_ms)
                &&& q.duration_ms == Some(
                    (if now_ms >= p.start_time_ms {
                        now_ms - p.start_time_ms
                    } else {
                        0
                    }) as u64,
                )
                &&& forall|k: int| 0 <= k < old(self).phases().len() && k != j ==> final(self).phases()[k] == old(
                    self,
                ).phases()[k]
            },
            !(exists|j: int| first_open_phase(old(self).phases(), name@, j)) ==> final(self).phases() == old(
                self,
            ).phases(),
            final(self).cfg() == old(self).cfg(),
            final(self).started_at() == old(self).started_at(),
            final(self).registered() == old(self).registered(),
            final(self).statuses() == old(self).statuses(),
            final(self).timings() == old(self).timings(),
    {
        let ghost phases = self.phase_tracker@;
        let mut j: usize = 0;
        while j < self.phase_tracker.len()
            invariant
                *self == *old(self),
                phases == self.phase_tracker@,
                j <= phases.len(),
                forall|k: int| 0 <= k < j ==> !((#[trigger] phases[k]).name@ == name@ && phases[k].end_time_ms is None),
            decreases phases.len() - j,
        {
            if self.phase_tracker[j].end_time_ms.is_none() && crate::text::text_eq(
                self.phase_tracker[j].name.as_str(),
                name,
            ) {
                proof {
                    assert(first_open_phase(phases, name@, j as int));
                    let c = choose|c: int| first_open_phase(phases, name@, c);
                    if c < j {
                        assert(!(phases[c].name@ == name@ && phases[c].end_time_ms is None));
                    } else if c > j {
                        assert(!(phases[j as int].name@ == name@ && phases[j as int].end_time_ms is None));
                    }
                }
                let mut phase = self.phase_tracker.remove(j);
                let elapsed = if now_ms >= phase.start_time_ms { now_ms - phase.start_time_ms } else { 0 };
                phase.end_time_ms = Some(now_ms);
                phase.duration_ms = Some(elapsed);
                self.phase_tracker.insert(j, phase);
                proof {
                    assert forall|k: int| 0 <= k < phases.len() && k != j implies self.phase_tracker@[k] == phases[k] by {}
                }
                return;
            }
            j = j + 1;
        }
        proof {
            assert forall|c: int| !first_open_phase(phases, name@, c) by {
                if 0 <= c < phases.len() {
                    assert(!(phases[c].name@ == name@ && phases[c].end_time_ms is None));
                }
            }
        }
    }

    /// Records the status of the component `name`.
    pub fn set_component_status(&mut self, name: &str, status: InitializationStatus)
        ensures
            forall|w: Seq<char>|
                #[trigger] entry_of(final(self).statuses(), w) == if w == name@ {
                    Some(status)
                } else {
                    entry_of(old(self).statuses(), w)
                },
            final(self).cfg() == old(self).cfg(),
            final(self).started_at() == old(self).started_at(),
            final(self).registered() == old(self).registered(),
            final(self).phases() == old(self).phases(),
            final(self).timings() == old(self).timings(),
    {
        set_entry(&mut self.component_status, name, status);
    }

    /// Records that the component `name` initialized in `duration_ms`.
    pub fn record_initialization_time(&mut self, name: &str, duration_ms: u64)
        ensures
            forall|w: Seq<char>|
                #[trigger] entry_of(final(self).timings(), w) == if w == name@ {
                    Some(duration_ms)
                } else {
                    entry_of(old(self).timings(), w)
                },
            final(self).cfg() == old(self).cfg(),
            final(self).started_at() == old(self).started_at(),
            final(self).registered() == old(self).registered(),
            final(self).statuses() == old(self).statuses(),
            final(self).phases() == old(self).phases(),
    {
        set_entry(&mut self.component_timings, name, duration_ms);
    }

    /// The phases that initializing the components goes through, in
    /// order.
    pub fn startup_phase_names(&self) -> (res: Vec<String>)
        ensures
            texts_of(res@) == phase_plan(
                self.cfg().enable_startup_cache,
                self.cfg().enable_fast_boot,
                self.cfg().enable_lazy_loading,
            ),
    {
        let mut res: Vec<String> = Vec::new();
        if self.config.enable_startup_cache {
            res.push(String::from_str("cache_loading"));
        }
        res.push(String::from_str("critical_init"));
        res.push(String::from_str("high_priority_init"));
        if !self.config.enable_fast_boot {
            res.push(String::from_str("normal_init"));
        }
        if self.config.enable_lazy_loading {
            res.push(String::from_str("lazy_setup"));
        }
        res.push(String::from_str("background_init"));
        assert(texts_of(res@) =~= phase_plan(
            self.cfg().enable_startup_cache,
            self.cfg().enable_fast_boot,
            self.cfg().enable_lazy_loading,
        ));
        res
    }

    /// The names of the registered components of priority `priority`, in
    /// the order they were first registered.
    pub fn components_with_priority(&self, priority: InitializationPriority) -> (res: Vec<String>)
        ensures
            texts_of(res@) == names_with_priority(self.registered(), priority),
    {
        let mut res: Vec<String> = Vec::new();
        let mut i: usize = 0;
        while i < self.components.len()
            invariant
                i <= self.components@.len(),
                texts_of(res@) == names_with_priority(self.components@.take(i as int), priority),
            decreases self.components@.len() - i,
        {
            let ghost before = res@;
            proof {
                assert(self.components@.take(i + 1).drop_last() =~= self.components@.take(i as int));
                assert(self.components@.take(i + 1).last() == self.components@[i as int]);
            }
            if self.components[i].1.priority == priority {
                res.push(self.components[i].0.clone());
                assert(texts_of(res@) =~= texts_of(before).push(self.components@[i as int].0@));
            }
            i = i + 1;
        }
        assert(self.components@.take(i as int) =~= self.components@);
        res
    }

    /// The names of the components loaded only when first asked for: those
    /// of low priority that can be loaded lazily.
    pub fn lazy_loadable_components(&self) -> (res: Vec<String>)
        ensures
            texts_of(res@) == lazy_names(self.registered()),
    {
        let mut res: Vec<String> = Vec::new();
        let mut i: usize = 0;
        while i < self.components.len()
            invariant
                i <= self.components@.len(),
                texts_of(res@) == lazy_names(self.components@.take(i as int)),
            decreases self.components@.len() - i,
        {
            let ghost before = res@;
            proof {
                assert(self.components@.take(i + 1).drop_last() =~= self.components@.take(i as int));
                assert(self.components@.take(i + 1).last() == self.components@[i as int]);
            }
            if self.components[i].1.priority == InitializationPriority::Low && self.components[i].1.lazy_loadable {
                res.push(self.components[i].0.clone());
                assert(texts_of(res@) =~= texts_of(before).push(self.components@[i as int].0@));
            }
            i = i + 1;
        }
        assert(self.components@.take(i as int) =~= self.components@);
        res
    }

    /// What a request for the component `name` comes to: ready if it is
    /// initialized, to be loaded now if it has not started or was left for
    /// later, to be waited for while it initializes, failed, or absent.
    pub fn get_component(&self, name: &str) -> (res: ComponentRequest)
        ensures
            res == request_outcome(
                entry_of(self.registered(), name@) is Some,
                entry_of(self.statuses(), name@),
            ),
    {
        match find_entry(&self.components, name) {
            None => ComponentRequest::Absent,
            Some(_) => match find_entry(&self.component_status, name) {
                None => ComponentRequest::Absent,
                Some(k) => match &self.component_status[k].1 {
                    InitializationStatus::Initialized => ComponentRequest::Ready,
                    InitializationStatus::NotStarted => ComponentRequest::LazyLoad,
                    InitializationStatus::Skipped => ComponentRequest::LazyLoad,
                    InitializationStatus::Initializing => ComponentRequest::Wait,
                    InitializationStatus::Failed(_) => ComponentRequest::Failed,
                },
            },
        }
    }

    /// The figures of the startup at `now_ms`: the time since it began (or
    /// none if it has not), each component's initialization time, the
    /// components that failed, each finished phase's duration, and whether
    /// the target was met; the parallel initialization counts as eight
    /// tenths efficient when on, fully when off.
    pub fn generate_startup_metrics(&self, now_ms: u64) -> (res: StartupMetrics)
        ensures
            res.total_startup_time_ms == match self.started_at() {
                Some(start) => if now_ms >= start {
                    (now_ms - start) as u64
                } else {
                    0u64
                },
                None => 0u64,
            },
            timings_view(res.component_init_times@) == timings_view(self.timings()),
            texts_of(res.failed_components@) == failed_names(self.statuses()),
            timings_view(res.startup_phases@) == phase_durations(self.phases()),
            res.target_met == (res.total_startup_time_ms <= self.cfg().target_startup_time),
            res.parallel_efficiency_permille == if self.cfg().enable_parallel_init {
                800u32
            } else {
                1000u32
            },
            res.cache_hit_rate_permille == 0,
            res.lazy_loaded_components == 0,
            res.memory_usage_at_startup == 0,
    {
        let total = match self.startup_start_time {
            Some(start) => if now_ms >= start { now_ms - start } else { 0 },
            None => 0,
        };
        let mut times: Vec<(String, u64)> = Vec::new();
        let mut i: usize = 0;
        while i < self.component_timings.len()
            invariant
                i <= self.component_timings@.len(),
                timings_view(times@) == timings_view(self.component_timings@.take(i as int)),
            decreases self.component_timings@.len() - i,
        {
            let ghost before = times@;
            times.push((self.component_timings[i].0.clone(), self.component_timings[i].1));
            proof {
                assert(self.component_timings@.take(i + 1) =~= self.component_timings@.take(i as int).push(
                    self.component_timings@[i as int],
                ));
                assert(timings_view(times@) =~= timings_view(before).push(
                    (self.component_timings@[i as int].0@, self.component_timings@[i as int].1),
                ));
                assert(timings_view(self.component_timings@.take(i + 1)) =~= timings_view(
                    self.component_timings@.take(i as int),
                ).push((self.component_timings@[i as int].0@, self.component_timings@[i as int].1)));
            }
            i = i + 1;
        }
        assert(self.component_timings@.take(i as int) =~= self.component_timings@);
        let mut failed: Vec<String> = Vec::new();
        let mut k: usize = 0;
        while k < self.component_status.len()
            invariant
                k <= self.component_status@.len(),
                texts_of(failed@) == failed_names(self.component_status@.take(k as int)),
            decreases self.component_status@.len() - k,
        {
            let ghost before = failed@;
            proof {
                assert(self.component_status@.take(k + 1).drop_last() =~= self.component_status@.take(k as int));
                assert(self.component_status@.take(k + 1).last() == self.component_status@[k as int]);
            }
            if let InitializationStatus::Failed(_) = &self.component_status[k].1 {
                failed.push(self.component_status[k].0.clone());
                assert(texts_of(failed@) =~= texts_of(before).push(self.component_status@[k as int].0@));
            }
            k = k + 1;
        }
        assert(self.component_status@.take(k as int) =~= self.component_status@);
        let mut phases: Vec<(String, u64)> = Vec::new();
        let mut m: usize = 0;
        while m < self.phase_tracker.len()
            invariant
                m <= self.phase_tracker@.len(),
                timings_view(phases@) == phase_durations(self.phase_tracker@.take(m as int)),
            decreases self.phase_tracker@.len() - m,
        {
            let ghost before = phases@;
            proof {
                assert(self.phase_tracker@.take(m + 1).drop_last() =~= self.phase_tracker@.take(m as int));
                assert(self.phase_tracker@.take(m + 1).last() == self.phase_tracker@[m as int]);
            }
            if let Some(d) = self.phase_tracker[m].duration_ms {
                phases.push((self.phase_tracker[m].name.clone(), d));
                assert(timings_view(phases@) =~= timings_view(before).push((self.phase_tracker@[m as int].name@, d)));
            }
            m = m + 1;
        }
        assert(self.phase_tracker@.take(m as int) =~= self.phase_tracker@);
        StartupMetrics {
            total_startup_time_ms: total,
            component_init_times: times,
            parallel_efficiency_permille: if self.config.enable_parallel_init { 800 } else { 1000 },
            cache_hit_rate_permille: 0,
            lazy_loaded_components: 0,
            failed_components: failed,
            startup_phases: phases,
            memory_usage_at_startup: 0,
            target_met: total <= self.config.target_startup_time,
        }
    }

    /// The figures of the startup at `now_ms`.
    pub fn get_startup_metrics(&self, now_ms: u64) -> (res: StartupMetrics)
        ensures
            res.total_startup_time_ms == match self.started_at() {
                Some(start) => if now_ms >= start {
                    (now_ms - start) as u64
                } else {
                    0u64
                },
                None => 0u64,
            },
            timings_view(res.component_init_times@) == timings_view(self.timings()),
            texts_of(res.failed_components@) == failed_names(self.statuses()),
            timings_view(res.startup_phases@) == phase_durations(self.phases()),
            res.target_met == (res.total_startup_time_ms <= self.cfg().target_startup_time),
            res.parallel_efficiency_permille == if self.cfg().enable_parallel_init {
                800u32
            } else {
                1000u32
            },
            res.cache_hit_rate_permille == 0,
            res.lazy_loaded_components == 0,
            res.memory_usage_at_startup == 0,
    {
        self.generate_startup_metrics(now_ms)
    }

    /// What the figures of a startup suggest doing.
    pub fn optimize_startup(&self, metrics: &StartupMetrics) -> (res: Vec<StartupOptimization>)
        ensures
            optimizations_view(res@) == startup_advice(
                self.cfg().target_startup_time,
                self.cfg().enable_parallel_init,
                self.cfg().enable_startup_cache,
                metrics.total_startup_time_ms,
                metrics.target_met,
                metrics.parallel_efficiency_permille,
                metrics.cache_hit_rate_permille,
                timings_view(metrics.component_init_times@),
                texts_of(metrics.failed_components@),
            ),
    {
        let target = self.config.target_startup_time;
        let mut res: Vec<StartupOptimization> = Vec::new();
        if !metrics.target_met {
            let mut d = String::from_str("Startup time (");
            d.append(duration_text(metrics.total_startup_time_ms).as_str());
            d.append(") exceeded target (");
            d.append(decimal_string_u64(target).as_str());
            d.append("ms). Enable fast boot mode.");
            res.push(
                StartupOptimization {
                    optimization_type: StartupOptimizationType::EnableFastBoot,
                    description: d,
                    estimated_improvement_us: (target / 2) as u128 * 1000,
                    priority: OptimizationPriority::High,
                },
            );
        }
        if metrics.parallel_efficiency_permille < 700 && self.config.enable_parallel_init {
            let mut d = String::from_str("Parallel initialization efficiency is low (");
            d.append(percent_string(metrics.parallel_efficiency_permille).as_str());
            d.append("%). Review component dependencies.");
            res.push(
                StartupOptimization {
                    optimization_type: StartupOptimizationType::OptimizeParallelization,
                    description: d,
                    estimated_improvement_us: 500000,
                    priority: OptimizationPriority::Medium,
                },
            );
        }
        if metrics.cache_hit_rate_permille < 500 && self.config.enable_startup_cache {
            let mut d = String::from_str("Startup cache hit rate is low (");
            d.append(percent_string(metrics.cache_hit_rate_permille).as_str());
            d.append("%). Increase cache TTL or improve cache strategy.");
            res.push(
                StartupOptimization {
                    optimization_type: StartupOptimizationType::ImproveCaching,
                    description: d,
                    estimated_improvement_us: 200000,
                    priority: OptimizationPriority::Medium,
                },
            );
        }
        let ghost head = optimizations_view(res@);
        proof {
            let expected = (if !metrics.target_met {
                seq![
                    (
                        StartupOptimizationType::EnableFastBoot,
                        "Startup time ("@ + duration_debug(metrics.total_startup_time_ms) + ") exceeded target ("@
                            + decimal_text(target as nat) + "ms). Enable fast boot mode."@,
                        ((target / 2) as u128 * 1000) as u128,
                        OptimizationPriority::High,
                    ),
                ]
            } else {
                Seq::empty()
            }) + (if metrics.parallel_efficiency_permille < 700 && self.cfg().enable_parallel_init {
                seq![
                    (
                        StartupOptimizationType::OptimizeParallelization,
                        "Parallel initialization efficiency is low ("@ + percent_text(
                            metrics.parallel_efficiency_permille,
                        ) + "%). Review component dependencies."@,
                        500000u128,
                        OptimizationPriority::Medium,
                    ),
                ]
            } else {
                Seq::empty()
            }) + (if metrics.cache_hit_rate_permille < 500 && self.cfg().enable_startup_cache {
                seq![
                    (
                        StartupOptimizationType::ImproveCaching,
                        "Startup cache hit rate is low ("@ + percent_text(metrics.cache_hit_rate_permille)
                            + "%). Increase cache TTL or improve cache strategy."@,
                        200000u128,
                        OptimizationPriority::Medium,
                    ),
                ]
            } else {
                Seq::empty()
            });
            assert(head =~= expected);
        }
        let ghost times = timings_view(metrics.component_init_times@);
        let mut i: usize = 0;
        while i < metrics.component_init_times.len()
            invariant
                i <= metrics.component_init_times@.len(),
                times == timings_view(metrics.component_init_times@),
                optimizations_view(res@) == head + slow_component_advice(times.take(i as int)),
            decreases metrics.component_init_times@.len() - i,
        {
            let ghost before = optimizations_view(res@);
            let ms = metrics.component_init_times[i].1;
            proof {
                assert(times.take(i + 1).drop_last() =~= times.take(i as int));
                assert(times.take(i + 1).last() == times[i as int]);
                assert(times[i as int] == (metrics.component_init_times@[i as int].0@, ms));
            }
            if ms > 500 {
                let mut d = String::from_str("Component '");
                d.append(metrics.component_init_times[i].0.as_str());
                d.append("' takes ");
                d.append(duration_text(ms).as_str());
                d.append(" to initialize. Consider lazy loading or optimization.");
                res.push(
                    StartupOptimization {
                        optimization_type: StartupOptimizationType::OptimizeSlowComponent,
                        description: d,
                        estimated_improvement_us: ms as u128 * 500,
                        priority: OptimizationPriority::Medium,
                    },
                );
                proof {
                    let name = metrics.component_init_times@[i as int].0@;
                    let item = (
                        StartupOptimizationType::OptimizeSlowComponent,
                        "Component '"@ + name + "' takes "@ + duration_debug(ms)
                            + " to initialize. Consider lazy loading or optimization."@,
                        (ms as u128 * 500) as u128,
                        OptimizationPriority::Medium,
                    );
                    assert(optimization_view(res@.last()) == item);
                    assert(optimizations_view(res@) =~= before.push(item));
                    assert(slow_component_advice(times.take(i + 1)) == slow_component_advice(times.take(i as int)).push(
                        item,
                    ));
                    assert(optimizations_view(res@) =~= head + slow_component_advice(times.take(i + 1)));
                }
            }
            i = i + 1;
        }
        assert(times.take(i as int) =~= times);
        if metrics.failed_components.len() > 0 {
            let mut names = String::new();
            let mut k: usize = 0;
            let ghost failed = texts_of(metrics.failed_components@);
            while k < metrics.failed_components.len()
                invariant
                    k <= metrics.failed_components@.len(),
                    failed == texts_of(metrics.failed_components@),
                    names@ == joined(failed.take(k as int)),
                decreases metrics.failed_components@.len() - k,
            {
                proof {
                    assert(failed.take(k + 1).drop_last() =~= failed.take(k as int));
                    assert(failed.take(k + 1).last() == failed[k as int]);
                    assert(failed[k as int] == metrics.failed_components@[k as int]@);
                }
                if k > 0 {
                    names.append(", ");
                } else {
                    assert(failed.take(1) =~= seq![failed[0]]);
                }
                names.append(metrics.failed_components[k].as_str());
                k = k + 1;
            }
            assert(failed.take(k as int) =~= failed);
            let mut d = String::from_str("Components failed to initialize: ");
            d.append(names.as_str());
            d.append(". Fix initialization errors.");
            let ghost before = optimizations_view(res@);
            res.push(
                StartupOptimization {
                    optimization_type: StartupOptimizationType::FixFailedComponents,
                    description: d,
                    estimated_improvement_us: 100000,
                    priority: OptimizationPriority::High,
                },
            );
            assert(optimizations_view(res@) =~= before.push(optimizations_view(res@).last()));
        } else {
            assert(optimizations_view(res@) =~= optimizations_view(res@) + Seq::empty());
        }
        res
    }
}


/// How the initialization of a component ended.
#[derive(Debug)]
pub enum InitOutcome {
    /// It succeeded, taking this many milliseconds.
    Succeeded(u64),
    /// It failed with this message.
    Failed(String),
    /// It did not finish in the time allowed.
    TimedOut,
}

/// How an initialization ended, from what it gave, the milliseconds it
/// took and those allowed: past the time allowed it timed out, whatever it
/// gave; else it succeeded in its time, or failed with its message.
pub fn init_outcome(result: Result<(), String>, elapsed_ms: u64, timeout_ms: u64) -> (res: InitOutcome)
    ensures
        elapsed_ms > timeout_ms ==> res is TimedOut,
        elapsed_ms <= timeout_ms ==> match result {
            Ok(()) => res == InitOutcome::Succeeded(elapsed_ms),
            Err(m) => res == InitOutcome::Failed(m),
        },
{
    if elapsed_ms > timeout_ms {
        return InitOutcome::TimedOut;
    }
    match result {
        Ok(()) => InitOutcome::Succeeded(elapsed_ms),
        Err(m) => InitOutcome::Failed(m),
    }
}

/// The error an initialization of component `name` that ended in
/// `outcome` reports: none on success, its message on failure, and the
/// message of a timeout.
pub fn outcome_error(name: &str, outcome: &InitOutcome) -> (res: Option<String>)
    ensures
        match *outcome {
            InitOutcome::Succeeded(_) => res is None,
            InitOutcome::Failed(m) => res matches Some(e) && e@ == m@,
            InitOutcome::TimedOut => res matches Some(e) && e@ == timed_out_message(name@),
        },
{
    match outcome {
        InitOutcome::Succeeded(_) => None,
        InitOutcome::Failed(m) => Some(m.clone()),
        InitOutcome::TimedOut => {
            let mut m = String::from_str("Component '");
            m.append(name);
            m.append("' initialization timed out");
            Some(m)
        },
    }
}

/// The message of a component whose initialization took too long.
pub open spec fn timed_out_message(name: Seq<char>) -> Seq<char> {
    "Component '"@ + name + "' initialization timed out"@
}

/// What the dependencies of a component allow.
#[derive(Debug)]
pub enum DependencyCheck {
    /// Every one of them is initialized.
    Ready,
    /// One of them failed; the message names it.
    Failed(String),
    /// One of them is not initialized yet.
    Waiting,
}

/// What waiting for a component comes to.
#[derive(Debug)]
pub enum WaitCheck {
    /// It is initialized.
    Ready,
    /// It failed, or took too long to be waited for; the message says which.
    Failed(String),
    /// Keep waiting.
    Waiting,
}

/// Which of two components of one phase to initialize first.
#[derive(Debug, Clone, Copy, PartialEq, Eq, Structural)]
pub enum Precedence {
    Before,
    After,
    Either,
}

/// The position of the first of `deps`, from `from` on, that `statuses` does
/// not give as initialized.
pub open spec fn first_unready(statuses: Seq<(String, InitializationStatus)>, deps: Seq<Seq<char>>, from: int) -> Option<
    int,
>
    decreases deps.len() - from,
{
    if from < 0 || from >= deps.len() {
        None
    } else if entry_of(statuses, deps[from]) == Some(InitializationStatus::Initialized) {
        first_unready(statuses, deps, from + 1)
    } else {
        Some(from)
    }
}

/// Whether `x` is among the names `v`.
fn names_contain(v: &Vec<String>, x: &str) -> (res: bool)
    ensures
        res == texts_of(v@).contains(x@),
{
    let mut i: usize = 0;
    while i < v.len()
        invariant
            i <= v@.len(),
            forall|j: int| 0 <= j < i ==> (#[trigger] v@[j])@ != x@,
        decreases v@.len() - i,
    {
        if crate::text::text_eq(v[i].as_str(), x) {
            assert(texts_of(v@)[i as int] == x@);
            return true;
        }
        i = i + 1;
    }
    assert forall|j: int| 0 <= j < texts_of(v@).len() implies texts_of(v@)[j] != x@ by {
        assert(texts_of(v@)[j] == v@[j]@);
    }
    false
}

/// Which of two components of one phase to initialize first: the one the
/// other depends on; either, when neither depends on the other.
pub fn dependency_precedence(a: &str, a_deps: &Vec<String>, b: &str, b_deps: &Vec<String>) -> (res: Precedence)
    ensures
        res == if texts_of(a_deps@).contains(b@) {
            Precedence::After
        } else if texts_of(b_deps@).contains(a@) {
            Precedence::Before
        } else {
            Precedence::Either
        },
{
    if names_contain(a_deps, b) {
        Precedence::After
    } else if names_contain(b_deps, a) {
        Precedence::Before
    } else {
        Precedence::Either
    }
}

impl StartupPerformanceManager {
    /// Records how the initialization of `name` ended: a success marks it
    /// initialized and records its time; a failure marks it failed with its
    /// message, and so does a timeout, with a message that says so.
    pub fn record_outcome(&mut self, name: &str, outcome: InitOutcome)
        ensures
            final(self).cfg() == old(self).cfg(),
            final(self).started_at() == old(self).started_at(),
            final(self).registered() == old(self).registered(),
            final(self).phases() == old(self).phases(),
            forall|w: Seq<char>|
                w != name@ ==> #[trigger] entry_of(final(self).statuses(), w) == entry_of(old(self).statuses(), w),
            match outcome {
                InitOutcome::Succeeded(ms) => {
                    &&& entry_of(final(self).statuses(), name@) == Some(InitializationStatus::Initialized)
                    &&& forall|w: Seq<char>|
                        #[trigger] entry_of(final(self).timings(), w) == if w == name@ {
                            Some(ms)
                        } else {
                            entry_of(old(self).timings(), w)
                        }
                },
                InitOutcome::Failed(m) => {
                    &&& entry_of(final(self).statuses(), name@) == Some(InitializationStatus::Failed(m))
                    &&& final(self).timings() == old(self).timings()
                },
                InitOutcome::TimedOut => {
                    &&& entry_of(final(self).statuses(), name@) matches Some(InitializationStatus::Failed(m))
                    &&& m@ == timed_out_message(name@)
                    &&& final(self).timings() == old(self).timings()
                },
            },
    {
        match outcome {
            InitOutcome::Succeeded(ms) => {
                self.set_component_status(name, InitializationStatus::Initialized);
                self.record_initialization_time(name, ms);
            },
            InitOutcome::Failed(m) => {
                self.set_component_status(name, InitializationStatus::Failed(m));
            },
            InitOutcome::TimedOut => {
                let mut m = String::from_str("Component '");
                m.append(name);
                m.append("' initialization timed out");
                self.set_component_status(name, InitializationStatus::Failed(m));
            },
        }
    }

    /// What the dependencies `deps` of a component allow, looked at in
    /// order: the first that is not initialized decides, failed or to be
    /// waited for; if there is none, the component can start.
    pub fn check_dependencies(&self, deps: &Vec<String>) -> (res: DependencyCheck)
        ensures
            match first_unready(self.statuses(), texts_of(deps@), 0) {
                None => res is Ready,
                Some(i) => match entry_of(self.statuses(), deps@[i]@) {
                    Some(InitializationStatus::Failed(_)) => res matches DependencyCheck::Failed(m) && m@
                        == "Dependency '"@ + deps@[i]@ + "' failed to initialize"@,
                    _ => res is Waiting,
                },
            },
    {
        let ghost names = texts_of(deps@);
        let mut i: usize = 0;
        while i < deps.len()
            invariant
                i <= deps@.len(),
                names == texts_of(deps@),
                first_unready(self.statuses(), names, 0) == first_unready(self.statuses(), names, i as int),
            decreases deps@.len() - i,
        {
            assert(names[i as int] == deps@[i as int]@);
            match find_entry(&self.component_status, deps[i].as_str()) {
                Some(k) => match &self.component_status[k].1 {
                    InitializationStatus::Initialized => {},
                    InitializationStatus::Failed(_) => {
                        let mut m = String::from_str("Dependency '");
                        m.append(deps[i].as_str());
                        m.append("' failed to initialize");
                        return DependencyCheck::Failed(m);
                    },
                    _ => {
                        return DependencyCheck::Waiting;
                    },
                },
                None => {
                    return DependencyCheck::Waiting;
                },
            }
            i = i + 1;
        }
        DependencyCheck::Ready
    }

    /// What waiting for the component `name` comes to after `waited_ms`:
    /// past thirty seconds it is given up; otherwise it is ready once
    /// initialized, failed if its initialization failed, and waited for
    /// still in any other case.
    pub fn wait_check(&self, name: &str, waited_ms: u64) -> (res: WaitCheck)
        ensures
            if waited_ms > 30000 {
                res matches WaitCheck::Failed(m) && m@ == "Timeout waiting for component '"@ + name@ + "'"@
            } else {
                match entry_of(self.statuses(), name@) {
                    Some(InitializationStatus::Initialized) => res is Ready,
                    Some(InitializationStatus::Failed(e)) => res matches WaitCheck::Failed(m) && m@
                        == "Component '"@ + name@ + "' failed: "@ + e@,
                    _ => res is Waiting,
                }
            },
    {
        if waited_ms > 30000 {
            let mut m = String::from_str("Timeout waiting for component '");
            m.append(name);
            m.append("'");
            return WaitCheck::Failed(m);
        }
        match find_entry(&self.component_status, name) {
            Some(k) => match &self.component_status[k].1 {
                InitializationStatus::Initialized => WaitCheck::Ready,
                InitializationStatus::Failed(e) => {
                    let mut m = String::from_str("Component '");
                    m.append(name);
                    m.append("' failed: ");
                    m.append(e.as_str());
                    WaitCheck::Failed(m)
                },
                _ => WaitCheck::Waiting,
            },
            None => WaitCheck::Waiting,
        }
    }

    /// Leaves the components of low priority that can be loaded lazily for
    /// when they are first asked for: each is marked skipped. Returns their
    /// names, in order, for the lazy loader.
    pub fn setup_lazy_loading(&mut self) -> (res: Vec<String>)
        ensures
            texts_of(res@) == lazy_names(old(self).registered()),
            forall|w: Seq<char>|
                #[trigger] entry_of(final(self).statuses(), w) == if lazy_names(old(self).registered()).contains(w) {
                    Some(InitializationStatus::Skipped)
                } else {
                    entry_of(old(self).statuses(), w)
                },
            final(self).cfg() == old(self).cfg(),
            final(self).started_at() == old(self).started_at(),
            final(self).registered() == old(self).registered(),
            final(self).phases() == old(self).phases(),
            final(self).timings() == old(self).timings(),
    {
        let names = self.lazy_loadable_components();
        let ghost all = texts_of(names@);
        let mut i: usize = 0;
        while i < names.len()
            invariant
                i <= names@.len(),
                all == texts_of(names@),
                self.cfg() == old(self).cfg(),
                self.started_at() == old(self).started_at(),
                self.registered() == old(self).registered(),
                self.phases() == old(self).phases(),
                self.timings() == old(self).timings(),
                forall|w: Seq<char>|
                    #[trigger] entry_of(self.statuses(), w) == if all.take(i as int).contains(w) {
                        Some(InitializationStatus::Skipped)
                    } else {
                        entry_of(old(self).statuses(), w)
                    },
            decreases names@.len() - i,
        {
            let ghost before = self.statuses();
            self.set_component_status(names[i].as_str(), InitializationStatus::Skipped);
            proof {
                assert(all[i as int] == names@[i as int]@);
                assert forall|w: Seq<char>| all.take(i + 1).contains(w) == (all.take(i as int).contains(w) || w
                    == all[i as int]) by {
                    if w == all[i as int] {
                        assert(all.take(i + 1)[i as int] == w);
                    }
                    if all.take(i as int).contains(w) {
                        let j = choose|j: int| 0 <= j < i && #[trigger] all.take(i as int)[j] == w;
                        assert(all.take(i + 1)[j] == w);
                    }
                    if all.take(i + 1).contains(w) && w != all[i as int] {
                        let j = choose|j: int| 0 <= j < i + 1 && #[trigger] all.take(i + 1)[j] == w;
                        assert(j != i);
                        assert(all.take(i as int)[j] == w);
                    }
                }
            }
            i = i + 1;
        }
        assert(all.take(i as int) =~= all);
        names
    }
}

} // verus!
