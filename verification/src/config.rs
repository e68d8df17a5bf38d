//! The settings of the interface: their defaults, the presets, and the
//! checks a configuration must pass.

use vstd::prelude::*;
use crate::focus::{NavigationConfig, standard_navigation};
use crate::feedback::{keep_where, lemma_flags_match, remove_flagged};
use crate::text::{text_eq, texts};

verus! {

/// What the interface shows and how.
#[derive(Debug)]
pub struct InterfaceConfig {
    pub default_view: String,
    pub show_help_on_startup: bool,
    pub confirm_quit: bool,
    /// In seconds.
    pub auto_refresh_interval: Option<u64>,
    pub status_bar_format: String,
    pub header_format: String,
    pub enable_mouse: bool,
    pub enable_unicode: bool,
    /// Frames per second.
    pub frame_rate: u16,
}

/// Whether `i` holds the interface defaults, with the help on startup,
/// mouse and Unicode as given.
pub open spec fn interface_defaults(i: InterfaceConfig, show_help: bool, mouse: bool, unicode: bool) -> bool {
    &&& i.default_view@ == "WorkflowList"@
    &&& i.show_help_on_startup == show_help
    &&& i.confirm_quit
    &&& i.auto_refresh_interval == Some(30u64)
    &&& i.status_bar_format@ == "{view} | {shortcuts} | {status}"@
    &&& i.header_format@ == "工作流工具包 TUI v{version} - {view}"@
    &&& i.enable_mouse == mouse
    &&& i.enable_unicode == unicode
    &&& i.frame_rate == 60
}

impl InterfaceConfig {
    /// The workflow list first, no help on startup, confirmation on quit,
    /// refresh every 30 seconds, mouse and Unicode, 60 frames a second.
    pub fn default() -> (res: Self)
        ensures
            interface_defaults(res, false, true, true),
    {
        InterfaceConfig {
            default_view: String::from_str("WorkflowList"),
            show_help_on_startup: false,
            confirm_quit: true,
            auto_refresh_interval: Some(30),
            status_bar_format: String::from_str("{view} | {shortcuts} | {status}"),
            header_format: String::from_str("工作流工具包 TUI v{version} - {view}"),
            enable_mouse: true,
            enable_unicode: true,
            frame_rate: 60,
        }
    }
}

/// How themes are chosen.
#[derive(Debug)]
pub struct ThemeManagerConfig {
    pub default_theme: String,
    pub auto_detect_theme: bool,
    pub theme_switching_enabled: bool,
    pub follow_system_theme: bool,
}

/// Whether `t` holds the theme defaults with default theme `theme`.
pub open spec fn themes_defaults(t: ThemeManagerConfig, theme: Seq<char>) -> bool {
    &&& t.default_theme@ == theme
    &&& t.auto_detect_theme
    &&& t.theme_switching_enabled
    &&& !t.follow_system_theme
}

impl ThemeManagerConfig {
    /// The dark theme, detected automatically, switchable, not following
    /// the system.
    pub fn default() -> (res: Self)
        ensures
            themes_defaults(res, "Dark"@),
    {
        ThemeManagerConfig {
            default_theme: String::from_str("Dark"),
            auto_detect_theme: true,
            theme_switching_enabled: true,
            follow_system_theme: false,
        }
    }
}

/// The size of a widget along one dimension.
#[derive(Debug, Clone, Copy, PartialEq, Eq, Structural)]
pub enum SizeConstraint {
    Fixed(u16),
    Percentage(u8),
    /// A weight.
    Flexible(u16),
    Auto,
}

/// Where a widget stands.
#[derive(Debug)]
pub struct WidgetPosition {
    pub x: u16,
    pub y: u16,
    /// Such as `top-left` or `center`.
    pub anchor: String,
}

/// How large a widget is.
#[derive(Debug, Clone, Copy, PartialEq, Eq, Structural)]
pub struct WidgetSize {
    pub width: SizeConstraint,
    pub height: SizeConstraint,
    pub min_width: Option<u16>,
    pub min_height: Option<u16>,
    pub max_width: Option<u16>,
    pub max_height: Option<u16>,
}

/// A widget in a custom layout.
#[derive(Debug)]
pub struct WidgetLayout {
    pub widget_type: String,
    pub position: WidgetPosition,
    pub size: WidgetSize,
    pub visible: bool,
    pub priority: u8,
}

/// A named constraint of a custom layout.
#[derive(Debug)]
pub struct LayoutConstraint {
    pub constraint_type: String,
    pub value: u16,
}

/// A custom layout.
#[derive(Debug)]
pub struct LayoutDefinition {
    pub name: String,
    pub description: String,
    pub widgets: Vec<WidgetLayout>,
    pub constraints: Vec<LayoutConstraint>,
}

/// The widths, in columns, at which the layout changes.
#[derive(Debug, Clone, Copy, PartialEq, Eq, Structural)]
pub struct ResponsiveBreakpoints {
    pub small: u16,
    pub medium: u16,
    pub large: u16,
    pub enable_compact_mode: bool,
    pub compact_threshold: u16,
}

impl ResponsiveBreakpoints {
    /// 80, 120 and 160 columns, compact below 60.
    pub fn default() -> (res: Self)
        ensures
            res == (ResponsiveBreakpoints {
                small: 80,
                medium: 120,
                large: 160,
                enable_compact_mode: true,
                compact_threshold: 60,
            }),
    {
        ResponsiveBreakpoints { small: 80, medium: 120, large: 160, enable_compact_mode: true, compact_threshold: 60 }
    }
}

/// How the layout is chosen and drawn.
#[derive(Debug)]
pub struct LayoutConfig {
    pub default_layout: String,
    /// Custom layouts by name; a later entry replaces an earlier one.
    pub custom_layouts: Vec<(String, LayoutDefinition)>,
    pub responsive_breakpoints: ResponsiveBreakpoints,
    pub widget_spacing: u16,
    pub border_style: String,
    pub enable_animations: bool,
}

/// Whether `l` holds the layout defaults, with animations as given.
pub open spec fn layout_defaults(l: LayoutConfig, animations: bool) -> bool {
    &&& l.default_layout@ == "standard"@
    &&& l.custom_layouts@.len() == 0
    &&& l.responsive_breakpoints == (ResponsiveBreakpoints {
        small: 80,
        medium: 120,
        large: 160,
        enable_compact_mode: true,
        compact_threshold: 60,
    })
    &&& l.widget_spacing == 1
    &&& l.border_style@ == "rounded"@
    &&& l.enable_animations == animations
}

impl LayoutConfig {
    /// The standard layout, no custom layouts, the default breakpoints, one
    /// cell between widgets, rounded borders, animated.
    pub fn default() -> (res: Self)
        ensures
            layout_defaults(res, true),
    {
        LayoutConfig {
            default_layout: String::from_str("standard"),
            custom_layouts: Vec::new(),
            responsive_breakpoints: ResponsiveBreakpoints::default(),
            widget_spacing: 1,
            border_style: String::from_str("rounded"),
            enable_animations: true,
        }
    }
}

/// How fast and how much the interface draws.
#[derive(Debug, Clone, Copy, PartialEq, Eq, Structural)]
pub struct PerformanceConfig {
    pub target_fps: u16,
    pub enable_vsync: bool,
    pub buffer_size: usize,
    pub lazy_rendering: bool,
    pub cache_rendered_content: bool,
    pub max_cache_size: usize,
    /// In seconds.
    pub gc_interval: u64,
}

/// The performance defaults with `fps` frames a second.
pub open spec fn performance_defaults(fps: u16) -> PerformanceConfig {
    PerformanceConfig {
        target_fps: fps,
        enable_vsync: true,
        buffer_size: 8192,
        lazy_rendering: true,
        cache_rendered_content: true,
        max_cache_size: 1048576,
        gc_interval: 300,
    }
}

impl PerformanceConfig {
    /// 60 frames a second, vsync, a buffer of 8192 bytes, lazy and cached
    /// rendering with a cache of 1 MiB, collection every five minutes.
    pub fn default() -> (res: Self)
        ensures
            res == performance_defaults(60),
    {
        PerformanceConfig {
            target_fps: 60,
            enable_vsync: true,
            buffer_size: 8192,
            lazy_rendering: true,
            cache_rendered_content: true,
            max_cache_size: 1024 * 1024,
            gc_interval: 300,
        }
    }
}

/// Accessibility settings.
#[derive(Debug, Clone, Copy, PartialEq, Eq, Structural)]
pub struct AccessibilityConfig {
    pub high_contrast_mode: bool,
    pub large_text_mode: bool,
    pub screen_reader_support: bool,
    pub keyboard_only_navigation: bool,
    pub focus_indicators: bool,
    pub animation_reduction: bool,
    pub color_blind_support: bool,
}

impl AccessibilityConfig {
    /// Only the focus indicators.
    pub fn default() -> (res: Self)
        ensures
            res == (AccessibilityConfig {
                high_contrast_mode: false,
                large_text_mode: false,
                screen_reader_support: false,
                keyboard_only_navigation: false,
                focus_indicators: true,
                animation_reduction: false,
                color_blind_support: false,
            }),
    {
        AccessibilityConfig {
            high_contrast_mode: false,
            large_text_mode: false,
            screen_reader_support: false,
            keyboard_only_navigation: false,
            focus_indicators: true,
            animation_reduction: false,
            color_blind_support: false,
        }
    }
}

/// Key bindings by action name; a later entry for a name replaces an
/// earlier one.
#[derive(Debug)]
pub struct KeybindingsConfig {
    pub global_bindings: Vec<(String, String)>,
    pub view_specific_bindings: Vec<(String, Vec<(String, String)>)>,
    pub custom_bindings: Vec<(String, String)>,
    pub enable_vim_mode: bool,
    pub enable_emacs_mode: bool,
}

/// A list of named bindings as plain values.
pub open spec fn binding_texts(v: Seq<(String, String)>) -> Seq<(Seq<char>, Seq<char>)> {
    v.map_values(|b: (String, String)| (b.0@, b.1@))
}

/// The global bindings of the defaults.
pub open spec fn default_global_bindings() -> Seq<(Seq<char>, Seq<char>)> {
    seq![
        ("quit"@, "Ctrl+q"@),
        ("help"@, "?"@),
        ("refresh"@, "F12"@),
        ("navigate_workflow_list"@, "F1"@),
        ("navigate_execution_monitor"@, "F2"@),
        ("navigate_tool_manager"@, "F3"@),
        ("navigate_plugin_manager"@, "F4"@),
        ("navigate_system_status"@, "F5"@),
        ("navigate_log_viewer"@, "F6"@),
    ]
}

/// Whether `k` holds the default key bindings.
pub open spec fn keybindings_defaults(k: KeybindingsConfig) -> bool {
    &&& binding_texts(k.global_bindings@) == default_global_bindings()
    &&& k.view_specific_bindings@.len() == 0
    &&& k.custom_bindings@.len() == 0
    &&& !k.enable_vim_mode
    &&& !k.enable_emacs_mode
}

/// A binding of an action name to keys.
fn binding(action: &str, keys: &str) -> (res: (String, String))
    ensures
        res.0@ == action@,
        res.1@ == keys@,
{
    (String::from_str(action), String::from_str(keys))
}

impl KeybindingsConfig {
    /// Quit, help, refresh and the function keys of the views; no view or
    /// custom bindings; neither Vim nor Emacs mode.
    pub fn default() -> (res: Self)
        ensures
            keybindings_defaults(res),
    {
        let global_bindings = vec![
            binding("quit", "Ctrl+q"),
            binding("help", "?"),
            binding("refresh", "F12"),
            binding("navigate_workflow_list", "F1"),
            binding("navigate_execution_monitor", "F2"),
            binding("navigate_tool_manager", "F3"),
            binding("navigate_plugin_manager", "F4"),
            binding("navigate_system_status", "F5"),
            binding("navigate_log_viewer", "F6"),
        ];
        assert(binding_texts(global_bindings@) =~= default_global_bindings());
        KeybindingsConfig {
            global_bindings,
            view_specific_bindings: Vec::new(),
            custom_bindings: Vec::new(),
            enable_vim_mode: false,
            enable_emacs_mode: false,
        }
    }
}

/// How notifications are shown.
#[derive(Debug)]
pub struct NotificationSettings {
    pub enable_notifications: bool,
    /// In seconds.
    pub notification_duration: u64,
    pub notification_position: String,
    pub sound_enabled: bool,
    pub priority_filter: String,
}

/// Whether `n` holds the notification defaults.
pub open spec fn notification_defaults(n: NotificationSettings) -> bool {
    &&& n.enable_notifications
    &&& n.notification_duration == 5
    &&& n.notification_position@ == "top-right"@
    &&& !n.sound_enabled
    &&& n.priority_filter@ == "info"@
}

impl NotificationSettings {
    /// Shown for five seconds at the top right, silent, from `info` up.
    pub fn default() -> (res: Self)
        ensures
            notification_defaults(res),
    {
        NotificationSettings {
            enable_notifications: true,
            notification_duration: 5,
            notification_position: String::from_str("top-right"),
            sound_enabled: false,
            priority_filter: String::from_str("info"),
        }
    }
}

/// What the user chose and used.
#[derive(Debug)]
pub struct UserPreferences {
    pub last_used_view: Option<String>,
    pub window_size: Option<(u16, u16)>,
    pub recent_workflows: Vec<String>,
    pub favorite_tools: Vec<String>,
    pub hidden_widgets: Vec<String>,
    pub custom_shortcuts: Vec<(String, String)>,
    pub notification_settings: NotificationSettings,
}

/// Whether `u` holds the default preferences.
pub open spec fn preferences_defaults(u: UserPreferences) -> bool {
    &&& u.last_used_view is None
    &&& u.window_size is None
    &&& u.recent_workflows@.len() == 0
    &&& u.favorite_tools@.len() == 0
    &&& u.hidden_widgets@.len() == 0
    &&& u.custom_shortcuts@.len() == 0
    &&& notification_defaults(u.notification_settings)
}

impl UserPreferences {
    /// Nothing chosen or used yet, the default notifications.
    pub fn default() -> (res: Self)
        ensures
            preferences_defaults(res),
    {
        UserPreferences {
            last_used_view: None,
            window_size: None,
            recent_workflows: Vec::new(),
            favorite_tools: Vec::new(),
            hidden_widgets: Vec::new(),
            custom_shortcuts: Vec::new(),
            notification_settings: NotificationSettings::default(),
        }
    }
}

/// All the settings of the interface.
#[derive(Debug)]
pub struct TuiConfig {
    pub interface: InterfaceConfig,
    pub themes: ThemeManagerConfig,
    pub layout: LayoutConfig,
    pub navigation: NavigationConfig,
    pub performance: PerformanceConfig,
    pub accessibility: AccessibilityConfig,
    pub keybindings: KeybindingsConfig,
    pub user_preferences: UserPreferences,
}

/// Whether `c` holds the defaults of every section.
pub open spec fn config_defaults(c: TuiConfig) -> bool {
    &&& interface_defaults(c.interface, false, true, true)
    &&& themes_defaults(c.themes, "Dark"@)
    &&& layout_defaults(c.layout, true)
    &&& c.navigation.mode is Standard && standard_navigation(c.navigation) && c.navigation.custom_bindings@.len() == 0
    &&& c.performance == performance_defaults(60)
    &&& c.accessibility == AccessibilityConfig::default_value()
    &&& keybindings_defaults(c.keybindings)
    &&& preferences_defaults(c.user_preferences)
}

impl AccessibilityConfig {
    /// The accessibility defaults, as a value.
    pub open spec fn default_value() -> Self {
        AccessibilityConfig {
            high_contrast_mode: false,
            large_text_mode: false,
            screen_reader_support: false,
            keyboard_only_navigation: false,
            focus_indicators: true,
            animation_reduction: false,
            color_blind_support: false,
        }
    }
}

impl TuiConfig {
    /// The defaults of every section.
    pub fn default() -> (res: Self)
        ensures
            config_defaults(res),
    {
        TuiConfig {
            interface: InterfaceConfig::default(),
            themes: ThemeManagerConfig::default(),
            layout: LayoutConfig::default(),
            navigation: NavigationConfig::new(),
            performance: PerformanceConfig::default(),
            accessibility: AccessibilityConfig::default(),
            keybindings: KeybindingsConfig::default(),
            user_preferences: UserPreferences::default(),
        }
    }
}

/// What is wrong with a configuration, if anything, in the order the
/// checks are made: the frame rate must be from 1 to 120, the buffer at
/// least 1024 bytes, the breakpoints ascending, the notification duration
/// positive.
pub open spec fn config_problem(c: TuiConfig) -> Option<Seq<char>> {
    let b = c.layout.responsive_breakpoints;
    if c.performance.target_fps == 0 || c.performance.target_fps > 120 {
        Some("Frame rate must be between 1 and 120 FPS"@)
    } else if c.performance.buffer_size < 1024 {
        Some("Buffer size must be at least 1024 bytes"@)
    } else if b.small >= b.medium || b.medium >= b.large {
        Some("Responsive breakpoints must be in ascending order"@)
    } else if c.user_preferences.notification_settings.notification_duration == 0 {
        Some("Notification duration must be greater than 0"@)
    } else {
        None
    }
}

/// Checks a configuration; the error is the message of the first check it
/// fails.
pub fn validate_config(config: &TuiConfig) -> (res: Result<(), String>)
    ensures
        res is Ok <==> config_problem(*config) is None,
        res matches Err(m) ==> config_problem(*config) == Some(m@),
        res is Ok ==> config.layout.responsive_breakpoints.small < config.layout.responsive_breakpoints.medium
            && config.layout.responsive_breakpoints.medium < config.layout.responsive_breakpoints.large,
{
    if config.performance.target_fps == 0 || config.performance.target_fps > 120 {
        return Err(String::from_str("Frame rate must be between 1 and 120 FPS"));
    }
    if config.performance.buffer_size < 1024 {
        return Err(String::from_str("Buffer size must be at least 1024 bytes"));
    }
    let breakpoints = &config.layout.responsive_breakpoints;
    if breakpoints.small >= breakpoints.medium || breakpoints.medium >= breakpoints.large {
        return Err(String::from_str("Responsive breakpoints must be in ascending order"));
    }
    if config.user_preferences.notification_settings.notification_duration == 0 {
        return Err(String::from_str("Notification duration must be greater than 0"));
    }
    Ok(())
}

/// The configuration named `name` among `presets`: the last one added.
pub open spec fn preset_in(presets: Seq<(String, TuiConfig)>, name: Seq<char>) -> Option<TuiConfig>
    decreases presets.len(),
{
    if presets.len() == 0 {
        None
    } else if presets.last().0@ == name {
        Some(presets.last().1)
    } else {
        preset_in(presets.drop_last(), name)
    }
}

/// Named configurations to start from.
pub struct ConfigPresetManager {
    presets: Vec<(String, TuiConfig)>,
}

/// Whether `c` is the default configuration but for the performance
/// preset's changes: 30 frames a second, no mouse, no animations.
pub open spec fn performance_preset(c: TuiConfig) -> bool {
    &&& interface_defaults(c.interface, false, false, true)
    &&& themes_defaults(c.themes, "Dark"@)
    &&& layout_defaults(c.layout, false)
    &&& c.navigation.mode is Standard && standard_navigation(c.navigation) && c.navigation.custom_bindings@.len() == 0
    &&& c.performance == performance_defaults(30)
    &&& c.accessibility == AccessibilityConfig::default_value()
    &&& keybindings_defaults(c.keybindings)
    &&& preferences_defaults(c.user_preferences)
}

/// Whether `c` is the default configuration but for the accessibility
/// preset's changes: high contrast, large text, keyboard only, reduced
/// animation, and the high-contrast theme.
pub open spec fn accessibility_preset(c: TuiConfig) -> bool {
    &&& interface_defaults(c.interface, false, true, true)
    &&& themes_defaults(c.themes, "HighContrast"@)
    &&& layout_defaults(c.layout, true)
    &&& c.navigation.mode is Standard && standard_navigation(c.navigation) && c.navigation.custom_bindings@.len() == 0
    &&& c.performance == performance_defaults(60)
    &&& c.accessibility == (AccessibilityConfig {
        high_contrast_mode: true,
        large_text_mode: true,
        screen_reader_support: false,
        keyboard_only_navigation: true,
        focus_indicators: true,
        animation_reduction: true,
        color_blind_support: false,
    })
    &&& keybindings_defaults(c.keybindings)
    &&& preferences_defaults(c.user_preferences)
}

/// Whether `c` is the default configuration but for the minimal preset's
/// changes: no mouse, no Unicode, no animations, 15 frames a second.
pub open spec fn minimal_preset(c: TuiConfig) -> bool {
    &&& interface_defaults(c.interface, false, false, false)
    &&& themes_defaults(c.themes, "Dark"@)
    &&& layout_defaults(c.layout, false)
    &&& c.navigation.mode is Standard && standard_navigation(c.navigation) && c.navigation.custom_bindings@.len() == 0
    &&& c.performance == performance_defaults(15)
    &&& c.accessibility == AccessibilityConfig::default_value()
    &&& keybindings_defaults(c.keybindings)
    &&& preferences_defaults(c.user_preferences)
}

impl ConfigPresetManager {
    /// The presets, in the order they were added.
    pub closed spec fn entries(self) -> Seq<(String, TuiConfig)> {
        self.presets@
    }

    /// The preset named `name`, if any.
    pub open spec fn preset(self, name: Seq<char>) -> Option<TuiConfig> {
        preset_in(self.entries(), name)
    }

    /// The presets `default`, `performance`, `accessibility` and `minimal`.
    pub fn new() -> (res: Self)
        ensures
            res.entries().map_values(|e: (String, TuiConfig)| e.0@) == seq![
                "default"@,
                "performance"@,
                "accessibility"@,
                "minimal"@,
            ],
            config_defaults(res.entries()[0].1),
            performance_preset(res.entries()[1].1),
            accessibility_preset(res.entries()[2].1),
            minimal_preset(res.entries()[3].1),
    {
        let mut performance_config = TuiConfig::default();
        performance_config.performance.target_fps = 30;
        performance_config.performance.lazy_rendering = true;
        performance_config.performance.cache_rendered_content = true;
        performance_config.interface.enable_mouse = false;
        performance_config.layout.enable_animations = false;
        let mut accessibility_config = TuiConfig::default();
        accessibility_config.accessibility.high_contrast_mode = true;
        accessibility_config.accessibility.large_text_mode = true;
        accessibility_config.accessibility.keyboard_only_navigation = true;
        accessibility_config.accessibility.focus_indicators = true;
        accessibility_config.accessibility.animation_reduction = true;
        accessibility_config.themes.default_theme = String::from_str("HighContrast");
        let mut minimal_config = TuiConfig::default();
        minimal_config.interface.show_help_on_startup = false;
        minimal_config.interface.enable_mouse = false;
        minimal_config.interface.enable_unicode = false;
        minimal_config.layout.enable_animations = false;
        minimal_config.performance.target_fps = 15;
        let presets = vec![
            (String::from_str("default"), TuiConfig::default()),
            (String::from_str("performance"), performance_config),
            (String::from_str("accessibility"), accessibility_config),
            (String::from_str("minimal"), minimal_config),
        ];
        assert(presets@.map_values(|e: (String, TuiConfig)| e.0@) =~= seq![
            "default"@,
            "performance"@,
            "accessibility"@,
            "minimal"@,
        ]);
        ConfigPresetManager { presets }
    }

    /// The preset named `name`, if any.
    pub fn get_preset(&self, name: &str) -> (res: Option<&TuiConfig>)
        ensures
            res is None <==> self.preset(name@) is None,
            res matches Some(c) ==> self.preset(name@) == Some(*c),
    {
        let entries = &self.presets;
        let mut i: usize = entries.len();
        assert(entries@.take(i as int) =~= entries@);
        while i > 0
            invariant
                entries@ == self.entries(),
                i <= entries@.len(),
                preset_in(entries@, name@) == preset_in(entries@.take(i as int), name@),
            decreases i,
        {
            let k = i - 1;
            assert(entries@.take(i as int).drop_last() =~= entries@.take(k as int));
            if text_eq(entries[k].0.as_str(), name) {
                return Some(&entries[k].1);
            }
            i = k;
        }
        None
    }

    /// Adds a preset, replacing one of that name.
    pub fn add_preset(&mut self, name: String, config: TuiConfig)
        ensures
            forall|n: Seq<char>| #[trigger] final(self).preset(n) == if n == name@ {
                Some(config)
            } else {
                old(self).preset(n)
            },
    {
        let ghost before = self.presets@;
        self.presets.push((name, config));
        assert(self.presets@.drop_last() =~= before);
    }

    /// The last entry named `name`, if any.
    fn find_preset(&self, name: &str) -> (res: Option<usize>)
        ensures
            res matches Some(k) ==> k < self.entries().len() && self.entries()[k as int].0@ == name@
                && self.preset(name@) == Some(self.entries()[k as int].1),
            res is None ==> self.preset(name@) is None && forall|j: int|
                0 <= j < self.entries().len() ==> (#[trigger] self.entries()[j]).0@ != name@,
    {
        let entries = &self.presets;
        let mut i: usize = entries.len();
        assert(entries@.take(i as int) =~= entries@);
        while i > 0
            invariant
                entries@ == self.entries(),
                i <= entries@.len(),
                preset_in(entries@, name@) == preset_in(entries@.take(i as int), name@),
                forall|j: int| i <= j < entries@.len() ==> (#[trigger] entries@[j]).0@ != name@,
            decreases i,
        {
            let k = i - 1;
            assert(entries@.take(i as int).drop_last() =~= entries@.take(k as int));
            if text_eq(entries[k].0.as_str(), name) {
                return Some(k);
            }
            i = k;
        }
        proof {
            lemma_no_preset(entries@.take(0), name@);
        }
        None
    }

    /// Removes the preset named `name` and returns it; every entry of that
    /// name goes.
    pub fn remove_preset(&mut self, name: &str) -> (res: Option<TuiConfig>)
        ensures
            res == old(self).preset(name@),
            forall|n: Seq<char>| #[trigger] final(self).preset(n) == if n == name@ {
                None
            } else {
                old(self).preset(n)
            },
    {
        let ghost original = self.presets@;
        let ghost keep = |e: (String, TuiConfig)| e.0@ != name@;
        proof {
            lemma_preset_filter(original, name@);
        }
        match self.find_preset(name) {
            None => {
                proof {
                    lemma_keep_all(original, keep);
                    assert(presets_without(original, name@) == keep_where(original, keep));
                }
                None
            },
            Some(k) => {
                let (_n, config) = self.presets.remove(k);
                let ghost rest = self.presets@;
                let mut drop: Vec<bool> = Vec::new();
                let mut j: usize = 0;
                while j < self.presets.len()
                    invariant
                        self.presets@ == rest,
                        j <= rest.len(),
                        drop@.len() == j,
                        forall|m: int| 0 <= m < j ==> drop@[m] == !keep(rest[m]),
                        keep == (|e: (String, TuiConfig)| e.0@ != name@),
                    decreases rest.len() - j,
                {
                    drop.push(text_eq(self.presets[j].0.as_str(), name));
                    j = j + 1;
                }
                proof {
                    lemma_flags_match(rest, drop@, keep);
                    lemma_keep_without(original, k as int, keep);
                    assert(presets_without(original, name@) == keep_where(original, keep));
                }
                remove_flagged(&mut self.presets, &drop);
                Some(config)
            },
        }
    }
}

impl ConfigPresetManager {
    /// The names of the presets, each once, in the order of their last
    /// addition.
    pub fn list_presets(&self) -> (res: Vec<String>)
        ensures
            texts(res@).no_duplicates(),
            forall|n: Seq<char>| texts(res@).contains(n) <==> self.preset(n) is Some,
    {
        let entries = &self.presets;
        let mut res: Vec<String> = Vec::new();
        let mut j: usize = 0;
        while j < entries.len()
            invariant
                entries@ == self.entries(),
                j <= entries@.len(),
                texts(res@).no_duplicates(),
                forall|i: int| 0 <= i < res@.len() ==> #[trigger] last_named_before(entries@, texts(res@)[i], j as int),
                forall|m: int| 0 <= m < j && is_last_named(entries@, m) ==> texts(res@).contains(#[trigger] entries@[m].0@),
            decreases entries@.len() - j,
        {
            let mut last = true;
            let mut m: usize = j + 1;
            while m < entries.len()
                invariant
                    j < entries@.len(),
                    j < m <= entries@.len(),
                    last == forall|q: int| j < q < m ==> (#[trigger] entries@[q]).0@ != entries@[j as int].0@,
                decreases entries@.len() - m,
            {
                if text_eq(entries[m].0.as_str(), entries[j].0.as_str()) {
                    last = false;
                }
                m = m + 1;
            }
            if last {
                let ghost before = texts(res@);
                let name = entries[j].0.clone();
                proof {
                    assert forall|i: int| 0 <= i < before.len() implies before[i] != name@ by {
                        assert(last_named_before(entries@, before[i], j as int));
                    }
                }
                res.push(name);
                proof {
                    assert(texts(res@) =~= before.push(entries@[j as int].0@));
                    assert forall|i: int| 0 <= i < res@.len() implies #[trigger] last_named_before(
                        entries@,
                        texts(res@)[i],
                        j + 1,
                    ) by {
                        if i < before.len() {
                            assert(texts(res@)[i] == before[i]);
                            assert(last_named_before(entries@, before[i], j as int));
                        } else {
                            assert(is_last_named(entries@, j as int));
                        }
                    }
                    assert forall|m2: int| 0 <= m2 < j + 1 && is_last_named(entries@, m2) implies texts(res@).contains(
                        #[trigger] entries@[m2].0@,
                    ) by {
                        if m2 < j {
                            assert(before.contains(entries@[m2].0@));
                            let i = choose|i: int| 0 <= i < before.len() && before[i] == entries@[m2].0@;
                            assert(texts(res@)[i] == before[i]);
                        } else {
                            assert(texts(res@)[before.len() as int] == entries@[j as int].0@);
                        }
                    }
                }
            } else {
                proof {
                    assert forall|i: int| 0 <= i < res@.len() implies #[trigger] last_named_before(
                        entries@,
                        texts(res@)[i],
                        j + 1,
                    ) by {
                        assert(last_named_before(entries@, texts(res@)[i], j as int));
                    }
                }
            }
            j = j + 1;
        }
        proof {
            assert forall|n: Seq<char>| texts(res@).contains(n) <==> self.preset(n) is Some by {
                if texts(res@).contains(n) {
                    let i = choose|i: int| 0 <= i < texts(res@).len() && texts(res@)[i] == n;
                    assert(last_named_before(entries@, texts(res@)[i], j as int));
                    let m = choose|m: int| 0 <= m < j && is_last_named(entries@, m) && entries@[m].0@ == n;
                    lemma_preset_found(entries@, n, m);
                }
                if self.preset(n) is Some {
                    let m = lemma_preset_last(entries@, n);
                    assert(texts(res@).contains(entries@[m].0@));
                }
            }
        }
        res
    }
}

/// Whether entry `j` is the last of its name.
pub open spec fn is_last_named(s: Seq<(String, TuiConfig)>, j: int) -> bool {
    forall|q: int| j < q < s.len() ==> (#[trigger] s[q]).0@ != s[j].0@
}

/// Whether `n` is the name of an entry before `k` that is the last of its
/// name.
pub open spec fn last_named_before(s: Seq<(String, TuiConfig)>, n: Seq<char>, k: int) -> bool {
    exists|m: int| 0 <= m < k && is_last_named(s, m) && (#[trigger] s[m]).0@ == n
}

/// An entry that is the last of its name gives that name's preset.
proof fn lemma_preset_found(s: Seq<(String, TuiConfig)>, n: Seq<char>, m: int)
    requires
        0 <= m < s.len(),
        is_last_named(s, m),
        s[m].0@ == n,
    ensures
        preset_in(s, n) == Some(s[m].1),
    decreases s.len(),
{
    if m < s.len() - 1 {
        assert(s.last() == s[s.len() - 1]);
        assert(s.drop_last()[m] == s[m]);
        assert forall|q: int| m < q < s.drop_last().len() implies (#[trigger] s.drop_last()[q]).0@ != s.drop_last()[m].0@ by {
            assert(s.drop_last()[q] == s[q]);
        }
        lemma_preset_found(s.drop_last(), n, m);
    }
}

/// A preset that exists comes from an entry that is the last of its name.
proof fn lemma_preset_last(s: Seq<(String, TuiConfig)>, n: Seq<char>) -> (m: int)
    requires
        preset_in(s, n) is Some,
    ensures
        0 <= m < s.len(),
        is_last_named(s, m),
        s[m].0@ == n,
    decreases s.len(),
{
    if s.last().0@ == n {
        (s.len() - 1) as int
    } else {
        let m = lemma_preset_last(s.drop_last(), n);
        assert(s.drop_last()[m] == s[m]);
        assert forall|q: int| m < q < s.len() implies (#[trigger] s[q]).0@ != s[m].0@ by {
            if q < s.len() - 1 {
                assert(s.drop_last()[q] == s[q]);
            } else {
                assert(s[q] == s.last());
            }
        }
        m
    }
}

/// Without entries named `name`, there is no preset of that name.
proof fn lemma_no_preset(s: Seq<(String, TuiConfig)>, name: Seq<char>)
    requires
        s.len() == 0,
    ensures
        preset_in(s, name) is None,
{
}

/// The entries not named `name`.
pub open spec fn presets_without(s: Seq<(String, TuiConfig)>, name: Seq<char>) -> Seq<(String, TuiConfig)> {
    keep_where(s, |e: (String, TuiConfig)| e.0@ != name)
}

/// Dropping the entries named `name` removes that preset and keeps the
/// others.
proof fn lemma_preset_filter(s: Seq<(String, TuiConfig)>, name: Seq<char>)
    ensures
        forall|n: Seq<char>|
            #[trigger] preset_in(presets_without(s, name), n) == if n == name {
                None
            } else {
                preset_in(s, n)
            },
    decreases s.len(),
{
    if s.len() > 0 {
        lemma_preset_filter(s.drop_last(), name);
        let r = presets_without(s.drop_last(), name);
        assert forall|n: Seq<char>|
            #[trigger] preset_in(presets_without(s, name), n) == if n == name {
                None
            } else {
                preset_in(s, n)
            } by {
            assert(preset_in(r, n) == if n == name {
                None
            } else {
                preset_in(s.drop_last(), n)
            });
            if s.last().0@ != name {
                assert(presets_without(s, name) == r.push(s.last()));
                assert(r.push(s.last()).drop_last() =~= r);
            } else {
                assert(presets_without(s, name) == r);
            }
        }
    }
}

/// Filtering keeps everything when everything passes.
proof fn lemma_keep_all(s: Seq<(String, TuiConfig)>, keep: spec_fn((String, TuiConfig)) -> bool)
    requires
        forall|j: int| 0 <= j < s.len() ==> keep(#[trigger] s[j]),
    ensures
        keep_where(s, keep) == s,
    decreases s.len(),
{
    if s.len() > 0 {
        assert forall|j: int| 0 <= j < s.drop_last().len() implies keep(#[trigger] s.drop_last()[j]) by {
            assert(s.drop_last()[j] == s[j]);
        }
        lemma_keep_all(s.drop_last(), keep);
        assert(s.drop_last().push(s.last()) =~= s);
    }
}

/// Removing an element that the filter drops anyway changes nothing of
/// what it keeps.
proof fn lemma_keep_without(s: Seq<(String, TuiConfig)>, k: int, keep: spec_fn((String, TuiConfig)) -> bool)
    requires
        0 <= k < s.len(),
        !keep(s[k]),
    ensures
        keep_where(s.remove(k), keep) == keep_where(s, keep),
    decreases s.len(),
{
    if k == s.len() - 1 {
        assert(s.remove(k) =~= s.drop_last());
    } else {
        lemma_keep_without(s.drop_last(), k, keep);
        assert(s.remove(k).drop_last() =~= s.drop_last().remove(k));
        assert(s.remove(k).last() == s.last());
    }
}

/// A configuration is valid exactly when its frame rate is between 1 and
/// 120, its buffer holds at least 1024 bytes, its responsive breakpoints
/// strictly ascend (small, medium, large) and notifications last a while;
/// a refused one is refused with the message of the first of these it
/// breaks.
pub proof fn law_valid_config(c: TuiConfig)
    ensures
        config_problem(c) is None <==> {
            &&& 1 <= c.performance.target_fps <= 120
            &&& c.performance.buffer_size >= 1024
            &&& c.layout.responsive_breakpoints.small < c.layout.responsive_breakpoints.medium
            &&& c.layout.responsive_breakpoints.medium < c.layout.responsive_breakpoints.large
            &&& c.user_preferences.notification_settings.notification_duration > 0
        },
        (1 <= c.performance.target_fps <= 120 && c.performance.buffer_size >= 1024 && !(
        c.layout.responsive_breakpoints.small < c.layout.responsive_breakpoints.medium
            && c.layout.responsive_breakpoints.medium < c.layout.responsive_breakpoints.large)) ==> config_problem(c)
            == Some("Responsive breakpoints must be in ascending order"@),
        !(1 <= c.performance.target_fps <= 120) ==> config_problem(c) == Some(
            "Frame rate must be between 1 and 120 FPS"@,
        ),
        1 <= c.performance.target_fps <= 120 && c.performance.buffer_size < 1024 ==> config_problem(c) == Some(
            "Buffer size must be at least 1024 bytes"@,
        ),
{
}

} // verus!
