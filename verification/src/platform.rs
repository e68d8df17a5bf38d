//! Terminal and platform detection: what the terminal in use can do, which
//! settings suit the platform, and a report of both.
//!
//! Reading the environment and the terminal size is left to the caller,
//! which hands the values read to the functions here.

use vstd::prelude::*;
use crate::action::{decimal_string, decimal_text};
use crate::keys::{KeyCode, KeyEvent, MOD_CONTROL, MOD_SUPER};
use crate::text::{has_infix, push_text, text_contains, text_eq, texts};

verus! {

/// The operating systems the interface knows.
#[derive(Debug, Clone, Copy, PartialEq, Eq, Structural)]
pub enum Platform {
    Windows,
    Linux,
    MacOS,
    Unknown,
}

/// How many colors a terminal shows. `NoColor` is a terminal without
/// colors.
#[derive(Debug, Clone, Copy, PartialEq, Eq, Structural)]
pub enum ColorSupport {
    NoColor,
    Basic16,
    Extended256,
    TrueColor,
}

/// What a terminal can do.
#[derive(Debug)]
pub struct TerminalCapabilities {
    pub color_support: ColorSupport,
    pub unicode_support: bool,
    pub mouse_support: bool,
    pub resize_support: bool,
    pub alternate_screen: bool,
    pub cursor_shapes: bool,
    pub bracketed_paste: bool,
    pub focus_events: bool,
    pub max_colors: u32,
    pub terminal_type: String,
}

impl Clone for TerminalCapabilities {
    fn clone(&self) -> (res: Self)
        ensures
            res == *self,
    {
        TerminalCapabilities {
            color_support: self.color_support,
            unicode_support: self.unicode_support,
            mouse_support: self.mouse_support,
            resize_support: self.resize_support,
            alternate_screen: self.alternate_screen,
            cursor_shapes: self.cursor_shapes,
            bracketed_paste: self.bracketed_paste,
            focus_events: self.focus_events,
            max_colors: self.max_colors,
            terminal_type: self.terminal_type.clone(),
        }
    }
}

/// Rendering settings suited to a platform; the rates are in milliseconds.
#[derive(Debug, Clone, Copy, PartialEq, Eq, Structural)]
pub struct PlatformOptimizations {
    pub buffer_size: usize,
    pub refresh_rate_ms: u64,
    pub input_polling_rate_ms: u64,
    pub enable_double_buffering: bool,
    pub enable_cursor_optimization: bool,
    pub enable_partial_redraws: bool,
    pub memory_optimization: bool,
}

/// Settings that work around what some terminals lack; each workaround is
/// named and switched on or off.
#[derive(Debug)]
pub struct CompatibilitySettings {
    pub force_ascii_fallback: bool,
    pub disable_mouse: bool,
    pub disable_alternate_screen: bool,
    pub use_legacy_colors: bool,
    pub terminal_workarounds: Vec<(String, bool)>,
}

/// The settings of the interface on a platform.
#[derive(Debug)]
pub struct PlatformConfig {
    pub platform: Platform,
    pub terminal_capabilities: TerminalCapabilities,
    pub optimizations: PlatformOptimizations,
    pub compatibility: CompatibilitySettings,
}

/// What is known of the terminal: its name and version, its size in
/// columns and rows, and the environment variables read.
#[derive(Debug)]
pub struct TerminalInfo {
    pub name: String,
    pub version: Option<String>,
    pub size: (u16, u16),
    pub environment_vars: Vec<(String, String)>,
}

/// The value of an environment variable among those read: the last entry
/// for it.
pub open spec fn env_get(vars: Seq<(String, String)>, key: Seq<char>) -> Option<Seq<char>>
    decreases vars.len(),
{
    if vars.len() == 0 {
        None
    } else if vars.last().0@ == key {
        Some(vars.last().1@)
    } else {
        env_get(vars.drop_last(), key)
    }
}

/// The characters of an optional string.
pub open spec fn opt_text(o: Option<String>) -> Option<Seq<char>> {
    match o {
        Some(s) => Some(s@),
        None => None,
    }
}

/// A copy of an optional string.
fn copy_opt_text(o: &Option<String>) -> (res: Option<String>)
    ensures
        res == *o,
{
    match o {
        Some(s) => Some(s.clone()),
        None => None,
    }
}

/// The value of the variable `key` in `vars`.
pub fn env_lookup(vars: &Vec<(String, String)>, key: &str) -> (res: Option<String>)
    ensures
        opt_text(res) == env_get(vars@, key@),
{
    let mut i: usize = vars.len();
    assert(vars@.take(i as int) =~= vars@);
    while i > 0
        invariant
            i <= vars@.len(),
            env_get(vars@, key@) == env_get(vars@.take(i as int), key@),
        decreases i,
    {
        let k = i - 1;
        assert(vars@.take(i as int).drop_last() =~= vars@.take(k as int));
        if text_eq(vars[k].0.as_str(), key) {
            return Some(vars[k].1.clone());
        }
        i = k;
    }
    None
}

/// The operating system named `os`, as the standard library names them.
pub open spec fn platform_named(os: Seq<char>) -> Platform {
    if os == "windows"@ {
        Platform::Windows
    } else if os == "linux"@ {
        Platform::Linux
    } else if os == "macos"@ {
        Platform::MacOS
    } else {
        Platform::Unknown
    }
}

/// The environment variables that tell which terminal is in use.
pub open spec fn terminal_env_keys() -> Seq<Seq<char>> {
    seq![
        "TERM"@,
        "TERM_PROGRAM"@,
        "TERM_PROGRAM_VERSION"@,
        "COLORTERM"@,
        "TERMINAL_EMULATOR"@,
        "KONSOLE_VERSION"@,
        "VTE_VERSION"@,
        "ITERM_SESSION_ID"@,
        "TMUX"@,
        "SSH_TTY"@,
        "WSL_DISTRO_NAME"@,
    ]
}

/// The terminal's name and version as the environment tells them: the
/// terminal program when it is named, else the terminals known by a
/// variable of their own, else the terminal type, else `unknown`.
pub open spec fn name_and_version(env: Seq<(String, String)>) -> (Seq<char>, Option<Seq<char>>) {
    match env_get(env, "TERM_PROGRAM"@) {
        Some(program) => (program, env_get(env, "TERM_PROGRAM_VERSION"@)),
        None => if env_get(env, "KONSOLE_VERSION"@) is Some {
            ("Konsole"@, env_get(env, "KONSOLE_VERSION"@))
        } else if env_get(env, "VTE_VERSION"@) is Some {
            ("VTE-based"@, env_get(env, "VTE_VERSION"@))
        } else if env_get(env, "ITERM_SESSION_ID"@) is Some {
            ("iTerm2"@, None)
        } else if env_get(env, "TMUX"@) is Some {
            ("tmux"@, None)
        } else {
            (
                match env_get(env, "TERM"@) {
                    Some(t) => t,
                    None => "unknown"@,
                },
                None,
            )
        },
    }
}

/// The color support a terminal of this name has, for a terminal whose
/// variables tell nothing of colors.
pub open spec fn color_support_by_name(name: Seq<char>, over_ssh: bool) -> ColorSupport {
    if name == "iTerm.app"@ || name == "iTerm2"@ {
        ColorSupport::TrueColor
    } else if name == "Terminal.app"@ {
        ColorSupport::Extended256
    } else if name == "Windows Terminal"@ || name == "WindowsTerminal"@ {
        ColorSupport::TrueColor
    } else if name == "ConEmu"@ || name == "ConsoleZ"@ {
        ColorSupport::Extended256
    } else if name == "Konsole"@ {
        ColorSupport::TrueColor
    } else if name == "gnome-terminal"@ || name == "VTE-based"@ {
        ColorSupport::TrueColor
    } else if name == "xterm"@ {
        ColorSupport::Extended256
    } else if name == "tmux"@ || name == "screen"@ {
        ColorSupport::Extended256
    } else if over_ssh {
        ColorSupport::Basic16
    } else {
        ColorSupport::Extended256
    }
}

/// The color support of a terminal: true color when `COLORTERM` says so,
/// else what `TERM` says, else what the terminal's name tells.
pub open spec fn color_support_of(info: TerminalInfo) -> ColorSupport {
    let env = info.environment_vars@;
    let colorterm = env_get(env, "COLORTERM"@);
    let term = env_get(env, "TERM"@);
    if colorterm matches Some(c) && (has_infix(c, "truecolor"@) || has_infix(c, "24bit"@)) {
        ColorSupport::TrueColor
    } else if term matches Some(t) && (has_infix(t, "256color"@) || has_infix(t, "256"@)) {
        ColorSupport::Extended256
    } else if term matches Some(t) && has_infix(t, "color"@) {
        ColorSupport::Basic16
    } else {
        color_support_by_name(info.name@, env_get(env, "SSH_TTY"@) is Some)
    }
}

/// The number of colors of a level of color support.
pub open spec fn max_colors_of(c: ColorSupport) -> u32 {
    match c {
        ColorSupport::NoColor => 0,
        ColorSupport::Basic16 => 16,
        ColorSupport::Extended256 => 256,
        ColorSupport::TrueColor => 16777216,
    }
}

/// What the standard library's `str::to_uppercase` makes of a text.
pub uninterp spec fn upper_case(s: Seq<char>) -> Seq<char>;

/// `str::to_uppercase`: each character replaced by its uppercase form as
/// Unicode defines it. The contract only names the result.
#[verifier::external_body]
fn uppercase_text(s: &str) -> (res: String)
    ensures
        res@ == upper_case(s@),
{
    s.to_uppercase()
}

/// Whether the locale variable `key` names a UTF encoding, in any case.
pub open spec fn utf_locale(env: Seq<(String, String)>, key: Seq<char>) -> bool {
    env_get(env, key) matches Some(l) && has_infix(upper_case(l), "UTF"@)
}

/// Whether a terminal of this name shows Unicode.
pub open spec fn unicode_by_name(name: Seq<char>) -> bool {
    ||| name == "iTerm.app"@
    ||| name == "iTerm2"@
    ||| name == "Terminal.app"@
    ||| name == "Windows Terminal"@
    ||| name == "WindowsTerminal"@
    ||| name == "Konsole"@
    ||| name == "gnome-terminal"@
    ||| name == "VTE-based"@
    ||| name == "ConEmu"@
    ||| name == "xterm"@
}

/// Whether a terminal shows Unicode: a UTF locale, or a terminal known to.
pub open spec fn unicode_support_of(info: TerminalInfo) -> bool {
    let env = info.environment_vars@;
    utf_locale(env, "LC_ALL"@) || utf_locale(env, "LC_CTYPE"@) || utf_locale(env, "LANG"@)
        || unicode_by_name(info.name@)
}

/// The features a terminal of this name has: mouse, resize, alternate
/// screen, cursor shapes, bracketed paste and focus events.
pub open spec fn features_by_name(name: Seq<char>) -> (bool, bool, bool, bool, bool, bool) {
    if name == "iTerm.app"@ || name == "iTerm2"@ {
        (true, true, true, true, true, true)
    } else if name == "Terminal.app"@ {
        (true, true, true, false, true, false)
    } else if name == "Windows Terminal"@ || name == "WindowsTerminal"@ {
        (true, true, true, true, true, true)
    } else if name == "ConEmu"@ || name == "ConsoleZ"@ {
        (true, true, true, false, false, false)
    } else if name == "Konsole"@ {
        (true, true, true, true, true, true)
    } else if name == "gnome-terminal"@ || name == "VTE-based"@ {
        (true, true, true, true, true, false)
    } else if name == "xterm"@ {
        (true, true, true, true, true, false)
    } else if name == "tmux"@ || name == "screen"@ {
        (true, true, true, false, true, false)
    } else {
        (false, true, true, false, false, false)
    }
}

/// The capabilities detected for a terminal.
pub open spec fn capabilities_of(info: TerminalInfo) -> TerminalCapabilities {
    let f = features_by_name(info.name@);
    TerminalCapabilities {
        color_support: color_support_of(info),
        unicode_support: unicode_support_of(info),
        mouse_support: f.0,
        resize_support: f.1,
        alternate_screen: f.2,
        cursor_shapes: f.3,
        bracketed_paste: f.4,
        focus_events: f.5,
        max_colors: max_colors_of(color_support_of(info)),
        terminal_type: info.name,
    }
}

/// The rendering settings of a platform.
pub open spec fn optimizations_for(p: Platform) -> PlatformOptimizations {
    match p {
        Platform::Windows => PlatformOptimizations {
            buffer_size: 8192,
            refresh_rate_ms: 16,
            input_polling_rate_ms: 10,
            enable_double_buffering: true,
            enable_cursor_optimization: true,
            enable_partial_redraws: true,
            memory_optimization: true,
        },
        Platform::Linux => PlatformOptimizations {
            buffer_size: 16384,
            refresh_rate_ms: 16,
            input_polling_rate_ms: 5,
            enable_double_buffering: true,
            enable_cursor_optimization: true,
            enable_partial_redraws: true,
            memory_optimization: false,
        },
        Platform::MacOS => PlatformOptimizations {
            buffer_size: 16384,
            refresh_rate_ms: 16,
            input_polling_rate_ms: 8,
            enable_double_buffering: true,
            enable_cursor_optimization: true,
            enable_partial_redraws: true,
            memory_optimization: false,
        },
        Platform::Unknown => PlatformOptimizations {
            buffer_size: 4096,
            refresh_rate_ms: 33,
            input_polling_rate_ms: 20,
            enable_double_buffering: false,
            enable_cursor_optimization: false,
            enable_partial_redraws: false,
            memory_optimization: true,
        },
    }
}

/// The workarounds of a compatibility setting, by name.
pub open spec fn workaround_list(c: CompatibilitySettings) -> Seq<(Seq<char>, bool)> {
    c.terminal_workarounds@.map_values(|e: (String, bool)| (e.0@, e.1))
}

/// Whether the workaround `name` is switched on: its last entry, off when
/// it has none.
pub open spec fn workaround_in(list: Seq<(Seq<char>, bool)>, name: Seq<char>) -> bool
    decreases list.len(),
{
    if list.len() == 0 {
        false
    } else if list.last().0 == name {
        list.last().1
    } else {
        workaround_in(list.drop_last(), name)
    }
}

/// The workarounds a platform switches on.
pub open spec fn workarounds_for(p: Platform) -> Seq<(Seq<char>, bool)> {
    match p {
        Platform::Windows => seq![
            ("cmd_unicode_fix"@, true),
            ("powershell_color_fix"@, true),
            ("conhost_resize_fix"@, true),
        ],
        Platform::Linux => seq![("ssh_color_detection"@, true), ("tmux_escape_fix"@, true)],
        Platform::MacOS => seq![("terminal_app_focus_fix"@, true)],
        Platform::Unknown => Seq::empty(),
    }
}

/// Whether `c` holds the compatibility settings of platform `p`: the
/// cautious ones on an unknown platform, the platform's workarounds.
pub open spec fn compatibility_for(c: CompatibilitySettings, p: Platform) -> bool {
    &&& c.force_ascii_fallback == (p == Platform::Unknown)
    &&& c.disable_mouse == (p == Platform::Unknown)
    &&& !c.disable_alternate_screen
    &&& c.use_legacy_colors == (p == Platform::Unknown)
    &&& workaround_list(c) == workarounds_for(p)
}

/// Adds a workaround, switched on.
fn push_workaround(v: &mut Vec<(String, bool)>, name: &str)
    ensures
        final(v)@.map_values(|e: (String, bool)| (e.0@, e.1)) == old(v)@.map_values(
            |e: (String, bool)| (e.0@, e.1),
        ).push((name@, true)),
{
    v.push((String::from_str(name), true));
    assert(v@.map_values(|e: (String, bool)| (e.0@, e.1)) =~= old(v)@.map_values(
        |e: (String, bool)| (e.0@, e.1),
    ).push((name@, true)));
}

impl CompatibilitySettings {
    /// Whether the workaround `name` is switched on.
    pub fn workaround(&self, name: &str) -> (res: bool)
        ensures
            res == workaround_in(workaround_list(*self), name@),
    {
        let ghost list = workaround_list(*self);
        let mut i: usize = self.terminal_workarounds.len();
        assert(list.take(i as int) =~= list);
        while i > 0
            invariant
                i <= self.terminal_workarounds@.len(),
                list == workaround_list(*self),
                workaround_in(list, name@) == workaround_in(list.take(i as int), name@),
            decreases i,
        {
            let k = i - 1;
            assert(list.take(i as int).drop_last() =~= list.take(k as int));
            if text_eq(self.terminal_workarounds[k].0.as_str(), name) {
                return self.terminal_workarounds[k].1;
            }
            i = k;
        }
        false
    }
}

/// The color support a terminal of this name has.
fn color_support_for_name(name: &str, over_ssh: bool) -> (res: ColorSupport)
    ensures
        res == color_support_by_name(name@, over_ssh),
{
    if text_eq(name, "iTerm.app") || text_eq(name, "iTerm2") {
        ColorSupport::TrueColor
    } else if text_eq(name, "Terminal.app") {
        ColorSupport::Extended256
    } else if text_eq(name, "Windows Terminal") || text_eq(name, "WindowsTerminal") {
        ColorSupport::TrueColor
    } else if text_eq(name, "ConEmu") || text_eq(name, "ConsoleZ") {
        ColorSupport::Extended256
    } else if text_eq(name, "Konsole") {
        ColorSupport::TrueColor
    } else if text_eq(name, "gnome-terminal") || text_eq(name, "VTE-based") {
        ColorSupport::TrueColor
    } else if text_eq(name, "xterm") {
        ColorSupport::Extended256
    } else if text_eq(name, "tmux") || text_eq(name, "screen") {
        ColorSupport::Extended256
    } else if over_ssh {
        ColorSupport::Basic16
    } else {
        ColorSupport::Extended256
    }
}

/// Whether a terminal of this name shows Unicode.
fn unicode_for_name(name: &str) -> (res: bool)
    ensures
        res == unicode_by_name(name@),
{
    text_eq(name, "iTerm.app") || text_eq(name, "iTerm2") || text_eq(name, "Terminal.app")
        || text_eq(name, "Windows Terminal") || text_eq(name, "WindowsTerminal")
        || text_eq(name, "Konsole") || text_eq(name, "gnome-terminal")
        || text_eq(name, "VTE-based") || text_eq(name, "ConEmu") || text_eq(name, "xterm")
}

/// Whether the locale variable `key` names a UTF encoding, in any case.
fn is_utf_locale(env: &Vec<(String, String)>, key: &str) -> (res: bool)
    ensures
        res == utf_locale(env@, key@),
{
    match env_lookup(env, key) {
        Some(locale) => {
            let upper = uppercase_text(locale.as_str());
            text_contains(upper.as_str(), "UTF")
        },
        None => false,
    }
}

/// Whether `info` holds what was read of a terminal: its size, the
/// variables read, and the name and version they tell.
pub open spec fn info_read(info: TerminalInfo, size: (u16, u16), env: Seq<(String, String)>) -> bool {
    &&& info.name@ == name_and_version(env).0
    &&& opt_text(info.version) == name_and_version(env).1
    &&& info.size == size
    &&& info.environment_vars@ == env
}

/// Detects the platform, the terminal and its capabilities, and keeps the
/// settings that suit them.
pub struct PlatformManager {
    config: PlatformConfig,
    detected_capabilities: TerminalCapabilities,
    terminal_info: TerminalInfo,
}

impl PlatformManager {
    /// The settings in use.
    pub closed spec fn cfg(self) -> PlatformConfig {
        self.config
    }

    /// The capabilities detected.
    pub closed spec fn caps(self) -> TerminalCapabilities {
        self.detected_capabilities
    }

    /// What is known of the terminal.
    pub closed spec fn info(self) -> TerminalInfo {
        self.terminal_info
    }

    /// Detects everything from the name of the operating system (as
    /// `std::env::consts::OS` gives it), the terminal size and the
    /// environment variables read (those of `terminal_env_keys`), and takes
    /// the platform's default settings.
    pub fn new(os: &str, size: (u16, u16), environment_vars: Vec<(String, String)>) -> (res: Self)
        ensures
            info_read(res.info(), size, environment_vars@),
            res.caps() == capabilities_of(res.info()),
            res.cfg().platform == platform_named(os@),
            res.cfg().terminal_capabilities == res.caps(),
            res.cfg().optimizations == optimizations_for(platform_named(os@)),
            compatibility_for(res.cfg().compatibility, platform_named(os@)),
    {
        let platform = Self::detect_platform(os);
        let terminal_info = Self::detect_terminal_info(size, environment_vars);
        let detected_capabilities = Self::detect_terminal_capabilities(&terminal_info);
        let config = PlatformConfig {
            platform,
            terminal_capabilities: detected_capabilities.clone(),
            optimizations: Self::default_optimizations_for_platform(&platform),
            compatibility: Self::default_compatibility_for_platform(&platform),
        };
        PlatformManager { config, detected_capabilities, terminal_info }
    }

    /// Detects the terminal and its capabilities, and takes the settings
    /// given.
    pub fn with_config(config: PlatformConfig, size: (u16, u16), environment_vars: Vec<(String, String)>) -> (res: Self)
        ensures
            info_read(res.info(), size, environment_vars@),
            res.caps() == capabilities_of(res.info()),
            res.cfg() == config,
    {
        let terminal_info = Self::detect_terminal_info(size, environment_vars);
        let detected_capabilities = Self::detect_terminal_capabilities(&terminal_info);
        PlatformManager { config, detected_capabilities, terminal_info }
    }

    /// The platform of the operating system named `os`.
    pub fn detect_platform(os: &str) -> (res: Platform)
        ensures
            res == platform_named(os@),
    {
        if text_eq(os, "windows") {
            Platform::Windows
        } else if text_eq(os, "linux") {
            Platform::Linux
        } else if text_eq(os, "macos") {
            Platform::MacOS
        } else {
            Platform::Unknown
        }
    }

    /// The names of the environment variables worth reading.
    pub fn terminal_env_keys() -> (res: Vec<&'static str>)
        ensures
            res@.map_values(|k: &str| k@) == terminal_env_keys(),
    {
        let res = vec![
            "TERM",
            "TERM_PROGRAM",
            "TERM_PROGRAM_VERSION",
            "COLORTERM",
            "TERMINAL_EMULATOR",
            "KONSOLE_VERSION",
            "VTE_VERSION",
            "ITERM_SESSION_ID",
            "TMUX",
            "SSH_TTY",
            "WSL_DISTRO_NAME",
        ];
        assert(res@.map_values(|k: &str| k@) =~= terminal_env_keys());
        res
    }

    /// What is known of the terminal from its size and the environment
    /// variables read.
    pub fn detect_terminal_info(size: (u16, u16), environment_vars: Vec<(String, String)>) -> (res: TerminalInfo)
        ensures
            info_read(res, size, environment_vars@),
    {
        let (name, version) = Self::parse_terminal_name_version(&environment_vars);
        TerminalInfo { name, version, size, environment_vars }
    }

    /// The terminal's name and version as the environment tells them.
    pub fn parse_terminal_name_version(env_vars: &Vec<(String, String)>) -> (res: (String, Option<String>))
        ensures
            res.0@ == name_and_version(env_vars@).0,
            opt_text(res.1) == name_and_version(env_vars@).1,
    {
        if let Some(term_program) = env_lookup(env_vars, "TERM_PROGRAM") {
            let version = env_lookup(env_vars, "TERM_PROGRAM_VERSION");
            return (term_program, version);
        }
        if env_lookup(env_vars, "KONSOLE_VERSION").is_some() {
            let version = env_lookup(env_vars, "KONSOLE_VERSION");
            return (String::from_str("Konsole"), version);
        }
        if env_lookup(env_vars, "VTE_VERSION").is_some() {
            let version = env_lookup(env_vars, "VTE_VERSION");
            return (String::from_str("VTE-based"), version);
        }
        if env_lookup(env_vars, "ITERM_SESSION_ID").is_some() {
            return (String::from_str("iTerm2"), None);
        }
        if env_lookup(env_vars, "TMUX").is_some() {
            return (String::from_str("tmux"), None);
        }
        match env_lookup(env_vars, "TERM") {
            Some(term) => (term, None),
            None => (String::from_str("unknown"), None),
        }
    }

    /// The capabilities of the terminal described by `terminal_info`.
    pub fn detect_terminal_capabilities(terminal_info: &TerminalInfo) -> (res: TerminalCapabilities)
        ensures
            res == capabilities_of(*terminal_info),
    {
        let color_support = Self::detect_color_support(terminal_info);
        let max_colors = Self::get_max_colors(&color_support);
        let unicode_support = Self::detect_unicode_support(terminal_info);
        let (mouse_support, resize_support, alternate_screen, cursor_shapes, bracketed_paste, focus_events) =
            Self::detect_feature_support(terminal_info);
        TerminalCapabilities {
            color_support,
            unicode_support,
            mouse_support,
            resize_support,
            alternate_screen,
            cursor_shapes,
            bracketed_paste,
            focus_events,
            max_colors,
            terminal_type: terminal_info.name.clone(),
        }
    }

    /// The color support of the terminal.
    pub fn detect_color_support(terminal_info: &TerminalInfo) -> (res: ColorSupport)
        ensures
            res == color_support_of(*terminal_info),
    {
        let env = &terminal_info.environment_vars;
        if let Some(colorterm) = env_lookup(env, "COLORTERM") {
            if text_contains(colorterm.as_str(), "truecolor") || text_contains(colorterm.as_str(), "24bit") {
                return ColorSupport::TrueColor;
            }
        }
        if let Some(term) = env_lookup(env, "TERM") {
            if text_contains(term.as_str(), "256color") || text_contains(term.as_str(), "256") {
                return ColorSupport::Extended256;
            }
            if text_contains(term.as_str(), "color") {
                return ColorSupport::Basic16;
            }
        }
        let over_ssh = env_lookup(env, "SSH_TTY").is_some();
        color_support_for_name(terminal_info.name.as_str(), over_ssh)
    }

    /// The number of colors of a level of color support.
    pub fn get_max_colors(color_support: &ColorSupport) -> (res: u32)
        ensures
            res == max_colors_of(*color_support),
    {
        match color_support {
            ColorSupport::NoColor => 0,
            ColorSupport::Basic16 => 16,
            ColorSupport::Extended256 => 256,
            ColorSupport::TrueColor => 16777216,
        }
    }

    /// Whether the terminal shows Unicode.
    pub fn detect_unicode_support(terminal_info: &TerminalInfo) -> (res: bool)
        ensures
            res == unicode_support_of(*terminal_info),
    {
        let env = &terminal_info.environment_vars;
        if is_utf_locale(env, "LC_ALL") || is_utf_locale(env, "LC_CTYPE") || is_utf_locale(env, "LANG") {
            return true;
        }
        unicode_for_name(terminal_info.name.as_str())
    }

    /// The features of the terminal: mouse, resize, alternate screen,
    /// cursor shapes, bracketed paste and focus events.
    pub fn detect_feature_support(terminal_info: &TerminalInfo) -> (res: (bool, bool, bool, bool, bool, bool))
        ensures
            res == features_by_name(terminal_info.name@),
    {
        let name = terminal_info.name.as_str();
        if text_eq(name, "iTerm.app") || text_eq(name, "iTerm2") {
            (true, true, true, true, true, true)
        } else if text_eq(name, "Terminal.app") {
            (true, true, true, false, true, false)
        } else if text_eq(name, "Windows Terminal") || text_eq(name, "WindowsTerminal") {
            (true, true, true, true, true, true)
        } else if text_eq(name, "ConEmu") || text_eq(name, "ConsoleZ") {
            (true, true, true, false, false, false)
        } else if text_eq(name, "Konsole") {
            (true, true, true, true, true, true)
        } else if text_eq(name, "gnome-terminal") || text_eq(name, "VTE-based") {
            (true, true, true, true, true, false)
        } else if text_eq(name, "xterm") {
            (true, true, true, true, true, false)
        } else if text_eq(name, "tmux") || text_eq(name, "screen") {
            (true, true, true, false, true, false)
        } else {
            (false, true, true, false, false, false)
        }
    }

    /// The rendering settings of a platform.
    pub fn default_optimizations_for_platform(platform: &Platform) -> (res: PlatformOptimizations)
        ensures
            res == optimizations_for(*platform),
    {
        match platform {
            Platform::Windows => PlatformOptimizations {
                buffer_size: 8192,
                refresh_rate_ms: 16,
                input_polling_rate_ms: 10,
                enable_double_buffering: true,
                enable_cursor_optimization: true,
                enable_partial_redraws: true,
                memory_optimization: true,
            },
            Platform::Linux => PlatformOptimizations {
                buffer_size: 16384,
                refresh_rate_ms: 16,
                input_polling_rate_ms: 5,
                enable_double_buffering: true,
                enable_cursor_optimization: true,
                enable_partial_redraws: true,
                memory_optimization: false,
            },
            Platform::MacOS => PlatformOptimizations {
                buffer_size: 16384,
                refresh_rate_ms: 16,
                input_polling_rate_ms: 8,
                enable_double_buffering: true,
                enable_cursor_optimization: true,
                enable_partial_redraws: true,
                memory_optimization: false,
            },
            Platform::Unknown => PlatformOptimizations {
                buffer_size: 4096,
                refresh_rate_ms: 33,
                input_polling_rate_ms: 20,
                enable_double_buffering: false,
                enable_cursor_optimization: false,
                enable_partial_redraws: false,
                memory_optimization: true,
            },
        }
    }

    /// The compatibility settings of a platform.
    pub fn default_compatibility_for_platform(platform: &Platform) -> (res: CompatibilitySettings)
        ensures
            compatibility_for(res, *platform),
    {
        let mut terminal_workarounds: Vec<(String, bool)> = Vec::new();
        assert(terminal_workarounds@.map_values(|e: (String, bool)| (e.0@, e.1)) =~= Seq::<(Seq<char>, bool)>::empty());
        let res = match platform {
            Platform::Windows => {
                push_workaround(&mut terminal_workarounds, "cmd_unicode_fix");
                push_workaround(&mut terminal_workarounds, "powershell_color_fix");
                push_workaround(&mut terminal_workarounds, "conhost_resize_fix");
                CompatibilitySettings {
                    force_ascii_fallback: false,
                    disable_mouse: false,
                    disable_alternate_screen: false,
                    use_legacy_colors: false,
                    terminal_workarounds,
                }
            },
            Platform::Linux => {
                push_workaround(&mut terminal_workarounds, "ssh_color_detection");
                push_workaround(&mut terminal_workarounds, "tmux_escape_fix");
                CompatibilitySettings {
                    force_ascii_fallback: false,
                    disable_mouse: false,
                    disable_alternate_screen: false,
                    use_legacy_colors: false,
                    terminal_workarounds,
                }
            },
            Platform::MacOS => {
                push_workaround(&mut terminal_workarounds, "terminal_app_focus_fix");
                CompatibilitySettings {
                    force_ascii_fallback: false,
                    disable_mouse: false,
                    disable_alternate_screen: false,
                    use_legacy_colors: false,
                    terminal_workarounds,
                }
            },
            Platform::Unknown => CompatibilitySettings {
                force_ascii_fallback: true,
                disable_mouse: true,
                disable_alternate_screen: false,
                use_legacy_colors: true,
                terminal_workarounds,
            },
        };
        assert(workaround_list(res) =~= workarounds_for(*platform));
        res
    }

    /// The settings in use.
    pub fn config(&self) -> (res: &PlatformConfig)
        ensures
            *res == self.cfg(),
    {
        &self.config
    }

    /// The capabilities detected.
    pub fn capabilities(&self) -> (res: &TerminalCapabilities)
        ensures
            *res == self.caps(),
    {
        &self.detected_capabilities
    }

    /// What is known of the terminal.
    pub fn terminal_info(&self) -> (res: &TerminalInfo)
        ensures
            *res == self.info(),
    {
        &self.terminal_info
    }

    /// Replaces the settings.
    pub fn update_config(&mut self, config: PlatformConfig)
        ensures
            final(self).cfg() == config,
            final(self).caps() == old(self).caps(),
            final(self).info() == old(self).info(),
    {
        self.config = config;
    }
}

/// Whether the feature named `f` can be used: the terminal has it and the
/// settings do not switch it off. Unknown names are not supported.
pub open spec fn feature_supported(caps: TerminalCapabilities, compat: CompatibilitySettings, f: Seq<char>) -> bool {
    if f == "mouse"@ {
        caps.mouse_support && !compat.disable_mouse
    } else if f == "unicode"@ {
        caps.unicode_support && !compat.force_ascii_fallback
    } else if f == "truecolor"@ {
        caps.color_support == ColorSupport::TrueColor && !compat.use_legacy_colors
    } else if f == "256color"@ {
        (caps.color_support == ColorSupport::Extended256 || caps.color_support == ColorSupport::TrueColor)
            && !compat.use_legacy_colors
    } else if f == "alternate_screen"@ {
        caps.alternate_screen && !compat.disable_alternate_screen
    } else if f == "cursor_shapes"@ {
        caps.cursor_shapes
    } else if f == "bracketed_paste"@ {
        caps.bracketed_paste
    } else if f == "focus_events"@ {
        caps.focus_events
    } else {
        false
    }
}

/// `acc` with `item` added at the end when `cond` holds.
pub open spec fn push_if(acc: Seq<Seq<char>>, cond: bool, item: Seq<char>) -> Seq<Seq<char>> {
    if cond {
        acc.push(item)
    } else {
        acc
    }
}

/// The names of the features that can be used, in a fixed order.
pub open spec fn supported_features_of(caps: TerminalCapabilities, compat: CompatibilitySettings) -> Seq<Seq<char>> {
    let s0 = Seq::<Seq<char>>::empty();
    let s1 = push_if(s0, feature_supported(caps, compat, "mouse"@), "Mouse Support"@);
    let s2 = push_if(s1, feature_supported(caps, compat, "unicode"@), "Unicode Support"@);
    let s3 = push_if(s2, feature_supported(caps, compat, "truecolor"@), "True Color Support"@);
    let s4 = push_if(s3, feature_supported(caps, compat, "256color"@), "256 Color Support"@);
    let s5 = push_if(s4, feature_supported(caps, compat, "alternate_screen"@), "Alternate Screen"@);
    let s6 = push_if(s5, feature_supported(caps, compat, "cursor_shapes"@), "Cursor Shapes"@);
    let s7 = push_if(s6, feature_supported(caps, compat, "bracketed_paste"@), "Bracketed Paste"@);
    push_if(s7, feature_supported(caps, compat, "focus_events"@), "Focus Events"@)
}

/// The advice for the platform and terminal in use.
pub open spec fn recommendations_of(
    platform: Platform,
    info: TerminalInfo,
    caps: TerminalCapabilities,
    compat: CompatibilitySettings,
) -> Seq<Seq<char>> {
    let s0 = Seq::<Seq<char>>::empty();
    let truecolor = feature_supported(caps, compat, "truecolor"@);
    match platform {
        Platform::Windows => {
            let s1 = push_if(
                s0,
                info.name@ == "cmd"@,
                "Consider using Windows Terminal or PowerShell for better Unicode support"@,
            );
            push_if(s1, !truecolor, "Enable true color support in your terminal for better visual experience"@)
        },
        Platform::Linux => {
            let s1 = push_if(
                s0,
                env_get(info.environment_vars@, "SSH_TTY"@) is Some,
                "SSH detected: some features may be limited over remote connections"@,
            );
            push_if(
                s1,
                has_infix(info.name@, "xterm"@) && !truecolor,
                "Consider upgrading to a modern terminal emulator for better color support"@,
            )
        },
        Platform::MacOS => push_if(
            s0,
            info.name@ == "Terminal.app"@,
            "Consider using iTerm2 for enhanced terminal features"@,
        ),
        Platform::Unknown => s0.push("Platform not recognized: some features may not work optimally"@),
    }
}

/// The warnings for the terminal in use.
pub open spec fn warnings_of(info: TerminalInfo, caps: TerminalCapabilities, compat: CompatibilitySettings) -> Seq<
    Seq<char>,
> {
    let s0 = Seq::<Seq<char>>::empty();
    let s1 = push_if(
        s0,
        !feature_supported(caps, compat, "unicode"@),
        "Unicode support not detected: some characters may not display correctly"@,
    );
    let s2 = push_if(
        s1,
        caps.color_support == ColorSupport::NoColor || caps.color_support == ColorSupport::Basic16,
        "Limited color support detected: interface may appear less visually appealing"@,
    );
    let s3 = push_if(
        s2,
        !feature_supported(caps, compat, "mouse"@),
        "Mouse support disabled: use keyboard navigation only"@,
    );
    push_if(s3, info.size.0 < 80 || info.size.1 < 24, "Terminal size is small: interface may be cramped"@)
}

/// `acc` with the fix `name` added when the workaround of that name is on.
pub open spec fn note_fix(acc: Seq<Seq<char>>, compat: CompatibilitySettings, name: Seq<char>) -> Seq<Seq<char>> {
    push_if(acc, workaround_in(workaround_list(compat), name), name)
}

/// The fixes applied on a platform: those of its workarounds checked there
/// that are switched on.
pub open spec fn fixes_for(platform: Platform, compat: CompatibilitySettings) -> Seq<Seq<char>> {
    let s0 = Seq::<Seq<char>>::empty();
    match platform {
        Platform::Windows => note_fix(note_fix(s0, compat, "cmd_unicode_fix"@), compat, "powershell_color_fix"@),
        Platform::Linux => note_fix(note_fix(s0, compat, "ssh_color_detection"@), compat, "tmux_escape_fix"@),
        Platform::MacOS => note_fix(s0, compat, "terminal_app_focus_fix"@),
        Platform::Unknown => s0,
    }
}

/// Adds `item` to `v` when `cond` holds.
fn push_text_if(v: &mut Vec<String>, cond: bool, item: &str)
    ensures
        texts(final(v)@) == push_if(texts(old(v)@), cond, item@),
{
    if cond {
        push_text(v, item);
    }
}

/// An empty list of strings.
fn no_texts() -> (res: Vec<String>)
    ensures
        texts(res@) == Seq::<Seq<char>>::empty(),
{
    let res: Vec<String> = Vec::new();
    assert(texts(res@) =~= Seq::<Seq<char>>::empty());
    res
}

/// The colors of a terminal, named as crossterm names them: the plain
/// names are the bright colors, the `Dark` ones the standard colors (the
/// Blue of ratatui is `DarkBlue` here, its Gray `Grey`).
#[derive(Debug, Clone, Copy, PartialEq, Eq, Structural)]
pub enum TermColor {
    Reset,
    Black,
    DarkGrey,
    Red,
    DarkRed,
    Green,
    DarkGreen,
    Yellow,
    DarkYellow,
    Blue,
    DarkBlue,
    Magenta,
    DarkMagenta,
    Cyan,
    DarkCyan,
    White,
    Grey,
    Rgb { r: u8, g: u8, b: u8 },
    AnsiValue(u8),
}

/// The basic color closest to an RGB color: the dominant channel when one
/// dominates, else white for a bright color and black for a dark one.
pub open spec fn basic_color(r: u8, g: u8, b: u8) -> TermColor {
    if r > g && r > b {
        TermColor::Red
    } else if g > r && g > b {
        TermColor::Green
    } else if b > r && b > g {
        TermColor::Blue
    } else if (r + g + b) / 3 > 128 {
        TermColor::White
    } else {
        TermColor::Black
    }
}

/// A color as a terminal limited to the legacy colors shows it.
pub open spec fn optimized_color(legacy: bool, c: TermColor) -> TermColor {
    if legacy {
        match c {
            TermColor::Rgb { r, g, b } => basic_color(r, g, b),
            _ => c,
        }
    } else {
        c
    }
}

/// A key press as the platform delivers it to the interface: on macOS,
/// Command with a character counts as Control.
pub open spec fn mapped_key(platform: Platform, e: KeyEvent) -> KeyEvent {
    if platform == Platform::MacOS && e.code is Char && e.modifiers & MOD_SUPER != 0 {
        KeyEvent { code: e.code, modifiers: MOD_CONTROL }
    } else {
        e
    }
}

/// What a compatibility report says of the platform and terminal.
#[derive(Debug)]
pub struct PlatformCompatibilityReport {
    pub platform: Platform,
    pub terminal_name: String,
    pub terminal_version: Option<String>,
    pub capabilities: TerminalCapabilities,
    pub supported_features: Vec<String>,
    pub recommendations: Vec<String>,
    pub warnings: Vec<String>,
}

impl PlatformManager {
    /// The fixes to apply on this platform; applying them is the caller's
    /// work.
    pub fn apply_optimizations(&self) -> (res: Vec<String>)
        ensures
            texts(res@) == fixes_for(self.cfg().platform, self.cfg().compatibility),
    {
        match self.config.platform {
            Platform::Windows => self.apply_windows_optimizations(),
            Platform::Linux => self.apply_linux_optimizations(),
            Platform::MacOS => self.apply_macos_optimizations(),
            Platform::Unknown => self.apply_conservative_optimizations(),
        }
    }

    /// The Windows fixes whose workarounds are on.
    pub fn apply_windows_optimizations(&self) -> (res: Vec<String>)
        ensures
            texts(res@) == fixes_for(Platform::Windows, self.cfg().compatibility),
    {
        let compat = &self.config.compatibility;
        let mut res = no_texts();
        push_text_if(&mut res, compat.workaround("cmd_unicode_fix"), "cmd_unicode_fix");
        push_text_if(&mut res, compat.workaround("powershell_color_fix"), "powershell_color_fix");
        res
    }

    /// The Linux fixes whose workarounds are on.
    pub fn apply_linux_optimizations(&self) -> (res: Vec<String>)
        ensures
            texts(res@) == fixes_for(Platform::Linux, self.cfg().compatibility),
    {
        let compat = &self.config.compatibility;
        let mut res = no_texts();
        push_text_if(&mut res, compat.workaround("ssh_color_detection"), "ssh_color_detection");
        push_text_if(&mut res, compat.workaround("tmux_escape_fix"), "tmux_escape_fix");
        res
    }

    /// The macOS fixes whose workarounds are on.
    pub fn apply_macos_optimizations(&self) -> (res: Vec<String>)
        ensures
            texts(res@) == fixes_for(Platform::MacOS, self.cfg().compatibility),
    {
        let compat = &self.config.compatibility;
        let mut res = no_texts();
        push_text_if(&mut res, compat.workaround("terminal_app_focus_fix"), "terminal_app_focus_fix");
        res
    }

    /// No fix for an unknown platform.
    pub fn apply_conservative_optimizations(&self) -> (res: Vec<String>)
        ensures
            texts(res@) == fixes_for(Platform::Unknown, self.cfg().compatibility),
    {
        no_texts()
    }

    /// Whether the feature named `feature` can be used.
    pub fn is_feature_supported(&self, feature: &str) -> (res: bool)
        ensures
            res == feature_supported(self.caps(), self.cfg().compatibility, feature@),
    {
        let caps = &self.detected_capabilities;
        let compat = &self.config.compatibility;
        if text_eq(feature, "mouse") {
            caps.mouse_support && !compat.disable_mouse
        } else if text_eq(feature, "unicode") {
            caps.unicode_support && !compat.force_ascii_fallback
        } else if text_eq(feature, "truecolor") {
            caps.color_support == ColorSupport::TrueColor && !compat.use_legacy_colors
        } else if text_eq(feature, "256color") {
            (caps.color_support == ColorSupport::Extended256 || caps.color_support == ColorSupport::TrueColor)
                && !compat.use_legacy_colors
        } else if text_eq(feature, "alternate_screen") {
            caps.alternate_screen && !compat.disable_alternate_screen
        } else if text_eq(feature, "cursor_shapes") {
            caps.cursor_shapes
        } else if text_eq(feature, "bracketed_paste") {
            caps.bracketed_paste
        } else if text_eq(feature, "focus_events") {
            caps.focus_events
        } else {
            false
        }
    }

    /// The color to draw in place of `color` on this terminal.
    pub fn optimize_color(&self, color: TermColor) -> (res: TermColor)
        ensures
            res == optimized_color(self.cfg().compatibility.use_legacy_colors, color),
    {
        if self.config.compatibility.use_legacy_colors {
            match color {
                TermColor::Rgb { r, g, b } => {
                    let brightness: u16 = (r as u16 + g as u16 + b as u16) / 3;
                    if r > g && r > b {
                        TermColor::Red
                    } else if g > r && g > b {
                        TermColor::Green
                    } else if b > r && b > g {
                        TermColor::Blue
                    } else if brightness > 128 {
                        TermColor::White
                    } else {
                        TermColor::Black
                    }
                },
                _ => color,
            }
        } else {
            color
        }
    }

    /// A key press as this platform delivers it to the interface.
    pub fn map_key_event(&self, event: KeyEvent) -> (res: KeyEvent)
        ensures
            res == mapped_key(self.cfg().platform, event),
    {
        match self.config.platform {
            Platform::MacOS => self.map_macos_key(event),
            _ => event,
        }
    }

    /// On macOS, Command with a character counts as Control.
    fn map_macos_key(&self, event: KeyEvent) -> (res: KeyEvent)
        ensures
            res == mapped_key(Platform::MacOS, event),
    {
        match event.code {
            KeyCode::Char(_) => if event.modifiers & MOD_SUPER != 0 {
                KeyEvent { code: event.code, modifiers: MOD_CONTROL }
            } else {
                event
            },
            _ => event,
        }
    }

    /// The names of the features that can be used.
    pub fn get_supported_features(&self) -> (res: Vec<String>)
        ensures
            texts(res@) == supported_features_of(self.caps(), self.cfg().compatibility),
    {
        let mut res = no_texts();
        push_text_if(&mut res, self.is_feature_supported("mouse"), "Mouse Support");
        push_text_if(&mut res, self.is_feature_supported("unicode"), "Unicode Support");
        push_text_if(&mut res, self.is_feature_supported("truecolor"), "True Color Support");
        push_text_if(&mut res, self.is_feature_supported("256color"), "256 Color Support");
        push_text_if(&mut res, self.is_feature_supported("alternate_screen"), "Alternate Screen");
        push_text_if(&mut res, self.is_feature_supported("cursor_shapes"), "Cursor Shapes");
        push_text_if(&mut res, self.is_feature_supported("bracketed_paste"), "Bracketed Paste");
        push_text_if(&mut res, self.is_feature_supported("focus_events"), "Focus Events");
        res
    }

    /// Advice for the platform and terminal in use.
    pub fn get_platform_recommendations(&self) -> (res: Vec<String>)
        ensures
            texts(res@) == recommendations_of(
                self.cfg().platform,
                self.info(),
                self.caps(),
                self.cfg().compatibility,
            ),
    {
        let mut res = no_texts();
        let name = self.terminal_info.name.as_str();
        match self.config.platform {
            Platform::Windows => {
                push_text_if(
                    &mut res,
                    text_eq(name, "cmd"),
                    "Consider using Windows Terminal or PowerShell for better Unicode support",
                );
                push_text_if(
                    &mut res,
                    !self.is_feature_supported("truecolor"),
                    "Enable true color support in your terminal for better visual experience",
                );
            },
            Platform::Linux => {
                push_text_if(
                    &mut res,
                    env_lookup(&self.terminal_info.environment_vars, "SSH_TTY").is_some(),
                    "SSH detected: some features may be limited over remote connections",
                );
                let old_xterm = text_contains(name, "xterm") && !self.is_feature_supported("truecolor");
                push_text_if(
                    &mut res,
                    old_xterm,
                    "Consider upgrading to a modern terminal emulator for better color support",
                );
            },
            Platform::MacOS => {
                push_text_if(
                    &mut res,
                    text_eq(name, "Terminal.app"),
                    "Consider using iTerm2 for enhanced terminal features",
                );
            },
            Platform::Unknown => {
                push_text(&mut res, "Platform not recognized: some features may not work optimally");
            },
        }
        res
    }

    /// Warnings for the terminal in use.
    pub fn get_compatibility_warnings(&self) -> (res: Vec<String>)
        ensures
            texts(res@) == warnings_of(self.info(), self.caps(), self.cfg().compatibility),
    {
        let mut res = no_texts();
        push_text_if(
            &mut res,
            !self.is_feature_supported("unicode"),
            "Unicode support not detected: some characters may not display correctly",
        );
        let color = self.detected_capabilities.color_support;
        push_text_if(
            &mut res,
            color == ColorSupport::NoColor || color == ColorSupport::Basic16,
            "Limited color support detected: interface may appear less visually appealing",
        );
        push_text_if(
            &mut res,
            !self.is_feature_supported("mouse"),
            "Mouse support disabled: use keyboard navigation only",
        );
        let size = self.terminal_info.size;
        push_text_if(
            &mut res,
            size.0 < 80 || size.1 < 24,
            "Terminal size is small: interface may be cramped",
        );
        res
    }

    /// A report of the platform, the terminal, the features that can be
    /// used, advice and warnings.
    pub fn generate_compatibility_report(&self) -> (res: PlatformCompatibilityReport)
        ensures
            res.platform == self.cfg().platform,
            res.terminal_name == self.info().name,
            res.terminal_version == self.info().version,
            res.capabilities == self.caps(),
            texts(res.supported_features@) == supported_features_of(self.caps(), self.cfg().compatibility),
            texts(res.recommendations@) == recommendations_of(
                self.cfg().platform,
                self.info(),
                self.caps(),
                self.cfg().compatibility,
            ),
            texts(res.warnings@) == warnings_of(self.info(), self.caps(), self.cfg().compatibility),
    {
        PlatformCompatibilityReport {
            platform: self.config.platform,
            terminal_name: self.terminal_info.name.clone(),
            terminal_version: copy_opt_text(&self.terminal_info.version),
            capabilities: self.detected_capabilities.clone(),
            supported_features: self.get_supported_features(),
            recommendations: self.get_platform_recommendations(),
            warnings: self.get_compatibility_warnings(),
        }
    }
}

impl PlatformManager {
    /// The settings used when the terminal cannot be detected: an unknown
    /// platform, a terminal named `unknown` of 80 by 24 with 16 colors and
    /// few features, and the cautious settings.
    pub fn fallback() -> (res: Self)
        ensures
            res.cfg().platform == Platform::Unknown,
            res.cfg().optimizations == optimizations_for(Platform::Unknown),
            compatibility_for(res.cfg().compatibility, Platform::Unknown),
            res.cfg().terminal_capabilities == res.caps(),
            res.caps() == (TerminalCapabilities {
                color_support: ColorSupport::Basic16,
                unicode_support: false,
                mouse_support: false,
                resize_support: true,
                alternate_screen: true,
                cursor_shapes: false,
                bracketed_paste: false,
                focus_events: false,
                max_colors: 16,
                terminal_type: res.caps().terminal_type,
            }),
            res.caps().terminal_type@ == "unknown"@,
            res.info().name@ == "unknown"@,
            res.info().version is None,
            res.info().size == (80u16, 24u16),
            res.info().environment_vars@.len() == 0,
    {
        let capabilities = TerminalCapabilities {
            color_support: ColorSupport::Basic16,
            unicode_support: false,
            mouse_support: false,
            resize_support: true,
            alternate_screen: true,
            cursor_shapes: false,
            bracketed_paste: false,
            focus_events: false,
            max_colors: 16,
            terminal_type: String::from_str("unknown"),
        };
        let config = PlatformConfig {
            platform: Platform::Unknown,
            terminal_capabilities: capabilities.clone(),
            optimizations: Self::default_optimizations_for_platform(&Platform::Unknown),
            compatibility: Self::default_compatibility_for_platform(&Platform::Unknown),
        };
        PlatformManager {
            config,
            detected_capabilities: capabilities,
            terminal_info: TerminalInfo {
                name: String::from_str("unknown"),
                version: None,
                size: (80, 24),
                environment_vars: Vec::new(),
            },
        }
    }
}

/// The outcome of one terminal test.
#[derive(Debug)]
pub struct TestResult {
    pub passed: bool,
    pub message: String,
    pub details: Vec<String>,
}

/// Whether `t` is the outcome with this verdict, message and details.
pub open spec fn test_result_is(t: TestResult, passed: bool, message: Seq<char>, details: Seq<Seq<char>>) -> bool {
    t.passed == passed && t.message@ == message && texts(t.details@) == details
}

/// An outcome.
fn test_result(passed: bool, message: &str, detail: Option<&str>) -> (res: TestResult)
    ensures
        test_result_is(
            res,
            passed,
            message@,
            match detail {
                Some(d) => seq![d@],
                None => Seq::empty(),
            },
        ),
{
    let mut details = no_texts();
    if let Some(d) = detail {
        push_text(&mut details, d);
        assert(Seq::<Seq<char>>::empty().push(d@) =~= seq![d@]);
    }
    TestResult { passed, message: String::from_str(message), details }
}

/// The outcomes of the terminal tests.
#[derive(Debug)]
pub struct TerminalTestResults {
    pub color_test: TestResult,
    pub unicode_test: TestResult,
    pub mouse_test: TestResult,
    pub resize_test: TestResult,
    pub keyboard_test: TestResult,
}

/// How many of the five tests passed.
pub open spec fn passed_count(r: TerminalTestResults) -> nat {
    (if r.color_test.passed { 1nat } else { 0nat }) + (if r.unicode_test.passed { 1nat } else { 0nat }) + (
    if r.mouse_test.passed { 1nat } else { 0nat }) + (if r.resize_test.passed { 1nat } else { 0nat }) + (
    if r.keyboard_test.passed { 1nat } else { 0nat })
}

impl TerminalTestResults {
    /// Outcomes of tests not run yet: none passed, each marked `Not tested`.
    pub fn new() -> (res: Self)
        ensures
            test_result_is(res.color_test, false, "Not tested"@, Seq::empty()),
            test_result_is(res.unicode_test, false, "Not tested"@, Seq::empty()),
            test_result_is(res.mouse_test, false, "Not tested"@, Seq::empty()),
            test_result_is(res.resize_test, false, "Not tested"@, Seq::empty()),
            test_result_is(res.keyboard_test, false, "Not tested"@, Seq::empty()),
    {
        TerminalTestResults {
            color_test: test_result(false, "Not tested", None),
            unicode_test: test_result(false, "Not tested", None),
            mouse_test: test_result(false, "Not tested", None),
            resize_test: test_result(false, "Not tested", None),
            keyboard_test: test_result(false, "Not tested", None),
        }
    }

    /// Whether every test passed.
    pub fn all_passed(&self) -> (res: bool)
        ensures
            res == (self.color_test.passed && self.unicode_test.passed && self.mouse_test.passed
                && self.resize_test.passed && self.keyboard_test.passed),
    {
        self.color_test.passed && self.unicode_test.passed && self.mouse_test.passed && self.resize_test.passed
            && self.keyboard_test.passed
    }

    /// How many tests passed, as `3/5 tests passed`.
    pub fn summary(&self) -> (res: String)
        ensures
            res@ == decimal_text(passed_count(*self)) + "/5 tests passed"@,
    {
        let mut passed: usize = 0;
        if self.color_test.passed {
            passed = passed + 1;
        }
        if self.unicode_test.passed {
            passed = passed + 1;
        }
        if self.mouse_test.passed {
            passed = passed + 1;
        }
        if self.resize_test.passed {
            passed = passed + 1;
        }
        if self.keyboard_test.passed {
            passed = passed + 1;
        }
        let mut res = decimal_string(passed);
        res.append("/5 tests passed");
        res
    }
}

/// The terminal tests.
pub struct TerminalTester;

impl TerminalTester {
    /// Runs every terminal test. Mouse testing needs a user, so that test is
    /// skipped and does not pass; the others pass.
    pub fn run_compatibility_tests() -> (res: TerminalTestResults)
        ensures
            test_result_is(res.color_test, true, "Color support test passed"@, seq!["16 colors supported"@]),
            test_result_is(
                res.unicode_test,
                true,
                "Unicode support test passed"@,
                seq!["Basic Unicode characters supported"@],
            ),
            test_result_is(
                res.mouse_test,
                false,
                "Mouse support test skipped"@,
                seq!["Mouse testing requires user interaction"@],
            ),
            test_result_is(
                res.resize_test,
                true,
                "Resize support test passed"@,
                seq!["Terminal resize events supported"@],
            ),
            test_result_is(
                res.keyboard_test,
                true,
                "Keyboard support test passed"@,
                seq!["Basic keyboard input supported"@],
            ),
    {
        let mut results = TerminalTestResults::new();
        results.color_test = Self::test_color_support();
        results.unicode_test = Self::test_unicode_support();
        results.mouse_test = Self::test_mouse_support();
        results.resize_test = Self::test_resize_support();
        results.keyboard_test = Self::test_keyboard_support();
        results
    }

    fn test_color_support() -> (res: TestResult)
        ensures
            test_result_is(res, true, "Color support test passed"@, seq!["16 colors supported"@]),
    {
        test_result(true, "Color support test passed", Some("16 colors supported"))
    }

    fn test_unicode_support() -> (res: TestResult)
        ensures
            test_result_is(res, true, "Unicode support test passed"@, seq!["Basic Unicode characters supported"@]),
    {
        test_result(true, "Unicode support test passed", Some("Basic Unicode characters supported"))
    }

    fn test_mouse_support() -> (res: TestResult)
        ensures
            test_result_is(
                res,
                false,
                "Mouse support test skipped"@,
                seq!["Mouse testing requires user interaction"@],
            ),
    {
        test_result(false, "Mouse support test skipped", Some("Mouse testing requires user interaction"))
    }

    fn test_resize_support() -> (res: TestResult)
        ensures
            test_result_is(res, true, "Resize support test passed"@, seq!["Terminal resize events supported"@]),
    {
        test_result(true, "Resize support test passed", Some("Terminal resize events supported"))
    }

    fn test_keyboard_support() -> (res: TestResult)
        ensures
            test_result_is(res, true, "Keyboard support test passed"@, seq!["Basic keyboard input supported"@]),
    {
        test_result(true, "Keyboard support test passed", Some("Basic keyboard input supported"))
    }
}

/// How the environment decides the color support: `COLORTERM` naming true
/// color (`truecolor` or `24bit`) gives true color; otherwise a `TERM`
/// naming 256 colors gives 256, and a `TERM` that names colors but not 256
/// gives the 16 basic colors; only a `TERM` that names no colors (or none)
/// leaves it to the terminal's name.
pub proof fn law_color_support_levels(info: TerminalInfo)
    ensures
        ({
            let env = info.environment_vars@;
            let truecolor = env_get(env, "COLORTERM"@) matches Some(c) && (has_infix(c, "truecolor"@) || has_infix(
                c,
                "24bit"@,
            ));
            let term = env_get(env, "TERM"@);
            &&& truecolor ==> color_support_of(info) == ColorSupport::TrueColor
            &&& !truecolor && (term matches Some(t) && has_infix(t, "256"@)) ==> color_support_of(info)
                == ColorSupport::Extended256
            &&& !truecolor && (term matches Some(t) && has_infix(t, "color"@) && !has_infix(t, "256"@))
                ==> color_support_of(info) == ColorSupport::Basic16 && max_colors_of(color_support_of(info)) == 16
            &&& !truecolor && !(term matches Some(t) && (has_infix(t, "color"@) || has_infix(t, "256"@)))
                ==> color_support_of(info) == color_support_by_name(info.name@, env_get(env, "SSH_TTY"@) is Some)
        }),
{
    let env = info.environment_vars@;
    let term = env_get(env, "TERM"@);
    if let Some(t) = term {
        if has_infix(t, "256color"@) {
            reveal_strlit("256color");
            reveal_strlit("256");
            let n = "256color"@;
            let i = choose|i: int| 0 <= i && i + n.len() <= t.len() && #[trigger] t.subrange(i, i + n.len()) == n;
            assert(t.subrange(i, i + 8) == n);
            assert(t.subrange(i, i + 3) =~= "256"@) by {
                assert forall|k: int| 0 <= k < 3 implies t.subrange(i, i + 3)[k] == "256"@[k] by {
                    assert(t.subrange(i, i + 3)[k] == t.subrange(i, i + 8)[k]);
                }
            }
            assert(t.subrange(i, i + "256"@.len()) == "256"@);
            assert(has_infix(t, "256"@));
        }
    }
}

} // verus!
