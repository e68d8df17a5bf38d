//! Error classification, recovery strategies and error display state.

use vstd::prelude::*;
use vstd::string::*;
use crate::platform::TermColor;
use crate::text::{quoted, quoted_text};
use crate::help::{HelpLine, HelpLineStyle, help_line, help_line_view};
use crate::layout::Rect;
use crate::action::{decimal_string, decimal_text};

verus! {

/// The characters of each string of a sequence.
pub open spec fn strings_view(v: Seq<String>) -> Seq<Seq<char>> {
    v.map_values(|s: String| s@)
}

/// A copy of a vector of strings.
pub fn copy_strings(v: &Vec<String>) -> (res: Vec<String>)
    ensures
        res@ == v@,
{
    let res = v.clone();
    assert(res@ =~= v@);
    res
}

/// Errors raised by the terminal interface, each with a message.
#[derive(Debug)]
pub enum TuiError {
    RenderError { message: String },
    InputError { message: String },
    DataError { message: String },
    ConfigError { message: String },
    TerminalError { message: String },
    WidgetError { widget_id: String, message: String },
    LayoutError { message: String },
    ThemeError { message: String },
    NetworkError { message: String },
    PermissionError { message: String },
}

impl Clone for TuiError {
    fn clone(&self) -> (res: Self)
        ensures
            res == *self,
    {
        match self {
            TuiError::RenderError { message } => TuiError::RenderError { message: message.clone() },
            TuiError::InputError { message } => TuiError::InputError { message: message.clone() },
            TuiError::DataError { message } => TuiError::DataError { message: message.clone() },
            TuiError::ConfigError { message } => TuiError::ConfigError { message: message.clone() },
            TuiError::TerminalError { message } => TuiError::TerminalError {
                message: message.clone(),
            },
            TuiError::WidgetError { widget_id, message } => TuiError::WidgetError {
                widget_id: widget_id.clone(),
                message: message.clone(),
            },
            TuiError::LayoutError { message } => TuiError::LayoutError { message: message.clone() },
            TuiError::ThemeError { message } => TuiError::ThemeError { message: message.clone() },
            TuiError::NetworkError { message } => TuiError::NetworkError {
                message: message.clone(),
            },
            TuiError::PermissionError { message } => TuiError::PermissionError {
                message: message.clone(),
            },
        }
    }
}

/// The text shown for an error: a label for its kind, then its message.
pub open spec fn error_text(e: TuiError) -> Seq<char> {
    match e {
        TuiError::RenderError { message } => "渲染错误: "@ + message@,
        TuiError::InputError { message } => "输入处理错误: "@ + message@,
        TuiError::DataError { message } => "数据同步错误: "@ + message@,
        TuiError::ConfigError { message } => "配置错误: "@ + message@,
        TuiError::TerminalError { message } => "终端操作错误: "@ + message@,
        TuiError::WidgetError { widget_id, message } => "Widget错误: "@ + widget_id@ + " - "@
            + message@,
        TuiError::LayoutError { message } => "布局错误: "@ + message@,
        TuiError::ThemeError { message } => "主题错误: "@ + message@,
        TuiError::NetworkError { message } => "网络连接错误: "@ + message@,
        TuiError::PermissionError { message } => "权限错误: "@ + message@,
    }
}

/// A string holding `prefix` followed by `rest`.
fn join_text(prefix: &str, rest: &str) -> (res: String)
    ensures
        res@ == prefix@ + rest@,
{
    let mut s = String::from_str(prefix);
    s.append(rest);
    s
}

impl TuiError {
    /// The text shown for this error.
    pub fn to_text(&self) -> (res: String)
        ensures
            res@ == error_text(*self),
    {
        match self {
            TuiError::RenderError { message } => join_text("渲染错误: ", message.as_str()),
            TuiError::InputError { message } => join_text("输入处理错误: ", message.as_str()),
            TuiError::DataError { message } => join_text("数据同步错误: ", message.as_str()),
            TuiError::ConfigError { message } => join_text("配置错误: ", message.as_str()),
            TuiError::TerminalError { message } => join_text("终端操作错误: ", message.as_str()),
            TuiError::WidgetError { widget_id, message } => {
                let mut s = join_text("Widget错误: ", widget_id.as_str());
                s.append(" - ");
                s.append(message.as_str());
                s
            },
            TuiError::LayoutError { message } => join_text("布局错误: ", message.as_str()),
            TuiError::ThemeError { message } => join_text("主题错误: ", message.as_str()),
            TuiError::NetworkError { message } => join_text("网络连接错误: ", message.as_str()),
            TuiError::PermissionError { message } => join_text("权限错误: ", message.as_str()),
        }
    }

    /// A rendering error with the given message.
    pub fn render_error(message: String) -> (res: Self)
        ensures
            res == (TuiError::RenderError { message }),
    {
        TuiError::RenderError { message }
    }

    /// An input error with the given message.
    pub fn input_error(message: String) -> (res: Self)
        ensures
            res == (TuiError::InputError { message }),
    {
        TuiError::InputError { message }
    }

    /// A data synchronisation error with the given message.
    pub fn data_error(message: String) -> (res: Self)
        ensures
            res == (TuiError::DataError { message }),
    {
        TuiError::DataError { message }
    }

    /// An error of one widget, with its identifier and a message.
    pub fn widget_error(widget_id: String, message: String) -> (res: Self)
        ensures
            res == (TuiError::WidgetError { widget_id, message }),
    {
        TuiError::WidgetError { widget_id, message }
    }

    /// A network error with the given message.
    pub fn network_error(message: String) -> (res: Self)
        ensures
            res == (TuiError::NetworkError { message }),
    {
        TuiError::NetworkError { message }
    }
}

/// Severity levels, ordered from least to most severe.
#[derive(Debug, Clone, Copy, PartialEq, Eq, Structural)]
pub enum ErrorSeverity {
    Info,
    Warning,
    Error,
    Critical,
}

impl ErrorSeverity {
    /// The position of a severity in the order Info < Warning < Error < Critical.
    pub open spec fn rank(self) -> int {
        match self {
            ErrorSeverity::Info => 0,
            ErrorSeverity::Warning => 1,
            ErrorSeverity::Error => 2,
            ErrorSeverity::Critical => 3,
        }
    }

    /// The symbol shown in front of an error of this severity.
    pub fn icon(&self) -> (res: &'static str)
        ensures
            res@ == match *self {
                ErrorSeverity::Info => "ℹ"@,
                ErrorSeverity::Warning => "⚠"@,
                ErrorSeverity::Error => "✗"@,
                ErrorSeverity::Critical => "🔥"@,
            },
    {
        match self {
            ErrorSeverity::Info => "ℹ",
            ErrorSeverity::Warning => "⚠",
            ErrorSeverity::Error => "✗",
            ErrorSeverity::Critical => "🔥",
        }
    }

    /// The name of this severity as shown to the user.
    pub fn label(&self) -> (res: &'static str)
        ensures
            res@ == match *self {
                ErrorSeverity::Info => "信息"@,
                ErrorSeverity::Warning => "警告"@,
                ErrorSeverity::Error => "错误"@,
                ErrorSeverity::Critical => "严重"@,
            },
    {
        match self {
            ErrorSeverity::Info => "信息",
            ErrorSeverity::Warning => "警告",
            ErrorSeverity::Error => "错误",
            ErrorSeverity::Critical => "严重",
        }
    }
}

/// How the interface tries to recover from an error.
#[derive(Debug, Clone, Copy, PartialEq, Eq, Structural)]
pub enum RecoveryStrategy {
    /// Retry the operation with exponential backoff.
    Retry { max_attempts: u32, delay_ms: u64 },
    /// Use a default value.
    UseDefault,
    /// Skip the operation.
    Skip,
    /// Restart the component.
    RestartComponent,
    /// Show a dialog and wait for the user.
    ShowDialog,
    /// Disable the feature.
    Degrade,
    /// Manual intervention is needed.
    Manual,
}

/// The severity that an error gets when it is first reported.
pub open spec fn default_severity(e: TuiError) -> ErrorSeverity {
    match e {
        TuiError::RenderError { .. } => ErrorSeverity::Warning,
        TuiError::InputError { .. } => ErrorSeverity::Warning,
        TuiError::DataError { .. } => ErrorSeverity::Error,
        TuiError::ConfigError { .. } => ErrorSeverity::Error,
        TuiError::TerminalError { .. } => ErrorSeverity::Critical,
        TuiError::WidgetError { .. } => ErrorSeverity::Warning,
        TuiError::NetworkError { .. } => ErrorSeverity::Error,
        TuiError::PermissionError { .. } => ErrorSeverity::Error,
        _ => ErrorSeverity::Error,
    }
}

/// The recovery strategy that an error gets when it is first reported.
pub open spec fn default_strategy(e: TuiError) -> RecoveryStrategy {
    match e {
        TuiError::RenderError { .. } => RecoveryStrategy::Retry { max_attempts: 3, delay_ms: 100 },
        TuiError::InputError { .. } => RecoveryStrategy::Skip,
        TuiError::DataError { .. } => RecoveryStrategy::Retry { max_attempts: 5, delay_ms: 1000 },
        TuiError::ConfigError { .. } => RecoveryStrategy::UseDefault,
        TuiError::TerminalError { .. } => RecoveryStrategy::RestartComponent,
        TuiError::WidgetError { .. } => RecoveryStrategy::Degrade,
        TuiError::NetworkError { .. } => RecoveryStrategy::Retry {
            max_attempts: 3,
            delay_ms: 2000,
        },
        TuiError::PermissionError { .. } => RecoveryStrategy::Manual,
        _ => RecoveryStrategy::ShowDialog,
    }
}

/// The message shown to the user when an error is first reported.
pub open spec fn default_user_message(e: TuiError) -> Seq<char> {
    match e {
        TuiError::RenderError { .. } => "界面渲染出现问题，正在尝试恢复"@,
        TuiError::InputError { .. } => "输入处理失败，请重试"@,
        TuiError::DataError { .. } => "数据同步失败，正在重试"@,
        TuiError::ConfigError { .. } => "配置加载失败，使用默认配置"@,
        TuiError::TerminalError { .. } => "终端操作失败，需要重启"@,
        TuiError::WidgetError { .. } => "组件出现问题，已禁用相关功能"@,
        TuiError::NetworkError { .. } => "网络连接失败，正在重试"@,
        TuiError::PermissionError { .. } => "权限不足，请检查访问权限"@,
        _ => "发生未知错误"@,
    }
}

/// The two suggestions offered when an error is first reported.
pub open spec fn default_suggestions(e: TuiError) -> Seq<Seq<char>> {
    match e {
        TuiError::RenderError { .. } => seq!["检查终端大小"@, "重启应用程序"@],
        TuiError::InputError { .. } => seq!["检查输入格式"@, "使用默认值"@],
        TuiError::DataError { .. } => seq!["检查网络连接"@, "刷新数据"@],
        TuiError::ConfigError { .. } => seq!["检查配置文件"@, "重置配置"@],
        TuiError::TerminalError { .. } => seq!["重启应用程序"@, "检查终端兼容性"@],
        TuiError::WidgetError { .. } => seq!["刷新界面"@, "重启应用程序"@],
        TuiError::NetworkError { .. } => seq!["检查网络连接"@, "切换到离线模式"@],
        TuiError::PermissionError { .. } => seq!["联系管理员"@, "检查文件权限"@],
        _ => seq!["重试操作"@, "重启应用程序"@],
    }
}

/// A vector of the two given strings.
fn two_strings(a: &str, b: &str) -> (res: Vec<String>)
    ensures
        strings_view(res@) == seq![a@, b@],
{
    let mut v: Vec<String> = Vec::new();
    v.push(String::from_str(a));
    v.push(String::from_str(b));
    assert(strings_view(v@) =~= seq![a@, b@]);
    v
}

/// The debug representation of an error, as the derived `Debug` prints
/// it: the variant's name and its fields by name, the strings quoted.
pub open spec fn debug_representation(e: TuiError) -> Seq<char> {
    match e {
        TuiError::RenderError { message } => "RenderError { message: "@ + quoted(message@) + " }"@,
        TuiError::InputError { message } => "InputError { message: "@ + quoted(message@) + " }"@,
        TuiError::DataError { message } => "DataError { message: "@ + quoted(message@) + " }"@,
        TuiError::ConfigError { message } => "ConfigError { message: "@ + quoted(message@) + " }"@,
        TuiError::TerminalError { message } => "TerminalError { message: "@ + quoted(message@) + " }"@,
        TuiError::WidgetError { widget_id, message } => "WidgetError { widget_id: "@ + quoted(widget_id@)
            + ", message: "@ + quoted(message@) + " }"@,
        TuiError::LayoutError { message } => "LayoutError { message: "@ + quoted(message@) + " }"@,
        TuiError::ThemeError { message } => "ThemeError { message: "@ + quoted(message@) + " }"@,
        TuiError::NetworkError { message } => "NetworkError { message: "@ + quoted(message@) + " }"@,
        TuiError::PermissionError { message } => "PermissionError { message: "@ + quoted(message@) + " }"@,
    }
}

/// `prefix`, then `s` quoted, then a closing brace.
fn quoted_field(prefix: &str, s: &str) -> (res: String)
    ensures
        res@ == prefix@ + quoted(s@) + " }"@,
{
    let mut t = String::from_str(prefix);
    t.append(quoted_text(s).as_str());
    t.append(" }");
    t
}

/// The debug representation of an error.
pub fn debug_text(e: &TuiError) -> (res: String)
    ensures
        res@ == debug_representation(*e),
{
    match e {
        TuiError::RenderError { message } => quoted_field("RenderError { message: ", message.as_str()),
        TuiError::InputError { message } => quoted_field("InputError { message: ", message.as_str()),
        TuiError::DataError { message } => quoted_field("DataError { message: ", message.as_str()),
        TuiError::ConfigError { message } => quoted_field("ConfigError { message: ", message.as_str()),
        TuiError::TerminalError { message } => quoted_field("TerminalError { message: ", message.as_str()),
        TuiError::WidgetError { widget_id, message } => {
            let mut t = String::from_str("WidgetError { widget_id: ");
            t.append(quoted_text(widget_id.as_str()).as_str());
            t.append(", message: ");
            t.append(quoted_text(message.as_str()).as_str());
            t.append(" }");
            t
        },
        TuiError::LayoutError { message } => quoted_field("LayoutError { message: ", message.as_str()),
        TuiError::ThemeError { message } => quoted_field("ThemeError { message: ", message.as_str()),
        TuiError::NetworkError { message } => quoted_field("NetworkError { message: ", message.as_str()),
        TuiError::PermissionError { message } => quoted_field("PermissionError { message: ", message.as_str()),
    }
}

/// The milliseconds elapsed since the Unix epoch, as the system clock reads
/// them (`std::time::SystemTime::now`). Nothing is promised of the value: it
/// depends on the clock.
#[verifier::external_body]
pub fn clock_now_ms() -> (res: u64) {
    match std::time::SystemTime::now().duration_since(std::time::UNIX_EPOCH) {
        Ok(d) => d.as_millis() as u64,
        Err(_) => 0,
    }
}

/// How long has passed from `start` to `now`, or zero when `now` is earlier.
pub open spec fn elapsed_ms(start: u64, now: u64) -> int {
    if now >= start { now - start } else { 0 }
}

/// Two to the power `k`.
pub open spec fn pow2(k: nat) -> nat
    decreases k,
{
    if k == 0 { 1 } else { 2 * pow2((k - 1) as nat) }
}

/// The smaller of two integers.
pub open spec fn min_int(a: int, b: int) -> int {
    if a <= b { a } else { b }
}

/// The backoff delay before retry number `retry_count + 1`: the base delay
/// doubled once per retry already made (at most ten times), capped at thirty
/// seconds.
pub open spec fn backoff_delay(delay_ms: u64, retry_count: u32) -> int {
    min_int(delay_ms * pow2(min_int(retry_count as int, 10) as nat), 30000)
}

/// An error with what is known about how to recover from it.
#[derive(Debug)]
pub struct ErrorContext {
    pub error: TuiError,
    pub severity: ErrorSeverity,
    /// When the error was recorded, in milliseconds.
    pub timestamp_ms: u64,
    pub component: String,
    pub recovery_strategy: RecoveryStrategy,
    pub user_message: String,
    pub technical_details: String,
    pub recovery_suggestions: Vec<String>,
    pub retry_count: u32,
}

impl Clone for ErrorContext {
    fn clone(&self) -> (res: Self)
        ensures
            res.equivalent(*self),
    {
        ErrorContext {
            error: self.error.clone(),
            severity: self.severity,
            timestamp_ms: self.timestamp_ms,
            component: self.component.clone(),
            recovery_strategy: self.recovery_strategy,
            user_message: self.user_message.clone(),
            technical_details: self.technical_details.clone(),
            recovery_suggestions: copy_strings(&self.recovery_suggestions),
            retry_count: self.retry_count,
        }
    }
}

impl ErrorContext {
    /// Whether two contexts hold the same values, the suggestions compared by
    /// their contents.
    pub open spec fn equivalent(self, other: Self) -> bool {
        &&& self.error == other.error
        &&& self.severity == other.severity
        &&& self.timestamp_ms == other.timestamp_ms
        &&& self.component == other.component
        &&& self.recovery_strategy == other.recovery_strategy
        &&& self.user_message == other.user_message
        &&& self.technical_details == other.technical_details
        &&& self.recovery_suggestions@ == other.recovery_suggestions@
        &&& self.retry_count == other.retry_count
    }

    /// Whether this context is the one that `new_at` builds for `error` and
    /// `component` at time `now`.
    pub open spec fn is_fresh(self, error: TuiError, component: String, now: u64) -> bool {
        &&& self.error == error
        &&& self.component == component
        &&& self.timestamp_ms == now
        &&& self.severity == default_severity(error)
        &&& self.recovery_strategy == default_strategy(error)
        &&& self.user_message@ == default_user_message(error)
        &&& strings_view(self.recovery_suggestions@) == default_suggestions(error)
        &&& self.technical_details@ == debug_representation(error)
        &&& self.retry_count == 0
    }

    /// The context of an error reported by `component`, recorded at time `now`
    /// (milliseconds): its severity, strategy, message and suggestions follow
    /// from the kind of error.
    pub fn new_at(error: TuiError, component: String, now: u64) -> (res: Self)
        ensures
            res.is_fresh(error, component, now),
    {
        let (severity, recovery_strategy, user_message, suggestions) = match &error {
            TuiError::RenderError { .. } => (
                ErrorSeverity::Warning,
                RecoveryStrategy::Retry { max_attempts: 3, delay_ms: 100 },
                String::from_str("界面渲染出现问题，正在尝试恢复"),
                two_strings("检查终端大小", "重启应用程序"),
            ),
            TuiError::InputError { .. } => (
                ErrorSeverity::Warning,
                RecoveryStrategy::Skip,
                String::from_str("输入处理失败，请重试"),
                two_strings("检查输入格式", "使用默认值"),
            ),
            TuiError::DataError { .. } => (
                ErrorSeverity::Error,
                RecoveryStrategy::Retry { max_attempts: 5, delay_ms: 1000 },
                String::from_str("数据同步失败，正在重试"),
                two_strings("检查网络连接", "刷新数据"),
            ),
            TuiError::ConfigError { .. } => (
                ErrorSeverity::Error,
                RecoveryStrategy::UseDefault,
                String::from_str("配置加载失败，使用默认配置"),
                two_strings("检查配置文件", "重置配置"),
            ),
            TuiError::TerminalError { .. } => (
                ErrorSeverity::Critical,
                RecoveryStrategy::RestartComponent,
                String::from_str("终端操作失败，需要重启"),
                two_strings("重启应用程序", "检查终端兼容性"),
            ),
            TuiError::WidgetError { .. } => (
                ErrorSeverity::Warning,
                RecoveryStrategy::Degrade,
                String::from_str("组件出现问题，已禁用相关功能"),
                two_strings("刷新界面", "重启应用程序"),
            ),
            TuiError::NetworkError { .. } => (
                ErrorSeverity::Error,
                RecoveryStrategy::Retry { max_attempts: 3, delay_ms: 2000 },
                String::from_str("网络连接失败，正在重试"),
                two_strings("检查网络连接", "切换到离线模式"),
            ),
            TuiError::PermissionError { .. } => (
                ErrorSeverity::Error,
                RecoveryStrategy::Manual,
                String::from_str("权限不足，请检查访问权限"),
                two_strings("联系管理员", "检查文件权限"),
            ),
            _ => (
                ErrorSeverity::Error,
                RecoveryStrategy::ShowDialog,
                String::from_str("发生未知错误"),
                two_strings("重试操作", "重启应用程序"),
            ),
        };
        let technical_details = debug_text(&error);
        ErrorContext {
            technical_details,
            user_message,
            recovery_suggestions: suggestions,
            error,
            severity,
            timestamp_ms: now,
            component,
            recovery_strategy,
            retry_count: 0,
        }
    }

    /// The context of an error reported by `component`, recorded at the
    /// current time of the system clock.
    pub fn new(error: TuiError, component: String) -> (res: Self)
        ensures
            exists|now: u64| res.is_fresh(error, component, now),
    {
        let now = clock_now_ms();
        Self::new_at(error, component, now)
    }

    /// This context with another message for the user.
    pub fn with_user_message(self, message: String) -> (res: Self)
        ensures
            res == (ErrorContext { user_message: message, ..self }),
    {
        let mut s = self;
        s.user_message = message;
        s
    }

    /// This context with other recovery suggestions.
    pub fn with_suggestions(self, suggestions: Vec<String>) -> (res: Self)
        ensures
            res == (ErrorContext { recovery_suggestions: suggestions, ..self }),
    {
        let mut s = self;
        s.recovery_suggestions = suggestions;
        s
    }

    /// Counts one more retry.
    pub fn increment_retry(&mut self)
        requires
            old(self).retry_count < u32::MAX,
        ensures
            *final(self) == (ErrorContext { retry_count: (old(self).retry_count + 1) as u32, ..*old(self) }),
    {
        self.retry_count = self.retry_count + 1;
    }

    /// Whether the strategy is to retry and the retries made are fewer than
    /// the attempts allowed.
    pub open spec fn spec_should_retry(self) -> bool {
        match self.recovery_strategy {
            RecoveryStrategy::Retry { max_attempts, .. } => self.retry_count < max_attempts,
            _ => false,
        }
    }

    /// Whether another retry is allowed.
    pub fn should_retry(&self) -> (res: bool)
        ensures
            res == self.spec_should_retry(),
    {
        match &self.recovery_strategy {
            RecoveryStrategy::Retry { max_attempts, .. } => self.retry_count < *max_attempts,
            _ => false,
        }
    }

    /// Whether the backoff delay of this context fits in 64 bits before it is
    /// capped.
    pub open spec fn delay_fits(self) -> bool {
        match self.recovery_strategy {
            RecoveryStrategy::Retry { delay_ms, .. } => delay_ms * pow2(
                min_int(self.retry_count as int, 10) as nat,
            ) <= u64::MAX,
            _ => true,
        }
    }

    /// The delay in milliseconds before the next retry: exponential backoff
    /// for the retry strategy, zero for the others.
    pub fn retry_delay(&self) -> (res: u64)
        requires
            self.delay_fits(),
        ensures
            res == match self.recovery_strategy {
                RecoveryStrategy::Retry { delay_ms, .. } => backoff_delay(delay_ms, self.retry_count),
                _ => 0,
            },
    {
        match &self.recovery_strategy {
            RecoveryStrategy::Retry { delay_ms, .. } => {
                let k: u32 = if self.retry_count < 10 { self.retry_count } else { 10 };
                let mut factor: u64 = 1;
                let mut i: u32 = 0;
                while i < k
                    invariant
                        i <= k <= 10,
                        factor == pow2(i as nat),
                    decreases k - i,
                {
                    proof {
                        reveal_with_fuel(pow2, 11);
                    }
                    factor = factor * 2;
                    i = i + 1;
                }
                let backoff: u64 = *delay_ms * factor;
                if backoff < 30000 { backoff } else { 30000 }
            },
            _ => 0,
        }
    }

    /// Whether the delay computed after one more retry fits in 64 bits.
    pub open spec fn next_delay_fits(self) -> bool {
        (ErrorContext { retry_count: (self.retry_count + 1) as u32, ..self }).delay_fits()
    }
}

/// What a recovery handler decided for an error.
#[derive(Debug, Clone, Copy, PartialEq, Eq, Structural)]
pub enum RecoveryOutcome {
    /// Retry the operation after waiting this many milliseconds.
    RetryAfter { delay_ms: u64 },
    /// The error was dealt with; the operation can go on.
    Recovered,
    /// The handler could not recover.
    NotRecovered,
}

/// A handler that tries to recover from errors; the application provides
/// implementations of its own.
pub trait ErrorRecoveryHandler {
    /// Tries to recover from the error of `context`.
    fn handle_error(&self, context: &mut ErrorContext) -> RecoveryOutcome;

    /// Whether this handler deals with `error`.
    fn can_handle(&self, error: &TuiError) -> bool;

    /// Handlers with a higher priority are tried first.
    fn priority(&self) -> u32;
}

/// The handler that every error manager starts with: it retries while the
/// strategy allows it and accepts the strategies that need no special action.
pub struct DefaultRecoveryHandler;

impl DefaultRecoveryHandler {
    /// Decides how to recover from the error of `context`. For the retry
    /// strategy a retry is counted and its backoff delay is returned while
    /// retries remain; using a default, skipping and degrading count as
    /// recovered; every other strategy is not recovered here.
    pub fn handle_error(&self, context: &mut ErrorContext) -> (res: RecoveryOutcome)
        requires
            old(context).spec_should_retry() ==> old(context).next_delay_fits(),
        ensures
            match old(context).recovery_strategy {
                RecoveryStrategy::Retry { delay_ms, .. } => if old(context).spec_should_retry() {
                    &&& *final(context) == (ErrorContext {
                        retry_count: (old(context).retry_count + 1) as u32,
                        ..*old(context)
                    })
                    &&& res == (RecoveryOutcome::RetryAfter {
                        delay_ms: backoff_delay(delay_ms, final(context).retry_count) as u64,
                    })
                } else {
                    *final(context) == *old(context) && res == RecoveryOutcome::NotRecovered
                },
                RecoveryStrategy::UseDefault | RecoveryStrategy::Skip | RecoveryStrategy::Degrade => {
                    *final(context) == *old(context) && res == RecoveryOutcome::Recovered
                },
                _ => *final(context) == *old(context) && res == RecoveryOutcome::NotRecovered,
            },
    {
        match context.recovery_strategy {
            RecoveryStrategy::Retry { .. } => {
                if context.should_retry() {
                    context.increment_retry();
                    let delay = context.retry_delay();
                    RecoveryOutcome::RetryAfter { delay_ms: delay }
                } else {
                    RecoveryOutcome::NotRecovered
                }
            },
            RecoveryStrategy::UseDefault => RecoveryOutcome::Recovered,
            RecoveryStrategy::Skip => RecoveryOutcome::Recovered,
            RecoveryStrategy::Degrade => RecoveryOutcome::Recovered,
            _ => RecoveryOutcome::NotRecovered,
        }
    }

    /// The default handler deals with every error.
    pub fn can_handle(&self, error: &TuiError) -> (res: bool)
        ensures
            res,
    {
        true
    }

    /// The default handler has the lowest priority.
    pub fn priority(&self) -> (res: u32)
        ensures
            res == 0,
    {
        0
    }
}

/// Where a recovery handler of priority `p` goes among handlers kept from
/// the highest priority to the lowest: before the first one of lower
/// priority, after all those of its own, or last.
pub fn handler_insert_position(priorities: &Vec<u32>, p: u32) -> (res: usize)
    ensures
        res <= priorities@.len(),
        forall|k: int| 0 <= k < res ==> (#[trigger] priorities@[k]) >= p,
        res < priorities@.len() ==> priorities@[res as int] < p,
{
    let mut i: usize = 0;
    while i < priorities.len() && priorities[i] >= p
        invariant
            i <= priorities@.len(),
            forall|k: int| 0 <= k < i ==> (#[trigger] priorities@[k]) >= p,
        decreases priorities@.len() - i,
    {
        i = i + 1;
    }
    i
}

/// The last `max` elements of `s`, or all of them when there are fewer.
pub open spec fn keep_last<T>(s: Seq<T>, max: nat) -> Seq<T> {
    if s.len() > max { s.skip(s.len() - max) } else { s }
}

/// The elements of `s` that have severity `severity`, in order.
pub open spec fn with_severity(s: Seq<ErrorContext>, severity: ErrorSeverity) -> Seq<ErrorContext>
    decreases s.len(),
{
    if s.len() == 0 {
        Seq::empty()
    } else {
        let rest = with_severity(s.drop_last(), severity);
        if s.last().severity == severity { rest.push(s.last()) } else { rest }
    }
}

/// Keeps the history of the errors that were handled.
pub struct ErrorManager {
    history: Vec<ErrorContext>,
    max_history: usize,
}

impl ErrorManager {
    /// The errors kept, oldest first.
    pub closed spec fn history(self) -> Seq<ErrorContext> {
        self.history@
    }

    /// How many errors are kept at most.
    pub closed spec fn max_history(self) -> nat {
        self.max_history as nat
    }

    /// The history never holds more errors than its limit.
    pub closed spec fn well_formed(self) -> bool {
        self.history@.len() <= self.max_history
    }

    /// An empty history that keeps up to one hundred errors.
    pub fn new() -> (res: Self)
        ensures
            res.well_formed(),
            res.history() == Seq::<ErrorContext>::empty(),
            res.max_history() == 100,
    {
        ErrorManager { history: Vec::new(), max_history: 100 }
    }

    /// Adds an error to the history, dropping the oldest ones beyond the
    /// limit.
    pub fn add_to_history(&mut self, context: ErrorContext)
        requires
            old(self).well_formed(),
        ensures
            final(self).well_formed(),
            final(self).max_history() == old(self).max_history(),
            final(self).history() == keep_last(old(self).history().push(context), old(self).max_history()),
    {
        let ghost pushed = self.history@.push(context);
        self.history.push(context);
        while self.history.len() > self.max_history
            invariant
                self.max_history == old(self).max_history,
                self.history@ == pushed.skip(pushed.len() - self.history@.len()),
                self.history@.len() <= pushed.len(),
                pushed.len() > self.max_history ==> self.history@.len() >= self.max_history,
                pushed.len() <= self.max_history ==> self.history@.len() == pushed.len(),
                pushed.len() == old(self).history@.len() + 1,
                old(self).history@.len() <= old(self).max_history,
            decreases self.history.len(),
        {
            self.history.remove(0);
        }
        assert(self.history@ =~= keep_last(pushed, self.max_history as nat));
    }

    /// The `count` most recent errors, newest first.
    pub fn get_recent_errors(&self, count: usize) -> (res: Vec<ErrorContext>)
        ensures
            res@.len() == min_int(count as int, self.history().len() as int),
            forall|i: int|
                0 <= i < res@.len() ==> #[trigger] res@[i].equivalent(
                    self.history()[self.history().len() - 1 - i],
                ),
    {
        let mut res: Vec<ErrorContext> = Vec::new();
        let n = self.history.len();
        while res.len() < count && res.len() < n
            invariant
                n == self.history@.len(),
                res@.len() <= n,
                res@.len() <= count,
                forall|i: int|
                    0 <= i < res@.len() ==> #[trigger] res@[i].equivalent(self.history@[n - 1 - i]),
            decreases n - res@.len(),
        {
            let k = res.len();
            res.push(self.history[n - 1 - k].clone());
        }
        res
    }

    /// The errors of the given severity, oldest first.
    pub fn get_errors_by_severity(&self, severity: ErrorSeverity) -> (res: Vec<ErrorContext>)
        ensures
            res@.len() == with_severity(self.history(), severity).len(),
            forall|i: int|
                0 <= i < res@.len() ==> #[trigger] res@[i].equivalent(
                    with_severity(self.history(), severity)[i],
                ),
    {
        let mut res: Vec<ErrorContext> = Vec::new();
        let mut j: usize = 0;
        while j < self.history.len()
            invariant
                j <= self.history@.len(),
                res@.len() == with_severity(self.history@.take(j as int), severity).len(),
                forall|i: int|
                    0 <= i < res@.len() ==> #[trigger] res@[i].equivalent(
                        with_severity(self.history@.take(j as int), severity)[i],
                    ),
            decreases self.history@.len() - j,
        {
            assert(self.history@.take(j + 1).drop_last() =~= self.history@.take(j as int));
            if self.history[j].severity == severity {
                res.push(self.history[j].clone());
            }
            j = j + 1;
        }
        assert(self.history@.take(j as int) =~= self.history@);
        res
    }

    /// Forgets every error.
    pub fn clear_history(&mut self)
        requires
            old(self).well_formed(),
        ensures
            final(self).well_formed(),
            final(self).history() == Seq::<ErrorContext>::empty(),
            final(self).max_history() == old(self).max_history(),
    {
        self.history.clear();
    }
}

/// How long an information or a warning stays before it is dismissed on its
/// own, in milliseconds.
pub const AUTO_DISMISS_MS: u64 = 5000;

/// The error dialog shown to the user.
pub struct ErrorDisplayWidget {
    current_error: Option<ErrorContext>,
    show_details: bool,
    auto_dismiss_timer: Option<u64>,
}

/// A line of the error dialog as plain values: style, label, text.
pub type DialogLineView = (HelpLineStyle, Seq<char>, Seq<char>);

/// The numbered suggestions of the error dialog, from 1.
pub open spec fn suggestion_lines(s: Seq<Seq<char>>) -> Seq<DialogLineView> {
    Seq::new(
        s.len(),
        |i: int| (HelpLineStyle::Plain, Seq::<char>::empty(), decimal_text((i + 1) as nat) + ". "@ + s[i]),
    )
}

/// The line of controls at the foot of the error dialog.
pub open spec fn dialog_controls(details: bool) -> Seq<char> {
    if details {
        "按 'd' 隐藏详情 | 按 Esc 关闭"@
    } else {
        "按 'd' 显示详情 | 按 Esc 关闭"@
    }
}

/// The middle of the error dialog: the technical details and the retry
/// count when the details are shown, else the suggestions, if any.
pub open spec fn dialog_middle(c: ErrorContext, details: bool) -> Seq<DialogLineView> {
    if details {
        seq![
            (HelpLineStyle::Heading, "技术详情:"@, Seq::<char>::empty()),
            (HelpLineStyle::Plain, Seq::<char>::empty(), c.technical_details@),
            (HelpLineStyle::Plain, Seq::<char>::empty(), Seq::<char>::empty()),
            (HelpLineStyle::Heading, "重试次数:"@, " "@ + decimal_text(c.retry_count as nat)),
        ]
    } else if c.recovery_suggestions@.len() > 0 {
        seq![(HelpLineStyle::Heading, "建议操作:"@, Seq::<char>::empty())] + suggestion_lines(
            strings_view(c.recovery_suggestions@),
        )
    } else {
        Seq::empty()
    }
}

/// The lines of the error dialog for `c`: the component, the message, the
/// middle part and the controls.
pub open spec fn error_dialog_view(c: ErrorContext, details: bool) -> Seq<DialogLineView> {
    seq![
        (HelpLineStyle::Heading, "组件: "@, c.component@),
        (HelpLineStyle::Heading, "消息: "@, c.user_message@),
    ] + dialog_middle(c, details) + seq![(HelpLineStyle::Plain, Seq::<char>::empty(), dialog_controls(details))]
}

/// Where the error dialog stands in `area`: at most 80 columns wide and 10
/// rows high (20 with the details), centered by the size of `area`.
pub open spec fn dialog_area(area: Rect, details: bool) -> Rect {
    let w: u16 = if area.width < 80 { area.width } else { 80u16 };
    let cap: u16 = if details { 20u16 } else { 10u16 };
    let h: u16 = if area.height < cap { area.height } else { cap };
    Rect { x: ((area.width - w) / 2) as u16, y: ((area.height - h) / 2) as u16, width: w, height: h }
}

impl ErrorDisplayWidget {
    /// The error shown, if any.
    pub closed spec fn shown(self) -> Option<ErrorContext> {
        self.current_error
    }

    /// Whether the technical details are shown.
    pub closed spec fn details_shown(self) -> bool {
        self.show_details
    }

    /// When the dismiss timer started, if it runs.
    pub closed spec fn timer(self) -> Option<u64> {
        self.auto_dismiss_timer
    }

    /// How long an error stays before it is dismissed on its own.
    pub open spec fn dismiss_after(self) -> u64 {
        AUTO_DISMISS_MS
    }

    /// Two widgets that show the same are the same.
    pub proof fn lemma_same_display(a: Self, b: Self)
        requires
            a.shown() == b.shown(),
            a.details_shown() == b.details_shown(),
            a.timer() == b.timer(),
        ensures
            a == b,
    {
    }

    /// Whether the widget shows nothing: no error, no details, no timer.
    pub open spec fn is_clear(self) -> bool {
        &&& self.shown() is None
        &&& !self.details_shown()
        &&& self.timer() is None
    }

    /// Whether `new` is `old` showing `c` from time `now`: information and
    /// warnings start the dismiss timer, errors and critical ones stay until
    /// dismissed; the details are hidden.
    pub open spec fn shows(old: Self, new: Self, c: ErrorContext, now: u64) -> bool {
        &&& new.shown() == Some(c)
        &&& !new.details_shown()
        &&& new.timer() == (match c.severity {
            ErrorSeverity::Info | ErrorSeverity::Warning => Some(now),
            _ => None::<u64>,
        })
    }

    /// Whether `new` is `old` with the details shown or hidden the other
    /// way.
    pub open spec fn toggles(old: Self, new: Self) -> bool {
        &&& new.details_shown() == !old.details_shown()
        &&& new.shown() == old.shown()
        &&& new.timer() == old.timer()
    }

    /// Whether `new` is what drawing `old` at `now` leaves: cleared when
    /// the error is due to be dismissed, else unchanged.
    pub open spec fn rendered(old: Self, new: Self, now: u64) -> bool {
        if old.dismiss_due(now) {
            new.is_clear()
        } else {
            new == old
        }
    }

    /// A widget that shows no error; errors dismiss themselves after five
    /// seconds.
    pub fn new() -> (res: Self)
        ensures
            res.is_clear(),
    {
        ErrorDisplayWidget { current_error: None, show_details: false, auto_dismiss_timer: None }
    }

    /// Shows an error at time `now`: information and warnings start the
    /// dismiss timer, errors and critical ones stay until dismissed.
    pub fn show_error_at(&mut self, context: ErrorContext, now: u64)
        ensures
            Self::shows(*old(self), *final(self), context, now),
    {
        self.auto_dismiss_timer = match context.severity {
            ErrorSeverity::Info | ErrorSeverity::Warning => Some(now),
            _ => None,
        };
        self.current_error = Some(context);
        self.show_details = false;
    }

    /// Shows an error at the current time of the system clock.
    pub fn show_error(&mut self, context: ErrorContext)
        ensures
            exists|now: u64| #[trigger] Self::shows(*old(self), *final(self), context, now),
    {
        let now = clock_now_ms();
        self.show_error_at(context, now);
    }

    /// Hides the error.
    pub fn dismiss_error(&mut self)
        ensures
            final(self).is_clear(),
    {
        self.current_error = None;
        self.auto_dismiss_timer = None;
        self.show_details = false;
    }

    /// Shows or hides the technical details.
    pub fn toggle_details(&mut self)
        ensures
            Self::toggles(*old(self), *final(self)),
    {
        self.show_details = !self.show_details;
    }

    /// Whether the error is due to be dismissed at time `now`: the timer
    /// runs and at least the dismiss delay has passed since it started.
    pub open spec fn dismiss_due(&self, now: u64) -> bool {
        match self.timer() {
            Some(start) => elapsed_ms(start, now) >= self.dismiss_after(),
            None => false,
        }
    }

    /// Whether the error should be dismissed at time `now`: the timer runs
    /// and at least the dismiss delay has passed since it started.
    pub fn should_auto_dismiss_at(&self, now: u64) -> (res: bool)
        ensures
            res == self.dismiss_due(now),
    {
        match self.auto_dismiss_timer {
            Some(start) => {
                let elapsed: u64 = if now >= start { now - start } else { 0 };
                elapsed >= AUTO_DISMISS_MS
            },
            None => false,
        }
    }

    /// Whether the error should be dismissed now, by the system clock. Only
    /// a running timer can call for it.
    pub fn should_auto_dismiss(&self) -> (res: bool)
        ensures
            exists|now: u64| res == #[trigger] self.dismiss_due(now),
            res ==> self.timer() is Some,
    {
        let now = clock_now_ms();
        let res = self.should_auto_dismiss_at(now);
        assert(res == self.dismiss_due(now));
        res
    }

    /// What drawing does first at time `now`: an error due to be dismissed
    /// is dismissed. Tells whether it was.
    pub fn auto_dismiss_at(&mut self, now: u64) -> (res: bool)
        ensures
            res == old(self).dismiss_due(now),
            Self::rendered(*old(self), *final(self), now),
    {
        if self.should_auto_dismiss_at(now) {
            self.dismiss_error();
            true
        } else {
            false
        }
    }

    /// What drawing does first, by the system clock.
    pub fn auto_dismiss(&mut self) -> (res: bool)
        ensures
            exists|now: u64| res == old(self).dismiss_due(now) && #[trigger] Self::rendered(*old(self), *final(self), now),
    {
        let now = clock_now_ms();
        self.auto_dismiss_at(now)
    }

    /// Whether an error is shown.
    pub fn has_error(&self) -> (res: bool)
        ensures
            res == self.shown() is Some,
    {
        self.current_error.is_some()
    }

    /// The error shown, if any.
    pub fn current_error(&self) -> (res: Option<&ErrorContext>)
        ensures
            res is Some <==> self.shown() is Some,
            res is Some ==> *res.unwrap() == self.shown().unwrap(),
    {
        self.current_error.as_ref()
    }

    /// Whether the technical details are shown.
    pub fn is_showing_details(&self) -> (res: bool)
        ensures
            res == self.details_shown(),
    {
        self.show_details
    }

    /// Where the dialog stands in `area`.
    pub fn error_dialog_area(&self, area: Rect) -> (res: Rect)
        ensures
            res == dialog_area(area, self.details_shown()),
    {
        let w: u16 = if area.width < 80 { area.width } else { 80 };
        let cap: u16 = if self.show_details { 20 } else { 10 };
        let h: u16 = if area.height < cap { area.height } else { cap };
        Rect { x: (area.width - w) / 2, y: (area.height - h) / 2, width: w, height: h }
    }

    /// The title of the dialog: the symbol and the name of the severity of
    /// the error shown; nothing without an error.
    pub fn error_dialog_title(&self) -> (res: String)
        ensures
            res@ == match self.shown() {
                Some(c) => severity_icon(c.severity) + " "@ + severity_label(c.severity),
                None => Seq::<char>::empty(),
            },
    {
        match &self.current_error {
            Some(c) => {
                let mut t = String::from_str(c.severity.icon());
                t.append(" ");
                t.append(c.severity.label());
                t
            },
            None => String::new(),
        }
    }

    /// The lines of the dialog: the component, the message, then the
    /// technical details and the retry count when the details are shown, or
    /// else the numbered suggestions, and last the controls. Nothing without
    /// an error.
    pub fn error_dialog_lines(&self) -> (res: Vec<HelpLine>)
        ensures
            res@.map_values(|l: HelpLine| help_line_view(l)) == match self.shown() {
                Some(c) => error_dialog_view(c, self.details_shown()),
                None => Seq::<DialogLineView>::empty(),
            },
    {
        let mut res: Vec<HelpLine> = Vec::new();
        proof {
            reveal_strlit("");
            assert(""@ =~= Seq::<char>::empty());
        }
        match &self.current_error {
            None => {
                assert(res@.map_values(|l: HelpLine| help_line_view(l)) =~= Seq::<DialogLineView>::empty());
                res
            },
            Some(c) => {
                assert(res@.map_values(|l: HelpLine| help_line_view(l)) =~= Seq::<DialogLineView>::empty());
                push_line(&mut res, HelpLineStyle::Heading, "组件: ", c.component.as_str());
                push_line(&mut res, HelpLineStyle::Heading, "消息: ", c.user_message.as_str());
                let ghost head = seq![
                    (HelpLineStyle::Heading, "组件: "@, c.component@),
                    (HelpLineStyle::Heading, "消息: "@, c.user_message@),
                ];
                assert(res@.map_values(|l: HelpLine| help_line_view(l)) =~= head);
                if self.show_details {
                    push_line(&mut res, HelpLineStyle::Heading, "技术详情:", "");
                    push_line(&mut res, HelpLineStyle::Plain, "", c.technical_details.as_str());
                    push_line(&mut res, HelpLineStyle::Plain, "", "");
                    let mut count = String::from_str(" ");
                    count.append(decimal_string(c.retry_count as usize).as_str());
                    push_line(&mut res, HelpLineStyle::Heading, "重试次数:", count.as_str());
                    push_line(&mut res, HelpLineStyle::Plain, "", "按 'd' 隐藏详情 | 按 Esc 关闭");
                    assert(res@.map_values(|l: HelpLine| help_line_view(l)) =~= error_dialog_view(*c, true));
                } else {
                    let n = c.recovery_suggestions.len();
                    let ghost sv = strings_view(c.recovery_suggestions@);
                    if n > 0 {
                        push_line(&mut res, HelpLineStyle::Heading, "建议操作:", "");
                        let ghost start = head + seq![(HelpLineStyle::Heading, "建议操作:"@, Seq::<char>::empty())];
                        assert(res@.map_values(|l: HelpLine| help_line_view(l)) =~= start);
                        let mut i: usize = 0;
                        while i < n
                            invariant
                                n == c.recovery_suggestions@.len(),
                                sv == strings_view(c.recovery_suggestions@),
                                i <= n,
                                res@.map_values(|l: HelpLine| help_line_view(l)) == start + suggestion_lines(sv).take(
                                    i as int,
                                ),
                                ""@ == Seq::<char>::empty(),
                            decreases n - i,
                        {
                            let mut t = decimal_string(i + 1);
                            t.append(". ");
                            t.append(c.recovery_suggestions[i].as_str());
                            push_line(&mut res, HelpLineStyle::Plain, "", t.as_str());
                            proof {
                                assert(suggestion_lines(sv).take(i + 1) =~= suggestion_lines(sv).take(i as int).push(
                                    suggestion_lines(sv)[i as int],
                                ));
                            }
                            i = i + 1;
                        }
                        assert(suggestion_lines(sv).take(n as int) =~= suggestion_lines(sv));
                        assert(res@.map_values(|l: HelpLine| help_line_view(l)) =~= head + dialog_middle(*c, false));
                    } else {
                        assert(head =~= head + dialog_middle(*c, false));
                    }
                    push_line(&mut res, HelpLineStyle::Plain, "", "按 'd' 显示详情 | 按 Esc 关闭");
                    assert(res@.map_values(|l: HelpLine| help_line_view(l)) =~= error_dialog_view(*c, false));
                }
                res
            },
        }
    }
}

/// Adds a line at the end of `v`.
fn push_line(v: &mut Vec<HelpLine>, style: HelpLineStyle, styled: &str, plain: &str)
    ensures
        final(v)@.map_values(|l: HelpLine| help_line_view(l)) == old(v)@.map_values(|l: HelpLine| help_line_view(l)).push(
            (style, styled@, plain@),
        ),
{
    let ghost before = v@;
    let l = help_line(style, styled, plain);
    v.push(l);
    assert(v@ =~= before.push(l));
    assert(v@.map_values(|l: HelpLine| help_line_view(l)) =~= before.map_values(|l: HelpLine| help_line_view(l)).push(
        (style, styled@, plain@),
    ));
}

/// The symbol shown in front of an error of severity `s`.
pub open spec fn severity_icon(s: ErrorSeverity) -> Seq<char> {
    match s {
        ErrorSeverity::Info => "ℹ"@,
        ErrorSeverity::Warning => "⚠"@,
        ErrorSeverity::Error => "✗"@,
        ErrorSeverity::Critical => "🔥"@,
    }
}

/// The name of severity `s` as shown to the user.
pub open spec fn severity_label(s: ErrorSeverity) -> Seq<char> {
    match s {
        ErrorSeverity::Info => "信息"@,
        ErrorSeverity::Warning => "警告"@,
        ErrorSeverity::Error => "错误"@,
        ErrorSeverity::Critical => "严重"@,
    }
}

impl ErrorSeverity {
    /// The color an error of this severity is drawn in.
    pub fn color(&self) -> (res: TermColor)
        ensures
            res == match *self {
                ErrorSeverity::Info => TermColor::DarkBlue,
                ErrorSeverity::Warning => TermColor::DarkYellow,
                ErrorSeverity::Error => TermColor::DarkRed,
                ErrorSeverity::Critical => TermColor::DarkMagenta,
            },
    {
        match self {
            ErrorSeverity::Info => TermColor::DarkBlue,
            ErrorSeverity::Warning => TermColor::DarkYellow,
            ErrorSeverity::Error => TermColor::DarkRed,
            ErrorSeverity::Critical => TermColor::DarkMagenta,
        }
    }
}


/// The context `c` after `k` retries are counted, one by one, as
/// `ErrorContext::increment_retry` counts them.
pub open spec fn retried(c: ErrorContext, k: nat) -> ErrorContext
    decreases k,
{
    if k == 0 {
        c
    } else {
        let p = retried(c, (k - 1) as nat);
        ErrorContext { retry_count: (p.retry_count + 1) as u32, ..p }
    }
}

/// Law: counting `k` retries adds `k` to the retry count and changes
/// nothing else; another retry is then allowed exactly while the count is
/// below the attempts of the retry strategy, and the delay is the backoff
/// for the new count.
pub proof fn law_retries_counted(c: ErrorContext, k: nat)
    requires
        c.retry_count + k <= u32::MAX,
    ensures
        retried(c, k) == (ErrorContext { retry_count: (c.retry_count + k) as u32, ..c }),
        retried(c, k).spec_should_retry() <==> match c.recovery_strategy {
            RecoveryStrategy::Retry { max_attempts, .. } => c.retry_count + k < max_attempts,
            _ => false,
        },
        match c.recovery_strategy {
            RecoveryStrategy::Retry { delay_ms, .. } => backoff_delay(delay_ms, retried(c, k).retry_count)
                == backoff_delay(delay_ms, (c.retry_count + k) as u32),
            _ => true,
        },
    decreases k,
{
    if k > 0 {
        law_retries_counted(c, (k - 1) as nat);
    }
}

/// What a widget can be asked to do, for laws over runs of requests: show
/// an error at a time, dismiss it, toggle the details, or be drawn at a
/// time.
pub enum DisplayStep {
    Show(ErrorContext, u64),
    Dismiss,
    ToggleDetails,
    Render(u64),
}

/// Whether `new` is what step `s` makes of `old`, as the widget's methods
/// state it.
pub open spec fn display_step(old: ErrorDisplayWidget, new: ErrorDisplayWidget, s: DisplayStep) -> bool {
    match s {
        DisplayStep::Show(c, now) => ErrorDisplayWidget::shows(old, new, c, now),
        DisplayStep::Dismiss => new.is_clear(),
        DisplayStep::ToggleDetails => ErrorDisplayWidget::toggles(old, new),
        DisplayStep::Render(now) => ErrorDisplayWidget::rendered(old, new, now),
    }
}

/// Whether the widgets `ws` are what the steps make, one after the other.
pub open spec fn display_run(ws: Seq<ErrorDisplayWidget>, steps: Seq<DisplayStep>) -> bool {
    &&& ws.len() == steps.len() + 1
    &&& forall|i: int| 0 <= i < steps.len() ==> #[trigger] display_step(ws[i], ws[i + 1], steps[i])
}

/// Whether step `s` on `w` takes the error away: a dismissal, or drawing at
/// a time when the error is due to be dismissed.
pub open spec fn clears(w: ErrorDisplayWidget, s: DisplayStep) -> bool {
    s is Dismiss || (s matches DisplayStep::Render(now) && w.dismiss_due(now))
}

/// Whether step `i`, among the first `n`, shows an error that no later step
/// among them takes away.
pub open spec fn show_survives(ws: Seq<ErrorDisplayWidget>, steps: Seq<DisplayStep>, i: int, n: int) -> bool {
    &&& 0 <= i < n
    &&& steps[i] is Show
    &&& forall|j: int| i < j < n ==> !clears(#[trigger] ws[j], steps[j])
}

/// After the first `n` steps of a run from a widget without an error, an
/// error is shown exactly when one of them showed one that no later one
/// took away.
proof fn lemma_error_shown_after(ws: Seq<ErrorDisplayWidget>, steps: Seq<DisplayStep>, n: int)
    requires
        display_run(ws, steps),
        ws[0].shown() is None,
        0 <= n <= steps.len(),
    ensures
        ws[n].shown() is Some <==> exists|i: int| #[trigger] show_survives(ws, steps, i, n),
    decreases n,
{
    if n > 0 {
        let m = n - 1;
        lemma_error_shown_after(ws, steps, m);
        assert(display_step(ws[m], ws[m + 1], steps[m]));
        match steps[m] {
            DisplayStep::Show(c, now) => {
                assert(show_survives(ws, steps, m, n));
            },
            DisplayStep::ToggleDetails => {
                if ws[m].shown() is Some {
                    let i = choose|i: int| #[trigger] show_survives(ws, steps, i, m);
                    assert(show_survives(ws, steps, i, n));
                }
                if exists|i: int| #[trigger] show_survives(ws, steps, i, n) {
                    let i = choose|i: int| #[trigger] show_survives(ws, steps, i, n);
                    assert(show_survives(ws, steps, i, m));
                }
            },
            DisplayStep::Dismiss => {
                assert forall|i: int| !show_survives(ws, steps, i, n) by {
                    if show_survives(ws, steps, i, n) {
                        assert(!clears(ws[m], steps[m]));
                    }
                }
            },
            DisplayStep::Render(now) => {
                if ws[m].dismiss_due(now) {
                    assert forall|i: int| !show_survives(ws, steps, i, n) by {
                        if show_survives(ws, steps, i, n) {
                            assert(!clears(ws[m], steps[m]));
                        }
                    }
                } else {
                    if ws[m].shown() is Some {
                        let i = choose|i: int| #[trigger] show_survives(ws, steps, i, m);
                        assert(show_survives(ws, steps, i, n));
                    }
                    if exists|i: int| #[trigger] show_survives(ws, steps, i, n) {
                        let i = choose|i: int| #[trigger] show_survives(ws, steps, i, n);
                        assert(show_survives(ws, steps, i, m));
                    }
                }
            },
        }
    }
}

/// Law: along any run of requests from a widget without an error, an error
/// is shown exactly when some request showed one and neither a dismissal
/// nor drawing when it was due took it away since; toggling the details
/// never changes whether an error is shown.
pub proof fn law_error_shown_until_cleared(ws: Seq<ErrorDisplayWidget>, steps: Seq<DisplayStep>)
    requires
        display_run(ws, steps),
        ws[0].shown() is None,
    ensures
        ws.last().shown() is Some <==> exists|i: int| #[trigger] show_survives(ws, steps, i, steps.len() as int),
        forall|i: int|
            0 <= i < steps.len() && steps[i] is ToggleDetails ==> (#[trigger] ws[i + 1]).shown() == ws[i].shown(),
{
    lemma_error_shown_after(ws, steps, steps.len() as int);
    assert forall|i: int| 0 <= i < steps.len() && steps[i] is ToggleDetails implies (#[trigger] ws[i + 1]).shown()
        == ws[i].shown() by {
        assert(display_step(ws[i], ws[i + 1], steps[i]));
    }
}

/// Law: dismissing undoes showing. After an error is shown and the details
/// toggled any number of times, dismissing leaves the widget as a new one
/// is: no error, no details, no time calling for a dismissal; and
/// dismissing once more changes nothing.
pub proof fn law_dismiss_undoes_show(
    w0: ErrorDisplayWidget,
    c: ErrorContext,
    now: u64,
    toggled: Seq<ErrorDisplayWidget>,
    w1: ErrorDisplayWidget,
    w2: ErrorDisplayWidget,
    fresh: ErrorDisplayWidget,
)
    requires
        toggled.len() > 0,
        ErrorDisplayWidget::shows(w0, toggled[0], c, now),
        forall|i: int| 0 <= i < toggled.len() - 1 ==> ErrorDisplayWidget::toggles(#[trigger] toggled[i], toggled[i + 1]),
        w1.is_clear(),
        w2.is_clear(),
        fresh.is_clear(),
    ensures
        w1 == fresh,
        w2 == w1,
        w1.shown() is None && !w1.details_shown(),
        forall|t: u64| !w1.dismiss_due(t),
{
    ErrorDisplayWidget::lemma_same_display(w1, fresh);
    ErrorDisplayWidget::lemma_same_display(w2, w1);
}

/// Law: however errors are added, the history holds no more than its limit.
pub proof fn law_history_within_limit(m: ErrorManager)
    requires
        m.well_formed(),
    ensures
        m.history().len() <= m.max_history(),
{
}

} // verus!
