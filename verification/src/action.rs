//! Actions that interface events trigger, the views of the interface and the
//! values that actions carry.

use vstd::prelude::*;
use vstd::string::*;
use crate::text::{quoted, quoted_text};

verus! {

/// A JSON value, carried through by custom actions and modal data.
#[verifier::external_type_specification]
#[verifier::external_body]
pub struct ExJsonValue(serde_json::Value);

/// The clone of a JSON value is equal to it: `serde_json::Value` derives
/// `Clone`, which copies every part of the value.
pub assume_specification[ <serde_json::Value as Clone>::clone ](v: &serde_json::Value) -> (res: serde_json::Value)
    ensures
        res == *v,
;

/// The JSON `null` value (`serde_json::Value::Null`). Nothing is stated of
/// it: the value is opaque here.
#[verifier::external_body]
pub fn json_null() -> (res: serde_json::Value) {
    serde_json::Value::Null
}

/// The views of the interface.
#[derive(Debug, Clone, Copy, PartialEq, Eq, Structural)]
pub enum ViewType {
    WorkflowList,
    ExecutionMonitor,
    ToolManager,
    PluginManager,
    SystemStatus,
    LogViewer,
}

/// The name of a view, as it is printed.
pub open spec fn view_type_name(v: ViewType) -> Seq<char> {
    match v {
        ViewType::WorkflowList => "WorkflowList"@,
        ViewType::ExecutionMonitor => "ExecutionMonitor"@,
        ViewType::ToolManager => "ToolManager"@,
        ViewType::PluginManager => "PluginManager"@,
        ViewType::SystemStatus => "SystemStatus"@,
        ViewType::LogViewer => "LogViewer"@,
    }
}

impl ViewType {
    /// The name of this view, as it is printed.
    pub fn name(&self) -> (res: &'static str)
        ensures
            res@ == view_type_name(*self),
    {
        match self {
            ViewType::WorkflowList => "WorkflowList",
            ViewType::ExecutionMonitor => "ExecutionMonitor",
            ViewType::ToolManager => "ToolManager",
            ViewType::PluginManager => "PluginManager",
            ViewType::SystemStatus => "SystemStatus",
            ViewType::LogViewer => "LogViewer",
        }
    }
}

/// Modes of text input.
#[derive(Debug, PartialEq, Eq)]
pub enum InputMode {
    Search,
    Filter,
    Command,
    WorkflowName,
    PluginUrl,
    Custom(String),
}

impl Clone for InputMode {
    fn clone(&self) -> (res: Self)
        ensures
            res == *self,
    {
        match self {
            InputMode::Search => InputMode::Search,
            InputMode::Filter => InputMode::Filter,
            InputMode::Command => InputMode::Command,
            InputMode::WorkflowName => InputMode::WorkflowName,
            InputMode::PluginUrl => InputMode::PluginUrl,
            InputMode::Custom(s) => InputMode::Custom(s.clone()),
        }
    }
}

/// Orders in which lists are sorted.
#[derive(Debug, PartialEq, Eq)]
pub enum SortOrder {
    NameAsc,
    NameDesc,
    DateAsc,
    DateDesc,
    StatusAsc,
    StatusDesc,
    Custom(String),
}

impl Clone for SortOrder {
    fn clone(&self) -> (res: Self)
        ensures
            res == *self,
    {
        match self {
            SortOrder::NameAsc => SortOrder::NameAsc,
            SortOrder::NameDesc => SortOrder::NameDesc,
            SortOrder::DateAsc => SortOrder::DateAsc,
            SortOrder::DateDesc => SortOrder::DateDesc,
            SortOrder::StatusAsc => SortOrder::StatusAsc,
            SortOrder::StatusDesc => SortOrder::StatusDesc,
            SortOrder::Custom(s) => SortOrder::Custom(s.clone()),
        }
    }
}

/// Log levels used to filter logs.
#[derive(Debug, Clone, Copy, PartialEq, Eq, Structural)]
pub enum LogLevel {
    Error,
    Warn,
    Info,
    Debug,
    Trace,
}

/// The name of a log level, as it is printed.
pub open spec fn log_level_name(l: LogLevel) -> Seq<char> {
    match l {
        LogLevel::Error => "Error"@,
        LogLevel::Warn => "Warn"@,
        LogLevel::Info => "Info"@,
        LogLevel::Debug => "Debug"@,
        LogLevel::Trace => "Trace"@,
    }
}

impl LogLevel {
    /// The name of this level, as it is printed.
    pub fn name(&self) -> (res: &'static str)
        ensures
            res@ == log_level_name(*self),
    {
        match self {
            LogLevel::Error => "Error",
            LogLevel::Warn => "Warn",
            LogLevel::Info => "Info",
            LogLevel::Debug => "Debug",
            LogLevel::Trace => "Trace",
        }
    }
}

/// Priorities of actions, from lowest to highest.
#[derive(Debug, Clone, Copy, PartialEq, Eq, Structural)]
pub enum ActionPriority {
    Low,
    Normal,
    High,
    Critical,
}

/// The text that the derived `Debug` prints for an input mode: the
/// variant's name, and for a custom mode its quoted name in brackets.
pub open spec fn input_mode_debug(m: InputMode) -> Seq<char> {
    match m {
        InputMode::Search => "Search"@,
        InputMode::Filter => "Filter"@,
        InputMode::Command => "Command"@,
        InputMode::WorkflowName => "WorkflowName"@,
        InputMode::PluginUrl => "PluginUrl"@,
        InputMode::Custom(s) => "Custom("@ + quoted(s@) + ")"@,
    }
}

/// The text that the derived `Debug` prints for a sort order: the variant's
/// name, and for a custom order its quoted name in brackets.
pub open spec fn sort_order_debug(o: SortOrder) -> Seq<char> {
    match o {
        SortOrder::NameAsc => "NameAsc"@,
        SortOrder::NameDesc => "NameDesc"@,
        SortOrder::DateAsc => "DateAsc"@,
        SortOrder::DateDesc => "DateDesc"@,
        SortOrder::StatusAsc => "StatusAsc"@,
        SortOrder::StatusDesc => "StatusDesc"@,
        SortOrder::Custom(s) => "Custom("@ + quoted(s@) + ")"@,
    }
}

/// `name` followed by `s` in quotes and a closing bracket.
fn quoted_in(name: &str, s: &str) -> (res: String)
    ensures
        res@ == name@ + quoted(s@) + ")"@,
{
    let mut t = String::from_str(name);
    t.append(quoted_text(s).as_str());
    t.append(")");
    t
}

/// The debug text of an input mode.
pub fn input_mode_debug_text(m: &InputMode) -> (res: String)
    ensures
        res@ == input_mode_debug(*m),
{
    match m {
        InputMode::Search => String::from_str("Search"),
        InputMode::Filter => String::from_str("Filter"),
        InputMode::Command => String::from_str("Command"),
        InputMode::WorkflowName => String::from_str("WorkflowName"),
        InputMode::PluginUrl => String::from_str("PluginUrl"),
        InputMode::Custom(s) => quoted_in("Custom(", s.as_str()),
    }
}

/// The debug text of a sort order.
pub fn sort_order_debug_text(o: &SortOrder) -> (res: String)
    ensures
        res@ == sort_order_debug(*o),
{
    match o {
        SortOrder::NameAsc => String::from_str("NameAsc"),
        SortOrder::NameDesc => String::from_str("NameDesc"),
        SortOrder::DateAsc => String::from_str("DateAsc"),
        SortOrder::DateDesc => String::from_str("DateDesc"),
        SortOrder::StatusAsc => String::from_str("StatusAsc"),
        SortOrder::StatusDesc => String::from_str("StatusDesc"),
        SortOrder::Custom(s) => quoted_in("Custom(", s.as_str()),
    }
}

/// The character of a decimal digit.
pub open spec fn digit_char(d: nat) -> char {
    if d == 0 { '0' } else if d == 1 { '1' } else if d == 2 { '2' } else if d == 3 { '3' }
    else if d == 4 { '4' } else if d == 5 { '5' } else if d == 6 { '6' } else if d == 7 { '7' }
    else if d == 8 { '8' } else { '9' }
}

/// The decimal digits of `n`, most significant first.
pub open spec fn decimal_text(n: nat) -> Seq<char>
    decreases n,
{
    if n < 10 {
        seq![digit_char(n)]
    } else {
        decimal_text(n / 10) + seq![digit_char(n % 10)]
    }
}

/// The text of one decimal digit.
fn digit_str(d: usize) -> (res: &'static str)
    requires
        d < 10,
    ensures
        res@ == seq![digit_char(d as nat)],
{
    proof {
        reveal_strlit("0");
        reveal_strlit("1");
        reveal_strlit("2");
        reveal_strlit("3");
        reveal_strlit("4");
        reveal_strlit("5");
        reveal_strlit("6");
        reveal_strlit("7");
        reveal_strlit("8");
        reveal_strlit("9");
    }
    if d == 0 { "0" } else if d == 1 { "1" } else if d == 2 { "2" } else if d == 3 { "3" }
    else if d == 4 { "4" } else if d == 5 { "5" } else if d == 6 { "6" } else if d == 7 { "7" }
    else if d == 8 { "8" } else { "9" }
}

/// The decimal text of a number, as `{}` prints it.
pub fn decimal_string(n: usize) -> (res: String)
    ensures
        res@ == decimal_text(n as nat),
    decreases n,
{
    if n < 10 {
        String::from_str(digit_str(n))
    } else {
        let mut s = decimal_string(n / 10);
        s.append(digit_str(n % 10));
        s
    }
}

/// The decimal digits of `n`, most significant first.
pub fn decimal_string_u64(n: u64) -> (res: String)
    ensures
        res@ == decimal_text(n as nat),
    decreases n,
{
    if n < 10 {
        String::from_str(digit_str(n as usize))
    } else {
        let mut s = decimal_string_u64(n / 10);
        s.append(digit_str((n % 10) as usize));
        s
    }
}

/// `name` followed by `inner` and a closing bracket.
fn bracketed(name: &str, inner: &str) -> (res: String)
    ensures
        res@ == name@ + inner@ + ")"@,
{
    let mut s = String::from_str(name);
    s.append(inner);
    s.append(")");
    s
}

/// Actions that interface events can trigger.
#[derive(Debug)]
pub enum Action {
    NoAction,
    Quit,
    Refresh,
    Navigate(ViewType),
    Back,
    GoBack,
    GoForward,
    FocusNext,
    FocusPrevious,
    FocusWidget(String),
    SelectNext,
    SelectPrevious,
    SelectFirst,
    SelectLast,
    SelectItem(usize),
    StartInput(InputMode),
    ConfirmInput(String),
    CancelInput,
    Search(String),
    Filter(String),
    Sort(SortOrder),
    ClearFilter,
    ToggleDetails,
    ToggleHelp,
    ExecuteWorkflow(String),
    PauseWorkflow(String),
    ResumeWorkflow(String),
    StopWorkflow(String),
    CancelWorkflow(String),
    ShowWorkflowDetails(String),
    CreateWorkflow,
    EditWorkflow(String),
    DeleteWorkflow(String),
    ExecuteTool(String),
    ShowToolDetails(String),
    RefreshTools,
    InstallPlugin(String),
    UninstallPlugin(String),
    ReloadPlugin(String),
    EnablePlugin(String),
    DisablePlugin(String),
    TogglePlugin(String),
    ShowPluginDetails(String),
    ShowPluginFilters,
    ShowDependencyGraph,
    RefreshPlugins,
    RefreshSystemStatus,
    ShowSystemDetails,
    ShowLogs,
    FilterLogs(LogLevel),
    ClearLogs,
    ExportLogs,
    ShowError(String),
    DismissError,
    ShowSettings,
    ChangeTheme(String),
    SaveSettings,
    Custom(String, serde_json::Value),
}

impl Clone for Action {
    fn clone(&self) -> (res: Self)
        ensures
            res == *self,
    {
        match self {
            Action::NoAction => Action::NoAction,
            Action::Quit => Action::Quit,
            Action::Refresh => Action::Refresh,
            Action::Navigate(x) => Action::Navigate(*x),
            Action::Back => Action::Back,
            Action::GoBack => Action::GoBack,
            Action::GoForward => Action::GoForward,
            Action::FocusNext => Action::FocusNext,
            Action::FocusPrevious => Action::FocusPrevious,
            Action::FocusWidget(x) => Action::FocusWidget(x.clone()),
            Action::SelectNext => Action::SelectNext,
            Action::SelectPrevious => Action::SelectPrevious,
            Action::SelectFirst => Action::SelectFirst,
            Action::SelectLast => Action::SelectLast,
            Action::SelectItem(x) => Action::SelectItem(*x),
            Action::StartInput(x) => Action::StartInput(x.clone()),
            Action::ConfirmInput(x) => Action::ConfirmInput(x.clone()),
            Action::CancelInput => Action::CancelInput,
            Action::Search(x) => Action::Search(x.clone()),
            Action::Filter(x) => Action::Filter(x.clone()),
            Action::Sort(x) => Action::Sort(x.clone()),
            Action::ClearFilter => Action::ClearFilter,
            Action::ToggleDetails => Action::ToggleDetails,
            Action::ToggleHelp => Action::ToggleHelp,
            Action::ExecuteWorkflow(x) => Action::ExecuteWorkflow(x.clone()),
            Action::PauseWorkflow(x) => Action::PauseWorkflow(x.clone()),
            Action::ResumeWorkflow(x) => Action::ResumeWorkflow(x.clone()),
            Action::StopWorkflow(x) => Action::StopWorkflow(x.clone()),
            Action::CancelWorkflow(x) => Action::CancelWorkflow(x.clone()),
            Action::ShowWorkflowDetails(x) => Action::ShowWorkflowDetails(x.clone()),
            Action::CreateWorkflow => Action::CreateWorkflow,
            Action::EditWorkflow(x) => Action::EditWorkflow(x.clone()),
            Action::DeleteWorkflow(x) => Action::DeleteWorkflow(x.clone()),
            Action::ExecuteTool(x) => Action::ExecuteTool(x.clone()),
            Action::ShowToolDetails(x) => Action::ShowToolDetails(x.clone()),
            Action::RefreshTools => Action::RefreshTools,
            Action::InstallPlugin(x) => Action::InstallPlugin(x.clone()),
            Action::UninstallPlugin(x) => Action::UninstallPlugin(x.clone()),
            Action::ReloadPlugin(x) => Action::ReloadPlugin(x.clone()),
            Action::EnablePlugin(x) => Action::EnablePlugin(x.clone()),
            Action::DisablePlugin(x) => Action::DisablePlugin(x.clone()),
            Action::TogglePlugin(x) => Action::TogglePlugin(x.clone()),
            Action::ShowPluginDetails(x) => Action::ShowPluginDetails(x.clone()),
            Action::ShowPluginFilters => Action::ShowPluginFilters,
            Action::ShowDependencyGraph => Action::ShowDependencyGraph,
            Action::RefreshPlugins => Action::RefreshPlugins,
            Action::RefreshSystemStatus => Action::RefreshSystemStatus,
            Action::ShowSystemDetails => Action::ShowSystemDetails,
            Action::ShowLogs => Action::ShowLogs,
            Action::FilterLogs(x) => Action::FilterLogs(*x),
            Action::ClearLogs => Action::ClearLogs,
            Action::ExportLogs => Action::ExportLogs,
            Action::ShowError(x) => Action::ShowError(x.clone()),
            Action::DismissError => Action::DismissError,
            Action::ShowSettings => Action::ShowSettings,
            Action::ChangeTheme(x) => Action::ChangeTheme(x.clone()),
            Action::SaveSettings => Action::SaveSettings,
            Action::Custom(name, value) => Action::Custom(name.clone(), value.clone()),
        }
    }
}

/// The text shown for an action: its name, and in brackets what it holds.
pub open spec fn action_text(a: Action) -> Seq<char> {
    match a {
        Action::NoAction => "None"@,
        Action::Quit => "Quit"@,
        Action::Refresh => "Refresh"@,
        Action::Navigate(v) => "Navigate("@ + view_type_name(v) + ")"@,
        Action::Back => "Back"@,
        Action::GoBack => "GoBack"@,
        Action::GoForward => "GoForward"@,
        Action::FocusNext => "FocusNext"@,
        Action::FocusPrevious => "FocusPrevious"@,
        Action::FocusWidget(s) => "FocusWidget("@ + s@ + ")"@,
        Action::SelectNext => "SelectNext"@,
        Action::SelectPrevious => "SelectPrevious"@,
        Action::SelectFirst => "SelectFirst"@,
        Action::SelectLast => "SelectLast"@,
        Action::SelectItem(i) => "SelectItem("@ + decimal_text(i as nat) + ")"@,
        Action::StartInput(m) => "StartInput("@ + input_mode_debug(m) + ")"@,
        Action::ConfirmInput(s) => "ConfirmInput("@ + s@ + ")"@,
        Action::CancelInput => "CancelInput"@,
        Action::Search(s) => "Search("@ + s@ + ")"@,
        Action::Filter(s) => "Filter("@ + s@ + ")"@,
        Action::Sort(o) => "Sort("@ + sort_order_debug(o) + ")"@,
        Action::ClearFilter => "ClearFilter"@,
        Action::ToggleDetails => "ToggleDetails"@,
        Action::ToggleHelp => "ToggleHelp"@,
        Action::ExecuteWorkflow(s) => "ExecuteWorkflow("@ + s@ + ")"@,
        Action::PauseWorkflow(s) => "PauseWorkflow("@ + s@ + ")"@,
        Action::ResumeWorkflow(s) => "ResumeWorkflow("@ + s@ + ")"@,
        Action::StopWorkflow(s) => "StopWorkflow("@ + s@ + ")"@,
        Action::CancelWorkflow(s) => "CancelWorkflow("@ + s@ + ")"@,
        Action::ShowWorkflowDetails(s) => "ShowWorkflowDetails("@ + s@ + ")"@,
        Action::CreateWorkflow => "CreateWorkflow"@,
        Action::EditWorkflow(s) => "EditWorkflow("@ + s@ + ")"@,
        Action::DeleteWorkflow(s) => "DeleteWorkflow("@ + s@ + ")"@,
        Action::ExecuteTool(s) => "ExecuteTool("@ + s@ + ")"@,
        Action::ShowToolDetails(s) => "ShowToolDetails("@ + s@ + ")"@,
        Action::RefreshTools => "RefreshTools"@,
        Action::InstallPlugin(s) => "InstallPlugin("@ + s@ + ")"@,
        Action::UninstallPlugin(s) => "UninstallPlugin("@ + s@ + ")"@,
        Action::ReloadPlugin(s) => "ReloadPlugin("@ + s@ + ")"@,
        Action::EnablePlugin(s) => "EnablePlugin("@ + s@ + ")"@,
        Action::DisablePlugin(s) => "DisablePlugin("@ + s@ + ")"@,
        Action::TogglePlugin(s) => "TogglePlugin("@ + s@ + ")"@,
        Action::ShowPluginDetails(s) => "ShowPluginDetails("@ + s@ + ")"@,
        Action::ShowPluginFilters => "ShowPluginFilters"@,
        Action::ShowDependencyGraph => "ShowDependencyGraph"@,
        Action::RefreshPlugins => "RefreshPlugins"@,
        Action::RefreshSystemStatus => "RefreshSystemStatus"@,
        Action::ShowSystemDetails => "ShowSystemDetails"@,
        Action::ShowLogs => "ShowLogs"@,
        Action::FilterLogs(l) => "FilterLogs("@ + log_level_name(l) + ")"@,
        Action::ClearLogs => "ClearLogs"@,
        Action::ExportLogs => "ExportLogs"@,
        Action::ShowError(s) => "ShowError("@ + s@ + ")"@,
        Action::DismissError => "DismissError"@,
        Action::ShowSettings => "ShowSettings"@,
        Action::ChangeTheme(s) => "ChangeTheme("@ + s@ + ")"@,
        Action::SaveSettings => "SaveSettings"@,
        Action::Custom(name, _) => "Custom("@ + name@ + ")"@,
    }
}

impl Action {
    /// The text shown for this action.
    pub fn to_display_string(&self) -> (res: String)
        ensures
            res@ == action_text(*self),
    {
        match self {
            Action::NoAction => String::from_str("None"),
            Action::Quit => String::from_str("Quit"),
            Action::Refresh => String::from_str("Refresh"),
            Action::Navigate(v) => bracketed("Navigate(", v.name()),
            Action::Back => String::from_str("Back"),
            Action::GoBack => String::from_str("GoBack"),
            Action::GoForward => String::from_str("GoForward"),
            Action::FocusNext => String::from_str("FocusNext"),
            Action::FocusPrevious => String::from_str("FocusPrevious"),
            Action::FocusWidget(s) => bracketed("FocusWidget(", s.as_str()),
            Action::SelectNext => String::from_str("SelectNext"),
            Action::SelectPrevious => String::from_str("SelectPrevious"),
            Action::SelectFirst => String::from_str("SelectFirst"),
            Action::SelectLast => String::from_str("SelectLast"),
            Action::SelectItem(i) => {
                let t = decimal_string(*i);
                bracketed("SelectItem(", t.as_str())
            },
            Action::StartInput(m) => {
                let t = input_mode_debug_text(m);
                bracketed("StartInput(", t.as_str())
            },
            Action::ConfirmInput(s) => bracketed("ConfirmInput(", s.as_str()),
            Action::CancelInput => String::from_str("CancelInput"),
            Action::Search(s) => bracketed("Search(", s.as_str()),
            Action::Filter(s) => bracketed("Filter(", s.as_str()),
            Action::Sort(o) => {
                let t = sort_order_debug_text(o);
                bracketed("Sort(", t.as_str())
            },
            Action::ClearFilter => String::from_str("ClearFilter"),
            Action::ToggleDetails => String::from_str("ToggleDetails"),
            Action::ToggleHelp => String::from_str("ToggleHelp"),
            Action::ExecuteWorkflow(s) => bracketed("ExecuteWorkflow(", s.as_str()),
            Action::PauseWorkflow(s) => bracketed("PauseWorkflow(", s.as_str()),
            Action::ResumeWorkflow(s) => bracketed("ResumeWorkflow(", s.as_str()),
            Action::StopWorkflow(s) => bracketed("StopWorkflow(", s.as_str()),
            Action::CancelWorkflow(s) => bracketed("CancelWorkflow(", s.as_str()),
            Action::ShowWorkflowDetails(s) => bracketed("ShowWorkflowDetails(", s.as_str()),
            Action::CreateWorkflow => String::from_str("CreateWorkflow"),
            Action::EditWorkflow(s) => bracketed("EditWorkflow(", s.as_str()),
            Action::DeleteWorkflow(s) => bracketed("DeleteWorkflow(", s.as_str()),
            Action::ExecuteTool(s) => bracketed("ExecuteTool(", s.as_str()),
            Action::ShowToolDetails(s) => bracketed("ShowToolDetails(", s.as_str()),
            Action::RefreshTools => String::from_str("RefreshTools"),
            Action::InstallPlugin(s) => bracketed("InstallPlugin(", s.as_str()),
            Action::UninstallPlugin(s) => bracketed("UninstallPlugin(", s.as_str()),
            Action::ReloadPlugin(s) => bracketed("ReloadPlugin(", s.as_str()),
            Action::EnablePlugin(s) => bracketed("EnablePlugin(", s.as_str()),
            Action::DisablePlugin(s) => bracketed("DisablePlugin(", s.as_str()),
            Action::TogglePlugin(s) => bracketed("TogglePlugin(", s.as_str()),
            Action::ShowPluginDetails(s) => bracketed("ShowPluginDetails(", s.as_str()),
            Action::ShowPluginFilters => String::from_str("ShowPluginFilters"),
            Action::ShowDependencyGraph => String::from_str("ShowDependencyGraph"),
            Action::RefreshPlugins => String::from_str("RefreshPlugins"),
            Action::RefreshSystemStatus => String::from_str("RefreshSystemStatus"),
            Action::ShowSystemDetails => String::from_str("ShowSystemDetails"),
            Action::ShowLogs => String::from_str("ShowLogs"),
            Action::FilterLogs(l) => bracketed("FilterLogs(", l.name()),
            Action::ClearLogs => String::from_str("ClearLogs"),
            Action::ExportLogs => String::from_str("ExportLogs"),
            Action::ShowError(s) => bracketed("ShowError(", s.as_str()),
            Action::DismissError => String::from_str("DismissError"),
            Action::ShowSettings => String::from_str("ShowSettings"),
            Action::ChangeTheme(s) => bracketed("ChangeTheme(", s.as_str()),
            Action::SaveSettings => String::from_str("SaveSettings"),
            Action::Custom(name, _) => bracketed("Custom(", name.as_str()),
        }
    }
}

/// The text that the derived `Debug` prints for an action: the variant's
/// name, and in brackets what it holds, strings quoted. `json` stands for
/// the text of the JSON value of a custom action, which serde_json prints.
pub open spec fn action_debug(a: Action, json: Seq<char>) -> Seq<char> {
    match a {
        Action::NoAction => "NoAction"@,
        Action::Quit => "Quit"@,
        Action::Refresh => "Refresh"@,
        Action::Navigate(v) => "Navigate("@ + view_type_name(v) + ")"@,
        Action::Back => "Back"@,
        Action::GoBack => "GoBack"@,
        Action::GoForward => "GoForward"@,
        Action::FocusNext => "FocusNext"@,
        Action::FocusPrevious => "FocusPrevious"@,
        Action::FocusWidget(s) => "FocusWidget("@ + quoted(s@) + ")"@,
        Action::SelectNext => "SelectNext"@,
        Action::SelectPrevious => "SelectPrevious"@,
        Action::SelectFirst => "SelectFirst"@,
        Action::SelectLast => "SelectLast"@,
        Action::SelectItem(i) => "SelectItem("@ + decimal_text(i as nat) + ")"@,
        Action::StartInput(m) => "StartInput("@ + input_mode_debug(m) + ")"@,
        Action::ConfirmInput(s) => "ConfirmInput("@ + quoted(s@) + ")"@,
        Action::CancelInput => "CancelInput"@,
        Action::Search(s) => "Search("@ + quoted(s@) + ")"@,
        Action::Filter(s) => "Filter("@ + quoted(s@) + ")"@,
        Action::Sort(o) => "Sort("@ + sort_order_debug(o) + ")"@,
        Action::ClearFilter => "ClearFilter"@,
        Action::ToggleDetails => "ToggleDetails"@,
        Action::ToggleHelp => "ToggleHelp"@,
        Action::ExecuteWorkflow(s) => "ExecuteWorkflow("@ + quoted(s@) + ")"@,
        Action::PauseWorkflow(s) => "PauseWorkflow("@ + quoted(s@) + ")"@,
        Action::ResumeWorkflow(s) => "ResumeWorkflow("@ + quoted(s@) + ")"@,
        Action::StopWorkflow(s) => "StopWorkflow("@ + quoted(s@) + ")"@,
        Action::CancelWorkflow(s) => "CancelWorkflow("@ + quoted(s@) + ")"@,
        Action::ShowWorkflowDetails(s) => "ShowWorkflowDetails("@ + quoted(s@) + ")"@,
        Action::CreateWorkflow => "CreateWorkflow"@,
        Action::EditWorkflow(s) => "EditWorkflow("@ + quoted(s@) + ")"@,
        Action::DeleteWorkflow(s) => "DeleteWorkflow("@ + quoted(s@) + ")"@,
        Action::ExecuteTool(s) => "ExecuteTool("@ + quoted(s@) + ")"@,
        Action::ShowToolDetails(s) => "ShowToolDetails("@ + quoted(s@) + ")"@,
        Action::RefreshTools => "RefreshTools"@,
        Action::InstallPlugin(s) => "InstallPlugin("@ + quoted(s@) + ")"@,
        Action::UninstallPlugin(s) => "UninstallPlugin("@ + quoted(s@) + ")"@,
        Action::ReloadPlugin(s) => "ReloadPlugin("@ + quoted(s@) + ")"@,
        Action::EnablePlugin(s) => "EnablePlugin("@ + quoted(s@) + ")"@,
        Action::DisablePlugin(s) => "DisablePlugin("@ + quoted(s@) + ")"@,
        Action::TogglePlugin(s) => "TogglePlugin("@ + quoted(s@) + ")"@,
        Action::ShowPluginDetails(s) => "ShowPluginDetails("@ + quoted(s@) + ")"@,
        Action::ShowPluginFilters => "ShowPluginFilters"@,
        Action::ShowDependencyGraph => "ShowDependencyGraph"@,
        Action::RefreshPlugins => "RefreshPlugins"@,
        Action::RefreshSystemStatus => "RefreshSystemStatus"@,
        Action::ShowSystemDetails => "ShowSystemDetails"@,
        Action::ShowLogs => "ShowLogs"@,
        Action::FilterLogs(l) => "FilterLogs("@ + log_level_name(l) + ")"@,
        Action::ClearLogs => "ClearLogs"@,
        Action::ExportLogs => "ExportLogs"@,
        Action::ShowError(s) => "ShowError("@ + quoted(s@) + ")"@,
        Action::DismissError => "DismissError"@,
        Action::ShowSettings => "ShowSettings"@,
        Action::ChangeTheme(s) => "ChangeTheme("@ + quoted(s@) + ")"@,
        Action::SaveSettings => "SaveSettings"@,
        Action::Custom(name, _) => "Custom("@ + quoted(name@) + ", "@ + json + ")"@,
    }
}

/// The debug text of a JSON value, as serde_json's `Debug` implementation
/// prints it (`format!("{:?}", ..)`). Nothing is stated of the text: the
/// value is opaque here, so its printed form cannot be named.
#[verifier::external_body]
fn json_debug_text(v: &serde_json::Value) -> (res: String) {
    format!("{:?}", v)
}

impl Action {
    /// The debug text of this action; for a custom action the text of its
    /// JSON value is what serde_json prints.
    pub fn debug_text(&self) -> (res: String)
        ensures
            exists|json: Seq<char>| res@ == #[trigger] action_debug(*self, json),
            !(*self is Custom) ==> res@ == action_debug(*self, Seq::<char>::empty()),
    {
        let res = match self {
            Action::NoAction => String::from_str("NoAction"),
            Action::Quit => String::from_str("Quit"),
            Action::Refresh => String::from_str("Refresh"),
            Action::Navigate(v) => bracketed("Navigate(", v.name()),
            Action::Back => String::from_str("Back"),
            Action::GoBack => String::from_str("GoBack"),
            Action::GoForward => String::from_str("GoForward"),
            Action::FocusNext => String::from_str("FocusNext"),
            Action::FocusPrevious => String::from_str("FocusPrevious"),
            Action::FocusWidget(s) => quoted_in("FocusWidget(", s.as_str()),
            Action::SelectNext => String::from_str("SelectNext"),
            Action::SelectPrevious => String::from_str("SelectPrevious"),
            Action::SelectFirst => String::from_str("SelectFirst"),
            Action::SelectLast => String::from_str("SelectLast"),
            Action::SelectItem(i) => {
                let t = decimal_string(*i);
                bracketed("SelectItem(", t.as_str())
            },
            Action::StartInput(m) => {
                let t = input_mode_debug_text(m);
                bracketed("StartInput(", t.as_str())
            },
            Action::ConfirmInput(s) => quoted_in("ConfirmInput(", s.as_str()),
            Action::CancelInput => String::from_str("CancelInput"),
            Action::Search(s) => quoted_in("Search(", s.as_str()),
            Action::Filter(s) => quoted_in("Filter(", s.as_str()),
            Action::Sort(o) => {
                let t = sort_order_debug_text(o);
                bracketed("Sort(", t.as_str())
            },
            Action::ClearFilter => String::from_str("ClearFilter"),
            Action::ToggleDetails => String::from_str("ToggleDetails"),
            Action::ToggleHelp => String::from_str("ToggleHelp"),
            Action::ExecuteWorkflow(s) => quoted_in("ExecuteWorkflow(", s.as_str()),
            Action::PauseWorkflow(s) => quoted_in("PauseWorkflow(", s.as_str()),
            Action::ResumeWorkflow(s) => quoted_in("ResumeWorkflow(", s.as_str()),
            Action::StopWorkflow(s) => quoted_in("StopWorkflow(", s.as_str()),
            Action::CancelWorkflow(s) => quoted_in("CancelWorkflow(", s.as_str()),
            Action::ShowWorkflowDetails(s) => quoted_in("ShowWorkflowDetails(", s.as_str()),
            Action::CreateWorkflow => String::from_str("CreateWorkflow"),
            Action::EditWorkflow(s) => quoted_in("EditWorkflow(", s.as_str()),
            Action::DeleteWorkflow(s) => quoted_in("DeleteWorkflow(", s.as_str()),
            Action::ExecuteTool(s) => quoted_in("ExecuteTool(", s.as_str()),
            Action::ShowToolDetails(s) => quoted_in("ShowToolDetails(", s.as_str()),
            Action::RefreshTools => String::from_str("RefreshTools"),
            Action::InstallPlugin(s) => quoted_in("InstallPlugin(", s.as_str()),
            Action::UninstallPlugin(s) => quoted_in("UninstallPlugin(", s.as_str()),
            Action::ReloadPlugin(s) => quoted_in("ReloadPlugin(", s.as_str()),
            Action::EnablePlugin(s) => quoted_in("EnablePlugin(", s.as_str()),
            Action::DisablePlugin(s) => quoted_in("DisablePlugin(", s.as_str()),
            Action::TogglePlugin(s) => quoted_in("TogglePlugin(", s.as_str()),
            Action::ShowPluginDetails(s) => quoted_in("ShowPluginDetails(", s.as_str()),
            Action::ShowPluginFilters => String::from_str("ShowPluginFilters"),
            Action::ShowDependencyGraph => String::from_str("ShowDependencyGraph"),
            Action::RefreshPlugins => String::from_str("RefreshPlugins"),
            Action::RefreshSystemStatus => String::from_str("RefreshSystemStatus"),
            Action::ShowSystemDetails => String::from_str("ShowSystemDetails"),
            Action::ShowLogs => String::from_str("ShowLogs"),
            Action::FilterLogs(l) => bracketed("FilterLogs(", l.name()),
            Action::ClearLogs => String::from_str("ClearLogs"),
            Action::ExportLogs => String::from_str("ExportLogs"),
            Action::ShowError(s) => quoted_in("ShowError(", s.as_str()),
            Action::DismissError => String::from_str("DismissError"),
            Action::ShowSettings => String::from_str("ShowSettings"),
            Action::ChangeTheme(s) => quoted_in("ChangeTheme(", s.as_str()),
            Action::SaveSettings => String::from_str("SaveSettings"),
            Action::Custom(name, value) => {
                let j = json_debug_text(value);
                let mut t = String::from_str("Custom(");
                t.append(quoted_text(name.as_str()).as_str());
                t.append(", ");
                t.append(j.as_str());
                t.append(")");
                proof {
                    assert(t@ == action_debug(*self, j@));
                }
                t
            },
        };
        proof {
            if !(*self is Custom) {
                assert(res@ == action_debug(*self, Seq::<char>::empty()));
            }
        }
        res
    }
}

/// The result of processing an action.
#[derive(Debug)]
pub enum ActionResult {
    Success,
    Error(String),
    RequiresConfirmation(String),
    RequiresInput(InputMode, String),
    Ignored,
    Forward(Action),
}

/// The text shown for the result of an action.
pub open spec fn action_result_text(r: ActionResult) -> Seq<char> {
    match r {
        ActionResult::Success => "Success"@,
        ActionResult::Error(m) => "Error: "@ + m@,
        ActionResult::RequiresConfirmation(m) => "RequiresConfirmation: "@ + m@,
        ActionResult::RequiresInput(mode, prompt) => "RequiresInput("@ + input_mode_debug(mode) + "): "@
            + prompt@,
        ActionResult::Ignored => "Ignored"@,
        ActionResult::Forward(a) => "Forward("@ + action_text(a) + ")"@,
    }
}

impl ActionResult {
    /// The text shown for this result.
    pub fn to_display_string(&self) -> (res: String)
        ensures
            res@ == action_result_text(*self),
    {
        match self {
            ActionResult::Success => String::from_str("Success"),
            ActionResult::Error(m) => {
                let mut s = String::from_str("Error: ");
                s.append(m.as_str());
                s
            },
            ActionResult::RequiresConfirmation(m) => {
                let mut s = String::from_str("RequiresConfirmation: ");
                s.append(m.as_str());
                s
            },
            ActionResult::RequiresInput(mode, prompt) => {
                let mut s = String::from_str("RequiresInput(");
                s.append(input_mode_debug_text(mode).as_str());
                s.append("): ");
                s.append(prompt.as_str());
                s
            },
            ActionResult::Ignored => String::from_str("Ignored"),
            ActionResult::Forward(a) => {
                let inner = a.to_display_string();
                bracketed("Forward(", inner.as_str())
            },
        }
    }
}

} // verus!
