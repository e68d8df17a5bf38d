//! User feedback: progress indicators, confirmation dialogs, notifications
//! and status messages, and the manager that applies feedback events.

use vstd::prelude::*;
use vstd::string::*;
use crate::platform::TermColor;
use crate::error::{clock_now_ms, elapsed_ms};

verus! {

/// The state of a long-running operation.
#[derive(Debug, Clone, Copy, PartialEq, Eq, Structural)]
pub enum ProgressStatus {
    NotStarted,
    InProgress,
    Completed,
    Failed,
    Cancelled,
    Paused,
}

impl ProgressStatus {
    /// The symbol shown for this state.
    pub fn icon(&self) -> (res: &'static str)
        ensures
            res@ == match *self {
                ProgressStatus::NotStarted => "○"@,
                ProgressStatus::InProgress => "●"@,
                ProgressStatus::Completed => "✓"@,
                ProgressStatus::Failed => "✗"@,
                ProgressStatus::Cancelled => "⊘"@,
                ProgressStatus::Paused => "⏸"@,
            },
    {
        match self {
            ProgressStatus::NotStarted => "○",
            ProgressStatus::InProgress => "●",
            ProgressStatus::Completed => "✓",
            ProgressStatus::Failed => "✗",
            ProgressStatus::Cancelled => "⊘",
            ProgressStatus::Paused => "⏸",
        }
    }

    /// The name of this state as shown to the user.
    pub fn label(&self) -> (res: &'static str)
        ensures
            res@ == match *self {
                ProgressStatus::NotStarted => "未开始"@,
                ProgressStatus::InProgress => "进行中"@,
                ProgressStatus::Completed => "已完成"@,
                ProgressStatus::Failed => "失败"@,
                ProgressStatus::Cancelled => "已取消"@,
                ProgressStatus::Paused => "已暂停"@,
            },
    {
        match self {
            ProgressStatus::NotStarted => "未开始",
            ProgressStatus::InProgress => "进行中",
            ProgressStatus::Completed => "已完成",
            ProgressStatus::Failed => "失败",
            ProgressStatus::Cancelled => "已取消",
            ProgressStatus::Paused => "已暂停",
        }
    }
}

/// The smaller of two 64-bit values.
pub open spec fn min_u64(a: u64, b: u64) -> u64 {
    if a <= b { a } else { b }
}

/// The estimated time of completion, in milliseconds: the remaining work at
/// the rate observed since `started`, added to `now` and capped at the
/// largest 64-bit value.
pub open spec fn estimate_completion(total: u64, current: u64, started: u64, now: u64) -> u64
    recommends
        0 < current <= total,
{
    let remaining = (total - current) * elapsed_ms(started, now) / (current as int);
    if now + remaining <= u64::MAX { (now + remaining) as u64 } else { u64::MAX }
}

/// Progress of a long-running operation.
#[derive(Debug)]
pub struct ProgressIndicator {
    pub id: String,
    pub title: String,
    pub current: u64,
    pub total: u64,
    pub status: ProgressStatus,
    pub message: String,
    /// When the operation started, in milliseconds.
    pub started_at_ms: u64,
    /// When the operation is expected to complete, in milliseconds.
    pub estimated_completion_ms: Option<u64>,
    pub show_percentage: bool,
    pub show_eta: bool,
    pub show_rate: bool,
}

impl Clone for ProgressIndicator {
    fn clone(&self) -> (res: Self)
        ensures
            res == *self,
    {
        ProgressIndicator {
            id: self.id.clone(),
            title: self.title.clone(),
            current: self.current,
            total: self.total,
            status: self.status,
            message: self.message.clone(),
            started_at_ms: self.started_at_ms,
            estimated_completion_ms: self.estimated_completion_ms,
            show_percentage: self.show_percentage,
            show_eta: self.show_eta,
            show_rate: self.show_rate,
        }
    }
}

impl ProgressIndicator {
    /// The indicator after `update_at(current, message, now)`.
    pub open spec fn updated(self, current: u64, message: Option<String>, now: u64) -> Self {
        let c = min_u64(current, self.total);
        let msg = match message {
            Some(m) => m,
            None => self.message,
        };
        let eta = if c > 0 && self.status == ProgressStatus::InProgress {
            Some(estimate_completion(self.total, c, self.started_at_ms, now))
        } else {
            self.estimated_completion_ms
        };
        let status = if c >= self.total && self.status == ProgressStatus::InProgress {
            ProgressStatus::Completed
        } else {
            self.status
        };
        ProgressIndicator {
            current: c,
            message: msg,
            estimated_completion_ms: eta,
            status,
            ..self
        }
    }

    /// A new indicator, not started, created at time `now`.
    pub fn new_at(id: String, title: String, total: u64, now: u64) -> (res: Self)
        ensures
            res.id == id,
            res.title == title,
            res.current == 0,
            res.total == total,
            res.status == ProgressStatus::NotStarted,
            res.message@ == Seq::<char>::empty(),
            res.started_at_ms == now,
            res.estimated_completion_ms is None,
            res.show_percentage,
            res.show_eta,
            !res.show_rate,
    {
        ProgressIndicator {
            id,
            title,
            current: 0,
            total,
            status: ProgressStatus::NotStarted,
            message: String::new(),
            started_at_ms: now,
            estimated_completion_ms: None,
            show_percentage: true,
            show_eta: true,
            show_rate: false,
        }
    }

    /// A new indicator, not started, created at the current time of the
    /// system clock.
    pub fn new(id: String, title: String, total: u64) -> (res: Self)
        ensures
            res.id == id,
            res.title == title,
            res.current == 0,
            res.total == total,
            res.status == ProgressStatus::NotStarted,
            res.message@ == Seq::<char>::empty(),
            res.estimated_completion_ms is None,
            res.show_percentage,
            res.show_eta,
            !res.show_rate,
    {
        Self::new_at(id, title, total, clock_now_ms())
    }

    /// Starts the operation at time `now`.
    pub fn start_at(&mut self, now: u64)
        ensures
            *final(self) == (ProgressIndicator {
                status: ProgressStatus::InProgress,
                started_at_ms: now,
                ..*old(self)
            }),
    {
        self.status = ProgressStatus::InProgress;
        self.started_at_ms = now;
    }

    /// Starts the operation at the current time of the system clock.
    pub fn start(&mut self)
        ensures
            *final(self) == (ProgressIndicator {
                status: ProgressStatus::InProgress,
                started_at_ms: final(self).started_at_ms,
                ..*old(self)
            }),
    {
        self.start_at(clock_now_ms());
    }

    /// Records progress at time `now`: the current amount is capped at the
    /// total, the message replaced when one is given, the completion time
    /// estimated while running, and a running operation that reaches its
    /// total completes.
    pub fn update_at(&mut self, current: u64, message: Option<String>, now: u64)
        ensures
            *final(self) == old(self).updated(current, message, now),
    {
        self.current = if current < self.total { current } else { self.total };
        match message {
            Some(m) => {
                self.message = m;
            },
            None => {},
        }
        if self.current > 0 && self.status == ProgressStatus::InProgress {
            let elapsed: u64 = if now >= self.started_at_ms { now - self.started_at_ms } else { 0 };
            let work: u128 = (self.total - self.current) as u128;
            assert(work * (elapsed as u128) <= u128::MAX) by (nonlinear_arith)
                requires
                    work <= u64::MAX,
                    elapsed <= u64::MAX,
            ;
            let remaining: u128 = work * (elapsed as u128) / (self.current as u128);
            let max_left: u128 = (u64::MAX - now) as u128;
            let eta: u64 = if remaining <= max_left { now + remaining as u64 } else { u64::MAX };
            self.estimated_completion_ms = Some(eta);
        }
        if self.current >= self.total && self.status == ProgressStatus::InProgress {
            self.status = ProgressStatus::Completed;
        }
    }

    /// Records progress at the current time of the system clock.
    pub fn update(&mut self, current: u64, message: Option<String>)
        ensures
            exists|now: u64| *final(self) == old(self).updated(current, message, now),
    {
        self.update_at(current, message, clock_now_ms());
    }

    /// Marks the operation as completed.
    pub fn complete(&mut self)
        ensures
            final(self).current == old(self).total,
            final(self).status == ProgressStatus::Completed,
            final(self).message@ == "操作完成"@,
            *final(self) == (ProgressIndicator {
                current: old(self).total,
                status: ProgressStatus::Completed,
                message: final(self).message,
                ..*old(self)
            }),
    {
        self.current = self.total;
        self.status = ProgressStatus::Completed;
        self.message = String::from_str("操作完成");
    }

    /// Marks the operation as failed, with a message.
    pub fn fail(&mut self, message: String)
        ensures
            *final(self) == (ProgressIndicator {
                status: ProgressStatus::Failed,
                message,
                ..*old(self)
            }),
    {
        self.status = ProgressStatus::Failed;
        self.message = message;
    }

    /// Marks the operation as cancelled.
    pub fn cancel(&mut self)
        ensures
            final(self).message@ == "操作已取消"@,
            *final(self) == (ProgressIndicator {
                status: ProgressStatus::Cancelled,
                message: final(self).message,
                ..*old(self)
            }),
    {
        self.status = ProgressStatus::Cancelled;
        self.message = String::from_str("操作已取消");
    }

    /// Pauses the operation.
    pub fn pause(&mut self)
        ensures
            *final(self) == (ProgressIndicator { status: ProgressStatus::Paused, ..*old(self) }),
    {
        self.status = ProgressStatus::Paused;
    }

    /// Resumes a paused operation; other states are left as they are.
    pub fn resume(&mut self)
        ensures
            *final(self) == if old(self).status == ProgressStatus::Paused {
                ProgressIndicator { status: ProgressStatus::InProgress, ..*old(self) }
            } else {
                *old(self)
            },
    {
        if self.status == ProgressStatus::Paused {
            self.status = ProgressStatus::InProgress;
        }
    }

    /// Milliseconds since the operation started, at time `now`.
    pub fn elapsed_at(&self, now: u64) -> (res: u64)
        ensures
            res == elapsed_ms(self.started_at_ms, now),
    {
        if now >= self.started_at_ms { now - self.started_at_ms } else { 0 }
    }

    /// Milliseconds since the operation started, by the system clock.
    pub fn elapsed(&self) -> (res: u64)
        ensures
            exists|now: u64| res == elapsed_ms(self.started_at_ms, now),
    {
        self.elapsed_at(clock_now_ms())
    }

    /// Milliseconds left until the estimated completion at time `now`, zero
    /// once it has passed, or nothing without an estimate.
    pub open spec fn eta_value(self, now: u64) -> Option<u64> {
        match self.estimated_completion_ms {
            Some(eta) => Some(if eta > now { (eta - now) as u64 } else { 0u64 }),
            None => None::<u64>,
        }
    }

    /// Milliseconds left until the estimated completion at time `now`, zero
    /// once it has passed, or nothing without an estimate.
    pub fn eta_at(&self, now: u64) -> (res: Option<u64>)
        ensures
            res == self.eta_value(now),
    {
        match self.estimated_completion_ms {
            Some(eta) => Some(if eta > now { eta - now } else { 0 }),
            None => None,
        }
    }

    /// Milliseconds left until the estimated completion, by the system clock.
    pub fn eta(&self) -> (res: Option<u64>)
        ensures
            exists|now: u64| res == #[trigger] self.eta_value(now),
            res is Some <==> self.estimated_completion_ms is Some,
    {
        let now = clock_now_ms();
        let res = self.eta_at(now);
        assert(res == self.eta_value(now));
        res
    }
}

/// What choosing an option of a dialog does.
#[derive(Debug, PartialEq, Eq)]
pub enum ConfirmationAction {
    Confirm,
    Cancel,
    Custom(String),
}

impl Clone for ConfirmationAction {
    fn clone(&self) -> (res: Self)
        ensures
            res == *self,
    {
        match self {
            ConfirmationAction::Confirm => ConfirmationAction::Confirm,
            ConfirmationAction::Cancel => ConfirmationAction::Cancel,
            ConfirmationAction::Custom(s) => ConfirmationAction::Custom(s.clone()),
        }
    }
}

/// How an option of a dialog is drawn.
#[derive(Debug, Clone, Copy, PartialEq, Eq, Structural)]
pub enum OptionStyle {
    Default,
    Primary,
    Danger,
    Warning,
}

/// One option of a confirmation dialog, chosen with its key.
#[derive(Debug)]
pub struct ConfirmationOption {
    pub label: String,
    pub key: char,
    pub action: ConfirmationAction,
    pub style: OptionStyle,
}

impl Clone for ConfirmationOption {
    fn clone(&self) -> (res: Self)
        ensures
            res == *self,
    {
        ConfirmationOption {
            label: self.label.clone(),
            key: self.key,
            action: self.action.clone(),
            style: self.style,
        }
    }
}

/// The kind of a dialog.
#[derive(Debug, Clone, Copy, PartialEq, Eq, Structural)]
pub enum DialogType {
    Info,
    Warning,
    Error,
    Question,
    Confirmation,
}

impl DialogType {
    /// The symbol shown in the title of a dialog of this kind.
    pub fn icon(&self) -> (res: &'static str)
        ensures
            res@ == match *self {
                DialogType::Info => "ℹ"@,
                DialogType::Warning => "⚠"@,
                DialogType::Error => "✗"@,
                DialogType::Question => "?"@,
                DialogType::Confirmation => "✓"@,
            },
    {
        match self {
            DialogType::Info => "ℹ",
            DialogType::Warning => "⚠",
            DialogType::Error => "✗",
            DialogType::Question => "?",
            DialogType::Confirmation => "✓",
        }
    }
}

/// An option given by its label, key, action and style.
pub open spec fn option_is(
    o: ConfirmationOption,
    label: Seq<char>,
    key: char,
    action: ConfirmationAction,
    style: OptionStyle,
) -> bool {
    o.label@ == label && o.key == key && o.action == action && o.style == style
}

/// Whether `options` are the options that a new dialog of type `t` offers:
/// confirm (y) and cancel (n) for a confirmation, a single "OK" (o) for an
/// error, "OK" (o) and cancel (c) otherwise.
pub open spec fn default_options(t: DialogType, options: Seq<ConfirmationOption>) -> bool {
    match t {
        DialogType::Confirmation => options.len() == 2 && option_is(
            options[0],
            "确认"@,
            'y',
            ConfirmationAction::Confirm,
            OptionStyle::Primary,
        ) && option_is(options[1], "取消"@, 'n', ConfirmationAction::Cancel, OptionStyle::Default),
        DialogType::Error => options.len() == 1 && option_is(
            options[0],
            "确定"@,
            'o',
            ConfirmationAction::Confirm,
            OptionStyle::Default,
        ),
        _ => options.len() == 2 && option_is(
            options[0],
            "确定"@,
            'o',
            ConfirmationAction::Confirm,
            OptionStyle::Default,
        ) && option_is(options[1], "取消"@, 'c', ConfirmationAction::Cancel, OptionStyle::Default),
    }
}

/// The first position in `options`, from `start` on, whose key is `key`.
pub open spec fn key_position(options: Seq<ConfirmationOption>, key: char, start: int) -> Option<int>
    decreases options.len() - start,
{
    if start < 0 || start >= options.len() {
        None
    } else if options[start].key == key {
        Some(start)
    } else {
        key_position(options, key, start + 1)
    }
}

/// A dialog that asks the user to choose among options.
#[derive(Debug)]
pub struct ConfirmationDialog {
    pub title: String,
    pub message: String,
    pub options: Vec<ConfirmationOption>,
    pub default_option: usize,
    pub selected_option: usize,
    pub dialog_type: DialogType,
    pub show_details: bool,
    pub details: Option<String>,
}

impl Clone for ConfirmationDialog {
    fn clone(&self) -> (res: Self)
        ensures
            res.equivalent(*self),
    {
        let mut options: Vec<ConfirmationOption> = Vec::new();
        let mut i: usize = 0;
        while i < self.options.len()
            invariant
                i <= self.options@.len(),
                options@ == self.options@.take(i as int),
            decreases self.options@.len() - i,
        {
            options.push(self.options[i].clone());
            i = i + 1;
            assert(options@ =~= self.options@.take(i as int));
        }
        assert(self.options@.take(i as int) =~= self.options@);
        ConfirmationDialog {
            title: self.title.clone(),
            message: self.message.clone(),
            options,
            default_option: self.default_option,
            selected_option: self.selected_option,
            dialog_type: self.dialog_type,
            show_details: self.show_details,
            details: match &self.details {
                Some(d) => Some(d.clone()),
                None => None,
            },
        }
    }
}

impl ConfirmationDialog {
    /// Whether two dialogs hold the same values, the options compared by
    /// their contents.
    pub open spec fn equivalent(self, other: Self) -> bool {
        &&& self.title == other.title
        &&& self.message == other.message
        &&& self.options@ == other.options@
        &&& self.default_option == other.default_option
        &&& self.selected_option == other.selected_option
        &&& self.dialog_type == other.dialog_type
        &&& self.show_details == other.show_details
        &&& self.details == other.details
    }

    /// A dialog of the given type with the default options of that type, the
    /// first option selected and no details.
    pub fn new(title: String, message: String, dialog_type: DialogType) -> (res: Self)
        ensures
            res.title == title,
            res.message == message,
            default_options(dialog_type, res.options@),
            res.default_option == 0,
            res.selected_option == 0,
            res.dialog_type == dialog_type,
            !res.show_details,
            res.details is None,
    {
        let mut options: Vec<ConfirmationOption> = Vec::new();
        match dialog_type {
            DialogType::Confirmation => {
                options.push(ConfirmationOption {
                    label: String::from_str("确认"),
                    key: 'y',
                    action: ConfirmationAction::Confirm,
                    style: OptionStyle::Primary,
                });
                options.push(ConfirmationOption {
                    label: String::from_str("取消"),
                    key: 'n',
                    action: ConfirmationAction::Cancel,
                    style: OptionStyle::Default,
                });
            },
            DialogType::Error => {
                options.push(ConfirmationOption {
                    label: String::from_str("确定"),
                    key: 'o',
                    action: ConfirmationAction::Confirm,
                    style: OptionStyle::Default,
                });
            },
            _ => {
                options.push(ConfirmationOption {
                    label: String::from_str("确定"),
                    key: 'o',
                    action: ConfirmationAction::Confirm,
                    style: OptionStyle::Default,
                });
                options.push(ConfirmationOption {
                    label: String::from_str("取消"),
                    key: 'c',
                    action: ConfirmationAction::Cancel,
                    style: OptionStyle::Default,
                });
            },
        }
        ConfirmationDialog {
            title,
            message,
            options,
            default_option: 0,
            selected_option: 0,
            dialog_type,
            show_details: false,
            details: None,
        }
    }

    /// This dialog with other options.
    pub fn with_options(self, options: Vec<ConfirmationOption>) -> (res: Self)
        ensures
            res == (ConfirmationDialog { options, ..self }),
    {
        let mut d = self;
        d.options = options;
        d
    }

    /// This dialog with details that the user can show.
    pub fn with_details(self, details: String) -> (res: Self)
        ensures
            res == (ConfirmationDialog { details: Some(details), ..self }),
    {
        let mut d = self;
        d.details = Some(details);
        d
    }

    /// Selects the next option, staying on the last one.
    pub fn select_next(&mut self)
        ensures
            *final(self) == if old(self).selected_option + 1 < old(self).options@.len() {
                ConfirmationDialog {
                    selected_option: (old(self).selected_option + 1) as usize,
                    ..*old(self)
                }
            } else {
                *old(self)
            },
    {
        let last: usize = if self.options.len() > 0 { self.options.len() - 1 } else { 0 };
        if self.selected_option < last {
            self.selected_option = self.selected_option + 1;
        }
    }

    /// Selects the previous option, staying on the first one.
    pub fn select_previous(&mut self)
        ensures
            *final(self) == if old(self).selected_option > 0 {
                ConfirmationDialog {
                    selected_option: (old(self).selected_option - 1) as usize,
                    ..*old(self)
                }
            } else {
                *old(self)
            },
    {
        if self.selected_option > 0 {
            self.selected_option = self.selected_option - 1;
        }
    }

    /// Selects the first option whose key is `key` and returns its action;
    /// without such an option nothing changes.
    pub fn select_by_key(&mut self, key: char) -> (res: Option<ConfirmationAction>)
        ensures
            match key_position(old(self).options@, key, 0) {
                Some(i) => {
                    &&& *final(self) == (ConfirmationDialog {
                        selected_option: i as usize,
                        ..*old(self)
                    })
                    &&& res == Some(old(self).options@[i].action)
                },
                None => *final(self) == *old(self) && res is None,
            },
    {
        let mut i: usize = 0;
        while i < self.options.len()
            invariant
                i <= self.options@.len(),
                self.options@ == old(self).options@,
                *self == *old(self),
                key_position(self.options@, key, 0) == key_position(self.options@, key, i as int),
            decreases self.options@.len() - i,
        {
            if self.options[i].key == key {
                self.selected_option = i;
                return Some(self.options[i].action.clone());
            }
            i = i + 1;
        }
        None
    }

    /// The action of the selected option, if the selection is valid.
    pub fn get_selected_action(&self) -> (res: Option<&ConfirmationAction>)
        ensures
            self.selected_option < self.options@.len() ==> res == Some(
                &self.options@[self.selected_option as int].action,
            ),
            self.selected_option >= self.options@.len() ==> res is None,
    {
        if self.selected_option < self.options.len() {
            Some(&self.options[self.selected_option].action)
        } else {
            None
        }
    }

    /// Shows or hides the details, when the dialog has some.
    pub fn toggle_details(&mut self)
        ensures
            *final(self) == if old(self).details is Some {
                ConfirmationDialog { show_details: !old(self).show_details, ..*old(self) }
            } else {
                *old(self)
            },
    {
        if self.details.is_some() {
            self.show_details = !self.show_details;
        }
    }
}

/// An action that a notification offers.
#[derive(Debug)]
pub struct NotificationAction {
    pub label: String,
    pub key: char,
    pub action: String,
}

impl Clone for NotificationAction {
    fn clone(&self) -> (res: Self)
        ensures
            res == *self,
    {
        NotificationAction { label: self.label.clone(), key: self.key, action: self.action.clone() }
    }
}

/// The kind of a notification.
#[derive(Debug, Clone, Copy, PartialEq, Eq, Structural)]
pub enum NotificationType {
    Info,
    Success,
    Warning,
    Error,
}

impl NotificationType {
    /// The symbol shown for a notification of this kind.
    pub fn icon(&self) -> (res: &'static str)
        ensures
            res@ == match *self {
                NotificationType::Info => "ℹ"@,
                NotificationType::Success => "✓"@,
                NotificationType::Warning => "⚠"@,
                NotificationType::Error => "✗"@,
            },
    {
        match self {
            NotificationType::Info => "ℹ",
            NotificationType::Success => "✓",
            NotificationType::Warning => "⚠",
            NotificationType::Error => "✗",
        }
    }
}

/// How long a notification of kind `t` stays, in milliseconds; errors stay
/// until dismissed.
pub open spec fn notification_duration(t: NotificationType) -> Option<u64> {
    match t {
        NotificationType::Info => Some(3000),
        NotificationType::Success => Some(2000),
        NotificationType::Warning => Some(5000),
        NotificationType::Error => None,
    }
}

/// A message shown for a while without blocking the user.
#[derive(Debug)]
pub struct Notification {
    pub id: String,
    pub title: String,
    pub message: String,
    pub notification_type: NotificationType,
    /// When the notification was created, in milliseconds.
    pub created_at_ms: u64,
    /// How long it stays, in milliseconds; forever when absent.
    pub duration_ms: Option<u64>,
    pub dismissible: bool,
    pub actions: Vec<NotificationAction>,
}

impl Clone for Notification {
    fn clone(&self) -> (res: Self)
        ensures
            res.equivalent(*self),
    {
        let mut actions: Vec<NotificationAction> = Vec::new();
        let mut i: usize = 0;
        while i < self.actions.len()
            invariant
                i <= self.actions@.len(),
                actions@ == self.actions@.take(i as int),
            decreases self.actions@.len() - i,
        {
            actions.push(self.actions[i].clone());
            i = i + 1;
            assert(actions@ =~= self.actions@.take(i as int));
        }
        assert(self.actions@.take(i as int) =~= self.actions@);
        Notification {
            id: self.id.clone(),
            title: self.title.clone(),
            message: self.message.clone(),
            notification_type: self.notification_type,
            created_at_ms: self.created_at_ms,
            duration_ms: self.duration_ms,
            dismissible: self.dismissible,
            actions,
        }
    }
}

impl Notification {
    /// Whether two notifications hold the same values, the actions compared
    /// by their contents.
    pub open spec fn equivalent(self, other: Self) -> bool {
        &&& self.id == other.id
        &&& self.title == other.title
        &&& self.message == other.message
        &&& self.notification_type == other.notification_type
        &&& self.created_at_ms == other.created_at_ms
        &&& self.duration_ms == other.duration_ms
        &&& self.dismissible == other.dismissible
        &&& self.actions@ == other.actions@
    }

    /// Whether the notification has expired at time `now`.
    pub open spec fn expired_at(self, now: u64) -> bool {
        match self.duration_ms {
            Some(d) => elapsed_ms(self.created_at_ms, now) >= d,
            None => false,
        }
    }

    /// A dismissible notification without actions, created at time `now`,
    /// that stays as long as its kind calls for.
    pub fn new_at(
        id: String,
        title: String,
        message: String,
        notification_type: NotificationType,
        now: u64,
    ) -> (res: Self)
        ensures
            res.id == id,
            res.title == title,
            res.message == message,
            res.notification_type == notification_type,
            res.created_at_ms == now,
            res.duration_ms == notification_duration(notification_type),
            res.dismissible,
            res.actions@.len() == 0,
    {
        let duration_ms = match notification_type {
            NotificationType::Info => Some(3000u64),
            NotificationType::Success => Some(2000u64),
            NotificationType::Warning => Some(5000u64),
            NotificationType::Error => None,
        };
        Notification {
            id,
            title,
            message,
            notification_type,
            created_at_ms: now,
            duration_ms,
            dismissible: true,
            actions: Vec::new(),
        }
    }

    /// A notification created at the current time of the system clock.
    pub fn new(id: String, title: String, message: String, notification_type: NotificationType) -> (res: Self)
        ensures
            res.id == id,
            res.title == title,
            res.message == message,
            res.notification_type == notification_type,
            res.duration_ms == notification_duration(notification_type),
            res.dismissible,
            res.actions@.len() == 0,
    {
        Self::new_at(id, title, message, notification_type, clock_now_ms())
    }

    /// This notification with another duration.
    pub fn with_duration(self, duration_ms: Option<u64>) -> (res: Self)
        ensures
            res == (Notification { duration_ms, ..self }),
    {
        let mut n = self;
        n.duration_ms = duration_ms;
        n
    }

    /// This notification with actions.
    pub fn with_actions(self, actions: Vec<NotificationAction>) -> (res: Self)
        ensures
            res == (Notification { actions, ..self }),
    {
        let mut n = self;
        n.actions = actions;
        n
    }

    /// Whether the notification has expired at time `now`: it has a duration
    /// and at least that long has passed since it was created.
    pub fn is_expired_at(&self, now: u64) -> (res: bool)
        ensures
            res == self.expired_at(now),
    {
        match self.duration_ms {
            Some(d) => {
                let age: u64 = if now >= self.created_at_ms { now - self.created_at_ms } else { 0 };
                age >= d
            },
            None => false,
        }
    }

    /// Whether the notification has expired by the system clock; one without
    /// a duration never expires.
    pub fn is_expired(&self) -> (res: bool)
        ensures
            exists|now: u64| res == #[trigger] self.expired_at(now),
            res ==> self.duration_ms is Some,
    {
        let now = clock_now_ms();
        let res = self.is_expired_at(now);
        assert(res == self.expired_at(now));
        res
    }

    /// Milliseconds since the notification was created, at time `now`.
    pub fn age_at(&self, now: u64) -> (res: u64)
        ensures
            res == elapsed_ms(self.created_at_ms, now),
    {
        if now >= self.created_at_ms { now - self.created_at_ms } else { 0 }
    }

    /// Milliseconds since the notification was created, by the system clock.
    pub fn age(&self) -> (res: u64)
        ensures
            exists|now: u64| res == elapsed_ms(self.created_at_ms, now),
    {
        self.age_at(clock_now_ms())
    }
}

/// The kind of a status message.
#[derive(Debug, Clone, Copy, PartialEq, Eq, Structural)]
pub enum StatusType {
    Info,
    Success,
    Warning,
    Error,
    Loading,
}

impl StatusType {
    /// The symbol shown in front of a status message of this kind.
    pub fn icon(&self) -> (res: &'static str)
        ensures
            res@ == match *self {
                StatusType::Info => "ℹ"@,
                StatusType::Success => "✓"@,
                StatusType::Warning => "⚠"@,
                StatusType::Error => "✗"@,
                StatusType::Loading => "⟳"@,
            },
    {
        match self {
            StatusType::Info => "ℹ",
            StatusType::Success => "✓",
            StatusType::Warning => "⚠",
            StatusType::Error => "✗",
            StatusType::Loading => "⟳",
        }
    }
}

/// How long a status message of kind `t` stays, in milliseconds.
pub open spec fn status_duration(t: StatusType) -> u64 {
    match t {
        StatusType::Loading => 30000,
        StatusType::Error => 10000,
        _ => 3000,
    }
}

/// A short message in the status line.
#[derive(Debug)]
pub struct StatusMessage {
    pub message: String,
    pub status_type: StatusType,
    /// When the message was created, in milliseconds.
    pub created_at_ms: u64,
    /// How long it stays, in milliseconds.
    pub duration_ms: u64,
}

impl Clone for StatusMessage {
    fn clone(&self) -> (res: Self)
        ensures
            res == *self,
    {
        StatusMessage {
            message: self.message.clone(),
            status_type: self.status_type,
            created_at_ms: self.created_at_ms,
            duration_ms: self.duration_ms,
        }
    }
}

impl StatusMessage {
    /// Whether the message has expired at time `now`.
    pub open spec fn expired_at(self, now: u64) -> bool {
        elapsed_ms(self.created_at_ms, now) >= self.duration_ms
    }

    /// A status message created at time `now` that stays as long as its kind
    /// calls for.
    pub fn new_at(message: String, status_type: StatusType, now: u64) -> (res: Self)
        ensures
            res == (StatusMessage {
                message,
                status_type,
                created_at_ms: now,
                duration_ms: status_duration(status_type),
            }),
    {
        let duration_ms: u64 = match status_type {
            StatusType::Loading => 30000,
            StatusType::Error => 10000,
            _ => 3000,
        };
        StatusMessage { message, status_type, created_at_ms: now, duration_ms }
    }

    /// A status message created at the current time of the system clock.
    pub fn new(message: String, status_type: StatusType) -> (res: Self)
        ensures
            res.message == message,
            res.status_type == status_type,
            res.duration_ms == status_duration(status_type),
    {
        Self::new_at(message, status_type, clock_now_ms())
    }

    /// This message with another duration.
    pub fn with_duration(self, duration_ms: u64) -> (res: Self)
        ensures
            res == (StatusMessage { duration_ms, ..self }),
    {
        let mut m = self;
        m.duration_ms = duration_ms;
        m
    }

    /// Whether the message has expired at time `now`.
    pub fn is_expired_at(&self, now: u64) -> (res: bool)
        ensures
            res == self.expired_at(now),
    {
        let age: u64 = if now >= self.created_at_ms { now - self.created_at_ms } else { 0 };
        age >= self.duration_ms
    }

    /// Whether the message has expired by the system clock.
    pub fn is_expired(&self) -> (res: bool)
        ensures
            exists|now: u64| res == self.expired_at(now),
    {
        self.is_expired_at(clock_now_ms())
    }

    /// Milliseconds left before the message expires at time `now`.
    pub open spec fn remaining_at(self, now: u64) -> int {
        if elapsed_ms(self.created_at_ms, now) >= self.duration_ms {
            0
        } else {
            self.duration_ms - elapsed_ms(self.created_at_ms, now)
        }
    }

    /// Milliseconds left before the message expires at time `now`.
    pub fn remaining_time_at(&self, now: u64) -> (res: u64)
        ensures
            res == self.remaining_at(now),
    {
        let age: u64 = if now >= self.created_at_ms { now - self.created_at_ms } else { 0 };
        if age >= self.duration_ms { 0 } else { self.duration_ms - age }
    }

    /// Milliseconds left before the message expires, by the system clock.
    pub fn remaining_time(&self) -> (res: u64)
        ensures
            exists|now: u64| res == #[trigger] self.remaining_at(now),
            res <= self.duration_ms,
    {
        let now = clock_now_ms();
        let res = self.remaining_time_at(now);
        assert(res == self.remaining_at(now));
        res
    }
}

/// The elements of `s` that satisfy `keep`, in order.
pub open spec fn keep_where<T>(s: Seq<T>, keep: spec_fn(T) -> bool) -> Seq<T>
    decreases s.len(),
{
    if s.len() == 0 {
        Seq::empty()
    } else {
        let rest = keep_where(s.drop_last(), keep);
        if keep(s.last()) { rest.push(s.last()) } else { rest }
    }
}

/// The first position, from `start` on, of a progress indicator with
/// identifier `id`.
pub open spec fn progress_position(s: Seq<ProgressIndicator>, id: Seq<char>, start: int) -> Option<int>
    decreases s.len() - start,
{
    if start < 0 || start >= s.len() {
        None
    } else if s[start].id@ == id {
        Some(start)
    } else {
        progress_position(s, id, start + 1)
    }
}

/// The progress indicators of `s` whose identifier is not `id`.
pub open spec fn progress_without(s: Seq<ProgressIndicator>, id: Seq<char>) -> Seq<ProgressIndicator> {
    keep_where(s, |p: ProgressIndicator| p.id@ != id)
}

/// The notifications of `s` whose identifier is not `id`.
pub open spec fn notifications_without(s: Seq<Notification>, id: Seq<char>) -> Seq<Notification> {
    keep_where(s, |n: Notification| n.id@ != id)
}

/// A position found for an identifier holds an indicator with that
/// identifier.
pub proof fn lemma_progress_position(s: Seq<ProgressIndicator>, id: Seq<char>, start: int)
    ensures
        progress_position(s, id, start) matches Some(i) ==> start <= i < s.len() && s[i].id@ == id,
    decreases s.len() - start,
{
    if 0 <= start < s.len() && s[start].id@ != id {
        lemma_progress_position(s, id, start + 1);
    }
}

/// The indicator after `complete`.
pub open spec fn completed_from(new: ProgressIndicator, old: ProgressIndicator) -> bool {
    &&& new.message@ == "操作完成"@
    &&& new == (ProgressIndicator {
        current: old.total,
        status: ProgressStatus::Completed,
        message: new.message,
        ..old
    })
}

/// The indicator after `cancel`.
pub open spec fn cancelled_from(new: ProgressIndicator, old: ProgressIndicator) -> bool {
    &&& new.message@ == "操作已取消"@
    &&& new == (ProgressIndicator {
        status: ProgressStatus::Cancelled,
        message: new.message,
        ..old
    })
}

/// Whether `new` is `old` with the indicator at the first position of `id`
/// changed as `changed` allows, or `old` itself when no indicator has that
/// identifier.
pub open spec fn changed_first(
    old: Seq<ProgressIndicator>,
    new: Seq<ProgressIndicator>,
    id: Seq<char>,
    changed: spec_fn(ProgressIndicator, ProgressIndicator) -> bool,
) -> bool {
    match progress_position(old, id, 0) {
        Some(i) => {
            &&& new.len() == old.len()
            &&& forall|k: int| 0 <= k < old.len() && k != i ==> new[k] == old[k]
            &&& changed(new[i], old[i])
        },
        None => new == old,
    }
}

/// A change to what the feedback manager shows.
#[derive(Debug)]
#[allow(inconsistent_fields)]
pub enum FeedbackEvent {
    ShowProgress(ProgressIndicator),
    UpdateProgress { id: String, current: u64, message: Option<String> },
    CompleteProgress(String),
    FailProgress { id: String, message: String },
    CancelProgress(String),
    ShowNotification(Notification),
    DismissNotification(String),
    ShowDialog(ConfirmationDialog),
    DismissDialog,
    ShowStatus(StatusMessage),
    ClearStatus,
}

/// Whether a progress state is finished: completed, failed or cancelled.
pub open spec fn is_finished(status: ProgressStatus) -> bool {
    status == ProgressStatus::Completed || status == ProgressStatus::Failed || status
        == ProgressStatus::Cancelled
}

/// A change made to one progress indicator.
enum ProgressChange {
    Update { current: u64, message: Option<String>, now: u64 },
    Complete,
    Fail(String),
    Cancel,
}

impl ProgressChange {
    /// Whether `new` is `old` after this change.
    spec fn applied(self, new: ProgressIndicator, old: ProgressIndicator) -> bool {
        match self {
            ProgressChange::Update { current, message, now } => new == old.updated(current, message, now),
            ProgressChange::Complete => completed_from(new, old),
            ProgressChange::Fail(message) => new == (ProgressIndicator {
                status: ProgressStatus::Failed,
                message,
                ..old
            }),
            ProgressChange::Cancel => cancelled_from(new, old),
        }
    }
}

/// Holds the progress indicators, notifications, dialog and status message
/// that the interface shows.
pub struct FeedbackManager {
    progress_indicators: Vec<ProgressIndicator>,
    notifications: Vec<Notification>,
    current_dialog: Option<ConfirmationDialog>,
    status_message: Option<StatusMessage>,
    max_notifications: usize,
}

impl FeedbackManager {
    /// The progress indicators, in the order they were shown.
    pub closed spec fn progress(self) -> Seq<ProgressIndicator> {
        self.progress_indicators@
    }

    /// The notifications, oldest first.
    pub closed spec fn notifications(self) -> Seq<Notification> {
        self.notifications@
    }

    /// The dialog shown, if any.
    pub closed spec fn dialog(self) -> Option<ConfirmationDialog> {
        self.current_dialog
    }

    /// The status message, if any.
    pub closed spec fn status(self) -> Option<StatusMessage> {
        self.status_message
    }

    /// How many notifications are kept at most.
    pub closed spec fn max_notifications(self) -> nat {
        self.max_notifications as nat
    }

    /// The notifications never exceed their limit.
    pub closed spec fn well_formed(self) -> bool {
        self.notifications@.len() <= self.max_notifications
    }

    /// A manager that shows nothing and keeps up to five notifications.
    pub fn new() -> (res: Self)
        ensures
            res.well_formed(),
            res.progress() == Seq::<ProgressIndicator>::empty(),
            res.notifications() == Seq::<Notification>::empty(),
            res.dialog() is None,
            res.status() is None,
            res.max_notifications() == 5,
    {
        FeedbackManager {
            progress_indicators: Vec::new(),
            notifications: Vec::new(),
            current_dialog: None,
            status_message: None,
            max_notifications: 5,
        }
    }

    /// Removes the progress indicators with identifier `id`.
    fn remove_progress(&mut self, id: &String)
        ensures
            final(self).progress() == progress_without(old(self).progress(), id@),
            final(self).notifications() == old(self).notifications(),
            final(self).dialog() == old(self).dialog(),
            final(self).status() == old(self).status(),
            final(self).max_notifications() == old(self).max_notifications(),
    {
        let ghost keep = |p: ProgressIndicator| p.id@ != id@;
        let mut drop: Vec<bool> = Vec::new();
        let mut k: usize = 0;
        while k < self.progress_indicators.len()
            invariant
                k <= self.progress_indicators@.len(),
                drop@.len() == k,
                forall|m: int| 0 <= m < k ==> drop@[m] == !keep(self.progress_indicators@[m]),
                keep == (|p: ProgressIndicator| p.id@ != id@),
            decreases self.progress_indicators@.len() - k,
        {
            drop.push(self.progress_indicators[k].id == *id);
            k = k + 1;
        }
        proof {
            lemma_flags_match(self.progress_indicators@, drop@, keep);
        }
        remove_flagged(&mut self.progress_indicators, &drop);
    }

    /// The first position of a progress indicator with identifier `id`.
    fn find_progress(&self, id: &String) -> (res: Option<usize>)
        ensures
            res matches Some(i) ==> progress_position(self.progress(), id@, 0) == Some(i as int),
            res is None ==> progress_position(self.progress(), id@, 0) is None,
            res matches Some(i) ==> i < self.progress().len(),
    {
        proof {
            lemma_progress_position(self.progress_indicators@, id@, 0);
        }
        let mut i: usize = 0;
        while i < self.progress_indicators.len()
            invariant
                i <= self.progress_indicators@.len(),
                progress_position(self.progress_indicators@, id@, 0) == progress_position(
                    self.progress_indicators@,
                    id@,
                    i as int,
                ),
            decreases self.progress_indicators@.len() - i,
        {
            if self.progress_indicators[i].id == *id {
                return Some(i);
            }
            i = i + 1;
        }
        None
    }

    /// Applies a feedback event at time `now`: showing a progress indicator
    /// replaces the ones with its identifier and adds it last; updating,
    /// completing, failing and cancelling change the first indicator with the
    /// identifier given; a notification is added last and the oldest ones
    /// beyond the limit are dropped; dismissing a notification removes every
    /// one with its identifier; dialogs and status messages are set or
    /// cleared.
    pub fn handle_feedback_event(&mut self, event: FeedbackEvent, now: u64)
        requires
            old(self).well_formed(),
        ensures
            final(self).well_formed(),
            final(self).max_notifications() == old(self).max_notifications(),
            match event {
                FeedbackEvent::ShowProgress(shown) => final(self).progress() == progress_without(
                    old(self).progress(),
                    shown.id@,
                ).push(shown),
                FeedbackEvent::UpdateProgress { id, current, message } => changed_first(
                    old(self).progress(),
                    final(self).progress(),
                    id@,
                    |n: ProgressIndicator, o: ProgressIndicator| n == o.updated(current, message, now),
                ),
                FeedbackEvent::CompleteProgress(id) => changed_first(
                    old(self).progress(),
                    final(self).progress(),
                    id@,
                    |n: ProgressIndicator, o: ProgressIndicator| completed_from(n, o),
                ),
                FeedbackEvent::FailProgress { id, message } => changed_first(
                    old(self).progress(),
                    final(self).progress(),
                    id@,
                    |n: ProgressIndicator, o: ProgressIndicator|
                        n == (ProgressIndicator { status: ProgressStatus::Failed, message, ..o }),
                ),
                FeedbackEvent::CancelProgress(id) => changed_first(
                    old(self).progress(),
                    final(self).progress(),
                    id@,
                    |n: ProgressIndicator, o: ProgressIndicator| cancelled_from(n, o),
                ),
                _ => final(self).progress() == old(self).progress(),
            },
            match event {
                FeedbackEvent::ShowNotification(n) => final(self).notifications() == crate::error::keep_last(
                    old(self).notifications().push(n),
                    old(self).max_notifications(),
                ),
                FeedbackEvent::DismissNotification(id) => final(self).notifications()
                    == notifications_without(old(self).notifications(), id@),
                _ => final(self).notifications() == old(self).notifications(),
            },
            match event {
                FeedbackEvent::ShowDialog(d) => final(self).dialog() == Some(d),
                FeedbackEvent::DismissDialog => final(self).dialog() is None,
                _ => final(self).dialog() == old(self).dialog(),
            },
            match event {
                FeedbackEvent::ShowStatus(m) => final(self).status() == Some(m),
                FeedbackEvent::ClearStatus => final(self).status() is None,
                _ => final(self).status() == old(self).status(),
            },
    {
        match event {
            FeedbackEvent::ShowProgress(progress) => {
                self.remove_progress(&progress.id);
                self.progress_indicators.push(progress);
            },
            FeedbackEvent::UpdateProgress { id, current, message } => {
                self.change_progress(&id, ProgressChange::Update { current, message, now });
            },
            FeedbackEvent::CompleteProgress(id) => {
                self.change_progress(&id, ProgressChange::Complete);
            },
            FeedbackEvent::FailProgress { id, message } => {
                self.change_progress(&id, ProgressChange::Fail(message));
            },
            FeedbackEvent::CancelProgress(id) => {
                self.change_progress(&id, ProgressChange::Cancel);
            },
            FeedbackEvent::ShowNotification(notification) => {
                self.push_notification(notification);
            },
            FeedbackEvent::DismissNotification(id) => {
                self.remove_notifications(&id);
            },
            FeedbackEvent::ShowDialog(dialog) => {
                self.current_dialog = Some(dialog);
            },
            FeedbackEvent::DismissDialog => {
                self.current_dialog = None;
            },
            FeedbackEvent::ShowStatus(status) => {
                self.status_message = Some(status);
            },
            FeedbackEvent::ClearStatus => {
                self.status_message = None;
            },
        }
    }

    /// Applies `change` to the first progress indicator with identifier `id`.
    fn change_progress(&mut self, id: &String, change: ProgressChange)
        ensures
            changed_first(
                old(self).progress(),
                final(self).progress(),
                id@,
                |n: ProgressIndicator, o: ProgressIndicator| change.applied(n, o),
            ),
            final(self).notifications() == old(self).notifications(),
            final(self).dialog() == old(self).dialog(),
            final(self).status() == old(self).status(),
            final(self).max_notifications() == old(self).max_notifications(),
    {
        match self.find_progress(id) {
            Some(i) => {
                let ghost before = self.progress_indicators@;
                let mut p = self.progress_indicators.remove(i);
                let ghost original = p;
                let ghost ch = change;
                match change {
                    ProgressChange::Update { current, message, now } => {
                        p.update_at(current, message, now);
                    },
                    ProgressChange::Complete => {
                        p.complete();
                    },
                    ProgressChange::Fail(message) => {
                        p.fail(message);
                    },
                    ProgressChange::Cancel => {
                        p.cancel();
                    },
                }
                assert(ch.applied(p, original));
                self.progress_indicators.insert(i, p);
                assert(self.progress_indicators@ =~= before.update(i as int, p));
                assert(forall|k: int|
                    0 <= k < before.len() && k != i ==> #[trigger] self.progress_indicators@[k]
                        == before[k]);
            },
            None => {},
        }
    }

    /// Adds a notification last, dropping the oldest beyond the limit.
    fn push_notification(&mut self, notification: Notification)
        requires
            old(self).well_formed(),
        ensures
            final(self).well_formed(),
            final(self).notifications() == crate::error::keep_last(
                old(self).notifications().push(notification),
                old(self).max_notifications(),
            ),
            final(self).progress() == old(self).progress(),
            final(self).dialog() == old(self).dialog(),
            final(self).status() == old(self).status(),
            final(self).max_notifications() == old(self).max_notifications(),
    {
        let ghost pushed = self.notifications@.push(notification);
        self.notifications.push(notification);
        while self.notifications.len() > self.max_notifications
            invariant
                self.max_notifications == old(self).max_notifications,
                self.notifications@ == pushed.skip(pushed.len() - self.notifications@.len()),
                self.notifications@.len() <= pushed.len(),
                pushed.len() > self.max_notifications ==> self.notifications@.len()
                    >= self.max_notifications,
                pushed.len() <= self.max_notifications ==> self.notifications@.len() == pushed.len(),
                pushed.len() == old(self).notifications@.len() + 1,
                self.progress_indicators == old(self).progress_indicators,
                self.current_dialog == old(self).current_dialog,
                self.status_message == old(self).status_message,
            decreases self.notifications.len(),
        {
            self.notifications.remove(0);
        }
        assert(self.notifications@ =~= crate::error::keep_last(pushed, self.max_notifications as nat));
    }

    /// Removes the notifications with identifier `id`.
    fn remove_notifications(&mut self, id: &String)
        requires
            old(self).well_formed(),
        ensures
            final(self).well_formed(),
            final(self).notifications() == notifications_without(old(self).notifications(), id@),
            final(self).progress() == old(self).progress(),
            final(self).dialog() == old(self).dialog(),
            final(self).status() == old(self).status(),
            final(self).max_notifications() == old(self).max_notifications(),
    {
        let ghost keep = |n: Notification| n.id@ != id@;
        let mut drop: Vec<bool> = Vec::new();
        let mut k: usize = 0;
        while k < self.notifications.len()
            invariant
                k <= self.notifications@.len(),
                drop@.len() == k,
                forall|m: int| 0 <= m < k ==> drop@[m] == !keep(self.notifications@[m]),
                keep == (|n: Notification| n.id@ != id@),
            decreases self.notifications@.len() - k,
        {
            drop.push(self.notifications[k].id == *id);
            k = k + 1;
        }
        proof {
            lemma_flags_match(self.notifications@, drop@, keep);
            lemma_keep_where_len(self.notifications@, keep);
        }
        remove_flagged(&mut self.notifications, &drop);
    }

    /// Removes the notifications that have expired at time `now` and returns
    /// copies of the others.
    pub fn get_notifications_at(&mut self, now: u64) -> (res: Vec<Notification>)
        requires
            old(self).well_formed(),
        ensures
            final(self).well_formed(),
            final(self).notifications() == keep_where(
                old(self).notifications(),
                |n: Notification| !n.expired_at(now),
            ),
            res@.len() == final(self).notifications().len(),
            forall|i: int| 0 <= i < res@.len() ==> #[trigger] res@[i].equivalent(final(self).notifications()[i]),
            final(self).progress() == old(self).progress(),
            final(self).dialog() == old(self).dialog(),
            final(self).status() == old(self).status(),
            final(self).max_notifications() == old(self).max_notifications(),
    {
        let ghost keep = |n: Notification| !n.expired_at(now);
        let mut drop: Vec<bool> = Vec::new();
        let mut k: usize = 0;
        while k < self.notifications.len()
            invariant
                k <= self.notifications@.len(),
                drop@.len() == k,
                forall|m: int| 0 <= m < k ==> drop@[m] == !keep(self.notifications@[m]),
                keep == (|n: Notification| !n.expired_at(now)),
            decreases self.notifications@.len() - k,
        {
            drop.push(self.notifications[k].is_expired_at(now));
            k = k + 1;
        }
        proof {
            lemma_flags_match(self.notifications@, drop@, keep);
            lemma_keep_where_len(self.notifications@, keep);
        }
        remove_flagged(&mut self.notifications, &drop);
        let mut res: Vec<Notification> = Vec::new();
        let mut i: usize = 0;
        while i < self.notifications.len()
            invariant
                i <= self.notifications@.len(),
                res@.len() == i,
                forall|m: int| 0 <= m < i ==> #[trigger] res@[m].equivalent(self.notifications@[m]),
            decreases self.notifications@.len() - i,
        {
            res.push(self.notifications[i].clone());
            i = i + 1;
        }
        res
    }

    /// Removes the expired notifications by the system clock and returns
    /// copies of the others.
    pub fn get_notifications(&mut self) -> (res: Vec<Notification>)
        requires
            old(self).well_formed(),
        ensures
            final(self).well_formed(),
            exists|now: u64| final(self).notifications() == #[trigger] unexpired(old(self).notifications(), now),
            res@.len() == final(self).notifications().len(),
            forall|i: int| 0 <= i < res@.len() ==> #[trigger] res@[i].equivalent(final(self).notifications()[i]),
            final(self).notifications().len() <= old(self).notifications().len(),
            final(self).progress() == old(self).progress(),
            final(self).dialog() == old(self).dialog(),
            final(self).status() == old(self).status(),
            final(self).max_notifications() == old(self).max_notifications(),
    {
        let now = clock_now_ms();
        let res = self.get_notifications_at(now);
        proof {
            lemma_keep_where_len(old(self).notifications@, |n: Notification| !n.expired_at(now));
            assert(final(self).notifications() == unexpired(old(self).notifications(), now));
        }
        res
    }

    /// Copies of the progress indicators.
    pub fn get_progress_indicators(&self) -> (res: Vec<ProgressIndicator>)
        ensures
            res@ == self.progress(),
    {
        let mut res: Vec<ProgressIndicator> = Vec::new();
        let mut i: usize = 0;
        while i < self.progress_indicators.len()
            invariant
                i <= self.progress_indicators@.len(),
                res@ == self.progress_indicators@.take(i as int),
            decreases self.progress_indicators@.len() - i,
        {
            res.push(self.progress_indicators[i].clone());
            i = i + 1;
            assert(res@ =~= self.progress_indicators@.take(i as int));
        }
        assert(self.progress_indicators@.take(i as int) =~= self.progress_indicators@);
        res
    }

    /// A copy of the dialog shown, if any.
    pub fn get_current_dialog(&self) -> (res: Option<ConfirmationDialog>)
        ensures
            res is Some <==> self.dialog() is Some,
            res is Some ==> res.unwrap().equivalent(self.dialog().unwrap()),
    {
        match &self.current_dialog {
            Some(d) => Some(d.clone()),
            None => None,
        }
    }

    /// The status message at time `now`: an expired one is cleared and
    /// nothing is returned; otherwise a copy of it, if any.
    pub fn get_status_message_at(&mut self, now: u64) -> (res: Option<StatusMessage>)
        requires
            old(self).well_formed(),
        ensures
            final(self).well_formed(),
            match old(self).status() {
                Some(m) => if m.expired_at(now) {
                    final(self).status() is None && res is None
                } else {
                    final(self).status() == old(self).status() && res == Some(m)
                },
                None => final(self).status() is None && res is None,
            },
            final(self).progress() == old(self).progress(),
            final(self).notifications() == old(self).notifications(),
            final(self).dialog() == old(self).dialog(),
            final(self).max_notifications() == old(self).max_notifications(),
    {
        let expired = match &self.status_message {
            Some(m) => m.is_expired_at(now),
            None => false,
        };
        if expired {
            self.status_message = None;
            return None;
        }
        match &self.status_message {
            Some(m) => Some(m.clone()),
            None => None,
        }
    }

    /// The status message by the system clock; an expired one is cleared.
    pub fn get_status_message(&mut self) -> (res: Option<StatusMessage>)
        requires
            old(self).well_formed(),
        ensures
            final(self).well_formed(),
            exists|now: u64| final(self).status() == #[trigger] status_left(old(self).status(), now),
            res == final(self).status(),
            final(self).progress() == old(self).progress(),
            final(self).notifications() == old(self).notifications(),
            final(self).dialog() == old(self).dialog(),
            final(self).max_notifications() == old(self).max_notifications(),
    {
        let now = clock_now_ms();
        let res = self.get_status_message_at(now);
        assert(final(self).status() == status_left(old(self).status(), now));
        res
    }

    /// Removes the finished indicators (completed, failed or cancelled) that
    /// started five seconds or more before `now`.
    pub fn cleanup_completed_progress_at(&mut self, now: u64)
        requires
            old(self).well_formed(),
        ensures
            final(self).well_formed(),
            final(self).progress() == keep_where(
                old(self).progress(),
                |p: ProgressIndicator| !is_finished(p.status) || elapsed_ms(p.started_at_ms, now) < 5000,
            ),
            final(self).notifications() == old(self).notifications(),
            final(self).dialog() == old(self).dialog(),
            final(self).status() == old(self).status(),
            final(self).max_notifications() == old(self).max_notifications(),
    {
        let ghost keep = |p: ProgressIndicator|
            !is_finished(p.status) || elapsed_ms(p.started_at_ms, now) < 5000;
        let mut drop: Vec<bool> = Vec::new();
        let mut k: usize = 0;
        while k < self.progress_indicators.len()
            invariant
                k <= self.progress_indicators@.len(),
                drop@.len() == k,
                forall|m: int| 0 <= m < k ==> drop@[m] == !keep(self.progress_indicators@[m]),
                keep == (|p: ProgressIndicator|
                    !is_finished(p.status) || elapsed_ms(p.started_at_ms, now) < 5000),
            decreases self.progress_indicators@.len() - k,
        {
            let p = &self.progress_indicators[k];
            let finished = match p.status {
                ProgressStatus::Completed | ProgressStatus::Failed | ProgressStatus::Cancelled => true,
                _ => false,
            };
            let age: u64 = if now >= p.started_at_ms { now - p.started_at_ms } else { 0 };
            drop.push(finished && age >= 5000);
            k = k + 1;
        }
        proof {
            lemma_flags_match(self.progress_indicators@, drop@, keep);
        }
        remove_flagged(&mut self.progress_indicators, &drop);
    }

    /// Removes the finished indicators that started five seconds or more ago
    /// by the system clock.
    pub fn cleanup_completed_progress(&mut self)
        requires
            old(self).well_formed(),
        ensures
            final(self).well_formed(),
            exists|now: u64| final(self).progress() == #[trigger] progress_kept(old(self).progress(), now),
            final(self).progress().len() <= old(self).progress().len(),
            final(self).notifications() == old(self).notifications(),
            final(self).dialog() == old(self).dialog(),
            final(self).status() == old(self).status(),
            final(self).max_notifications() == old(self).max_notifications(),
    {
        let now = clock_now_ms();
        self.cleanup_completed_progress_at(now);
        proof {
            lemma_keep_where_len(
                old(self).progress_indicators@,
                |p: ProgressIndicator| !is_finished(p.status) || elapsed_ms(p.started_at_ms, now) < 5000,
            );
            assert(final(self).progress() == progress_kept(old(self).progress(), now));
        }
    }
}

/// The status message `s` as it stands at time `now`: gone once expired.
pub open spec fn status_left(s: Option<StatusMessage>, now: u64) -> Option<StatusMessage> {
    match s {
        Some(m) => if m.expired_at(now) { None } else { s },
        None => None,
    }
}

/// The notifications of `ns` that have not expired at time `now`, in order.
pub open spec fn unexpired(ns: Seq<Notification>, now: u64) -> Seq<Notification> {
    keep_where(ns, |n: Notification| !n.expired_at(now))
}

/// The indicators of `ps` that a cleanup at time `now` keeps, in order:
/// those not finished, and those that started less than five seconds
/// before `now`.
pub open spec fn progress_kept(ps: Seq<ProgressIndicator>, now: u64) -> Seq<ProgressIndicator> {
    keep_where(ps, |p: ProgressIndicator| !is_finished(p.status) || elapsed_ms(p.started_at_ms, now) < 5000)
}

/// Whether `p` is the indicator that `ProgressIndicator::new_at` makes from
/// `id`, `title`, `total` and `now`.
pub open spec fn new_progress(p: ProgressIndicator, id: Seq<char>, title: Seq<char>, total: u64, now: u64) -> bool {
    &&& p.id@ == id
    &&& p.title@ == title
    &&& p.current == 0
    &&& p.total == total
    &&& p.status == ProgressStatus::NotStarted
    &&& p.message@ == Seq::<char>::empty()
    &&& p.started_at_ms == now
    &&& p.estimated_completion_ms is None
    &&& p.show_percentage && p.show_eta && !p.show_rate
}

/// Whether `n` is the notification that `Notification::new_at` makes from
/// `id`, `title`, `message`, `t` and `now`.
pub open spec fn new_notification(
    n: Notification,
    id: Seq<char>,
    title: Seq<char>,
    message: Seq<char>,
    t: NotificationType,
    now: u64,
) -> bool {
    &&& n.id@ == id
    &&& n.title@ == title
    &&& n.message@ == message
    &&& n.notification_type == t
    &&& n.created_at_ms == now
    &&& n.duration_ms == notification_duration(t)
    &&& n.dismissible
    &&& n.actions@.len() == 0
}

/// Whether `d` is the dialog that `ConfirmationDialog::new` makes from
/// `title`, `message` and `t`.
pub open spec fn new_dialog(d: ConfirmationDialog, title: Seq<char>, message: Seq<char>, t: DialogType) -> bool {
    &&& d.title@ == title
    &&& d.message@ == message
    &&& default_options(t, d.options@)
    &&& d.default_option == 0
    &&& d.selected_option == 0
    &&& d.dialog_type == t
    &&& !d.show_details
    &&& d.details is None
}

/// Whether `new` is `old` after progress `current`, with `message`, was
/// recorded at time `now` on the first indicator with identifier `id`.
pub open spec fn updated_first(
    old: Seq<ProgressIndicator>,
    new: Seq<ProgressIndicator>,
    id: Seq<char>,
    current: u64,
    message: Option<String>,
    now: u64,
) -> bool {
    changed_first(old, new, id, |n: ProgressIndicator, o: ProgressIndicator| n == o.updated(current, message, now))
}

impl FeedbackManager {
    /// Whether `other` shows what this manager shows, but for the progress
    /// indicators.
    pub open spec fn same_but_progress(self, other: Self) -> bool {
        &&& other.notifications() == self.notifications()
        &&& other.dialog() == self.dialog()
        &&& other.status() == self.status()
        &&& other.max_notifications() == self.max_notifications()
    }

    /// Whether `other` shows what this manager shows, but for the
    /// notifications.
    pub open spec fn same_but_notifications(self, other: Self) -> bool {
        &&& other.progress() == self.progress()
        &&& other.dialog() == self.dialog()
        &&& other.status() == self.status()
        &&& other.max_notifications() == self.max_notifications()
    }

    /// Whether `other` shows what this manager shows, but for the dialog.
    pub open spec fn same_but_dialog(self, other: Self) -> bool {
        &&& other.progress() == self.progress()
        &&& other.notifications() == self.notifications()
        &&& other.status() == self.status()
        &&& other.max_notifications() == self.max_notifications()
    }

    /// Whether `other` shows what this manager shows, but for the status
    /// message.
    pub open spec fn same_but_status(self, other: Self) -> bool {
        &&& other.progress() == self.progress()
        &&& other.notifications() == self.notifications()
        &&& other.dialog() == self.dialog()
        &&& other.max_notifications() == self.max_notifications()
    }

    /// Shows a new progress indicator, not started, made at time `now`: it
    /// replaces the indicators with its identifier and comes last.
    pub fn show_progress_at(&mut self, id: String, title: String, total: u64, now: u64)
        requires
            old(self).well_formed(),
        ensures
            final(self).well_formed(),
            old(self).same_but_progress(*final(self)),
            exists|p: ProgressIndicator|
                new_progress(p, id@, title@, total, now) && final(self).progress() == progress_without(
                    old(self).progress(),
                    id@,
                ).push(p),
    {
        let progress = ProgressIndicator::new_at(id, title, total, now);
        let ghost shown = progress;
        self.handle_feedback_event(FeedbackEvent::ShowProgress(progress), now);
        assert(new_progress(shown, id@, title@, total, now));
    }

    /// Shows a new progress indicator made now, by the system clock.
    pub fn show_progress(&mut self, id: String, title: String, total: u64)
        requires
            old(self).well_formed(),
        ensures
            final(self).well_formed(),
            old(self).same_but_progress(*final(self)),
            exists|p: ProgressIndicator, now: u64|
                new_progress(p, id@, title@, total, now) && final(self).progress() == progress_without(
                    old(self).progress(),
                    id@,
                ).push(p),
    {
        self.show_progress_at(id, title, total, clock_now_ms());
    }

    /// Records progress at time `now` on the first indicator with identifier
    /// `id`, as `ProgressIndicator::update_at` does; nothing changes when no
    /// indicator has it.
    pub fn update_progress_at(&mut self, id: String, current: u64, message: Option<String>, now: u64)
        requires
            old(self).well_formed(),
        ensures
            final(self).well_formed(),
            old(self).same_but_progress(*final(self)),
            updated_first(old(self).progress(), final(self).progress(), id@, current, message, now),
    {
        self.handle_feedback_event(FeedbackEvent::UpdateProgress { id, current, message }, now);
    }

    /// Records progress now, by the system clock, on the first indicator with
    /// identifier `id`.
    pub fn update_progress(&mut self, id: String, current: u64, message: Option<String>)
        requires
            old(self).well_formed(),
        ensures
            final(self).well_formed(),
            old(self).same_but_progress(*final(self)),
            exists|now: u64|
                #[trigger] updated_first(old(self).progress(), final(self).progress(), id@, current, message, now),
    {
        let now = clock_now_ms();
        self.update_progress_at(id, current, message, now);
    }

    /// Completes the first indicator with identifier `id`; nothing changes
    /// when no indicator has it.
    pub fn complete_progress(&mut self, id: String)
        requires
            old(self).well_formed(),
        ensures
            final(self).well_formed(),
            old(self).same_but_progress(*final(self)),
            changed_first(
                old(self).progress(),
                final(self).progress(),
                id@,
                |n: ProgressIndicator, o: ProgressIndicator| completed_from(n, o),
            ),
    {
        self.change_progress(&id, ProgressChange::Complete);
    }

    /// Shows a notification made at time `now`, last, dropping the oldest
    /// beyond the limit.
    pub fn show_notification_at(
        &mut self,
        id: String,
        title: String,
        message: String,
        notification_type: NotificationType,
        now: u64,
    )
        requires
            old(self).well_formed(),
        ensures
            final(self).well_formed(),
            old(self).same_but_notifications(*final(self)),
            exists|n: Notification|
                new_notification(n, id@, title@, message@, notification_type, now)
                    && final(self).notifications() == crate::error::keep_last(
                    old(self).notifications().push(n),
                    old(self).max_notifications(),
                ),
    {
        let n = Notification::new_at(id, title, message, notification_type, now);
        let ghost shown = n;
        self.push_notification(n);
        assert(new_notification(shown, id@, title@, message@, notification_type, now));
    }

    /// Shows a notification made now, by the system clock.
    pub fn show_notification(
        &mut self,
        id: String,
        title: String,
        message: String,
        notification_type: NotificationType,
    )
        requires
            old(self).well_formed(),
        ensures
            final(self).well_formed(),
            old(self).same_but_notifications(*final(self)),
            exists|n: Notification, now: u64|
                new_notification(n, id@, title@, message@, notification_type, now)
                    && final(self).notifications() == crate::error::keep_last(
                    old(self).notifications().push(n),
                    old(self).max_notifications(),
                ),
    {
        self.show_notification_at(id, title, message, notification_type, clock_now_ms());
    }

    /// Shows a dialog of the given type with its default options.
    pub fn show_confirmation(&mut self, title: String, message: String, dialog_type: DialogType)
        requires
            old(self).well_formed(),
        ensures
            final(self).well_formed(),
            old(self).same_but_dialog(*final(self)),
            exists|d: ConfirmationDialog|
                new_dialog(d, title@, message@, dialog_type) && final(self).dialog() == Some(d),
    {
        let d = ConfirmationDialog::new(title, message, dialog_type);
        let ghost shown = d;
        self.current_dialog = Some(d);
        assert(new_dialog(shown, title@, message@, dialog_type));
    }

    /// Shows a status message made at time `now`.
    pub fn show_status_at(&mut self, message: String, status_type: StatusType, now: u64)
        requires
            old(self).well_formed(),
        ensures
            final(self).well_formed(),
            old(self).same_but_status(*final(self)),
            final(self).status() == Some(
                StatusMessage {
                    message,
                    status_type,
                    created_at_ms: now,
                    duration_ms: status_duration(status_type),
                },
            ),
    {
        self.status_message = Some(StatusMessage::new_at(message, status_type, now));
    }

    /// Shows a status message made now, by the system clock.
    pub fn show_status(&mut self, message: String, status_type: StatusType)
        requires
            old(self).well_formed(),
        ensures
            final(self).well_formed(),
            old(self).same_but_status(*final(self)),
            exists|now: u64|
                final(self).status() == Some(
                    StatusMessage {
                        message,
                        status_type,
                        created_at_ms: now,
                        duration_ms: status_duration(status_type),
                    },
                ),
    {
        self.show_status_at(message, status_type, clock_now_ms());
    }

    /// Closes the dialog shown, if any.
    pub fn dismiss_dialog(&mut self)
        requires
            old(self).well_formed(),
        ensures
            final(self).well_formed(),
            old(self).same_but_dialog(*final(self)),
            final(self).dialog() is None,
    {
        self.current_dialog = None;
    }

    /// Shows an information notification, with identifier `info`, made at
    /// time `now`.
    pub fn show_info_at(&mut self, title: String, message: String, now: u64)
        requires
            old(self).well_formed(),
        ensures
            final(self).well_formed(),
            old(self).same_but_notifications(*final(self)),
            exists|n: Notification|
                new_notification(n, "info"@, title@, message@, NotificationType::Info, now)
                    && final(self).notifications() == crate::error::keep_last(
                    old(self).notifications().push(n),
                    old(self).max_notifications(),
                ),
    {
        self.show_notification_at(String::from_str("info"), title, message, NotificationType::Info, now);
    }

    /// Shows an information notification made now, by the system clock.
    pub fn show_info(&mut self, title: String, message: String)
        requires
            old(self).well_formed(),
        ensures
            final(self).well_formed(),
            old(self).same_but_notifications(*final(self)),
            exists|n: Notification, now: u64|
                new_notification(n, "info"@, title@, message@, NotificationType::Info, now)
                    && final(self).notifications() == crate::error::keep_last(
                    old(self).notifications().push(n),
                    old(self).max_notifications(),
                ),
    {
        self.show_info_at(title, message, clock_now_ms());
    }

    /// Shows a success notification, with identifier `success`, made at time
    /// `now`.
    pub fn show_success_at(&mut self, title: String, message: String, now: u64)
        requires
            old(self).well_formed(),
        ensures
            final(self).well_formed(),
            old(self).same_but_notifications(*final(self)),
            exists|n: Notification|
                new_notification(n, "success"@, title@, message@, NotificationType::Success, now)
                    && final(self).notifications() == crate::error::keep_last(
                    old(self).notifications().push(n),
                    old(self).max_notifications(),
                ),
    {
        self.show_notification_at(String::from_str("success"), title, message, NotificationType::Success, now);
    }

    /// Shows a success notification made now, by the system clock.
    pub fn show_success(&mut self, title: String, message: String)
        requires
            old(self).well_formed(),
        ensures
            final(self).well_formed(),
            old(self).same_but_notifications(*final(self)),
            exists|n: Notification, now: u64|
                new_notification(n, "success"@, title@, message@, NotificationType::Success, now)
                    && final(self).notifications() == crate::error::keep_last(
                    old(self).notifications().push(n),
                    old(self).max_notifications(),
                ),
    {
        self.show_success_at(title, message, clock_now_ms());
    }

    /// Shows a warning notification, with identifier `warning`, made at time
    /// `now`.
    pub fn show_warning_at(&mut self, title: String, message: String, now: u64)
        requires
            old(self).well_formed(),
        ensures
            final(self).well_formed(),
            old(self).same_but_notifications(*final(self)),
            exists|n: Notification|
                new_notification(n, "warning"@, title@, message@, NotificationType::Warning, now)
                    && final(self).notifications() == crate::error::keep_last(
                    old(self).notifications().push(n),
                    old(self).max_notifications(),
                ),
    {
        self.show_notification_at(String::from_str("warning"), title, message, NotificationType::Warning, now);
    }

    /// Shows a warning notification made now, by the system clock.
    pub fn show_warning(&mut self, title: String, message: String)
        requires
            old(self).well_formed(),
        ensures
            final(self).well_formed(),
            old(self).same_but_notifications(*final(self)),
            exists|n: Notification, now: u64|
                new_notification(n, "warning"@, title@, message@, NotificationType::Warning, now)
                    && final(self).notifications() == crate::error::keep_last(
                    old(self).notifications().push(n),
                    old(self).max_notifications(),
                ),
    {
        self.show_warning_at(title, message, clock_now_ms());
    }

    /// Shows an error notification, with identifier `error`, made at time
    /// `now`.
    pub fn show_error_at(&mut self, title: String, message: String, now: u64)
        requires
            old(self).well_formed(),
        ensures
            final(self).well_formed(),
            old(self).same_but_notifications(*final(self)),
            exists|n: Notification|
                new_notification(n, "error"@, title@, message@, NotificationType::Error, now)
                    && final(self).notifications() == crate::error::keep_last(
                    old(self).notifications().push(n),
                    old(self).max_notifications(),
                ),
    {
        self.show_notification_at(String::from_str("error"), title, message, NotificationType::Error, now);
    }

    /// Shows an error notification made now, by the system clock.
    pub fn show_error(&mut self, title: String, message: String)
        requires
            old(self).well_formed(),
        ensures
            final(self).well_formed(),
            old(self).same_but_notifications(*final(self)),
            exists|n: Notification, now: u64|
                new_notification(n, "error"@, title@, message@, NotificationType::Error, now)
                    && final(self).notifications() == crate::error::keep_last(
                    old(self).notifications().push(n),
                    old(self).max_notifications(),
                ),
    {
        self.show_error_at(title, message, clock_now_ms());
    }

    /// Asks the user to confirm, with a confirmation dialog.
    pub fn confirm_action(&mut self, title: String, message: String)
        requires
            old(self).well_formed(),
        ensures
            final(self).well_formed(),
            old(self).same_but_dialog(*final(self)),
            exists|d: ConfirmationDialog|
                new_dialog(d, title@, message@, DialogType::Confirmation) && final(self).dialog() == Some(d),
    {
        self.show_confirmation(title, message, DialogType::Confirmation);
    }

    /// Shows a loading status message made at time `now`.
    pub fn show_loading_at(&mut self, message: String, now: u64)
        requires
            old(self).well_formed(),
        ensures
            final(self).well_formed(),
            old(self).same_but_status(*final(self)),
            final(self).status() == Some(
                StatusMessage {
                    message,
                    status_type: StatusType::Loading,
                    created_at_ms: now,
                    duration_ms: status_duration(StatusType::Loading),
                },
            ),
    {
        self.show_status_at(message, StatusType::Loading, now);
    }

    /// Shows a loading status message made now, by the system clock.
    pub fn show_loading(&mut self, message: String)
        requires
            old(self).well_formed(),
        ensures
            final(self).well_formed(),
            old(self).same_but_status(*final(self)),
            exists|now: u64|
                final(self).status() == Some(
                    StatusMessage {
                        message,
                        status_type: StatusType::Loading,
                        created_at_ms: now,
                        duration_ms: status_duration(StatusType::Loading),
                    },
                ),
    {
        self.show_loading_at(message, clock_now_ms());
    }
}

/// Filtering never makes a sequence longer.
pub proof fn lemma_keep_where_len<T>(s: Seq<T>, keep: spec_fn(T) -> bool)
    ensures
        keep_where(s, keep).len() <= s.len(),
    decreases s.len(),
{
    if s.len() > 0 {
        lemma_keep_where_len(s.drop_last(), keep);
    }
}

/// The elements of `s` whose flag in `drop` is not set, in order.
pub open spec fn keep_unflagged<T>(s: Seq<T>, drop: Seq<bool>) -> Seq<T>
    decreases s.len(),
{
    if s.len() == 0 {
        Seq::empty()
    } else {
        let rest = keep_unflagged(s.drop_last(), drop.take(s.len() - 1));
        if !drop[s.len() - 1] { rest.push(s.last()) } else { rest }
    }
}

/// Flags set exactly on the elements that `keep` rejects select what
/// `keep` keeps.
pub proof fn lemma_flags_match<T>(s: Seq<T>, drop: Seq<bool>, keep: spec_fn(T) -> bool)
    requires
        drop.len() == s.len(),
        forall|m: int| 0 <= m < s.len() ==> drop[m] == !keep(s[m]),
    ensures
        keep_unflagged(s, drop) == keep_where(s, keep),
    decreases s.len(),
{
    if s.len() > 0 {
        lemma_flags_match(s.drop_last(), drop.take(s.len() - 1), keep);
    }
}

/// Filtering a prefix one element longer adds that element when its flag is
/// not set.
proof fn lemma_unflagged_step<T>(s: Seq<T>, drop: Seq<bool>, j: int)
    requires
        0 <= j < s.len(),
        drop.len() == s.len(),
    ensures
        keep_unflagged(s.take(j + 1), drop.take(j + 1)) == if !drop[j] {
            keep_unflagged(s.take(j), drop.take(j)).push(s[j])
        } else {
            keep_unflagged(s.take(j), drop.take(j))
        },
{
    assert(s.take(j + 1).drop_last() =~= s.take(j));
    assert(drop.take(j + 1).take(j) =~= drop.take(j));
}

/// Removes from `v` the elements whose flag in `drop` is set, keeping the
/// order of the others.
pub fn remove_flagged<T>(v: &mut Vec<T>, drop: &Vec<bool>)
    requires
        drop@.len() == old(v)@.len(),
    ensures
        final(v)@ == keep_unflagged(old(v)@, drop@),
{
    let ghost orig = v@;
    assert(orig.len() == v.len());
    let mut i: usize = 0;
    let mut j: usize = 0;
    while i < v.len()
        invariant
            0 <= i <= j <= orig.len(),
            orig.len() <= usize::MAX,
            drop@.len() == orig.len(),
            v@.len() == i + (orig.len() - j),
            v@.subrange(0, i as int) == keep_unflagged(orig.take(j as int), drop@.take(j as int)),
            v@.subrange(i as int, v@.len() as int) == orig.skip(j as int),
        decreases orig.len() - j,
    {
        proof {
            lemma_unflagged_step(orig, drop@, j as int);
            assert(v@[i as int] == orig[j as int]) by {
                assert(v@.subrange(i as int, v@.len() as int)[0] == orig.skip(j as int)[0]);
            }
        }
        let ghost before = v@;
        if drop[j] {
            v.remove(i);
            assert(v@.subrange(0, i as int) =~= before.subrange(0, i as int));
            assert(v@.subrange(i as int, v@.len() as int) =~= orig.skip(j + 1)) by {
                assert forall|k: int| 0 <= k < orig.skip(j + 1).len() implies v@.subrange(
                    i as int,
                    v@.len() as int,
                )[k] == orig.skip(j + 1)[k] by {
                    assert(before.subrange(i as int, before.len() as int)[k + 1] == orig.skip(
                        j as int,
                    )[k + 1]);
                }
            }
        } else {
            i = i + 1;
            assert(v@.subrange(0, i as int) =~= before.subrange(0, i - 1).push(before[i - 1]));
            assert(v@.subrange(i as int, v@.len() as int) =~= orig.skip(j + 1)) by {
                assert forall|k: int| 0 <= k < orig.skip(j + 1).len() implies v@.subrange(
                    i as int,
                    v@.len() as int,
                )[k] == orig.skip(j + 1)[k] by {
                    assert(before.subrange(i - 1, before.len() as int)[k + 1] == orig.skip(
                        j as int,
                    )[k + 1]);
                }
            }
        }
        j = j + 1;
    }
    assert(orig.take(j as int) =~= orig);
    assert(drop@.take(j as int) =~= drop@);
    assert(v@.subrange(0, i as int) =~= v@);
}

impl ProgressStatus {
    /// The color a progress indicator in this state is drawn in.
    pub fn color(&self) -> (res: TermColor)
        ensures
            res == match *self {
                ProgressStatus::NotStarted => TermColor::Grey,
                ProgressStatus::InProgress => TermColor::DarkBlue,
                ProgressStatus::Completed => TermColor::DarkGreen,
                ProgressStatus::Failed => TermColor::DarkRed,
                ProgressStatus::Cancelled => TermColor::DarkYellow,
                ProgressStatus::Paused => TermColor::DarkMagenta,
            },
    {
        match self {
            ProgressStatus::NotStarted => TermColor::Grey,
            ProgressStatus::InProgress => TermColor::DarkBlue,
            ProgressStatus::Completed => TermColor::DarkGreen,
            ProgressStatus::Failed => TermColor::DarkRed,
            ProgressStatus::Cancelled => TermColor::DarkYellow,
            ProgressStatus::Paused => TermColor::DarkMagenta,
        }
    }
}

impl OptionStyle {
    /// The color an option of this style is drawn in.
    pub fn color(&self) -> (res: TermColor)
        ensures
            res == match *self {
                OptionStyle::Default => TermColor::White,
                OptionStyle::Primary => TermColor::DarkBlue,
                OptionStyle::Danger => TermColor::DarkRed,
                OptionStyle::Warning => TermColor::DarkYellow,
            },
    {
        match self {
            OptionStyle::Default => TermColor::White,
            OptionStyle::Primary => TermColor::DarkBlue,
            OptionStyle::Danger => TermColor::DarkRed,
            OptionStyle::Warning => TermColor::DarkYellow,
        }
    }
}

impl DialogType {
    /// The color a dialog of this kind is drawn in.
    pub fn color(&self) -> (res: TermColor)
        ensures
            res == match *self {
                DialogType::Info => TermColor::DarkBlue,
                DialogType::Warning => TermColor::DarkYellow,
                DialogType::Error => TermColor::DarkRed,
                DialogType::Question => TermColor::DarkCyan,
                DialogType::Confirmation => TermColor::DarkGreen,
            },
    {
        match self {
            DialogType::Info => TermColor::DarkBlue,
            DialogType::Warning => TermColor::DarkYellow,
            DialogType::Error => TermColor::DarkRed,
            DialogType::Question => TermColor::DarkCyan,
            DialogType::Confirmation => TermColor::DarkGreen,
        }
    }
}

impl NotificationType {
    /// The color a notification of this kind is drawn in.
    pub fn color(&self) -> (res: TermColor)
        ensures
            res == match *self {
                NotificationType::Info => TermColor::DarkBlue,
                NotificationType::Success => TermColor::DarkGreen,
                NotificationType::Warning => TermColor::DarkYellow,
                NotificationType::Error => TermColor::DarkRed,
            },
    {
        match self {
            NotificationType::Info => TermColor::DarkBlue,
            NotificationType::Success => TermColor::DarkGreen,
            NotificationType::Warning => TermColor::DarkYellow,
            NotificationType::Error => TermColor::DarkRed,
        }
    }
}

impl StatusType {
    /// The color a status message of this kind is drawn in.
    pub fn color(&self) -> (res: TermColor)
        ensures
            res == match *self {
                StatusType::Info => TermColor::DarkBlue,
                StatusType::Success => TermColor::DarkGreen,
                StatusType::Warning => TermColor::DarkYellow,
                StatusType::Error => TermColor::DarkRed,
                StatusType::Loading => TermColor::DarkCyan,
            },
    {
        match self {
            StatusType::Info => TermColor::DarkBlue,
            StatusType::Success => TermColor::DarkGreen,
            StatusType::Warning => TermColor::DarkYellow,
            StatusType::Error => TermColor::DarkRed,
            StatusType::Loading => TermColor::DarkCyan,
        }
    }
}


/// Law: however notifications are shown and dismissed, no more are kept
/// than the limit.
pub proof fn law_notifications_within_limit(m: FeedbackManager)
    requires
        m.well_formed(),
    ensures
        m.notifications().len() <= m.max_notifications(),
{
}

} // verus!
