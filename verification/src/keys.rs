//! Key presses as the interface reads them.

use vstd::prelude::*;

verus! {

/// A key of the keyboard.
#[derive(Debug, Clone, Copy, PartialEq, Eq, Structural)]
pub enum KeyCode {
    Tab,
    BackTab,
    Up,
    Down,
    Left,
    Right,
    Home,
    End,
    PageUp,
    PageDown,
    Esc,
    Enter,
    Backspace,
    Delete,
    Char(char),
    /// A function key, by its number.
    F(u8),
    Insert,
    /// The null key.
    Null,
    CapsLock,
    ScrollLock,
    NumLock,
    PrintScreen,
    Pause,
    Menu,
    /// The keypad's middle key.
    KeypadBegin,
    /// A media key.
    Media(MediaKey),
    /// A modifier key pressed alone.
    Modifier(ModifierKey),
}

/// A media key.
#[derive(Debug, Clone, Copy, PartialEq, Eq, Structural)]
pub enum MediaKey {
    Play,
    Pause,
    PlayPause,
    Reverse,
    Stop,
    FastForward,
    Rewind,
    TrackNext,
    TrackPrevious,
    Record,
    LowerVolume,
    RaiseVolume,
    MuteVolume,
}

/// A modifier key.
#[derive(Debug, Clone, Copy, PartialEq, Eq, Structural)]
pub enum ModifierKey {
    LeftShift,
    LeftControl,
    LeftAlt,
    LeftSuper,
    LeftHyper,
    LeftMeta,
    RightShift,
    RightControl,
    RightAlt,
    RightSuper,
    RightHyper,
    RightMeta,
    IsoLevel3Shift,
    IsoLevel5Shift,
}

/// The name of a media key.
pub open spec fn media_key_name(k: MediaKey) -> Seq<char> {
    match k {
        MediaKey::Play => "Play"@,
        MediaKey::Pause => "Pause"@,
        MediaKey::PlayPause => "PlayPause"@,
        MediaKey::Reverse => "Reverse"@,
        MediaKey::Stop => "Stop"@,
        MediaKey::FastForward => "FastForward"@,
        MediaKey::Rewind => "Rewind"@,
        MediaKey::TrackNext => "TrackNext"@,
        MediaKey::TrackPrevious => "TrackPrevious"@,
        MediaKey::Record => "Record"@,
        MediaKey::LowerVolume => "LowerVolume"@,
        MediaKey::RaiseVolume => "RaiseVolume"@,
        MediaKey::MuteVolume => "MuteVolume"@,
    }
}

/// The name of a modifier key.
pub open spec fn modifier_key_name(k: ModifierKey) -> Seq<char> {
    match k {
        ModifierKey::LeftShift => "LeftShift"@,
        ModifierKey::LeftControl => "LeftControl"@,
        ModifierKey::LeftAlt => "LeftAlt"@,
        ModifierKey::LeftSuper => "LeftSuper"@,
        ModifierKey::LeftHyper => "LeftHyper"@,
        ModifierKey::LeftMeta => "LeftMeta"@,
        ModifierKey::RightShift => "RightShift"@,
        ModifierKey::RightControl => "RightControl"@,
        ModifierKey::RightAlt => "RightAlt"@,
        ModifierKey::RightSuper => "RightSuper"@,
        ModifierKey::RightHyper => "RightHyper"@,
        ModifierKey::RightMeta => "RightMeta"@,
        ModifierKey::IsoLevel3Shift => "IsoLevel3Shift"@,
        ModifierKey::IsoLevel5Shift => "IsoLevel5Shift"@,
    }
}

impl MediaKey {
    /// The key's name.
    pub fn name(&self) -> (res: &'static str)
        ensures
            res@ == media_key_name(*self),
    {
        match self {
            MediaKey::Play => "Play",
            MediaKey::Pause => "Pause",
            MediaKey::PlayPause => "PlayPause",
            MediaKey::Reverse => "Reverse",
            MediaKey::Stop => "Stop",
            MediaKey::FastForward => "FastForward",
            MediaKey::Rewind => "Rewind",
            MediaKey::TrackNext => "TrackNext",
            MediaKey::TrackPrevious => "TrackPrevious",
            MediaKey::Record => "Record",
            MediaKey::LowerVolume => "LowerVolume",
            MediaKey::RaiseVolume => "RaiseVolume",
            MediaKey::MuteVolume => "MuteVolume",
        }
    }
}

impl ModifierKey {
    /// The key's name.
    pub fn name(&self) -> (res: &'static str)
        ensures
            res@ == modifier_key_name(*self),
    {
        match self {
            ModifierKey::LeftShift => "LeftShift",
            ModifierKey::LeftControl => "LeftControl",
            ModifierKey::LeftAlt => "LeftAlt",
            ModifierKey::LeftSuper => "LeftSuper",
            ModifierKey::LeftHyper => "LeftHyper",
            ModifierKey::LeftMeta => "LeftMeta",
            ModifierKey::RightShift => "RightShift",
            ModifierKey::RightControl => "RightControl",
            ModifierKey::RightAlt => "RightAlt",
            ModifierKey::RightSuper => "RightSuper",
            ModifierKey::RightHyper => "RightHyper",
            ModifierKey::RightMeta => "RightMeta",
            ModifierKey::IsoLevel3Shift => "IsoLevel3Shift",
            ModifierKey::IsoLevel5Shift => "IsoLevel5Shift",
        }
    }
}

/// No modifier key held.
pub const MOD_NONE: u8 = 0;
/// The Shift modifier.
pub const MOD_SHIFT: u8 = 1;
/// The Control modifier.
pub const MOD_CONTROL: u8 = 2;
/// The Alt modifier.
pub const MOD_ALT: u8 = 4;
/// The Super (Command) modifier.
pub const MOD_SUPER: u8 = 8;

/// A key press: the key and the modifiers held, as a set of bits.
#[derive(Debug, Clone, Copy, PartialEq, Eq, Structural)]
pub struct KeyEvent {
    pub code: KeyCode,
    pub modifiers: u8,
}

impl KeyEvent {
    /// A press of `code` with the modifiers `modifiers`.
    pub fn new(code: KeyCode, modifiers: u8) -> (res: Self)
        ensures
            res == (KeyEvent { code, modifiers }),
    {
        KeyEvent { code, modifiers }
    }
}

} // verus!
