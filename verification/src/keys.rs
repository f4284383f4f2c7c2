//! Key presses as the library's handlers see them: the key and the exact set
//! of modifiers held with it.
use vstd::prelude::*;

use crate::modes::AppMode;

verus! {

/// The key of a key press.
#[derive(Clone, Copy, Debug, PartialEq, Eq, Structural)]
pub enum KeyCode {
    Char(char),
    Enter,
    Esc,
    Tab,
    BackTab,
    Backspace,
    Delete,
    Up,
    Down,
    Left,
    Right,
    /// Any key the handlers give no meaning to.
    Other,
}

/// The modifiers held with a key; `other` stands for any besides Ctrl,
/// Shift and Alt (Super, Hyper, Meta).
#[derive(Clone, Copy, Debug, PartialEq, Eq, Structural)]
pub struct Modifiers {
    pub ctrl: bool,
    pub shift: bool,
    pub alt: bool,
    pub other: bool,
}

/// A key press.
#[derive(Clone, Copy, Debug, PartialEq, Eq, Structural)]
pub struct Key {
    pub code: KeyCode,
    pub mods: Modifiers,
}

/// No modifier held.
pub open spec fn no_mods(m: Modifiers) -> bool {
    !m.ctrl && !m.shift && !m.alt && !m.other
}

/// Ctrl alone held.
pub open spec fn ctrl_only(m: Modifiers) -> bool {
    m.ctrl && !m.shift && !m.alt && !m.other
}

/// Shift alone held.
pub open spec fn shift_only(m: Modifiers) -> bool {
    !m.ctrl && m.shift && !m.alt && !m.other
}

/// Ctrl and Shift held, and nothing else.
pub open spec fn ctrl_shift(m: Modifiers) -> bool {
    m.ctrl && m.shift && !m.alt && !m.other
}

impl Modifiers {
    /// Whether no modifier is held.
    pub fn is_none(&self) -> (r: bool)
        ensures
            r == no_mods(*self),
    {
        !self.ctrl && !self.shift && !self.alt && !self.other
    }

    /// Whether Ctrl alone is held.
    pub fn is_ctrl(&self) -> (r: bool)
        ensures
            r == ctrl_only(*self),
    {
        self.ctrl && !self.shift && !self.alt && !self.other
    }

    /// Whether Shift alone is held.
    pub fn is_shift(&self) -> (r: bool)
        ensures
            r == shift_only(*self),
    {
        !self.ctrl && self.shift && !self.alt && !self.other
    }

    /// Whether Ctrl and Shift, and nothing else, are held.
    pub fn is_ctrl_shift(&self) -> (r: bool)
        ensures
            r == ctrl_shift(*self),
    {
        self.ctrl && self.shift && !self.alt && !self.other
    }
}

/// Who takes a key press.
#[derive(Clone, Copy, Debug, PartialEq, Eq, Structural)]
pub enum Route {
    /// The confirmation dialog, which takes every key while it is shown.
    Warning,
    /// Ctrl+Q: everything is saved and the program ends.
    QuitSavingAll,
    /// The handler of this mode (the first-launch directory choice is a
    /// file browser).
    Mode(AppMode),
}

/// Who takes the key press `key` in mode `mode`, `warning_shown` telling
/// whether the confirmation dialog is up.
pub fn route_key(warning_shown: bool, key: Key, mode: AppMode) -> (r: Route)
    ensures
        warning_shown ==> r == Route::Warning,
        !warning_shown && ctrl_only(key.mods) && key.code == KeyCode::Char('q') ==> r
            == Route::QuitSavingAll,
        !warning_shown && !(ctrl_only(key.mods) && key.code == KeyCode::Char('q')) ==> r == Route::Mode(
            if mode == AppMode::FirstTimeSetup {
                AppMode::FileBrowser
            } else {
                mode
            },
        ),
{
    if warning_shown {
        Route::Warning
    } else if key.mods.is_ctrl() && key.code == KeyCode::Char('q') {
        Route::QuitSavingAll
    } else if mode == AppMode::FirstTimeSetup {
        Route::Mode(AppMode::FileBrowser)
    } else {
        Route::Mode(mode)
    }
}

} // verus!
