//! Key presses as plain values: the key itself and the modifier flags.
use vstd::prelude::*;

verus! {

/// A key, independent of the terminal backend that reported it.
#[derive(Clone, Copy, Debug, PartialEq, Eq, Structural)]
pub enum KeyCode {
    Backspace,
    Enter,
    Left,
    Right,
    Up,
    Down,
    Home,
    End,
    PageUp,
    PageDown,
    Tab,
    BackTab,
    Delete,
    Insert,
    F(u8),
    Char(char),
    Null,
    Esc,
    CapsLock,
    ScrollLock,
    NumLock,
    PrintScreen,
    Pause,
    Menu,
    KeypadBegin,
}

/// A key press with its modifier flags.
#[derive(Clone, Copy, Debug, PartialEq, Eq, Structural)]
pub struct KeyEvent {
    pub code: KeyCode,
    pub ctrl: bool,
    pub shift: bool,
    pub alt: bool,
}

impl KeyEvent {
    /// A press of `code` with the given modifiers.
    pub fn new(code: KeyCode, ctrl: bool, shift: bool, alt: bool) -> (k: KeyEvent)
        ensures
            k == (KeyEvent { code, ctrl, shift, alt }),
    {
        KeyEvent { code, ctrl, shift, alt }
    }
}

} // verus!
