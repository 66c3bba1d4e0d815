//! Keyboard input and the actions it stands for.

use vstd::prelude::*;

verus! {

/// A key of the keyboard, as far as the dashboard tells keys apart.
#[derive(Debug, Clone, Copy, PartialEq, Eq, Structural)]
pub enum Key {
    Char(char),
    Esc,
    Up,
    Down,
    Tab,
    Other,
}

/// A key press: the key, and whether Control was held.
#[derive(Debug, Clone, Copy, PartialEq, Eq, Structural)]
pub struct KeyPress {
    pub key: Key,
    pub control: bool,
}

/// What a key press asks the dashboard to do.
#[derive(Debug, Clone, Copy, PartialEq, Eq, Structural)]
pub enum Action {
    Quit,
    MoveUp,
    MoveDown,
    ToggleFocus,
    ToggleHelp,
    /// The key is bound to nothing.
    Nothing,
}

/// The action bound to a key press. `q`, Escape and Control-`c` quit; `j` and
/// Down move down; `k` and Up move up; Tab switches the pane; `?` shows the
/// help. The Hangul letters that share a key with `q`, `j` and `k` on a Korean
/// keyboard act like them. Every other key does nothing.
pub open spec fn action_of(press: KeyPress) -> Action {
    match press.key {
        Key::Esc => Action::Quit,
        Key::Down => Action::MoveDown,
        Key::Up => Action::MoveUp,
        Key::Tab => Action::ToggleFocus,
        Key::Other => Action::Nothing,
        Key::Char(c) => if c == 'q' || c == '\u{3142}' {
            Action::Quit
        } else if c == 'c' && press.control {
            Action::Quit
        } else if c == 'j' || c == '\u{3153}' {
            Action::MoveDown
        } else if c == 'k' || c == '\u{314f}' {
            Action::MoveUp
        } else if c == '?' {
            Action::ToggleHelp
        } else {
            Action::Nothing
        },
    }
}

/// The action bound to a key press.
pub fn key_to_action(press: KeyPress) -> (r: Action)
    ensures
        r == action_of(press),
{
    match press.key {
        Key::Esc => Action::Quit,
        Key::Down => Action::MoveDown,
        Key::Up => Action::MoveUp,
        Key::Tab => Action::ToggleFocus,
        Key::Other => Action::Nothing,
        Key::Char(c) => {
            if c == 'q' || c == '\u{3142}' {
                Action::Quit
            } else if c == 'c' && press.control {
                Action::Quit
            } else if c == 'j' || c == '\u{3153}' {
                Action::MoveDown
            } else if c == 'k' || c == '\u{314f}' {
                Action::MoveUp
            } else if c == '?' {
                Action::ToggleHelp
            } else {
                Action::Nothing
            }
        },
    }
}

} // verus!
