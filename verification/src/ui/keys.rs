//! Key presses, as the interactive parts read them.
use vstd::prelude::*;

verus! {

/// A key press.
#[derive(Clone, Copy, PartialEq, Eq, Structural)]
pub enum Key {
    Up,
    Down,
    Left,
    Right,
    Home,
    End,
    Tab,
    BackTab,
    Enter,
    Esc,
    Backspace,
    Delete,
    /// A character key; `ctrl` tells whether Control was held.
    Char { c: char, ctrl: bool },
    /// Any other key.
    Other,
}

} // verus!
