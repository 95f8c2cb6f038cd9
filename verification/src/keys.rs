//! Named keys and mouse buttons that a pen button can be bound to.
use vstd::prelude::*;

verus! {

/// A named (modifier or control) key.
#[derive(PartialEq, Eq, Structural, Clone, Copy, Debug)]
pub enum Key {
    Alt,
    Control,
    Shift,
    Meta,
    Tab,
    Space,
    Return,
    Escape,
    Backspace,
    Delete,
}

/// A mouse button.
#[derive(PartialEq, Eq, Structural, Clone, Copy, Debug)]
pub enum MouseButton {
    Left,
    Middle,
    Right,
    Back,
    Forward,
    ScrollUp,
    ScrollDown,
    ScrollLeft,
    ScrollRight,
}

} // verus!
