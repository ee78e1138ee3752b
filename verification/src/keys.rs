//! Key presses, as the player's components take them.

use vstd::prelude::*;

verus! {

/// A key.
#[derive(Clone, Copy, PartialEq, Eq, Debug, Structural)]
pub enum Key {
    Down,
    Up,
    Left,
    Right,
    Enter,
    PageDown,
    PageUp,
    Tab,
    Backspace,
    Char(char),
    /// Any key that the player has no use for.
    Other,
}

/// What was held while a key was pressed.
#[derive(Clone, Copy, PartialEq, Eq, Debug, Structural)]
pub enum Modifiers {
    /// Nothing.
    Plain,
    /// Control, and nothing else.
    Control,
    /// Anything else.
    Other,
}

/// A key together with what was held while it was pressed.
#[derive(Clone, Copy, PartialEq, Eq, Debug, Structural)]
pub struct Chord {
    pub modifiers: Modifiers,
    pub key: Key,
}

} // verus!
