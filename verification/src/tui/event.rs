//! The events that drive the display.

use vstd::prelude::*;

verus! {

/// How the event loop is set up.
#[derive(Debug, Clone, Copy)]
pub struct EventConfig {
    /// The time between two ticks, in milliseconds.
    pub tick_rate: u64,
}

/// A key of the keyboard, as far as the display tells keys apart.
#[derive(Debug, Clone, Copy, PartialEq, Eq, Structural)]
pub enum Key {
    Esc,
    Enter,
    Backspace,
    Tab,
    BackTab,
    Up,
    Down,
    Left,
    Right,
    Char(char),
    Other,
}

/// What the display reacts to.
#[derive(Debug, Clone, Copy, PartialEq, Eq, Structural)]
pub enum Event {
    /// A key was pressed.
    Key(Key),
    /// The time of one tick has passed.
    Tick,
}

} // verus!
