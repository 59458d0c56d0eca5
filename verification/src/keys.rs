//! The keyboard input the library reasons about.
//!
//! The terminal backend delivers its own key-event type; the runtime maps
//! each event to one of these plain values before handing it to the
//! library, so every key decision in the library is verified.

use vstd::prelude::*;

verus! {

/// One key press, without modifiers. A press the library does not act on
/// arrives as `Other`.
#[derive(Debug, Clone, Copy, PartialEq, Eq, Structural)]
pub enum KeyInput {
    Char(char),
    Up,
    Down,
    Left,
    Right,
    Home,
    End,
    Enter,
    Esc,
    Backspace,
    Delete,
    Other,
}

} // verus!
