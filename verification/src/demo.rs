//! Messages of the demo screen that composes a counter and a text input.
//!
//! The widgets themselves are decorative and live outside the library;
//! only their message types take part in the verified message routing.

use vstd::prelude::*;

use crate::framework::{ExternalEvent, Message};

verus! {

/// Messages of the demo counter widget.
#[derive(Debug, Clone)]
pub enum CounterMsg {
    Increment,
    Decrement,
    Quit,
}

impl Message for CounterMsg {

}

/// Messages of the demo text-input widget.
#[derive(Debug, Clone)]
pub enum InputMsg {
    Focus,
    Unfocus,
    Char(char),
    Backspace,
    Quit,
}

impl Message for InputMsg {

}

/// Messages of the demo screen: one of a child's messages, or a quit.
#[derive(Debug, Clone)]
pub enum AppMsg {
    CounterMsg(CounterMsg),
    InputMsg(InputMsg),
    Quit,
}

impl Message for AppMsg {

}

/// The demo screen takes no external events; no value of this type is
/// ever produced.
pub enum NoExtEvent {
    Never,
}

impl ExternalEvent for NoExtEvent {

}

} // verus!
