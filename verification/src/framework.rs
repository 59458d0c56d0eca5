//! The component contract of the event-driven runtime.
//!
//! A component consumes key presses and external events, emits messages,
//! reduces messages into state, and says when the application should
//! leave. The runtime owns the terminal and drives exactly one component;
//! drawing happens outside the library.

use vstd::prelude::*;

use crate::keys::KeyInput;

verus! {

/// Messages that components emit.
pub trait Message {

}

/// External events that can be sent to components from outside.
pub trait ExternalEvent {

}

/// One event the runtime hands to its component: a key press or an
/// external event from a background producer.
pub enum RuntimeEvent<E> {
    Key(KeyInput),
    External(E),
}

} // verus!
