//! Coordination messages for the dispatcher, and the application mode.

use vstd::prelude::*;

verus! {

/// The closed set of signals that background producers send to the
/// dispatcher. The dispatcher owns the terminal; everyone else may only ask
/// it to act by sending one of these.
#[derive(Debug, Clone)]
pub enum Action {
    /// Ask for one redraw.
    Render,
    /// The terminal was resized to the given width and height.
    Resize(u16, u16),
    /// Release the terminal.
    Suspend,
    /// Reacquire the terminal; forces a redraw.
    Resume,
    /// Leave the dispatch loop; no further redraw.
    Quit,
    /// A non-fatal error to surface later.
    Error(String),
}

/// The screen the application is on.
#[derive(Debug, Copy, Clone, PartialEq, Eq, Hash)]
pub enum Mode {
    Home,
}

impl Default for Mode {
    fn default() -> (r: Self)
        ensures
            r is Home,
    {
        Mode::Home
    }
}

} // verus!
