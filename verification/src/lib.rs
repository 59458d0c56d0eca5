//! A verified core for a terminal HTTP proxy monitor.
//!
//! The library holds the logic of the tool: the bounded log store that
//! records proxied exchanges, the mapping from a request URI to the path of
//! its on-disk artifact, the case-insensitive filter over recorded entries,
//! the selection state machine of the scrollable viewer, and the
//! signal-coalescing dispatcher that collapses many pending update signals
//! into a single redraw. Network and terminal I/O live outside the library
//! and hand it plain values.

pub mod action;
pub mod artifact;
pub mod log_store;
pub mod persist;
pub mod proxy;
pub mod rng;
pub mod demo;
pub mod dispatch;
pub mod filter;
pub mod framework;
pub mod http_proxy;
pub mod input;
pub mod keys;
pub mod text;
pub mod viewer;

pub use action::Action;
pub use action::Mode;
