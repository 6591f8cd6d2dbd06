//! Deep-link session router for a remote-desktop client.
//!
//! The library decides how an incoming activation URL (a deep link such as
//! `app://connect?session=<id>`) is routed among the client's windows: focus
//! the window that already shows the session, hand the link to the idle
//! primary window, or allocate a fresh window label. It keeps the routing
//! state (pending links per window, session ownership, window counter)
//! consistent as windows are created and destroyed, and proves the routing
//! laws over a mathematical model of that state.
//!
//! A second, unrelated process role — the helper that forwards frontend
//! requests to the control-plane API — contributes only its decision rules:
//! configuration validation, the request guards and the stream identifiers.

pub mod agent;
pub mod alist;
pub mod fetch;
pub mod labels;
pub mod laws;
pub mod link;
pub mod router;
pub mod state;
pub mod uuid;
