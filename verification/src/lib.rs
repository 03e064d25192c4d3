//! Decision logic for bringing up an OpenGL window: choosing a display
//! configuration, negotiating a rendering context over a list of fallback
//! profiles, and dispatching window events to lifecycle actions.
//!
//! Nothing here touches a display. The windowing and GL layers report plain
//! values (candidate attributes, attempt outcomes, events) and carry out the
//! actions that these functions decide on.

pub mod config;
pub mod context;
pub mod dispatch;
