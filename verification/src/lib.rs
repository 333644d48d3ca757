//! A panel mirrored across every display output of a compositor.
//!
//! The crate holds the decisions of the panel: which surfaces exist, when a
//! frame is composed and for whom, how pointer input reaches the renderer.
//! The host performs the protocol traffic and feeds the outcome back in as
//! events. Beside the panel stand what the program shows on it: the
//! machine's gauges, the clock and the workspaces of the desktop. Every
//! function here is proved against its contract.

pub mod bar;
pub mod buffer;
pub mod cli;
pub mod config;
pub mod hardware_mon;
pub mod input;
pub mod laws;
pub mod model;
pub mod pixel;
pub mod protocol;
pub mod status;
pub mod surface;
pub mod wellformed;
pub mod widget;
pub mod workspace;
