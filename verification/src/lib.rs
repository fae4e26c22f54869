//! Bridge between a privileged greeter host process and script code running
//! in an isolated web-engine process.
//!
//! The crate verifies the protocol layer of the bridge: the JSON codec used
//! on the wire, envelope classification and routing, the per-namespace
//! method tables, the signal (event) registry, and the multi-surface
//! broadcast fan-out. Host-side effects (the session daemon, the display
//! stack, the file system) are represented as plain values and actions that
//! an unverified driver performs.

pub mod comm;
pub mod config;
pub mod dispatcher;
pub mod envelope;
pub mod json;
pub mod lightdm;
pub mod proxy;
pub mod settings;
pub mod signals;
pub mod text;
pub mod theme;
pub mod theme_utils;
