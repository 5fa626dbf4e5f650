//! High-level remote apply: probe arch, drop CLI agent, run setup, install payload.
pub mod options;
pub mod status;
pub mod probe;
pub mod reboot;
pub mod token;
pub mod apply;
