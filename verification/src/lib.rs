//! Horto OS UI shared engine: remote apply over OpenSSH, host/arch/release
//! naming, setup-step metadata and resume bookkeeping.
use vstd::prelude::*;

pub mod error;
pub mod text;
pub mod secret;
pub mod stack_opts;
pub mod envfile;
pub mod journal;
pub mod step;
pub mod resume;
pub mod steps;
pub mod status_api;
pub mod remote;

pub use error::HortoError;

verus! {

/// Workspace / Release version (without `v`).
pub const VERSION: &'static str = "0.1.0";

/// Long version line the tip CLI prints (`--version`).
pub const LONG_VERSION: &'static str = "0.1.0 (tip)";

} // verus!
