//! Remote apply path: PC shells out to OpenSSH and runs the CLI agent on a box.
use vstd::prelude::*;

pub mod arch;
pub mod askpass;
pub mod process;
pub mod host;
pub mod ip;
pub mod ssh;
pub mod transfer;
pub mod bins;
pub mod ecosystem;
pub mod runner;
pub mod surfaces;

verus! {

} // verus!
