//! Terminal emulators that show a muster session: the commands that open one
//! attached to a session, and the reading of the process table that tells
//! whether one is already open.
pub mod ghostty;

use vstd::prelude::*;

pub use ghostty::GhosttyEmulator;

verus! {

/// Handle for a spawned emulator process.
pub struct EmulatorHandle {
    pub pid: Option<u32>,
}

} // verus!
