//! The events that the main loop of the daemon works through.

use vstd::prelude::*;

verus! {

/// Something that the main loop has to react to.
#[derive(Debug, Clone, Copy, PartialEq, Eq, Structural)]
pub enum Event {
    /// Start listening for the system going to sleep.
    StartSleepListener,
    /// Start listening for the screen being unlocked.
    StartUnlockListener,
    /// Mount the entry.
    Mount,
    /// Unmount the entry.
    Unmount,
    /// Something failed for good: exit.
    Error,
}

} // verus!
