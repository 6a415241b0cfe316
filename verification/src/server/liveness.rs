//! The server supervisor: heartbeats and the watchdog that recovers a
//! wedged input path.
use vstd::prelude::*;

use crate::clock::{age, elapsed};

verus! {

/// A heartbeat older than this (ms) while remote is a genuine wedge.
pub const SUPERVISOR_STALL_MS: u64 = 3000;

/// Exit code the supervisor uses to ask the process manager for a
/// restart. Distinct from a crash (1) so the manager can tell a deliberate
/// recovery from a failure.
pub const EXIT_RESTART: i32 = 66;

/// Heartbeats the server supervisor watches. Each field is a millisecond
/// timestamp updated by its owning thread every loop iteration.
#[derive(Debug, Clone, Copy, PartialEq, Eq, Structural)]
pub struct Liveness {
    /// The main input loop.
    pub loop_tick_ms: u64,
    /// The platform's capture thread; 0 when there is none.
    pub capture_tick_ms: u64,
}

impl Default for Liveness {
    fn default() -> (r: Self)
        ensures
            r == (Liveness { loop_tick_ms: 0, capture_tick_ms: 0 }),
    {
        Liveness { loop_tick_ms: 0, capture_tick_ms: 0 }
    }
}

impl Liveness {
    /// The input path is wedged: there is a capture thread, the cursor is
    /// on a client, and one of the heartbeats is stale.
    pub open spec fn wedged(self, remote: bool, now_ms: u64) -> bool {
        &&& self.capture_tick_ms != 0
        &&& remote
        &&& age(now_ms, self.loop_tick_ms) > SUPERVISOR_STALL_MS || age(
            now_ms,
            self.capture_tick_ms,
        ) > SUPERVISOR_STALL_MS
    }

    /// Must the supervisor restart the server? `remote` is whether the
    /// cursor is on a client, or cannot be told because the state is
    /// locked. Without a capture thread there is nothing to guard, and
    /// local idle is not a stall.
    pub fn is_wedged(&self, remote: bool, now_ms: u64) -> (r: bool)
        ensures
            r == self.wedged(remote, now_ms),
    {
        if self.capture_tick_ms == 0 || !remote {
            return false;
        }
        elapsed(now_ms, self.loop_tick_ms) > SUPERVISOR_STALL_MS || elapsed(
            now_ms,
            self.capture_tick_ms,
        ) > SUPERVISOR_STALL_MS
    }
}

} // verus!
