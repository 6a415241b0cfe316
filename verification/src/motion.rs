//! Cursor steering and calibration shared by the capture (server) and
//! injection (client) halves, in whole pixels and counts.

pub mod follower;
pub mod gain;
pub mod probe;

pub use follower::PositionFollower;
pub use gain::GainTracker;
pub use probe::MotionProbe;

use vstd::prelude::*;

verus! {

/// Minimum gap (ns) between forwarded motion messages. About 250 Hz keeps
/// motion perfectly smooth while capping the frame rate.
pub const MOTION_PERIOD: u64 = 4_000_000;

} // verus!
