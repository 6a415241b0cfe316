//! When the client's loops act.
use vstd::prelude::*;

use crate::clock::{age, elapsed};
use crate::protocol::ScreenInfo;
use crate::server::link::ReadEvent;

verus! {

/// How often (ns) the client sends a keepalive when idle.
pub const KEEPALIVE_INTERVAL: u64 = 2_000_000_000;

/// How often (ns) the client reports its real cursor position while being
/// controlled.
pub const CURSOR_BEACON_INTERVAL: u64 = 8_000_000;

/// How often (ns) the display geometry is checked.
pub const SCREEN_POLL_INTERVAL: u64 = 2_000_000_000;

/// How often (ns) the local clipboard is checked.
pub const CLIPBOARD_INTERVAL: u64 = 500_000_000;

/// A motion loop quiet for longer than this (ms) while the machine is
/// controlled is wedged: a healthy loop ticks every few milliseconds.
pub const STALL_MS: u64 = 3000;

/// Something done at intervals.
#[derive(Debug, Clone, Copy, PartialEq, Eq, Structural)]
pub struct Cadence {
    /// The time (ns) between two rounds, at least.
    pub interval: u64,
    /// When (ns) the last round was.
    pub last: u64,
}

impl Cadence {
    /// The interval has passed.
    pub open spec fn due(self, now: u64) -> bool {
        age(now, self.last) >= self.interval
    }

    /// Start counting at `now`.
    pub fn new(interval: u64, now: u64) -> (r: Self)
        ensures
            r == (Cadence { interval, last: now }),
    {
        Cadence { interval, last: now }
    }

    /// Is a round due at `now`? Where it is, the next interval begins.
    pub fn strike(&mut self, now: u64) -> (r: bool)
        ensures
            r == old(self).due(now),
            *final(self) == (if r {
                Cadence { last: now, ..*old(self) }
            } else {
                *old(self)
            }),
    {
        if elapsed(now, self.last) >= self.interval {
            self.last = now;
            true
        } else {
            false
        }
    }
}

/// The rest of a period of which a part is spent.
pub open spec fn rested(period: u64, spent: u64) -> int {
    if spent < period {
        period - spent
    } else {
        0
    }
}

/// The motion loop of a controlled machine has been quiet for too long.
pub open spec fn stalled(active: bool, motion_tick_ms: u64, now_ms: u64) -> bool {
    active && age(now_ms, motion_tick_ms) > STALL_MS
}

/// How long (ns) a loop rests after a tick that took `spent`, to keep a
/// fixed period.
pub fn rest(period: u64, spent: u64) -> (r: u64)
    ensures
        r == (if spent < period {
            period - spent
        } else {
            0
        }),
        r == rested(period, spent),
{
    if spent < period {
        period - spent
    } else {
        0
    }
}

/// Is the motion loop wedged? Only a machine that is being controlled is
/// guarded: local idle is no stall.
pub fn is_stalled(active: bool, motion_tick_ms: u64, now_ms: u64) -> (r: bool)
    ensures
        r == (active && age(now_ms, motion_tick_ms) > STALL_MS),
        r == stalled(active, motion_tick_ms, now_ms),
{
    active && elapsed(now_ms, motion_tick_ms) > STALL_MS
}

/// What ends a session before its next read.
#[derive(Debug, Clone, Copy, PartialEq, Eq, Structural)]
pub enum EndReason {
    /// A recovery path asked for it.
    Stopped,
    /// The machine woke from sleep: the state from before is stale.
    Resumed,
    /// A protected desktop is shown, which nothing can be injected into.
    SecureDesktop,
}

/// Why the session ends before its next read, if it does.
pub open spec fn end_reason(stopped: bool, resumed: bool, secure: bool) -> Option<EndReason> {
    if stopped {
        Some(EndReason::Stopped)
    } else if resumed {
        Some(EndReason::Resumed)
    } else if secure {
        Some(EndReason::SecureDesktop)
    } else {
        None
    }
}

/// Does the session end before its next read?
pub fn ends_now(stopped: bool, resumed: bool, secure: bool) -> (r: Option<EndReason>)
    ensures
        r == (if stopped {
            Some(EndReason::Stopped)
        } else if resumed {
            Some(EndReason::Resumed)
        } else if secure {
            Some(EndReason::SecureDesktop)
        } else {
            None
        }),
        r == end_reason(stopped, resumed, secure),
{
    if stopped {
        Some(EndReason::Stopped)
    } else if resumed {
        Some(EndReason::Resumed)
    } else if secure {
        Some(EndReason::SecureDesktop)
    } else {
        None
    }
}

/// What the control loop does after a read.
#[derive(Debug, Clone, Copy, PartialEq, Eq, Structural)]
pub enum LinkStep {
    /// Dispatch the message.
    Dispatch,
    /// Send what waits in the outboxes, then a keepalive if it is time.
    Flush { keepalive: bool },
    /// The link is closed.
    Close,
}

/// What a read at `now` leads to, and the keepalive after it.
pub open spec fn step_after(event: ReadEvent, keepalive: Cadence, now: u64) -> (LinkStep, Cadence) {
    match event {
        ReadEvent::Arrived => (LinkStep::Dispatch, keepalive),
        ReadEvent::Ended => (LinkStep::Close, keepalive),
        ReadEvent::Quiet => (
            LinkStep::Flush { keepalive: keepalive.due(now) },
            if keepalive.due(now) {
                Cadence { last: now, ..keepalive }
            } else {
                keepalive
            },
        ),
    }
}

/// The next step of the control loop after a read at `now`.
pub fn next_step(event: ReadEvent, keepalive: &mut Cadence, now: u64) -> (r: LinkStep)
    ensures
        r == (match event {
            ReadEvent::Arrived => LinkStep::Dispatch,
            ReadEvent::Ended => LinkStep::Close,
            ReadEvent::Quiet => LinkStep::Flush { keepalive: old(keepalive).due(now) },
        }),
        *final(keepalive) == (if event is Quiet && old(keepalive).due(now) {
            Cadence { last: now, ..*old(keepalive) }
        } else {
            *old(keepalive)
        }),
        (r, *final(keepalive)) == step_after(event, *old(keepalive), now),
{
    match event {
        ReadEvent::Arrived => LinkStep::Dispatch,
        ReadEvent::Ended => LinkStep::Close,
        ReadEvent::Quiet => {
            let due: bool = keepalive.strike(now);
            LinkStep::Flush { keepalive: due }
        },
    }
}

/// Notices when the local display changes shape.
#[derive(Debug, Clone, Copy, PartialEq, Eq, Structural)]
pub struct ScreenWatch {
    pub last: ScreenInfo,
}

impl ScreenWatch {
    /// Is the shape new, and so worth a report? `same_scale` says whether
    /// the display's scale is still what it was.
    pub fn is_news(&mut self, info: ScreenInfo, same_scale: bool) -> (r: bool)
        ensures
            r == (old(self).last != info || !same_scale),
            final(self).last == info,
    {
        if self.last == info && same_scale {
            false
        } else {
            self.last = info;
            true
        }
    }
}

// ---------------------------------------------------------------------
// Laws
// ---------------------------------------------------------------------

/// Two rounds are never closer than the interval: once a round was due at
/// `now`, none is due again before `now` plus the interval.
pub proof fn rounds_keep_their_distance(c: Cadence, now: u64, later: u64)
    requires
        c.due(now),
        now <= later,
        later - now < c.interval,
    ensures
        !(Cadence { last: now, ..c }).due(later),
{
}

} // verus!
