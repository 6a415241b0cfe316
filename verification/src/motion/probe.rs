//! Makes the requested-vs-actual cursor feel visible: the counts that were
//! forwarded against the position that the cursor actually reached, over
//! fixed windows.
use vstd::prelude::*;

use crate::clock::{age, elapsed, Clock};

verus! {

/// The window length (ns) of a probe made by default.
pub const PROBE_INTERVAL: u64 = 100_000_000;

/// One observation of a window.
#[derive(Debug, Clone, Copy, PartialEq, Eq, Structural)]
pub struct Observation {
    /// Counts requested in the window.
    pub req_dx: i64,
    pub req_dy: i64,
    /// Actual travel in the window.
    pub act_dx: i64,
    pub act_dy: i64,
    /// All counts requested since the session opened.
    pub exp_x: i64,
    pub exp_y: i64,
    /// Where the cursor actually is.
    pub real_x: i64,
    pub real_y: i64,
}

/// What a probe knows.
pub struct Measure {
    pub interval: u64,
    /// When the window started.
    pub last: u64,
    /// A measurement session is open.
    pub active: bool,
    /// Real cursor position when the session opened.
    pub anchor: (i32, i32),
    /// Counts requested since the session opened.
    pub exp: (int, int),
    /// Counts requested since the window started.
    pub req: (int, int),
    /// Real cursor position when the window started.
    pub seen: (i32, i32),
}

impl Measure {
    /// Another frame can be counted.
    pub open spec fn can_count(self, dx: int, dy: int) -> bool {
        &&& i64::MIN <= self.exp.0 + dx <= i64::MAX
        &&& i64::MIN <= self.exp.1 + dy <= i64::MAX
        &&& i64::MIN <= self.req.0 + dx <= i64::MAX
        &&& i64::MIN <= self.req.1 + dy <= i64::MAX
    }

    /// A session opened at `seen`.
    pub open spec fn entered(self, seen: (i32, i32), now: u64) -> Measure {
        Measure {
            active: true,
            anchor: seen,
            exp: (0, 0),
            req: (0, 0),
            seen,
            last: now,
            ..self
        }
    }

    /// A frame was requested.
    pub open spec fn asked(self, dx: int, dy: int) -> Measure {
        Measure {
            exp: (self.exp.0 + dx, self.exp.1 + dy),
            req: (self.req.0 + dx, self.req.1 + dy),
            ..self
        }
    }

    /// What a sample at `seen` observes of the window that it closes.
    pub open spec fn observed(self, seen: (i32, i32), o: Observation) -> bool {
        &&& (o.req_dx as int, o.req_dy as int) == self.req
        &&& o.act_dx == seen.0 - self.seen.0
        &&& o.act_dy == seen.1 - self.seen.1
        &&& (o.exp_x as int, o.exp_y as int) == self.exp
        &&& o.real_x == seen.0
        &&& o.real_y == seen.1
    }

    /// The window has elapsed.
    pub open spec fn elapsed(self, now: u64) -> bool {
        age(now, self.last) >= self.interval
    }

    /// The window had no motion up to `seen`.
    pub open spec fn idle(self, seen: (i32, i32)) -> bool {
        self.req == (0int, 0int) && seen == self.seen
    }

    /// A sample at `seen` closes a window that had motion.
    pub open spec fn observes(self, seen: (i32, i32), now: u64) -> bool {
        self.active && self.elapsed(now) && !self.idle(seen)
    }

    /// The probe after a sample at `seen`. The first sample of a session
    /// that was never entered anchors it; a sample within the window
    /// changes nothing; any other starts a new window.
    pub open spec fn sampled(self, seen: (i32, i32), now: u64) -> Measure {
        if !self.active {
            Measure { active: true, anchor: seen, seen, req: (0, 0), last: now, ..self }
        } else if self.elapsed(now) {
            Measure { seen, req: (0, 0), last: now, ..self }
        } else {
            self
        }
    }
}

/// The probe (see the module docs).
#[derive(Debug)]
pub struct MotionProbe {
    interval: u64,
    last: u64,
    active: bool,
    anchor: (i32, i32),
    exp: (i64, i64),
    req_win: (i64, i64),
    real_win: (i32, i32),
    clock: Clock,
}

impl View for MotionProbe {
    type V = Measure;

    closed spec fn view(&self) -> Measure {
        Measure {
            interval: self.interval,
            last: self.last,
            active: self.active,
            anchor: self.anchor,
            exp: (self.exp.0 as int, self.exp.1 as int),
            req: (self.req_win.0 as int, self.req_win.1 as int),
            seen: self.real_win,
        }
    }
}

impl Default for MotionProbe {
    fn default() -> (r: Self)
        ensures
            r@ == (Measure {
                interval: PROBE_INTERVAL,
                last: 0,
                active: false,
                anchor: (0, 0),
                exp: (0, 0),
                req: (0, 0),
                seen: (0, 0),
            }),
    {
        Self::new(PROBE_INTERVAL)
    }
}

impl MotionProbe {
    /// A probe that compares requested and actual motion over windows of
    /// `interval` nanoseconds. Its clock starts now.
    pub fn new(interval: u64) -> (r: Self)
        ensures
            r@ == (Measure {
                interval,
                last: 0,
                active: false,
                anchor: (0, 0),
                exp: (0, 0),
                req: (0, 0),
                seen: (0, 0),
            }),
    {
        MotionProbe {
            interval,
            last: 0,
            active: false,
            anchor: (0, 0),
            exp: (0, 0),
            req_win: (0, 0),
            real_win: (0, 0),
            clock: Clock::start(),
        }
    }

    /// Open a session anchored at the real cursor position, `now`
    /// nanoseconds on the probe's clock.
    pub fn enter_at(&mut self, seen: (i32, i32), now: u64)
        ensures
            final(self)@ == old(self)@.entered(seen, now),
    {
        self.active = true;
        self.anchor = seen;
        self.exp = (0, 0);
        self.req_win = (0, 0);
        self.real_win = seen;
        self.last = now;
    }

    /// Open a session anchored at the real cursor position (control
    /// entered). Both the expected trajectory and the window deltas start
    /// from here.
    pub fn enter(&mut self, seen: (i32, i32))
        ensures
            exists|now: u64| final(self)@ == #[trigger] old(self)@.entered(seen, now),
    {
        let now: u64 = self.clock.now();
        self.enter_at(seen, now);
    }

    /// Close the session (control left).
    pub fn leave(&mut self)
        ensures
            final(self)@ == (Measure { active: false, ..old(self)@ }),
    {
        self.active = false;
    }

    /// Count one requested motion frame (`dx`, `dy` counts).
    pub fn requested(&mut self, dx: i32, dy: i32)
        requires
            old(self)@.can_count(dx as int, dy as int),
        ensures
            final(self)@ == (Measure {
                exp: (old(self)@.exp.0 + dx, old(self)@.exp.1 + dy),
                req: (old(self)@.req.0 + dx, old(self)@.req.1 + dy),
                ..old(self)@
            }),
            final(self)@ == old(self)@.asked(dx as int, dy as int),
    {
        self.exp = (self.exp.0 + dx as i64, self.exp.1 + dy as i64);
        self.req_win = (self.req_win.0 + dx as i64, self.req_win.1 + dy as i64);
    }

    /// Can the frame be counted in machine integers?
    pub fn counts(&self, dx: i32, dy: i32) -> (r: bool)
        ensures
            r == self@.can_count(dx as int, dy as int),
    {
        self.exp.0.checked_add(dx as i64).is_some() && self.exp.1.checked_add(dy as i64).is_some()
            && self.req_win.0.checked_add(dx as i64).is_some() && self.req_win.1.checked_add(
            dy as i64,
        ).is_some()
    }

    /// Sample the real cursor position, `now` nanoseconds on the probe's
    /// clock. When a full window has elapsed and the window had motion,
    /// gives the observation.
    ///
    /// The probe lazily anchors on the first sample it ever sees (a
    /// server-side probe is never explicitly entered), and skips windows
    /// with no motion entirely.
    pub fn sample_at(&mut self, seen: (i32, i32), now: u64) -> (r: Option<Observation>)
        ensures
            final(self)@ == old(self)@.sampled(seen, now),
            r is Some <==> old(self)@.observes(seen, now),
            r matches Some(o) ==> {
                &&& (o.req_dx as int, o.req_dy as int) == old(self)@.req
                &&& o.act_dx == seen.0 - old(self)@.seen.0
                &&& o.act_dy == seen.1 - old(self)@.seen.1
                &&& (o.exp_x as int, o.exp_y as int) == old(self)@.exp
                &&& o.real_x == seen.0
                &&& o.real_y == seen.1
            },
            r matches Some(o) ==> old(self)@.observed(seen, o),
    {
        if !self.active {
            self.active = true;
            self.anchor = seen;
            self.real_win = seen;
            self.req_win = (0, 0);
            self.last = now;
            return None;
        }
        if elapsed(now, self.last) < self.interval {
            return None;
        }
        self.last = now;
        let ax: i64 = seen.0 as i64 - self.real_win.0 as i64;
        let ay: i64 = seen.1 as i64 - self.real_win.1 as i64;
        let (rx, ry): (i64, i64) = self.req_win;
        let idle: bool = rx == 0 && ry == 0 && ax == 0 && ay == 0;
        self.real_win = seen;
        self.req_win = (0, 0);
        if idle {
            return None;
        }
        Some(
            Observation {
                req_dx: rx,
                req_dy: ry,
                act_dx: ax,
                act_dy: ay,
                exp_x: self.exp.0,
                exp_y: self.exp.1,
                real_x: seen.0 as i64,
                real_y: seen.1 as i64,
            },
        )
    }

    /// Sample the real cursor position right now. See
    /// [`MotionProbe::sample_at`]; the time is the probe clock's.
    pub fn sample(&mut self, seen: (i32, i32)) -> (r: Option<Observation>)
        ensures
            exists|now: u64|
                {
                    &&& final(self)@ == #[trigger] old(self)@.sampled(seen, now)
                    &&& r is Some <==> old(self)@.observes(seen, now)
                },
            r matches Some(o) ==> {
                &&& (o.req_dx as int, o.req_dy as int) == old(self)@.req
                &&& o.act_dx == seen.0 - old(self)@.seen.0
                &&& o.act_dy == seen.1 - old(self)@.seen.1
                &&& (o.exp_x as int, o.exp_y as int) == old(self)@.exp
                &&& o.real_x == seen.0
                &&& o.real_y == seen.1
            },
            r matches Some(o) ==> old(self)@.observed(seen, o),
    {
        let now: u64 = self.clock.now();
        let ghost before = self@;
        let r: Option<Observation> = self.sample_at(seen, now);
        assert(self@ == before.sampled(seen, now));
        r
    }

    /// Whether a sample is due, `now` nanoseconds on the probe's clock.
    /// True whenever the window has elapsed, even before the first sample.
    pub fn due_at(&self, now: u64) -> (r: bool)
        ensures
            r == self@.elapsed(now),
    {
        elapsed(now, self.last) >= self.interval
    }

    /// Whether a sample is due now.
    pub fn due(&self) -> (r: bool)
        ensures
            exists|now: u64| r == #[trigger] self@.elapsed(now),
    {
        let now: u64 = self.clock.now();
        self.due_at(now)
    }

    /// The time on the probe's clock.
    pub(crate) fn clock_now(&self) -> u64 {
        self.clock.now()
    }

    /// Whether a measurement session is open (between `enter` and
    /// `leave`, or after the probe anchored on its first sample).
    pub fn active(&self) -> (r: bool)
        ensures
            r == self@.active,
    {
        self.active
    }
}

/// Nothing requested is lost or counted twice: a sample either leaves the
/// window's counts in place or reports them and starts from zero, and the
/// total since the session opened is never touched.
pub proof fn sampling_conserves_counts(m: Measure, seen: (i32, i32), now: u64)
    requires
        m.active,
    ensures
        m.sampled(seen, now).exp == m.exp,
        m.observes(seen, now) ==> m.sampled(seen, now).req == (0int, 0int),
        !m.observes(seen, now) ==> m.sampled(seen, now).req == m.req,
{
}

/// A probe that was never entered anchors silently: its first sample
/// observes nothing and discards what was counted before it.
pub proof fn first_sample_only_anchors(m: Measure, seen: (i32, i32), now: u64)
    requires
        !m.active,
    ensures
        !m.observes(seen, now),
        m.sampled(seen, now).active,
        m.sampled(seen, now).req == (0int, 0int),
{
}

} // verus!
