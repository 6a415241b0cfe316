//! The cursor-side steering state of a client: the command, the telemetry
//! window, and the detector of a cursor that the system refuses to move.
use vstd::prelude::*;
use vstd::string::*;

use crate::layout::clamped;
use crate::motion::follower::Aim;
use crate::motion::probe::{Measure, Observation, PROBE_INTERVAL};
use crate::motion::{MotionProbe, PositionFollower};
use crate::protocol::ScreenInfo;
use crate::text::{decimal, decimal_text, signed, signed_text};

verus! {

/// Consecutive windows in which the cursor was commanded to move but did
/// not, away from a screen edge, before injected input counts as blocked.
pub const PIN_WINDOWS_TO_TRIP: u32 = 6;

/// The length (ms) of a window, as an alarm counts it.
pub const PIN_WINDOW_MS: u64 = 100;

/// More commanded motion (pixels) than this within one window counts as a
/// command to move.
pub const PIN_MIN_COMMANDED_PX: i64 = 60;

/// Less real travel (pixels) than this within one window counts as not
/// following.
pub const PIN_MAX_TRAVEL_PX: i64 = 6;

/// What the steering state knows.
pub struct Course {
    /// The command.
    pub aim: Aim,
    /// The telemetry.
    pub measure: Measure,
    /// Motion frames accepted since the window started.
    pub frames: int,
    /// Steering ticks since the window started.
    pub ticks: int,
    /// Pixels commanded since the window started.
    pub commanded: int,
    /// Real cursor position when the window started.
    pub start: (i32, i32),
    /// Consecutive windows in which the cursor was pinned.
    pub pins: int,
}

/// The absolute value.
pub open spec fn iabs(v: int) -> int {
    if v < 0 {
        -v
    } else {
        v
    }
}

/// The cursor is at, or one pixel from, an edge of the screen.
pub open spec fn at_edge(seen: (i32, i32), screen: ScreenInfo) -> bool {
    ||| seen.0 <= 1
    ||| seen.1 <= 1
    ||| seen.0 >= screen.width - 2
    ||| seen.1 >= screen.height - 2
}

/// The trace line of a window.
pub open spec fn trace_text(
    req: (int, int),
    act: (int, int),
    err: (int, int),
    at: (int, int),
    frames: int,
    ticks: int,
) -> Seq<char> {
    "motion req=("@ + signed_text(req.0) + ","@ + signed_text(req.1) + ") act=("@ + signed_text(
        act.0,
    ) + ","@ + signed_text(act.1) + ") err=("@ + signed_text(err.0) + ","@ + signed_text(err.1)
        + ") real=("@ + signed_text(at.0) + ","@ + signed_text(at.1) + ") frames="@ + decimal_text(
        frames as nat,
    ) + " ticks="@ + decimal_text(ticks as nat)
}

impl Course {
    /// Nothing was commanded or measured yet.
    pub open spec fn fresh() -> Course {
        Course {
            aim: Aim { x: 0, y: 0, active: false, bounds: None },
            measure: Measure {
                interval: PROBE_INTERVAL,
                last: 0,
                active: false,
                anchor: (0, 0),
                exp: (0, 0),
                req: (0, 0),
                seen: (0, 0),
            },
            frames: 0,
            ticks: 0,
            commanded: 0,
            start: (0, 0),
            pins: 0,
        }
    }

    /// One more motion frame can be taken in machine integers.
    pub open spec fn can_take(self, dx: i32, dy: i32) -> bool {
        &&& dx > i32::MIN
        &&& dy > i32::MIN
        &&& self.frames < u32::MAX
        &&& self.commanded + iabs(dx as int) + iabs(dy as int) <= i64::MAX
        &&& self.aim.can_advance(dx as int, dy as int)
        &&& self.measure.can_count(dx as int, dy as int)
    }

    /// A motion frame: the command advances, and the frame is counted.
    pub open spec fn framed(self, dx: int, dy: int) -> Course {
        Course {
            aim: self.aim.placed(self.aim.x + dx, self.aim.y + dy),
            measure: Measure {
                exp: (self.measure.exp.0 + dx, self.measure.exp.1 + dy),
                req: (self.measure.req.0 + dx, self.measure.req.1 + dy),
                ..self.measure
            },
            frames: self.frames + 1,
            commanded: self.commanded + iabs(dx) + iabs(dy),
            ..self
        }
    }

    /// Control entered and the cursor was placed; it really is at `seen`.
    pub open spec fn anchored(self, seen: (i32, i32), now: u64) -> Course {
        Course {
            aim: self.aim.placed(seen.0 as int, seen.1 as int),
            measure: self.measure.entered(seen, now),
            ..self
        }
    }

    /// Control left.
    pub open spec fn left(self) -> Course {
        Course {
            aim: Aim { active: false, ..self.aim },
            measure: Measure { active: false, ..self.measure },
            ..self
        }
    }

    /// The command as whole screen coordinates.
    pub open spec fn target(self) -> (int, int) {
        (
            clamped(self.aim.x, i32::MIN as int, i32::MAX as int),
            clamped(self.aim.y, i32::MIN as int, i32::MAX as int),
        )
    }

    /// The window that ends at `seen` commanded real motion, and the
    /// cursor did not travel.
    pub open spec fn pinned(self, seen: (i32, i32)) -> bool {
        &&& self.commanded > PIN_MIN_COMMANDED_PX
        &&& iabs(seen.0 - self.start.0) + iabs(seen.1 - self.start.1) < PIN_MAX_TRAVEL_PX
    }

    /// Pinned windows in a row, counting the one that ends at `seen`.
    pub open spec fn pins_at(self, seen: (i32, i32)) -> int {
        if self.pinned(seen) {
            self.pins + 1
        } else {
            0
        }
    }

    /// The state after the window was closed at `seen`.
    pub open spec fn closed_window(self, seen: (i32, i32), now: u64) -> Course {
        Course {
            measure: self.measure.sampled(seen, now),
            frames: 0,
            ticks: 0,
            commanded: 0,
            start: seen,
            pins: self.pins_at(seen),
            ..self
        }
    }

    /// The state after a look at the probe: the window is closed where its
    /// time is up.
    pub open spec fn probed(self, seen: (i32, i32), now: u64) -> Course {
        if self.measure.elapsed(now) {
            self.closed_window(seen, now)
        } else {
            self
        }
    }

    /// How a tick moves the cursor that is at `seen`: an absolute backend
    /// places it on the command, a relative one corrects what is left
    /// while control is here, and nothing is done where the cursor already
    /// is where it should be.
    pub open spec fn places(self, seen: (i32, i32), absolute: bool, p: Placement) -> bool {
        let left = self.aim.residual(seen);
        match p {
            Placement::Stay => if absolute {
                (seen.0 as int, seen.1 as int) == self.target()
            } else {
                !self.aim.active || left == (0int, 0int)
            },
            Placement::MoveTo { x, y } => {
                &&& absolute
                &&& (x as int, y as int) == self.target()
                &&& (x, y) != seen
            },
            Placement::Correct { ex, ey } => {
                &&& !absolute
                &&& self.aim.active
                &&& (ex as int, ey as int) == left
                &&& left != (0int, 0int)
            },
        }
    }

    /// The cursor has been pinned for long enough that the place of the
    /// cursor decides.
    pub open spec fn suspect(self, seen: (i32, i32), now: u64) -> bool {
        self.measure.elapsed(now) && self.pins_at(seen) >= PIN_WINDOWS_TO_TRIP
    }
}

/// How the motion loop moves the cursor in a tick.
#[derive(Debug, Clone, Copy, PartialEq, Eq, Structural)]
pub enum Placement {
    /// The cursor is where it should be.
    Stay,
    /// Place it here.
    MoveTo { x: i32, y: i32 },
    /// Correct toward the command: this much is left.
    Correct { ex: i64, ey: i64 },
}

/// What a look at the probe gave.
#[derive(Debug, PartialEq, Eq)]
pub struct ProbeReport {
    /// Trace line describing the window, where there is one to write.
    pub trace: Option<String>,
    /// Injected motion is being eaten by the system: release local input
    /// and restart the session.
    pub pinned: bool,
    /// The line that says so, where it is.
    pub alarm: Option<String>,
}

/// The line that announces a pinned cursor, after `pins` windows in a row
/// of which the last commanded `frames` frames.
pub open spec fn alarm_text(pins: int, frames: int) -> Seq<char> {
    "cursor pinned ~"@ + decimal_text((pins * PIN_WINDOW_MS) as nat) + " ms while "@ + decimal_text(
        frames as nat,
    )
        + " frames/tick commanded motion — injected input is being eaten; releasing local input and restarting the session"@
}

/// [`alarm_text`] as a string.
fn alarm_line(pins: u32, frames: u32) -> (r: String)
    ensures
        r@ == alarm_text(pins as int, frames as int),
{
    let mut out: String = "cursor pinned ~".to_owned();
    out.append(decimal(pins as u64 * PIN_WINDOW_MS).as_str());
    out.append(" ms while ");
    out.append(decimal(frames as u64).as_str());
    out.append(
        " frames/tick commanded motion — injected input is being eaten; releasing local input and restarting the session",
    );
    out
}

/// The steering state.
#[derive(Debug)]
pub struct Steering {
    follower: PositionFollower,
    probe: MotionProbe,
    frames_win: u32,
    ticks_win: u32,
    win_cmd_px: i64,
    win_real_start: (i32, i32),
    pin_windows: u32,
}

impl View for Steering {
    type V = Course;

    closed spec fn view(&self) -> Course {
        Course {
            aim: self.follower@,
            measure: self.probe@,
            frames: self.frames_win as int,
            ticks: self.ticks_win as int,
            commanded: self.win_cmd_px as int,
            start: self.win_real_start,
            pins: self.pin_windows as int,
        }
    }
}

fn magnitude(v: i32) -> (r: i64)
    ensures
        r == iabs(v as int),
{
    if v < 0 {
        -(v as i64)
    } else {
        v as i64
    }
}

fn distance(a: i32, b: i32) -> (r: i64)
    ensures
        r == iabs(a - b),
{
    let d: i64 = a as i64 - b as i64;
    if d < 0 {
        -d
    } else {
        d
    }
}

fn append_pair(out: &mut String, a: i64, b: i64)
    ensures
        final(out)@ == old(out)@ + signed_text(a as int) + ","@ + signed_text(b as int),
{
    let l: String = signed(a);
    let r: String = signed(b);
    out.append(l.as_str());
    out.append(",");
    out.append(r.as_str());
}

fn trace_line(o: &Observation, err: (i32, i32), frames: u32, ticks: u32) -> (r: String)
    ensures
        r@ == trace_text(
            (o.req_dx as int, o.req_dy as int),
            (o.act_dx as int, o.act_dy as int),
            (err.0 as int, err.1 as int),
            (o.real_x as int, o.real_y as int),
            frames as int,
            ticks as int,
        ),
{
    let mut out: String = "motion req=(".to_owned();
    append_pair(&mut out, o.req_dx, o.req_dy);
    out.append(") act=(");
    append_pair(&mut out, o.act_dx, o.act_dy);
    out.append(") err=(");
    append_pair(&mut out, err.0 as i64, err.1 as i64);
    out.append(") real=(");
    append_pair(&mut out, o.real_x, o.real_y);
    out.append(") frames=");
    out.append(decimal(frames as u64).as_str());
    out.append(" ticks=");
    out.append(decimal(ticks as u64).as_str());
    out
}

impl Steering {
    /// The command is in range.
    pub closed spec fn wf(self) -> bool {
        &&& self.follower.wf()
        &&& self.win_cmd_px >= 0
    }

    /// The counters are never negative.
    pub proof fn counters_are_natural(self)
        requires
            self.wf(),
        ensures
            0 <= self@.frames <= u32::MAX,
            0 <= self@.ticks <= u32::MAX,
            0 <= self@.commanded <= i64::MAX,
            0 <= self@.pins <= u32::MAX,
    {
    }

    /// The state of a client that just connected.
    pub fn new() -> (r: Self)
        ensures
            r.wf(),
            r@ == Course::fresh(),
    {
        Steering {
            follower: PositionFollower::default(),
            probe: MotionProbe::default(),
            frames_win: 0,
            ticks_win: 0,
            win_cmd_px: 0,
            win_real_start: (0, 0),
            pin_windows: 0,
        }
    }

    /// Can the frame be taken in machine integers?
    pub fn takes(&self, dx: i32, dy: i32) -> (r: bool)
        requires
            self.wf(),
        ensures
            r == self@.can_take(dx, dy),
    {
        if dx == i32::MIN || dy == i32::MIN || self.frames_win == u32::MAX {
            return false;
        }
        let more: i64 = magnitude(dx) + magnitude(dy);
        self.win_cmd_px <= i64::MAX - more && self.follower.takes(dx, dy) && self.probe.counts(
            dx,
            dy,
        )
    }

    /// Apply one motion frame to the command. Absolute backends only
    /// advance the command: the motion loop places the cursor there at its
    /// own cadence, so a burst of datagrams cannot clump it. Relative
    /// backends also inject a part of the frame right away.
    pub fn apply_motion_frame(&mut self, dx: i32, dy: i32)
        requires
            old(self).wf(),
            old(self)@.can_take(dx, dy),
        ensures
            final(self).wf(),
            final(self)@ == old(self)@.framed(dx as int, dy as int),
    {
        self.frames_win = self.frames_win + 1;
        self.win_cmd_px = self.win_cmd_px + magnitude(dx) + magnitude(dy);
        self.follower.advance(dx, dy);
        self.probe.requested(dx, dy);
    }

    /// Control entered at `(x, y)`: the command starts there.
    pub fn enter(&mut self, x: i32, y: i32)
        requires
            old(self).wf(),
        ensures
            final(self).wf(),
            final(self)@ == (Course {
                aim: (Aim { active: true, ..old(self)@.aim }).placed(x as int, y as int),
                ..old(self)@
            }),
    {
        self.follower.enter(x, y);
    }

    /// The cursor was placed for an entry and really is at `seen`, `now`
    /// nanoseconds on the probe's clock.
    pub fn anchor_at(&mut self, seen: (i32, i32), now: u64)
        requires
            old(self).wf(),
        ensures
            final(self).wf(),
            final(self)@ == old(self)@.anchored(seen, now),
    {
        self.follower.reanchor(seen.0, seen.1);
        self.probe.enter_at(seen, now);
    }

    /// [`Steering::anchor_at`] at the probe clock's time.
    pub fn anchor(&mut self, seen: (i32, i32))
        requires
            old(self).wf(),
        ensures
            final(self).wf(),
            exists|now: u64| final(self)@ == #[trigger] old(self)@.anchored(seen, now),
    {
        let ghost before = self@;
        self.follower.reanchor(seen.0, seen.1);
        let ghost measure = self.probe@;
        self.probe.enter(seen);
        proof {
            let now = choose|now: u64| self.probe@ == #[trigger] measure.entered(seen, now);
            assert(self@ == before.anchored(seen, now));
        }
    }

    /// The cursor was placed at `(x, y)` by order: the command follows.
    pub fn reanchor(&mut self, x: i32, y: i32)
        requires
            old(self).wf(),
        ensures
            final(self).wf(),
            final(self)@ == (Course {
                aim: old(self)@.aim.placed(x as int, y as int),
                ..old(self)@
            }),
    {
        self.follower.reanchor(x, y);
    }

    /// Control left: stop following.
    pub fn leave(&mut self)
        requires
            old(self).wf(),
        ensures
            final(self).wf(),
            final(self)@ == old(self)@.left(),
    {
        self.follower.leave();
        self.probe.leave();
    }

    /// One steering tick with the cursor at `seen`. Absolute backends
    /// place it exactly at the command, which costs nothing where it
    /// already is; relative ones correct toward it.
    pub fn tick(&mut self, seen: (i32, i32), absolute: bool) -> (r: Placement)
        requires
            old(self).wf(),
            old(self)@.ticks < u32::MAX,
        ensures
            final(self).wf(),
            final(self)@ == (Course { ticks: old(self)@.ticks + 1, ..old(self)@ }),
            old(self)@.places(seen, absolute, r),
    {
        self.ticks_win = self.ticks_win + 1;
        if absolute {
            let (cx, cy): (i32, i32) = self.follower.command();
            if cx != seen.0 || cy != seen.1 {
                Placement::MoveTo { x: cx, y: cy }
            } else {
                Placement::Stay
            }
        } else {
            match self.follower.due(seen) {
                Some((ex, ey)) => Placement::Correct { ex, ey },
                None => Placement::Stay,
            }
        }
    }

    /// Can another tick be counted?
    pub fn ticks_on(&self) -> (r: bool)
        ensures
            r == (self@.ticks < u32::MAX),
    {
        self.ticks_win < u32::MAX
    }

    /// Can another pinned window be counted?
    pub fn pins_on(&self) -> (r: bool)
        ensures
            r == (self@.pins < u32::MAX),
    {
        self.pin_windows < u32::MAX
    }

    /// Where an absolute backend places the cursor when the session ends,
    /// so that the last position is exact. Relative ones have converged.
    pub fn last_placement(&self, absolute: bool) -> (r: Placement)
        requires
            self.wf(),
        ensures
            absolute ==> (r matches Placement::MoveTo { x, y } && (x as int, y as int)
                == self@.target()),
            !absolute ==> r is Stay,
    {
        if absolute {
            let (x, y): (i32, i32) = self.follower.command();
            Placement::MoveTo { x, y }
        } else {
            Placement::Stay
        }
    }

    /// Close the telemetry window if its time is up, `now` nanoseconds on
    /// the probe's clock, and decide whether the cursor is pinned:
    /// commanded to move for [`PIN_WINDOWS_TO_TRIP`] windows in a row
    /// without moving. A cursor parked at a screen edge is a wall push,
    /// not a block. `screen` is asked only once the threshold is reached:
    /// the call may stall on a busy desktop, and must never run on every
    /// tick.
    pub fn probe_window_at<F: FnOnce() -> ScreenInfo>(
        &mut self,
        seen: (i32, i32),
        now: u64,
        screen: F,
    ) -> (r: ProbeReport)
        requires
            old(self).wf(),
            old(self)@.pins < u32::MAX,
            old(self)@.suspect(seen, now) ==> call_requires(screen, ()),
        ensures
            final(self).wf(),
            final(self)@ == old(self)@.probed(seen, now),
            old(self)@.suspect(seen, now) ==> exists|s: ScreenInfo| #[trigger]
                call_ensures(screen, (), s) && r.pinned == !at_edge(seen, s),
            !old(self)@.suspect(seen, now) ==> !r.pinned,
            r.alarm is Some <==> r.pinned,
            r.alarm matches Some(line) ==> line@ == alarm_text(
                old(self)@.pins_at(seen),
                old(self)@.frames,
            ),
            match r.trace {
                Some(line) => {
                    &&& old(self)@.measure.observes(seen, now)
                    &&& line@ == old(self)@.trace(seen)
                },
                None => !old(self)@.measure.observes(seen, now),
            },
    {
        if !self.probe.due_at(now) {
            return ProbeReport { trace: None, pinned: false, alarm: None };
        }
        let err: (i32, i32) = self.follower.error(seen);
        let frames: u32 = self.frames_win;
        let ticks: u32 = self.ticks_win;
        self.frames_win = 0;
        self.ticks_win = 0;
        let travel: i64 = distance(seen.0, self.win_real_start.0) + distance(
            seen.1,
            self.win_real_start.1,
        );
        let still: bool = self.win_cmd_px > PIN_MIN_COMMANDED_PX && travel < PIN_MAX_TRAVEL_PX;
        self.pin_windows = if still {
            self.pin_windows + 1
        } else {
            0
        };
        self.win_cmd_px = 0;
        self.win_real_start = seen;
        let mut pinned: bool = false;
        if self.pin_windows >= PIN_WINDOWS_TO_TRIP {
            let s: ScreenInfo = screen();
            let edge: bool = seen.0 <= 1 || seen.1 <= 1 || seen.0 as i64 >= s.width as i64 - 2
                || seen.1 as i64 >= s.height as i64 - 2;
            assert(edge == at_edge(seen, s));
            pinned = !edge;
        }
        let trace: Option<String> = match self.probe.sample_at(seen, now) {
            Some(o) => Some(trace_line(&o, err, frames, ticks)),
            None => None,
        };
        let alarm: Option<String> = if pinned {
            Some(alarm_line(self.pin_windows, frames))
        } else {
            None
        };
        ProbeReport { trace, pinned, alarm }
    }

    /// [`Steering::probe_window_at`] at the probe clock's time.
    pub fn probe_window<F: FnOnce() -> ScreenInfo>(&mut self, seen: (i32, i32), screen: F) -> (r:
        ProbeReport)
        requires
            old(self).wf(),
            old(self)@.pins < u32::MAX,
            old(self)@.pins_at(seen) >= PIN_WINDOWS_TO_TRIP ==> call_requires(screen, ()),
        ensures
            final(self).wf(),
            exists|now: u64|
                {
                    &&& final(self)@ == #[trigger] old(self)@.probed(seen, now)
                    &&& old(self)@.suspect(seen, now) ==> exists|s: ScreenInfo| #[trigger]
                        call_ensures(screen, (), s) && r.pinned == !at_edge(seen, s)
                    &&& !old(self)@.suspect(seen, now) ==> !r.pinned
                    &&& r.trace is Some <==> old(self)@.measure.observes(seen, now)
                },
            r.trace matches Some(line) ==> line@ == old(self)@.trace(seen),
            r.alarm is Some <==> r.pinned,
            r.alarm matches Some(line) ==> line@ == alarm_text(
                old(self)@.pins_at(seen),
                old(self)@.frames,
            ),
    {
        let now: u64 = self.probe.clock_now();
        let ghost before = self@;
        let r: ProbeReport = self.probe_window_at(seen, now, screen);
        assert(self@ == before.probed(seen, now));
        r
    }
}

impl Course {
    /// The trace line of the window that ends at `seen`.
    pub open spec fn trace(self, seen: (i32, i32)) -> Seq<char> {
        let left = self.aim.residual(seen);
        trace_text(
            self.measure.req,
            (seen.0 - self.measure.seen.0, seen.1 - self.measure.seen.1),
            (
                clamped(left.0, i32::MIN as int, i32::MAX as int),
                clamped(left.1, i32::MIN as int, i32::MAX as int),
            ),
            (seen.0 as int, seen.1 as int),
            self.frames,
            self.ticks,
        )
    }
}

// ---------------------------------------------------------------------
// Laws
// ---------------------------------------------------------------------

/// The sum of the motion of some frames.
pub open spec fn total(frames: Seq<(int, int)>) -> (int, int)
    decreases frames.len(),
{
    if frames.len() == 0 {
        (0, 0)
    } else {
        let t = total(frames.drop_last());
        (t.0 + frames.last().0, t.1 + frames.last().1)
    }
}

/// The state after some frames.
pub open spec fn framed_all(c: Course, frames: Seq<(int, int)>) -> Course
    decreases frames.len(),
{
    if frames.len() == 0 {
        c
    } else {
        framed_all(c, frames.drop_last()).framed(frames.last().0, frames.last().1)
    }
}

/// The command trajectory is honored exactly: on a screen of unknown size
/// the command is where control entered plus the sum of the received
/// frames, however they were bunched.
pub proof fn command_is_the_sum_of_the_frames(c: Course, frames: Seq<(int, int)>)
    requires
        c.aim.bounds is None,
    ensures
        framed_all(c, frames).aim.bounds is None,
        framed_all(c, frames).aim.x == c.aim.x + total(frames).0,
        framed_all(c, frames).aim.y == c.aim.y + total(frames).1,
        framed_all(c, frames).frames == c.frames + frames.len(),
    decreases frames.len(),
{
    if frames.len() > 0 {
        command_is_the_sum_of_the_frames(c, frames.drop_last());
    }
}

/// A single hiccup never trips the detector: the windows must be pinned in
/// a row, and one that is not starts the count again.
pub proof fn one_moving_window_clears_the_count(c: Course, seen: (i32, i32), now: u64)
    requires
        c.measure.elapsed(now),
        !c.pinned(seen),
    ensures
        c.probed(seen, now).pins == 0,
        !c.suspect(seen, now),
{
}

/// A cursor that follows its command, or is not commanded to move, is
/// never taken for pinned: each window starts to count anew from where the
/// cursor was.
pub proof fn a_window_counts_from_its_start(c: Course, seen: (i32, i32), now: u64)
    requires
        c.measure.elapsed(now),
    ensures
        c.probed(seen, now).commanded == 0,
        c.probed(seen, now).start == seen,
        !c.probed(seen, now).pinned(seen),
{
}

} // verus!
