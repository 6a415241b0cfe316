//! The client's commanded cursor position.
//!
//! The shared cursor on the client is steered by a closed loop: every
//! received motion frame advances a commanded position, and the real
//! cursor is corrected toward it. The command is wherever the hand is
//! *now*: there is no queue and no backlog.
use vstd::prelude::*;

use crate::layout::{clamped, imax};

verus! {

/// Largest correction flushed before an ordering-critical event (px).
/// Clicks must land where the motion pointed, but a wedged cursor must
/// not be able to drag the click across the screen.
pub const FOLLOW_FLUSH_CAP: i64 = 64;

/// The largest distance of a command from the origin: whole pixels are
/// exact up to here.
pub const COMMAND_LIMIT: i64 = 0x20_0000_0000_0000;

/// What a follower knows.
pub struct Aim {
    /// Where the server wants the cursor, in local screen pixels.
    pub x: int,
    pub y: int,
    /// A command is being followed (control is on this machine).
    pub active: bool,
    /// This machine's screen size, when known.
    pub bounds: Option<(u32, u32)>,
}

/// The nearest point of the screen, when its size is known. An empty
/// screen has the origin alone.
pub open spec fn on_screen(bounds: Option<(u32, u32)>, x: int, y: int) -> (int, int) {
    match bounds {
        Some((w, h)) => (clamped(x, 0, imax(w - 1, 0)), clamped(y, 0, imax(h - 1, 0))),
        None => (x, y),
    }
}

impl Aim {
    /// The command moved to the nearest point of the screen to `(x, y)`.
    pub open spec fn placed(self, x: int, y: int) -> Aim {
        let p = on_screen(self.bounds, x, y);
        Aim { x: p.0, y: p.1, ..self }
    }

    /// The command can be advanced by the frame.
    pub open spec fn can_advance(self, dx: int, dy: int) -> bool {
        &&& -COMMAND_LIMIT <= self.x + dx <= COMMAND_LIMIT
        &&& -COMMAND_LIMIT <= self.y + dy <= COMMAND_LIMIT
    }

    /// The move that brings the cursor at `seen` toward the command before
    /// an event whose place matters.
    pub open spec fn flushed(self, seen: (i32, i32)) -> Option<(int, int)> {
        if self.active && self.residual(seen) != (0int, 0int) {
            Some(
                (
                    clamped(
                        self.residual(seen).0,
                        -FOLLOW_FLUSH_CAP as int,
                        FOLLOW_FLUSH_CAP as int,
                    ),
                    clamped(
                        self.residual(seen).1,
                        -FOLLOW_FLUSH_CAP as int,
                        FOLLOW_FLUSH_CAP as int,
                    ),
                ),
            )
        } else {
            None
        }
    }

    /// What is left between the real cursor and the command.
    pub open spec fn residual(self, seen: (i32, i32)) -> (int, int) {
        (self.x - seen.0, self.y - seen.1)
    }
}

/// The closed-loop cursor follower's command.
#[derive(Debug)]
pub struct PositionFollower {
    tx: i64,
    ty: i64,
    active: bool,
    bounds: Option<(u32, u32)>,
}

impl View for PositionFollower {
    type V = Aim;

    closed spec fn view(&self) -> Aim {
        Aim { x: self.tx as int, y: self.ty as int, active: self.active, bounds: self.bounds }
    }
}

/// A value moved into `lo..=hi`.
fn clamp(v: i64, lo: i64, hi: i64) -> (r: i64)
    requires
        lo <= hi,
    ensures
        r == clamped(v as int, lo as int, hi as int),
{
    if v < lo {
        lo
    } else if v > hi {
        hi
    } else {
        v
    }
}

impl Default for PositionFollower {
    fn default() -> (r: Self)
        ensures
            r.wf(),
            r@ == (Aim { x: 0, y: 0, active: false, bounds: None }),
    {
        PositionFollower { tx: 0, ty: 0, active: false, bounds: None }
    }
}

impl PositionFollower {
    /// The command is within [`COMMAND_LIMIT`], and on the screen when
    /// its size is known.
    pub closed spec fn wf(self) -> bool {
        &&& -COMMAND_LIMIT <= self.tx <= COMMAND_LIMIT
        &&& -COMMAND_LIMIT <= self.ty <= COMMAND_LIMIT
        &&& on_screen(self.bounds, self.tx as int, self.ty as int) == (
            self.tx as int,
            self.ty as int,
        )
    }

    /// The command never leaves the screen.
    pub proof fn command_is_on_screen(self)
        requires
            self.wf(),
        ensures
            on_screen(self@.bounds, self@.x, self@.y) == (self@.x, self@.y),
            self@.bounds matches Some((w, h)) ==> 0 <= self@.x <= imax(w - 1, 0) && 0 <= self@.y
                <= imax(h - 1, 0),
    {
    }

    /// Set (or update) this machine's screen bounds and clamp the
    /// current command into them: a resolution shrink can leave the
    /// command outside the new screen.
    pub fn set_bounds(&mut self, w: u32, h: u32)
        requires
            old(self).wf(),
        ensures
            final(self).wf(),
            final(self)@ == (Aim { bounds: Some((w, h)), ..old(self)@ }).placed(
                old(self)@.x,
                old(self)@.y,
            ),
    {
        self.bounds = Some((w, h));
        self.clamp_command();
    }

    /// Clamp the commanded position into the screen bounds, if known.
    fn clamp_command(&mut self)
        requires
            -COMMAND_LIMIT <= old(self).tx <= COMMAND_LIMIT,
            -COMMAND_LIMIT <= old(self).ty <= COMMAND_LIMIT,
        ensures
            final(self).wf(),
            final(self)@ == old(self)@.placed(old(self)@.x, old(self)@.y),
    {
        match self.bounds {
            Some((w, h)) => {
                let max_x: i64 = if w > 0 {
                    w as i64 - 1
                } else {
                    0
                };
                let max_y: i64 = if h > 0 {
                    h as i64 - 1
                } else {
                    0
                };
                self.tx = clamp(self.tx, 0, max_x);
                self.ty = clamp(self.ty, 0, max_y);
            },
            None => {},
        }
    }

    /// Control entered at `(x, y)`: the command starts there.
    pub fn enter(&mut self, x: i32, y: i32)
        requires
            old(self).wf(),
        ensures
            final(self).wf(),
            final(self)@ == (Aim { active: true, ..old(self)@ }).placed(x as int, y as int),
    {
        self.tx = x as i64;
        self.ty = y as i64;
        self.active = true;
        self.clamp_command();
    }

    /// Control left: stop following.
    pub fn leave(&mut self)
        requires
            old(self).wf(),
        ensures
            final(self).wf(),
            final(self)@ == (Aim { active: false, ..old(self)@ }),
    {
        self.active = false;
    }

    /// Is a command being followed?
    pub fn is_active(&self) -> (r: bool)
        ensures
            r == self@.active,
    {
        self.active
    }

    /// Can the command be advanced by the frame and stay within
    /// [`COMMAND_LIMIT`]?
    pub fn takes(&self, dx: i32, dy: i32) -> (r: bool)
        requires
            self.wf(),
        ensures
            r == self@.can_advance(dx as int, dy as int),
    {
        let x: i64 = self.tx + dx as i64;
        let y: i64 = self.ty + dy as i64;
        -COMMAND_LIMIT <= x && x <= COMMAND_LIMIT && -COMMAND_LIMIT <= y && y <= COMMAND_LIMIT
    }

    /// Advance the command by a full frame.
    pub fn advance(&mut self, dx: i32, dy: i32)
        requires
            old(self).wf(),
            old(self)@.can_advance(dx as int, dy as int),
        ensures
            final(self).wf(),
            final(self)@ == old(self)@.placed(old(self)@.x + dx, old(self)@.y + dy),
    {
        self.tx = self.tx + dx as i64;
        self.ty = self.ty + dy as i64;
        self.clamp_command();
    }

    /// Absolute re-anchor (defensive placement): the command moves to
    /// `(x, y)`.
    pub fn reanchor(&mut self, x: i32, y: i32)
        requires
            old(self).wf(),
        ensures
            final(self).wf(),
            final(self)@ == old(self)@.placed(x as int, y as int),
    {
        self.tx = x as i64;
        self.ty = y as i64;
        self.clamp_command();
    }

    /// The current commanded position, as far as it is a machine integer.
    pub fn command(&self) -> (r: (i32, i32))
        requires
            self.wf(),
        ensures
            r.0 == clamped(self@.x, i32::MIN as int, i32::MAX as int),
            r.1 == clamped(self@.y, i32::MIN as int, i32::MAX as int),
    {
        (
            clamp(self.tx, i32::MIN as i64, i32::MAX as i64) as i32,
            clamp(self.ty, i32::MIN as i64, i32::MAX as i64) as i32,
        )
    }

    /// The residual error (command minus real) that a correction is due
    /// for. `None` when idle or already on target.
    pub fn due(&self, seen: (i32, i32)) -> (r: Option<(i64, i64)>)
        requires
            self.wf(),
        ensures
            r is Some <==> self@.active && self@.residual(seen) != (0int, 0int),
            r matches Some(e) ==> (e.0 as int, e.1 as int) == self@.residual(seen),
    {
        let ex: i64 = self.tx - seen.0 as i64;
        let ey: i64 = self.ty - seen.1 as i64;
        if !self.active || (ex == 0 && ey == 0) {
            None
        } else {
            Some((ex, ey))
        }
    }

    /// Flush the whole residual error as one move (capped). Used before
    /// ordering-critical events so a click lands on the command point
    /// even if the cursor was still converging.
    pub fn flush(&self, seen: (i32, i32)) -> (r: Option<(i32, i32)>)
        requires
            self.wf(),
        ensures
            r is Some <==> self@.active && self@.residual(seen) != (0int, 0int),
            r matches Some(m) ==> m.0 == clamped(
                self@.residual(seen).0,
                -FOLLOW_FLUSH_CAP as int,
                FOLLOW_FLUSH_CAP as int,
            ) && m.1 == clamped(
                self@.residual(seen).1,
                -FOLLOW_FLUSH_CAP as int,
                FOLLOW_FLUSH_CAP as int,
            ),
            self@.flushed(seen) == match r {
                Some(m) => Some((m.0 as int, m.1 as int)),
                None => None,
            },
    {
        match self.due(seen) {
            None => None,
            Some((ex, ey)) => Some(
                (
                    clamp(ex, -FOLLOW_FLUSH_CAP, FOLLOW_FLUSH_CAP) as i32,
                    clamp(ey, -FOLLOW_FLUSH_CAP, FOLLOW_FLUSH_CAP) as i32,
                ),
            ),
        }
    }

    /// The residual error (command minus real), for telemetry: a healthy
    /// follower keeps this near zero.
    pub fn error(&self, seen: (i32, i32)) -> (r: (i32, i32))
        requires
            self.wf(),
        ensures
            r.0 == clamped(self@.residual(seen).0, i32::MIN as int, i32::MAX as int),
            r.1 == clamped(self@.residual(seen).1, i32::MIN as int, i32::MAX as int),
    {
        (
            clamp(self.tx - seen.0 as i64, i32::MIN as i64, i32::MAX as i64) as i32,
            clamp(self.ty - seen.1 as i64, i32::MIN as i64, i32::MAX as i64) as i32,
        )
    }
}

/// Reversing at an edge moves immediately: however far a sweep ran past
/// the right, left, bottom or top edge, the command stands on it, and a
/// frame back into the screen moves it by the whole frame.
pub proof fn reversal_moves_immediately(c: Aim, w: u32, h: u32, to: int, back: int)
    requires
        c.bounds == Some((w, h)),
        0 < w && 0 < h,
        0 <= back,
    ensures
        to >= w && back < w ==> {
            &&& c.placed(to, c.y).x == w - 1
            &&& c.placed(to, c.y).placed(w - 1 - back, c.y).x == w - 1 - back
        },
        to < 0 && back < w ==> {
            &&& c.placed(to, c.y).x == 0
            &&& c.placed(to, c.y).placed(back, c.y).x == back
        },
        to >= h && back < h ==> {
            &&& c.placed(c.x, to).y == h - 1
            &&& c.placed(c.x, to).placed(c.x, h - 1 - back).y == h - 1 - back
        },
        to < 0 && back < h ==> {
            &&& c.placed(c.x, to).y == 0
            &&& c.placed(c.x, to).placed(c.x, back).y == back
        },
{
}

/// A flush lands the cursor on the command: within the cap, the real
/// position plus the flushed move is the command.
pub proof fn flush_lands_on_the_command(c: Aim, seen: (i32, i32))
    requires
        -FOLLOW_FLUSH_CAP <= c.residual(seen).0 <= FOLLOW_FLUSH_CAP,
        -FOLLOW_FLUSH_CAP <= c.residual(seen).1 <= FOLLOW_FLUSH_CAP,
    ensures
        seen.0 + clamped(
            c.residual(seen).0,
            -FOLLOW_FLUSH_CAP as int,
            FOLLOW_FLUSH_CAP as int,
        ) == c.x,
        seen.1 + clamped(
            c.residual(seen).1,
            -FOLLOW_FLUSH_CAP as int,
            FOLLOW_FLUSH_CAP as int,
        ) == c.y,
{
}

} // verus!
