//! What a controlled machine does with what it is told, message by message
//! and window by window.
use vstd::prelude::*;

use crate::client::connect::{answered, ConnectError, Welcomed};
use crate::client::dispatch::{ClientModel, Deed, SessionEnd};
use crate::client::events::{queued, InjectEvent};
use crate::client::pace::{end_reason, rested, stalled, step_after, Cadence, EndReason, LinkStep};
use crate::client::retry::{connected, status_text, Outcome, Retry, Status};
use crate::client::steering::{alarm_text, at_edge, Course, Placement};
use crate::client_state::{refusal_is_three_lines, state_reads_back, unbroken};
use crate::motion::follower::Aim;
use crate::motion::gain::Tally;
use crate::motion::probe::{Measure, Observation};
use crate::protocol::{ErrorCode, Message, ScreenInfo};
use crate::server::link::ReadEvent;
use crate::server::policy::{barred, Policy};
use crate::text::{decimal_text, lines_text, one_line, signed_text};

verus! {

// ---------------------------------------------------------------------
// Messages
// ---------------------------------------------------------------------

/// What a button, wheel or key message asks the motion loop to inject: the
/// same button in the same state, the same two deltas, or the same kind of
/// key event on the same key.
pub open spec fn injects(msg: Message, e: InjectEvent) -> bool {
    match msg {
        Message::MouseButton { button, pressed } => {
            &&& e matches InjectEvent::Button { button: b, pressed: p }
            &&& b == button && p == pressed
        },
        Message::MouseWheel { dx, dy } => {
            &&& e matches InjectEvent::Wheel { dx: x, dy: y }
            &&& x == dx && y == dy
        },
        Message::Key { kind, key } => {
            &&& e matches InjectEvent::Key { kind: k, key: c }
            &&& k == kind && c == key
        },
        _ => false,
    }
}

/// A button, wheel or key message adds exactly one event to the queue,
/// behind those already there: the one that it describes. A queue that
/// holds 512 events takes no more. Nothing else changes, and nothing is
/// done at once.
pub proof fn an_input_message_waits_in_line(c: ClientModel, msg: Message, absolute: bool)
    requires
        msg is MouseButton || msg is MouseWheel || msg is Key,
    ensures
        ({
            let (after, deeds) = c.dispatched(msg, absolute);
            let n = c.events.len() as int;
            &&& deeds.len() == 0
            &&& after == (ClientModel { events: after.events, ..c })
            &&& forall|k: int| 0 <= k < n ==> #[trigger] after.events[k] == c.events[k]
            &&& n < 512 ==> after.events.len() == n + 1 && injects(msg, after.events[n])
            &&& n >= 512 ==> after.events.len() == n
        }),
{
}

/// The queue keeps the order of arrival, whatever is queued: below 512 one
/// more event stands behind the others, from there on the newest is lost.
pub proof fn the_queue_is_first_in_first_out(q: Seq<InjectEvent>, e: InjectEvent, f: InjectEvent)
    ensures
        q.len() < 512 ==> queued(q, e).len() == q.len() + 1 && queued(q, e).last() == e,
        q.len() >= 512 ==> queued(q, e) == q,
        forall|k: int| 0 <= k < q.len() ==> #[trigger] queued(q, e)[k] == q[k],
        q.len() < 511 ==> queued(queued(q, e), f)[q.len() as int] == e && queued(
            queued(q, e),
            f,
        ).last() == f,
{
}

/// Entering: the injector is told, the cursor is placed at the entry point,
/// and where it really is gets read back, in this order. The command starts
/// at the entry point. Control is on only once the cursor was read back.
pub proof fn entering_places_the_cursor(c: ClientModel, screen_id: u8, x: i32, y: i32, absolute: bool)
    ensures
        ({
            let (after, deeds) = c.dispatched(Message::Enter { screen_id, x, y }, absolute);
            &&& deeds.len() == 3
            &&& deeds[0] is Enter
            &&& deeds[1] == Deed::MoveCursor { x, y }
            &&& deeds[2] is Anchor
            &&& after.course.aim.active
            &&& aims_at(after.course.aim, c.course.aim.bounds, x as int, y as int)
            &&& after.course.measure == c.course.measure
            &&& after == (ClientModel {
                course: Course { aim: after.course.aim, ..c.course },
                ..c
            })
        }),
{
}

/// The command is the point of the screen nearest to `(x, y)`; on a screen
/// of unknown size it is that point itself.
pub open spec fn aims_at(aim: Aim, bounds: Option<(u32, u32)>, x: int, y: int) -> bool {
    &&& aim.bounds == bounds
    &&& bounds is None ==> aim.x == x && aim.y == y
    &&& bounds matches Some((w, h)) ==> {
        &&& 0 <= x < w ==> aim.x == x
        &&& x < 0 ==> aim.x == 0
        &&& x >= 0 && x >= w ==> aim.x == if w > 0 { w - 1 } else { 0 }
        &&& 0 <= y < h ==> aim.y == y
        &&& y < 0 ==> aim.y == 0
        &&& y >= 0 && y >= h ==> aim.y == if h > 0 { h - 1 } else { 0 }
    }
}

/// The command is always moved to the nearest point of the screen, and
/// nothing else about it changes.
pub proof fn a_command_stays_on_the_screen(aim: Aim, x: int, y: int, seen: (i32, i32))
    ensures
        aims_at(aim.placed(x, y), aim.bounds, x, y),
        aim.placed(x, y).active == aim.active,
        seen.0 + aim.residual(seen).0 == aim.x,
        seen.1 + aim.residual(seen).1 == aim.y,
{
}

/// Leaving: control is off, the command is no longer followed and the
/// measurement ends; the injector is told, and nothing else happens.
pub proof fn leaving_lets_go(c: ClientModel, screen_id: u8, absolute: bool)
    ensures
        ({
            let (after, deeds) = c.dispatched(Message::Leave { screen_id }, absolute);
            &&& deeds.len() == 1 && deeds[0] is Leave
            &&& !after.active
            &&& !after.course.aim.active
            &&& !after.course.measure.active
            &&& after.course.aim == (Aim { active: false, ..c.course.aim })
            &&& after.course.measure == (Measure { active: false, ..c.course.measure })
            &&& after == (ClientModel {
                active: false,
                course: Course {
                    aim: after.course.aim,
                    measure: after.course.measure,
                    ..c.course
                },
                ..c
            })
        }),
{
}

/// A motion frame moves the command by itself and is counted, in pixels and
/// as one frame; a backend that moves relatively also gets it right away.
pub proof fn a_motion_frame_moves_the_command(c: ClientModel, dx: i32, dy: i32, absolute: bool)
    ensures
        ({
            let (after, deeds) = c.dispatched(Message::MouseMoveRel { dx, dy }, absolute);
            let (b, a) = (c.course, after.course);
            &&& absolute ==> deeds.len() == 0
            &&& !absolute ==> deeds.len() == 1 && deeds[0] == Deed::Feed { dx, dy }
            &&& aims_at(a.aim, b.aim.bounds, b.aim.x + dx, b.aim.y + dy)
            &&& a.aim.active == b.aim.active
            &&& a.frames == b.frames + 1
            &&& a.commanded == b.commanded + (if dx < 0 { -dx } else { dx as int }) + (if dy < 0 {
                -dy
            } else {
                dy as int
            })
            &&& a.measure.exp.0 - b.measure.exp.0 == dx && a.measure.exp.1 - b.measure.exp.1 == dy
            &&& a.measure.req.0 - b.measure.req.0 == dx && a.measure.req.1 - b.measure.req.1 == dy
            &&& a.measure == (Measure { exp: a.measure.exp, req: a.measure.req, ..b.measure })
            &&& a.ticks == b.ticks && a.start == b.start && a.pins == b.pins
            &&& after == (ClientModel { course: after.course, ..c })
        }),
{
}

/// The other messages: a position is taken as it is, clipboard content is
/// handed on, a new layout replaces the old one, and a command ends the
/// session: for good when it says to disconnect, to come back at once when
/// it says to reconnect or to restart. What only a server receives does
/// nothing.
pub proof fn each_message_has_its_deed(c: ClientModel, msg: Message, absolute: bool)
    ensures
        ({
            let (after, deeds) = c.dispatched(msg, absolute);
            &&& msg matches Message::MouseMoveAbs { x, y } ==> {
                &&& deeds.len() == 1 && deeds[0] == Deed::MoveCursor { x, y }
                &&& aims_at(after.course.aim, c.course.aim.bounds, x as int, y as int)
                &&& after.course.aim.active == c.course.aim.active
                &&& after == (ClientModel {
                    course: Course { aim: after.course.aim, ..c.course },
                    ..c
                })
            }
            &&& msg matches Message::Clipboard { mime, data } ==> {
                &&& deeds.len() == 1 && deeds[0] == Deed::SetClipboard { mime, data }
                &&& after == c
            }
            &&& msg matches Message::Layout { layout } ==> {
                &&& deeds.len() == 0
                &&& after == (ClientModel { layout: layout@, ..c })
            }
            &&& msg matches Message::Control { command } ==> {
                &&& deeds.len() == 1
                &&& command is Disconnect ==> deeds[0] == Deed::End(SessionEnd::Disconnected)
                &&& command is Reconnect ==> deeds[0] == Deed::End(SessionEnd::Reconnect)
                &&& command is Restart ==> deeds[0] == Deed::End(SessionEnd::Reconnect)
                &&& after == c
            }
            &&& !(msg is MouseMoveRel || msg is MouseMoveAbs || msg is Enter || msg is Leave || msg
                is MouseButton || msg is MouseWheel || msg is Key || msg is Clipboard || msg
                is Layout || msg is Control) ==> deeds.len() == 0 && after == c
        }),
{
}

/// Once the cursor was read back after an entry, control is on this
/// machine, the command stands where the cursor is, a measurement begins
/// there, and a beacon with the next number goes out at once. Numbers go
/// up by one and start over after the last.
pub proof fn anchoring_takes_control(c: ClientModel, seen: (i32, i32), now: u64)
    ensures
        ({
            let (after, deeds) = c.anchored(seen, now);
            &&& after.active
            &&& aims_at(after.course.aim, c.course.aim.bounds, seen.0 as int, seen.1 as int)
            &&& after.course.aim.active == c.course.aim.active
            &&& opened(c.course.measure, after.course.measure, seen, now)
            &&& deeds.len() == 1 && deeds[0] == Deed::Beacon { seq: c.beacon_seq }
            &&& c.beacon_seq < u32::MAX ==> after.beacon_seq == c.beacon_seq + 1
            &&& c.beacon_seq == u32::MAX ==> after.beacon_seq == 0
            &&& after == (ClientModel {
                active: true,
                course: Course {
                    aim: after.course.aim,
                    measure: after.course.measure,
                    ..c.course
                },
                beacon_seq: after.beacon_seq,
                ..c
            })
        }),
{
}

/// A datagram counts only when it is for this screen and newer than the
/// newest one so far. It is then the newest. Motion in it is taken only
/// while control is here; anything else in it does nothing.
pub proof fn a_datagram_counts_when_it_is_newer(
    c: ClientModel,
    id: u8,
    seq: u32,
    newer: bool,
    msg: Message,
    absolute: bool,
)
    ensures
        ({
            let (after, deeds) = c.received(id, seq, newer, msg, absolute);
            &&& id != c.own_id || !newer ==> after == c && deeds.len() == 0
            &&& id == c.own_id && newer && !(c.active && msg is MouseMoveRel) ==> deeds.len() == 0
                && after == (ClientModel { motion_seq: seq, ..c })
            &&& id == c.own_id && newer && c.active && msg is MouseMoveRel ==> {
                &&& deeds == c.dispatched(msg, absolute).1
                &&& after == (ClientModel { motion_seq: seq, ..c.dispatched(msg, absolute).0 })
            }
        }),
{
}

// ---------------------------------------------------------------------
// Ticks and windows
// ---------------------------------------------------------------------

/// How a tick moves the cursor. An absolute backend places it exactly on
/// the command, and does nothing where it already is there; a relative one
/// is told what is left to the command while it is followed.
pub proof fn a_tick_closes_in_on_the_command(c: Course, seen: (i32, i32), absolute: bool, p: Placement)
    requires
        c.places(seen, absolute, p),
        i32::MIN <= c.aim.x <= i32::MAX,
        i32::MIN <= c.aim.y <= i32::MAX,
    ensures
        absolute && (seen.0 != c.aim.x || seen.1 != c.aim.y) ==> {
            &&& p matches Placement::MoveTo { x, y }
            &&& x == c.aim.x && y == c.aim.y
        },
        absolute && seen.0 == c.aim.x && seen.1 == c.aim.y ==> p is Stay,
        !absolute && c.aim.active && (seen.0 != c.aim.x || seen.1 != c.aim.y) ==> {
            &&& p matches Placement::Correct { ex, ey }
            &&& seen.0 + ex == c.aim.x && seen.1 + ey == c.aim.y
        },
        !absolute && !(c.aim.active && (seen.0 != c.aim.x || seen.1 != c.aim.y)) ==> p is Stay,
        c.target() == (c.aim.x, c.aim.y),
{
}

/// A window counts as pinned when more than 60 px were commanded in it and
/// the cursor moved by fewer than 6. Six such windows in a row raise the
/// suspicion that something eats the motion; one other window clears it.
pub proof fn six_still_windows_raise_suspicion(c: Course, seen: (i32, i32), now: u64)
    ensures
        ({
            let dx = seen.0 - c.start.0;
            let dy = seen.1 - c.start.1;
            let travel = (if dx < 0 { -dx } else { dx }) + (if dy < 0 { -dy } else { dy });
            let still = c.commanded > 60 && travel < 6;
            let up = c.measure.interval == 0 || now >= c.measure.last + c.measure.interval;
            let after = c.probed(seen, now);
            &&& !up ==> after == c && !c.suspect(seen, now)
            &&& up ==> {
                &&& after.pins == if still { c.pins + 1 } else { 0 }
                &&& c.suspect(seen, now) <==> still && c.pins >= 5
                &&& after.frames == 0 && after.ticks == 0 && after.commanded == 0
                &&& after.start == seen
                &&& after.aim == c.aim
                &&& after.measure == c.measure.sampled(seen, now)
            }
        }),
{
}

/// The cursor is parked at an edge when it is in the first or last two
/// pixels of the screen's width or height.
pub proof fn parked_within_two_pixels(seen: (i32, i32), s: ScreenInfo)
    ensures
        at_edge(seen, s) <==> seen.0 < 2 || seen.1 < 2 || seen.0 + 2 >= s.width || seen.1 + 2
            >= s.height,
{
}

/// The alarm says how long the cursor has been pinned, a tenth of a second
/// per window.
pub proof fn the_alarm_tells_tenths_of_seconds(pins: int, frames: int)
    requires
        pins >= 0,
    ensures
        alarm_text(pins, frames) == "cursor pinned ~"@ + decimal_text((100 * pins) as nat)
            + " ms while "@ + decimal_text(frames as nat)
            + " frames/tick commanded motion — injected input is being eaten; releasing local input and restarting the session"@,
{
}

/// A tick hands out every event that waits, in the order of arrival, each
/// once, and is counted; nothing else changes.
pub proof fn a_tick_hands_out_what_waits(c: ClientModel)
    ensures
        ({
            let (after, out) = c.ticked();
            &&& out.len() == c.events.len()
            &&& forall|k: int| 0 <= k < out.len() ==> #[trigger] out[k] == c.events[k]
            &&& after.events.len() == 0
            &&& after.ticked().1.len() == 0
            &&& after.course.ticks == c.course.ticks + 1
            &&& after == (ClientModel {
                events: after.events,
                course: Course { ticks: after.course.ticks, ..c.course },
                ..c
            })
        }),
{
}

/// Before an event whose place matters the cursor is moved to the command,
/// by at most 64 px each way, toward it and never past it. Nothing is moved
/// where the cursor is on the command already, or is not followed.
pub proof fn a_flush_goes_toward_the_command(aim: Aim, seen: (i32, i32))
    ensures
        aim.flushed(seen) is Some <==> aim.active && (aim.x != seen.0 || aim.y != seen.1),
        aim.flushed(seen) matches Some((dx, dy)) ==> {
            let (ex, ey) = (aim.x - seen.0, aim.y - seen.1);
            &&& -64 <= ex <= 64 ==> seen.0 + dx == aim.x
            &&& ex > 64 ==> dx == 64
            &&& ex < -64 ==> dx == -64
            &&& -64 <= ey <= 64 ==> seen.1 + dy == aim.y
            &&& ey > 64 ==> dy == 64
            &&& ey < -64 ==> dy == -64
        },
{
}

// ---------------------------------------------------------------------
// Measurements
// ---------------------------------------------------------------------

/// `m` is a measurement that began at `seen`, at `now`, with nothing
/// requested yet.
pub open spec fn opened(before: Measure, m: Measure, seen: (i32, i32), now: u64) -> bool {
    &&& m.active
    &&& m.anchor == seen && m.seen == seen
    &&& m.exp.0 == 0 && m.exp.1 == 0 && m.req.0 == 0 && m.req.1 == 0
    &&& m.last == now
    &&& m.interval == before.interval
}

/// A sample closes the window once the interval has passed, and not before:
/// the next window starts where and when it was taken, with nothing
/// requested. It is worth a report when the window had motion, asked for or
/// real. What was requested since the beginning is never touched.
pub proof fn a_sample_closes_the_window(m: Measure, seen: (i32, i32), now: u64)
    ensures
        ({
            let up = m.interval == 0 || now >= m.last + m.interval;
            let t = m.sampled(seen, now);
            let still = m.req.0 == 0 && m.req.1 == 0 && seen.0 == m.seen.0 && seen.1 == m.seen.1;
            &&& m.elapsed(now) <==> up
            &&& m.observes(seen, now) <==> m.active && up && !still
            &&& m.active && !up ==> t == m
            &&& !m.active || up ==> t.active && t.seen == seen && t.last == now && t.req.0 == 0
                && t.req.1 == 0
            &&& t.anchor == if m.active { m.anchor } else { seen }
            &&& t.exp == m.exp && t.interval == m.interval
            &&& opened(m, m.entered(seen, now), seen, now)
        }),
{
}

/// A request is counted on both axes, in the window and since the
/// beginning. A report of a window tells what was requested in it, how far
/// the cursor went and where it is.
pub proof fn a_report_tells_request_and_travel(
    m: Measure,
    dx: int,
    dy: int,
    seen: (i32, i32),
    o: Observation,
)
    ensures
        ({
            let t = m.asked(dx, dy);
            &&& t.req.0 - m.req.0 == dx && t.req.1 - m.req.1 == dy
            &&& t.exp.0 - m.exp.0 == dx && t.exp.1 - m.exp.1 == dy
            &&& t == (Measure { req: t.req, exp: t.exp, ..m })
        }),
        m.observed(seen, o) ==> {
            &&& o.req_dx == m.req.0 && o.req_dy == m.req.1
            &&& m.seen.0 + o.act_dx == seen.0 && m.seen.1 + o.act_dy == seen.1
            &&& o.exp_x == m.exp.0 && o.exp_y == m.exp.1
            &&& o.real_x == seen.0 && o.real_y == seen.1
        },
{
}

/// The pairs of a trace line, in order: what was requested in the window,
/// how far the cursor went, what is left between it and the command, and
/// where it is; then the motion frames and the ticks of the window.
pub proof fn a_trace_line_tells_the_window(
    c: Course,
    seen: (i32, i32),
    went: (int, int),
    left: (int, int),
)
    requires
        c.measure.seen.0 + went.0 == seen.0,
        c.measure.seen.1 + went.1 == seen.1,
        seen.0 + left.0 == c.aim.x,
        seen.1 + left.1 == c.aim.y,
        -0x8000_0000 <= left.0 <= 0x7fff_ffff,
        -0x8000_0000 <= left.1 <= 0x7fff_ffff,
    ensures
        c.trace(seen) == "motion req=("@ + signed_text(c.measure.req.0) + ","@ + signed_text(
            c.measure.req.1,
        ) + ") act=("@ + signed_text(went.0) + ","@ + signed_text(went.1) + ") err=("@
            + signed_text(left.0) + ","@ + signed_text(left.1) + ") real=("@ + signed_text(
            seen.0 as int,
        ) + ","@ + signed_text(seen.1 as int) + ") frames="@ + decimal_text(c.frames as nat)
            + " ticks="@ + decimal_text(c.ticks as nat),
{
}

/// A client starts without a command, on a screen of unknown size, with
/// nothing counted and windows of a tenth of a second.
pub proof fn a_course_starts_at_rest(c: Course)
    requires
        c == Course::fresh(),
    ensures
        !c.aim.active && c.aim.x == 0 && c.aim.y == 0 && c.aim.bounds is None,
        !c.measure.active && c.measure.interval == 100_000_000,
        c.measure.last == 0 && c.measure.anchor == (0i32, 0i32) && c.measure.seen == (0i32, 0i32),
        c.measure.exp == (0int, 0int) && c.measure.req == (0int, 0int),
        c.frames == 0 && c.ticks == 0 && c.commanded == 0 && c.pins == 0,
        c.start == (0i32, 0i32),
{
}

/// Counts add up until a report closes the window; the next one starts from
/// there with none, and a window that was measured is counted.
pub proof fn counts_start_over_with_each_report(t: Tally, dx: int, dy: int, x: i32, y: i32)
    ensures
        ({
            let u = t.counted(dx, dy);
            u.rel.0 - t.rel.0 == dx && u.rel.1 - t.rel.1 == dy && u.last == t.last && u.samples
                == t.samples
        }),
        ({
            let u = t.closed_at(x, y);
            &&& u.last == Some((x, y))
            &&& u.rel.0 == 0 && u.rel.1 == 0
            &&& t.measures(x as int, y as int) ==> u.samples == t.samples + 1
            &&& !t.measures(x as int, y as int) ==> u.samples == t.samples
        }),
{
}

/// A window of the gain measurement counts when it holds at least 12 counts
/// and 4 px of travel, and no more than 4 px per count: less is idle, more
/// is a jump. Counts and travel add up both axes. The first report only
/// starts a window.
pub proof fn a_window_is_measured_when_it_is_motion(t: Tally, x: int, y: int)
    ensures
        ({
            let rel = (if t.rel.0 < 0 { -t.rel.0 } else { t.rel.0 }) + (if t.rel.1 < 0 {
                -t.rel.1
            } else {
                t.rel.1
            });
            &&& t.counts() == rel
            &&& t.last is None ==> !t.measures(x, y)
            &&& t.last matches Some((px, py)) ==> {
                let (dx, dy) = (x - px, y - py);
                let seen = (if dx < 0 { -dx } else { dx }) + (if dy < 0 { -dy } else { dy });
                &&& t.travel(x, y) == seen
                &&& t.measures(x, y) <==> rel >= 12 && 4 <= seen <= 4 * rel
            }
        }),
{
}

// ---------------------------------------------------------------------
// The process
// ---------------------------------------------------------------------

/// A round is due once the interval has passed since the last one.
pub proof fn a_round_is_due_after_the_interval(c: Cadence, now: u64)
    ensures
        c.due(now) <==> c.interval == 0 || now >= c.last + c.interval,
{
}

/// A loop rests for what is left of its period, and not at all once the
/// period is over. A controlled machine's motion loop is stalled after three
/// seconds of silence; a machine that is not controlled never is.
pub proof fn how_loops_keep_time(period: u64, spent: u64, active: bool, tick: u64, now: u64)
    ensures
        spent <= period ==> spent + rested(period, spent) == period,
        spent > period ==> rested(period, spent) == 0,
        stalled(active, tick, now) <==> active && now > tick + 3000,
{
}

/// What ends a session before its next read, the gravest first: a request
/// to stop, a wake from sleep, a protected desktop.
pub proof fn what_ends_a_session(stopped: bool, resumed: bool, secure: bool)
    ensures
        end_reason(stopped, resumed, secure) is None <==> !stopped && !resumed && !secure,
        stopped ==> end_reason(stopped, resumed, secure) == Some(EndReason::Stopped),
        !stopped && resumed ==> end_reason(stopped, resumed, secure) == Some(EndReason::Resumed),
        !stopped && !resumed && secure ==> end_reason(stopped, resumed, secure) == Some(
            EndReason::SecureDesktop,
        ),
{
}

/// A message is dispatched, a closed link ends the loop, and in a quiet
/// moment the outboxes are emptied, with a keepalive where its interval has
/// passed, from when the next interval counts.
pub proof fn what_a_read_leads_to(event: ReadEvent, c: Cadence, now: u64)
    ensures
        ({
            let (step, after) = step_after(event, c, now);
            let due = c.interval == 0 || now >= c.last + c.interval;
            &&& event is Arrived ==> step is Dispatch && after == c
            &&& event is Ended ==> step is Close && after == c
            &&& event is Quiet ==> {
                &&& step matches LinkStep::Flush { keepalive }
                &&& keepalive <==> due
                &&& after.interval == c.interval
                &&& after.last == if due {
                    now
                } else {
                    c.last
                }
            }
        }),
{
}

/// A client is welcome where the server speaks exactly its version and is
/// not one that it must refuse; the version is looked at first. It then has
/// the id, the layout and the server's id that the welcome carries. A
/// server's error is passed on as it is, and any other answer, or none, is
/// unexpected.
pub proof fn what_an_answer_means(first: Option<Message>, version: u16, policy: Policy)
    ensures
        ({
            let out = answered(first, version, policy);
            &&& first matches Some(
                Message::Welcome { server_version, server_id, layout, own_screen_id },
            ) ==> {
                let refused = barred(policy.revoked_ids@, server_id@);
                &&& out is Ok <==> server_version == version && !refused
                &&& out matches Ok(w) ==> w.own_id == own_screen_id && w.server_id == server_id
                    && w.layout == layout
                &&& server_version != version ==> out == Err::<Welcomed, ConnectError>(
                    ConnectError::Version { server: server_version, client: version },
                )
                &&& server_version == version && refused ==> out == Err::<Welcomed, ConnectError>(
                    ConnectError::Revoked { server_id },
                )
            }
            &&& first matches Some(Message::Error { code, text }) ==> out == Err::<
                Welcomed,
                ConnectError,
            >(ConnectError::Rejected { code, text })
            &&& !(first is Some && (first->0 is Welcome || first->0 is Error)) ==> out == Err::<
                Welcomed,
                ConnectError,
            >(ConnectError::Unexpected)
        }),
{
}

/// A refusal by either side's policy is final: by the server's, with its
/// words, where it says revoked, not local or not allowed; by the client's
/// own, which names the server. Every other failure is worth another
/// attempt.
pub proof fn which_refusals_are_final(e: ConnectError, answer: Option<ErrorCode>, o: Outcome)
    requires
        e.ends_in(answer, o),
    ensures
        ({
            let policy = answer is Some && (answer->0 is Revoked || answer->0 is NotLocal
                || answer->0 is NotAllowed);
            &&& e matches ConnectError::Rejected { text, .. } ==> if policy {
                o == Outcome::Refused { reason: text }
            } else {
                o is ConnectFailed
            }
            &&& e matches ConnectError::Revoked { server_id } ==> {
                &&& o matches Outcome::Refused { reason }
                &&& reason@ == "server "@ + server_id@ + " is revoked on this machine"@
            }
            &&& e is Version || e is Unexpected ==> o is ConnectFailed
        }),
{
}

/// What a round of the connection loop leads to. A refusal and a requested
/// disconnect stop the client, a requested reconnect comes at once, and
/// everything else waits before it tries again.
pub proof fn what_a_round_leads_to(r: Retry, o: Outcome)
    ensures
        ({
            let n = r.next(o);
            let asked_back = o == Outcome::Ended(SessionEnd::Reconnect);
            let asked_out = o == Outcome::Ended(SessionEnd::Disconnected);
            &&& n.stop <==> o is Refused || asked_out
            &&& n.wait <==> !n.stop && !asked_back
            &&& o matches Outcome::Refused { reason } ==> n.status == Some(Status::Refused { reason })
            &&& asked_out ==> n.status == Some(Status::Stopped)
            &&& o is ConnectFailed || o is Failed || o == Outcome::Ended(SessionEnd::LinkClosed)
                ==> n.status == Some(Status::Disconnected)
            &&& o is SecureDesktop || o is NoPlatform || asked_back ==> n.status is None
        }),
{
}

/// What is said, and when: a refusal and a session that failed always, a
/// protected desktop once in a row, a failed attempt once until a session
/// has come about, and a session that ended in good order never.
pub proof fn what_is_said_of_a_round(r: Retry, o: Outcome)
    ensures
        o is Refused || o is Failed ==> r.next(o).warn,
        o is Ended ==> !r.next(o).warn,
        o is SecureDesktop ==> (r.next(o).warn <==> !r.prompt_warned),
        o is NoPlatform || o is ConnectFailed ==> (r.next(o).warn <==> !r.warned),
        r.said(o).prompt_warned <==> o is SecureDesktop,
        o is NoPlatform || o is ConnectFailed ==> r.said(o).warned,
        o is Ended || o is Failed ==> !r.said(o).warned,
        o is SecureDesktop || o is Refused ==> r.said(o).warned == r.warned,
{
}

/// What a reader of the state file finds, line by line, for each status.
pub proof fn what_the_state_file_says(s: Status, server: Seq<char>)
    requires
        unbroken(server),
        s matches Status::Connected { server_id } ==> unbroken(server_id@),
    ensures
        ({
            let lines = lines_text(status_text(s, server));
            let at = "server="@ + server;
            &&& s is Connecting ==> lines == seq!["status="@ + "connecting"@, at]
            &&& s is Disconnected ==> lines == seq!["status="@ + "disconnected"@, at]
            &&& s is Stopped ==> lines == seq!["status="@ + "disconnected"@, at, "stopped=1"@]
            &&& s matches Status::Connected { server_id } ==> {
                &&& server_id@.len() == 0 ==> lines == seq!["status="@ + "connected"@, at]
                &&& server_id@.len() > 0 ==> lines == seq![
                    "status="@ + "connected"@,
                    at,
                    "server_id="@ + server_id@,
                ]
            }
            &&& s matches Status::Refused { reason } ==> lines == seq![
                "status=refused"@,
                at,
                "reason="@ + one_line(reason@),
            ]
        }),
{
    reveal_strlit("connecting");
    reveal_strlit("connected");
    reveal_strlit("disconnected");
    let none = Seq::<char>::empty();
    match s {
        Status::Connecting => {
            state_reads_back("connecting"@, server, none, false);
        },
        Status::Connected { server_id } => {
            state_reads_back("connected"@, server, server_id@, false);
        },
        Status::Disconnected => {
            state_reads_back("disconnected"@, server, none, false);
        },
        Status::Stopped => {
            state_reads_back("disconnected"@, server, none, true);
        },
        Status::Refused { reason } => {
            refusal_is_three_lines(server, reason@);
        },
    }
}

} // verus!
