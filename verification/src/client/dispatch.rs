//! What a server's messages and datagrams do to a client.
use vstd::prelude::*;
use vstd::string::*;

use crate::client::events::{queued, EventQueue, InjectEvent};
use crate::client::steering::{
    alarm_text, Course, Placement, ProbeReport, Steering, PIN_WINDOWS_TO_TRIP,
};
use crate::layout::Layout;
use crate::motion::follower::Aim;
use crate::protocol::{Command, Message, Screen, ScreenInfo};
use crate::server::link::next_seq;

verus! {

/// How a session ended.
#[derive(Debug, Clone, Copy, PartialEq, Eq, Structural)]
pub enum SessionEnd {
    /// The server told the client to disconnect: it stays stopped.
    Disconnected,
    /// The server asked for a fresh connection.
    Reconnect,
    /// The link closed.
    LinkClosed,
}

/// Something the caller must do to the local machine, in the order given.
#[derive(Debug, PartialEq)]
pub enum Deed {
    /// Tell the injector that control entered.
    Enter,
    /// Tell the injector that control left.
    Leave,
    /// Place the cursor.
    MoveCursor { x: i32, y: i32 },
    /// Inject the immediate part of a frame (relative backends).
    Feed { dx: i32, dy: i32 },
    /// Read the real cursor position and hand it to
    /// [`ClientState::on_anchored`].
    Anchor,
    /// Read the real cursor position again and send it as a beacon.
    Beacon { seq: u32 },
    /// Put content into the local clipboard.
    SetClipboard { mime: String, data: Vec<u8> },
    /// End the session.
    End(SessionEnd),
}

/// What a client knows.
pub struct ClientModel {
    /// The id this machine has in the server's layout.
    pub own_id: u8,
    /// The layout as last sent by the server.
    pub layout: Seq<Screen>,
    /// Control is on this machine.
    pub active: bool,
    /// The steering state.
    pub course: Course,
    /// Events for the motion loop.
    pub events: Seq<InjectEvent>,
    /// The number of the newest motion datagram.
    pub motion_seq: u32,
    /// The number of the next beacon.
    pub beacon_seq: u32,
}

/// How a session ends on a server's command.
pub open spec fn ends(command: Command) -> SessionEnd {
    match command {
        Command::Disconnect => SessionEnd::Disconnected,
        Command::Reconnect => SessionEnd::Reconnect,
        Command::Restart => SessionEnd::Reconnect,
    }
}

impl ClientModel {
    /// The message can be taken in machine integers.
    pub open spec fn can_take(self, msg: Message) -> bool {
        msg matches Message::MouseMoveRel { dx, dy } ==> self.course.can_take(dx, dy)
    }

    /// A motion frame, on a backend that places the cursor absolutely or
    /// not.
    pub open spec fn moved(self, dx: i32, dy: i32, absolute: bool) -> (ClientModel, Seq<Deed>) {
        (
            ClientModel { course: self.course.framed(dx as int, dy as int), ..self },
            if absolute {
                Seq::empty()
            } else {
                seq![Deed::Feed { dx, dy }]
            },
        )
    }

    /// The client after one server message, and what is to be done.
    pub open spec fn dispatched(self, msg: Message, absolute: bool) -> (ClientModel, Seq<Deed>) {
        match msg {
            Message::MouseMoveRel { dx, dy } => self.moved(dx, dy, absolute),
            Message::MouseMoveAbs { x, y } => (
                ClientModel {
                    course: Course {
                        aim: self.course.aim.placed(x as int, y as int),
                        ..self.course
                    },
                    ..self
                },
                seq![Deed::MoveCursor { x, y }],
            ),
            Message::Enter { x, y, .. } => (
                ClientModel {
                    course: Course {
                        aim: (Aim { active: true, ..self.course.aim }).placed(x as int, y as int),
                        ..self.course
                    },
                    ..self
                },
                seq![Deed::Enter, Deed::MoveCursor { x, y }, Deed::Anchor],
            ),
            Message::Leave { .. } => (
                ClientModel { active: false, course: self.course.left(), ..self },
                seq![Deed::Leave],
            ),
            Message::MouseButton { button, pressed } => (
                self.with_event(InjectEvent::Button { button, pressed }),
                Seq::empty(),
            ),
            Message::MouseWheel { dx, dy } => (
                self.with_event(InjectEvent::Wheel { dx, dy }),
                Seq::empty(),
            ),
            Message::Key { kind, key } => (
                self.with_event(InjectEvent::Key { kind, key }),
                Seq::empty(),
            ),
            Message::Clipboard { mime, data } => (self, seq![Deed::SetClipboard { mime, data }]),
            Message::Layout { layout } => (ClientModel { layout: layout@, ..self }, Seq::empty()),
            Message::Control { command } => (self, seq![Deed::End(ends(command))]),
            _ => (self, Seq::empty()),
        }
    }

    /// One more event for the motion loop.
    pub open spec fn with_event(self, e: InjectEvent) -> ClientModel {
        ClientModel { events: queued(self.events, e), ..self }
    }

    /// The cursor was placed for an entry and really is at `seen`: control
    /// is on this machine from here on, and the server is told at once.
    pub open spec fn anchored(self, seen: (i32, i32), now: u64) -> (ClientModel, Seq<Deed>) {
        (
            ClientModel {
                active: true,
                course: self.course.anchored(seen, now),
                beacon_seq: next_seq(self.beacon_seq),
                ..self
            },
            seq![Deed::Beacon { seq: self.beacon_seq }],
        )
    }

    /// The client after a tick of the motion loop, and the events that the
    /// tick hands out.
    pub open spec fn ticked(self) -> (ClientModel, Seq<InjectEvent>) {
        (
            ClientModel {
                course: Course { ticks: self.course.ticks + 1, ..self.course },
                events: Seq::empty(),
                ..self
            },
            self.events,
        )
    }

    /// The client after a datagram for screen `id` with number `seq`.
    /// `newer` says whether that number is newer than the newest seen. A
    /// datagram for another screen or an old one is dropped, and so is
    /// motion while control is elsewhere: it can overtake the message that
    /// brings control here.
    pub open spec fn received(
        self,
        id: u8,
        seq: u32,
        newer: bool,
        msg: Message,
        absolute: bool,
    ) -> (ClientModel, Seq<Deed>) {
        if id != self.own_id || !newer {
            (self, Seq::empty())
        } else {
            let c = ClientModel { motion_seq: seq, ..self };
            match msg {
                Message::MouseMoveRel { dx, dy } if self.active => c.moved(dx, dy, absolute),
                _ => (c, Seq::empty()),
            }
        }
    }
}

/// The state of a connected client.
#[derive(Debug)]
pub struct ClientState {
    own_id: u8,
    layout: Layout,
    active: bool,
    steering: Steering,
    events: EventQueue,
    motion_seq: u32,
    beacon_seq: u32,
}

impl View for ClientState {
    type V = ClientModel;

    closed spec fn view(&self) -> ClientModel {
        ClientModel {
            own_id: self.own_id,
            layout: self.layout@,
            active: self.active,
            course: self.steering@,
            events: self.events@,
            motion_seq: self.motion_seq,
            beacon_seq: self.beacon_seq,
        }
    }
}

fn one(d: Deed) -> (r: Vec<Deed>)
    ensures
        r@ == seq![d],
{
    let mut r: Vec<Deed> = Vec::new();
    r.push(d);
    assert(r@ =~= seq![d]);
    r
}

impl ClientState {
    /// The command is in range and the queue within its cap.
    pub closed spec fn wf(self) -> bool {
        self.steering.wf() && self.events.wf()
    }

    /// The state of a client that was just welcomed. Its registration
    /// datagram has number 0, so beacons start at 1.
    pub fn new(own_id: u8, layout: Layout) -> (r: Self)
        ensures
            r.wf(),
            r@ == (ClientModel {
                own_id,
                layout: layout@,
                active: false,
                course: Course::fresh(),
                events: Seq::empty(),
                motion_seq: 0,
                beacon_seq: 1,
            }),
    {
        ClientState {
            own_id,
            layout,
            active: false,
            steering: Steering::new(),
            events: EventQueue::new(),
            motion_seq: 0,
            beacon_seq: 1,
        }
    }

    /// The id this machine has in the server's layout.
    pub fn own_id(&self) -> (r: u8)
        ensures
            r == self@.own_id,
    {
        self.own_id
    }

    /// The layout as last sent by the server.
    pub fn layout(&self) -> (r: &Layout)
        ensures
            r@ == self@.layout,
    {
        &self.layout
    }

    /// Is control on this machine?
    pub fn is_active(&self) -> (r: bool)
        ensures
            r == self@.active,
    {
        self.active
    }

    /// The number of the newest motion datagram.
    pub fn motion_seq(&self) -> (r: u32)
        ensures
            r == self@.motion_seq,
    {
        self.motion_seq
    }

    /// Can the message be taken in machine integers?
    pub fn takes(&self, msg: &Message) -> (r: bool)
        requires
            self.wf(),
        ensures
            r == self@.can_take(*msg),
    {
        match msg {
            Message::MouseMoveRel { dx, dy } => self.steering.takes(*dx, *dy),
            _ => true,
        }
    }

    fn frame(&mut self, dx: i32, dy: i32, absolute: bool) -> (r: Vec<Deed>)
        requires
            old(self).wf(),
            old(self)@.course.can_take(dx, dy),
        ensures
            final(self).wf(),
            final(self)@ == old(self)@.moved(dx, dy, absolute).0,
            r@ == old(self)@.moved(dx, dy, absolute).1,
    {
        self.steering.apply_motion_frame(dx, dy);
        if absolute {
            Vec::new()
        } else {
            one(Deed::Feed { dx, dy })
        }
    }

    /// Apply one server message to the local machine. Control flips on
    /// entry and exit; buttons, keys and wheel are queued for the motion
    /// loop, so that the cursor sits on the command before they fire; the
    /// rest is passed on. Messages that only a server receives are ignored.
    pub fn dispatch(&mut self, msg: Message, absolute: bool) -> (r: Vec<Deed>)
        requires
            old(self).wf(),
            old(self)@.can_take(msg),
        ensures
            final(self).wf(),
            final(self)@ == old(self)@.dispatched(msg, absolute).0,
            r@ == old(self)@.dispatched(msg, absolute).1,
    {
        match msg {
            Message::MouseMoveRel { dx, dy } => self.frame(dx, dy, absolute),
            Message::MouseMoveAbs { x, y } => {
                self.steering.reanchor(x, y);
                one(Deed::MoveCursor { x, y })
            },
            Message::Enter { x, y, .. } => {
                self.steering.enter(x, y);
                let mut r: Vec<Deed> = Vec::new();
                r.push(Deed::Enter);
                r.push(Deed::MoveCursor { x, y });
                r.push(Deed::Anchor);
                assert(r@ =~= seq![Deed::Enter, Deed::MoveCursor { x, y }, Deed::Anchor]);
                r
            },
            Message::Leave { .. } => {
                self.active = false;
                self.steering.leave();
                one(Deed::Leave)
            },
            Message::MouseButton { button, pressed } => {
                self.events.enqueue_event(InjectEvent::Button { button, pressed });
                Vec::new()
            },
            Message::MouseWheel { dx, dy } => {
                self.events.enqueue_event(InjectEvent::Wheel { dx, dy });
                Vec::new()
            },
            Message::Key { kind, key } => {
                self.events.enqueue_event(InjectEvent::Key { kind, key });
                Vec::new()
            },
            Message::Clipboard { mime, data } => one(Deed::SetClipboard { mime, data }),
            Message::Layout { layout } => {
                self.layout = layout;
                Vec::new()
            },
            Message::Control { command } => {
                let end: SessionEnd = match command {
                    Command::Disconnect => SessionEnd::Disconnected,
                    Command::Reconnect => SessionEnd::Reconnect,
                    Command::Restart => SessionEnd::Reconnect,
                };
                one(Deed::End(end))
            },
            _ => Vec::new(),
        }
    }

    /// The cursor was placed for an entry and really is at `seen`, `now`
    /// nanoseconds on the probe's clock.
    pub fn on_anchored_at(&mut self, seen: (i32, i32), now: u64) -> (r: Vec<Deed>)
        requires
            old(self).wf(),
        ensures
            final(self).wf(),
            final(self)@ == old(self)@.anchored(seen, now).0,
            r@ == old(self)@.anchored(seen, now).1,
    {
        self.steering.anchor_at(seen, now);
        self.active = true;
        let seq: u32 = self.next_beacon();
        one(Deed::Beacon { seq })
    }

    /// The cursor was placed for an entry and really is at `seen`. Control
    /// is on this machine only from here on: nothing may steer toward a
    /// stale command.
    pub fn on_anchored(&mut self, seen: (i32, i32)) -> (r: Vec<Deed>)
        requires
            old(self).wf(),
        ensures
            final(self).wf(),
            exists|now: u64| final(self)@ == (#[trigger] old(self)@.anchored(seen, now)).0,
            r@ == seq![Deed::Beacon { seq: old(self)@.beacon_seq }],
    {
        let ghost before = self@;
        let ghost course = self.steering@;
        self.steering.anchor(seen);
        self.active = true;
        let seq: u32 = self.next_beacon();
        proof {
            let now = choose|now: u64| self.steering@ == #[trigger] course.anchored(seen, now);
            assert(self@ == before.anchored(seen, now).0);
        }
        one(Deed::Beacon { seq })
    }

    /// The number of the next beacon.
    pub fn next_beacon(&mut self) -> (seq: u32)
        ensures
            old(self).wf() ==> final(self).wf(),
            seq == old(self)@.beacon_seq,
            final(self)@ == (ClientModel {
                beacon_seq: next_seq(old(self)@.beacon_seq),
                ..old(self)@
            }),
    {
        let seq: u32 = self.beacon_seq;
        self.beacon_seq = if seq == u32::MAX {
            0
        } else {
            seq + 1
        };
        seq
    }

    /// A datagram arrived on the cursor stream.
    pub fn on_datagram(&mut self, id: u8, seq: u32, newer: bool, msg: Message, absolute: bool) -> (r:
        Vec<Deed>)
        requires
            old(self).wf(),
            id == old(self)@.own_id && newer && old(self)@.active ==> old(self)@.can_take(msg),
        ensures
            final(self).wf(),
            final(self)@ == old(self)@.received(id, seq, newer, msg, absolute).0,
            r@ == old(self)@.received(id, seq, newer, msg, absolute).1,
    {
        if id != self.own_id || !newer {
            return Vec::new();
        }
        self.motion_seq = seq;
        match msg {
            Message::MouseMoveRel { dx, dy } => {
                if self.active {
                    self.frame(dx, dy, absolute)
                } else {
                    Vec::new()
                }
            },
            _ => Vec::new(),
        }
    }

    /// Can another tick of the motion loop be counted?
    pub fn can_tick(&self) -> (r: bool)
        ensures
            r == (self@.course.ticks < u32::MAX && self@.course.pins < u32::MAX),
    {
        self.steering.ticks_on() && self.steering.pins_on()
    }

    /// One tick of the motion loop with the cursor at `seen`: first the
    /// cursor is placed, then the queued events are executed, in order.
    pub fn tick(&mut self, seen: (i32, i32), absolute: bool) -> (r: (Placement, Vec<InjectEvent>))
        requires
            old(self).wf(),
            old(self)@.course.ticks < u32::MAX,
        ensures
            final(self).wf(),
            final(self)@ == (ClientModel {
                course: Course { ticks: old(self)@.course.ticks + 1, ..old(self)@.course },
                events: Seq::empty(),
                ..old(self)@
            }),
            r.1@ == old(self)@.events,
            (final(self)@, r.1@) == old(self)@.ticked(),
            old(self)@.course.places(seen, absolute, r.0),
    {
        let p: Placement = self.steering.tick(seen, absolute);
        let events: Vec<InjectEvent> = self.events.drain_events();
        (p, events)
    }

    /// Close the telemetry window if its time is up. See
    /// [`Steering::probe_window`].
    pub fn probe_window<F: FnOnce() -> ScreenInfo>(&mut self, seen: (i32, i32), screen: F) -> (r:
        ProbeReport)
        requires
            old(self).wf(),
            old(self)@.course.pins < u32::MAX,
            old(self)@.course.pins_at(seen) >= PIN_WINDOWS_TO_TRIP ==> call_requires(screen, ()),
        ensures
            final(self).wf(),
            exists|now: u64|
                {
                    &&& final(self)@ == (ClientModel {
                        course: #[trigger] old(self)@.course.probed(seen, now),
                        ..old(self)@
                    })
                    &&& old(self)@.course.suspect(seen, now) ==> exists|s: ScreenInfo| #[trigger]
                        call_ensures(screen, (), s) && r.pinned == !crate::client::steering::at_edge(
                            seen,
                            s,
                        )
                    &&& !old(self)@.course.suspect(seen, now) ==> !r.pinned
                    &&& r.trace is Some <==> old(self)@.course.measure.observes(seen, now)
                },
            r.trace matches Some(line) ==> line@ == old(self)@.course.trace(seen),
            r.alarm is Some <==> r.pinned,
            r.alarm matches Some(line) ==> line@ == alarm_text(
                old(self)@.course.pins_at(seen),
                old(self)@.course.frames,
            ),
    {
        self.steering.probe_window(seen, screen)
    }

    /// Where the cursor is placed once more when the session ends.
    pub fn last_placement(&self, absolute: bool) -> (r: Placement)
        requires
            self.wf(),
        ensures
            absolute ==> (r matches Placement::MoveTo { x, y } && (x as int, y as int)
                == self@.course.target()),
            !absolute ==> r is Stay,
    {
        self.steering.last_placement(absolute)
    }
}

// ---------------------------------------------------------------------
// Laws
// ---------------------------------------------------------------------

/// A stale duplicate, or a datagram for another screen, changes nothing.
pub proof fn stale_datagram_changes_nothing(
    c: ClientModel,
    id: u8,
    seq: u32,
    newer: bool,
    msg: Message,
    absolute: bool,
)
    requires
        id != c.own_id || !newer,
    ensures
        c.received(id, seq, newer, msg, absolute) == (c, Seq::<Deed>::empty()),
{
}

/// While control is elsewhere, no datagram moves the cursor or the
/// command.
pub proof fn motion_outside_control_is_dropped(
    c: ClientModel,
    id: u8,
    seq: u32,
    newer: bool,
    msg: Message,
    absolute: bool,
)
    requires
        !c.active,
    ensures
        c.received(id, seq, newer, msg, absolute).0.course == c.course,
        c.received(id, seq, newer, msg, absolute).1 == Seq::<Deed>::empty(),
{
}

/// Nothing is injected per frame on an absolute backend: frames only
/// advance the command, and the tick places the cursor there.
pub proof fn absolute_backends_move_on_the_tick(c: ClientModel, dx: i32, dy: i32)
    ensures
        c.dispatched(Message::MouseMoveRel { dx, dy }, true).1 == Seq::<Deed>::empty(),
{
}

/// Control is gained only once the cursor is anchored: no message turns
/// it on by itself, and after an entry the command stands where the cursor
/// really is.
pub proof fn control_follows_the_cursor(
    c: ClientModel,
    msg: Message,
    absolute: bool,
    seen: (i32, i32),
    now: u64,
)
    ensures
        c.dispatched(msg, absolute).0.active ==> c.active,
        c.anchored(seen, now).0.active,
        c.course.aim.bounds is None ==> {
            &&& c.anchored(seen, now).0.course.aim.x == seen.0
            &&& c.anchored(seen, now).0.course.aim.y == seen.1
        },
{
}

/// Injection never happens on the control loop: a button, key or wheel
/// message asks for nothing right away.
pub proof fn events_wait_for_the_motion_loop(c: ClientModel, msg: Message, absolute: bool)
    requires
        msg is MouseButton || msg is MouseWheel || msg is Key,
    ensures
        c.dispatched(msg, absolute).1 == Seq::<Deed>::empty(),
        c.dispatched(msg, absolute).0.course == c.course,
{
}

} // verus!
