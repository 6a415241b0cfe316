//! The session: one cursor, one layout, and the rules for moving between
//! screens.
//!
//! The session is pure logic. It owns the *virtual* cursor position and
//! answers "what should happen next?" by returning [`Action`]s. The caller
//! executes the actions.
//!
//! ## The boundary model
//!
//! A screen edge is a **wall**: the OS pins a real cursor there. Two
//! cursor streams feed the session: raw deltas, which run ahead of the
//! visible cursor, and real-position beacons, which are the ground truth.
//! A crossing needs **both, together**:
//!
//! 1. **Arm**: a beacon places the real cursor at the wall.
//! 2. **Fire**: an outward push while armed, or a push so recent that the
//!    beacon that parks the cursor completes it.
//!
//! The one fallback is for a **stalled beacon stream**: sustained outward
//! pushing with the *virtual* cursor outside the screen crosses anyway.
use vstd::prelude::*;
use vstd::string::*;

use crate::clock::{age, elapsed, Clock};
use crate::layout::{
    clamped, exit_side, find_screen, first_where, imax, imin, is_first, lookup_is_complete,
    neighbor_is_the_nearest_screen, neighbor_of, search_is_complete, Direction, Layout,
};
use crate::protocol::{half, Message, Rect, Screen, ScreenInfo};
use crate::text::same;
use crate::walls::{armed, disarmed, mask_is_empty, newly_set, touched, wall_bits, walls};
use crate::Mode;

pub mod commands;
pub mod newcomer;

verus! {

/// How recent (ns) an outward push must be for a beacon that *parks* the
/// real cursor on a wall to complete the crossing on the park itself.
pub const EDGE_PUSH_FRESH: u64 = 40_000_000;

/// How long (ns) outward deltas must keep pushing against a screen edge,
/// with the virtual cursor outside the rect and no beacon correcting it,
/// before the switch fires anyway.
pub const EDGE_PUSH_FALLBACK: u64 = 150_000_000;

/// How far past a shared edge the cursor is placed on entry (px), so that
/// the destination's first beacon never reports a park at the entry wall.
pub const ENTRY_INSET: i32 = 48;

/// How old (ns) a client cursor-position beacon may be and still be
/// treated as the real cursor's location.
pub const REMOTE_BEACON_FRESH: u64 = 120_000_000;

/// Something the caller must do in response to an input event.
#[derive(Debug, Clone, PartialEq)]
pub enum Action {
    /// Send this message to the active client.
    Send(Message),
    /// Switch the cursor to client `to`, entering at its local coords
    /// `(x, y)`.
    SwitchTo { to: u8, x: i32, y: i32 },
    /// Switch back to the local screen, entering at its local coords.
    SwitchToLocal { x: i32, y: i32 },
    /// Nothing to do.
    Nothing,
}

/// The cursor model: a virtual position and the screen that has control.
#[derive(Debug, Clone, Copy, PartialEq, Eq, Structural)]
pub struct Cursor {
    pub x: i32,
    pub y: i32,
    pub mode: Mode,
}

/// One outward push: which edge it pushed through and when.
#[derive(Debug, Clone, Copy, PartialEq, Eq, Structural)]
pub struct Push {
    pub dir: Direction,
    pub at: u64,
}

/// A stalled-stream fallback in progress: which edge the virtual cursor
/// is pushed out through and when that started.
#[derive(Debug, Clone, Copy, PartialEq, Eq, Structural)]
pub struct Pushing {
    pub dir: Direction,
    pub since: u64,
}

/// The boundary state of one side (the local screen, or the active
/// client's).
#[derive(Debug, Clone, Copy, PartialEq, Eq, Structural)]
pub(crate) struct Boundary {
    at_wall: u8,
    last_out: Option<Push>,
    pushing: Option<Pushing>,
}

// ---------------------------------------------------------------------
// The model
// ---------------------------------------------------------------------

/// What one side's boundary state says.
pub struct Edge {
    /// The walls that the real cursor sits on and that may still fire.
    pub armed: Set<Direction>,
    /// The most recent outward push.
    pub last_out: Option<Push>,
    /// The fallback in progress.
    pub pushing: Option<Pushing>,
}

/// What a session knows.
pub struct State {
    pub layout: Seq<Screen>,
    pub cursor: Cursor,
    /// The local screen's rectangle in virtual coordinates.
    pub local: Rect,
    /// The boundary state of the local screen.
    pub home: Edge,
    /// The boundary state of the active client's screen.
    pub away: Edge,
    /// When the active client's last beacon arrived.
    pub away_beacon: Option<u64>,
    /// The ids given to clients that the layout did not name.
    pub guests: Set<u8>,
    /// A client's screen can be entered only while the client is
    /// connected.
    pub guarded: bool,
    /// The ids of the clients that are connected.
    pub present: Set<u8>,
    /// The edge walls are locked: no crossing goes through one.
    pub locked: bool,
}

/// No wall armed, nothing pushed.
pub open spec fn calm() -> Edge {
    Edge { armed: Set::empty(), last_out: None, pushing: None }
}

/// The coordinates of a screen of `b`'s size that stands where `a` does
/// are machine integers: the first column and row past it, and the last
/// ones on it.
pub open spec fn spans(a: Rect, b: Rect) -> bool {
    &&& i32::MIN < b.w && i32::MIN < b.h
    &&& i32::MIN < a.x + b.w <= i32::MAX
    &&& i32::MIN < a.y + b.h <= i32::MAX
}

/// The coordinates of a rectangle's far edges are machine integers.
pub open spec fn bounded(r: Rect) -> bool {
    spans(r, r)
}

/// The coordinates of every screen are machine integers, also where
/// several share an id.
pub open spec fn bounded_layout(s: Seq<Screen>) -> bool {
    forall|i: int, j: int|
        #![trigger s[i], s[j]]
        0 <= i < s.len() && 0 <= j < s.len() && s[i].id == s[j].id ==> spans(
            s[i].rect,
            s[j].rect,
        )
}

/// The middle of a screen of the local one's size that stands where screen
/// 0 does has machine integers as coordinates.
pub open spec fn home_fits(s: Seq<Screen>, local: Rect) -> bool {
    find_screen(s, 0) matches Some(e) ==> {
        &&& i32::MIN <= e.rect.x + half(local.w as int) <= i32::MAX
        &&& i32::MIN <= e.rect.y + half(local.h as int) <= i32::MAX
    }
}

/// The delta pushes *outward* through `dir`.
pub open spec fn pushes(dir: Direction, dx: int, dy: int) -> bool {
    match dir {
        Direction::Left => dx < 0,
        Direction::Right => dx > 0,
        Direction::Top => dy < 0,
        Direction::Bottom => dy > 0,
    }
}

/// The delta moves *away* from `dir`'s wall, back into the screen.
pub open spec fn pulls(dir: Direction, dx: int, dy: int) -> bool {
    pushes(dir, -dx, -dy)
}

/// The horizontal edge that a delta pushes through.
pub open spec fn sideways(dx: int) -> Option<Direction> {
    if dx < 0 {
        Some(Direction::Left)
    } else if dx > 0 {
        Some(Direction::Right)
    } else {
        None
    }
}

/// The vertical edge that a delta pushes through.
pub open spec fn upright(dy: int) -> Option<Direction> {
    if dy < 0 {
        Some(Direction::Top)
    } else if dy > 0 {
        Some(Direction::Bottom)
    } else {
        None
    }
}

/// The entry point moved [`ENTRY_INSET`] px past the crossed edge,
/// within a screen of shape `r`.
pub open spec fn inset(r: Rect, dir: Direction, x: int, y: int) -> (int, int) {
    match dir {
        Direction::Left => (imax(x - ENTRY_INSET, 0), y),
        Direction::Right => (imin(x + ENTRY_INSET, r.w - 1), y),
        Direction::Top => (x, imax(y - ENTRY_INSET, 0)),
        Direction::Bottom => (x, imin(y + ENTRY_INSET, r.h - 1)),
    }
}

impl State {
    /// The state after the cursor has arrived on screen `id` at its local
    /// `(x, y)`: the virtual cursor is snapped there and every boundary
    /// latch of the old screen is cleared.
    pub open spec fn entered(self, id: u8, x: int, y: int) -> State {
        let r = find_screen(self.layout, id)->0.rect;
        State {
            cursor: Cursor {
                x: (r.x + x) as i32,
                y: (r.y + y) as i32,
                mode: if id == 0 {
                    Mode::Local
                } else {
                    Mode::Remote(id)
                },
            },
            home: calm(),
            away: calm(),
            away_beacon: None,
            ..self
        }
    }

    /// The cursor may enter screen `id`: it is the local one, or its
    /// client is connected where that is asked for.
    pub open spec fn open_to(self, id: u8) -> bool {
        id == 0 || !self.guarded || self.present.contains(id)
    }

    /// The edge `dir` of screen `from` leads to a screen that may be
    /// entered, and the walls are not locked.
    pub open spec fn alive(self, from: u8, dir: Direction) -> bool {
        &&& !self.locked
        &&& neighbor_of(
            self.layout,
            from,
            dir,
            self.cursor.x as int,
            self.cursor.y as int,
        ) matches Some(n)
        &&& self.open_to(n.0)
    }

    /// Client `id` is connected.
    pub open spec fn joined(self, id: u8) -> State {
        State { present: self.present.insert(id), ..self }
    }

    /// Client `id` is not connected.
    pub open spec fn parted(self, id: u8) -> State {
        State { present: self.present.remove(id), ..self }
    }

    /// The destination's id and the inset entry point of a crossing from
    /// screen `from` through `dir`.
    pub open spec fn landing(self, from: u8, dir: Direction) -> (u8, int, int) {
        let n = neighbor_of(
            self.layout,
            from,
            dir,
            self.cursor.x as int,
            self.cursor.y as int,
        )->0;
        let e = inset(find_screen(self.layout, n.0)->0.rect, dir, n.1, n.2);
        (n.0, e.0, e.1)
    }

    /// The state after crossing from screen `from` through the living
    /// edge `dir`, and the action that carries it out.
    pub open spec fn crossed(self, from: u8, dir: Direction) -> (State, Action) {
        let (id, x, y) = self.landing(from, dir);
        (
            self.entered(id, x, y),
            if id == 0 {
                Action::SwitchToLocal { x: x as i32, y: y as i32 }
            } else {
                Action::SwitchTo { to: id, x: x as i32, y: y as i32 }
            },
        )
    }

    /// The state after a crossing attempt: across a living edge it
    /// crosses, at a dead one nothing happens.
    pub open spec fn try_cross(self, from: u8, dir: Direction) -> (State, Seq<Action>) {
        if self.alive(from, dir) {
            (self.crossed(from, dir).0, seq![self.crossed(from, dir).1])
        } else {
            (self, Seq::empty())
        }
    }

    /// The edge of screen `from` that a push fires: a living edge whose
    /// wall is armed, the horizontal one first.
    pub open spec fn fires(self, from: u8, e: Edge, dx: int, dy: int) -> Option<Direction> {
        match (sideways(dx), upright(dy)) {
            (Some(h), _) if e.armed.contains(h) && self.alive(from, h) => Some(h),
            (_, Some(v)) if e.armed.contains(v) && self.alive(from, v) => Some(v),
            _ => None,
        }
    }

    /// The virtual cursor moved by a delta.
    pub open spec fn moved(self, dx: int, dy: int) -> State {
        State {
            cursor: Cursor {
                x: (self.cursor.x + dx) as i32,
                y: (self.cursor.y + dy) as i32,
                mode: self.cursor.mode,
            },
            ..self
        }
    }

    /// The virtual cursor moved to the nearest point of `r`.
    pub open spec fn held_in(self, r: Rect) -> State {
        State {
            cursor: Cursor {
                x: clamped(self.cursor.x as int, r.l(), r.r() - 1) as i32,
                y: clamped(self.cursor.y as int, r.t(), r.b() - 1) as i32,
                mode: self.cursor.mode,
            },
            ..self
        }
    }
}

impl Edge {
    /// The boundary state after a push that fired nothing. A wall that
    /// the motion runs away from is disarmed; so is one that it ran
    /// against, since nothing lies behind it, unless the wall's report is
    /// too old to be trusted (`fresh` is false).
    pub open spec fn pushed(self, fresh: bool, dx: int, dy: int, now: u64) -> Edge {
        Edge {
            armed: self.armed.filter(
                |d: Direction| !pulls(d, dx, dy) && !(fresh && pushes(d, dx, dy)),
            ),
            last_out: match (upright(dy), sideways(dx)) {
                (Some(v), _) => Some(Push { dir: v, at: now }),
                (None, Some(h)) => Some(Push { dir: h, at: now }),
                (None, None) => self.last_out,
            },
            pushing: self.pushing,
        }
    }

    /// The fallback through `dir` has lasted long enough.
    pub open spec fn sustained(self, dir: Direction, now: u64) -> bool {
        self.pushing matches Some(p) && p.dir == dir && age(now, p.since) >= EDGE_PUSH_FALLBACK
    }

    /// The boundary state with the fallback through `dir` going on, from
    /// when it began.
    pub open spec fn leaning(self, dir: Direction, now: u64) -> Edge {
        Edge {
            pushing: match self.pushing {
                Some(p) if p.dir == dir => self.pushing,
                _ => Some(Pushing { dir, since: now }),
            },
            ..self
        }
    }

    /// The boundary state without a fallback.
    pub open spec fn upright(self) -> Edge {
        Edge { pushing: None, ..self }
    }

    /// The edge that a beacon on the walls `at` completes a crossing
    /// through: one that it has just reached and that was pushed against
    /// within [`EDGE_PUSH_FRESH`].
    pub open spec fn parks(self, at: Set<Direction>, now: u64) -> Option<Direction> {
        match self.last_out {
            Some(p) if at.contains(p.dir) && !self.armed.contains(p.dir) && age(now, p.at)
                < EDGE_PUSH_FRESH => Some(p.dir),
            _ => None,
        }
    }

    /// The boundary state after a beacon on the walls `at`. A cursor on
    /// no wall ends the fallback.
    pub open spec fn reported(self, at: Set<Direction>) -> Edge {
        Edge {
            armed: at,
            pushing: if at =~= Set::<Direction>::empty() {
                None
            } else {
                self.pushing
            },
            ..self
        }
    }
}

/// What follows a motion that has carried the virtual cursor to where `s`
/// has it, while control is on the local screen.
pub open spec fn home_after(s: State, dx: int, dy: int, now: u64) -> (State, Seq<Action>) {
    match s.fires(0, s.home, dx, dy) {
        Some(dir) => s.try_cross(0, dir),
        None => {
            let e = s.home.pushed(true, dx, dy, now);
            match exit_side(s.layout, 0, s.cursor.x as int, s.cursor.y as int) {
                None => (State { home: e.upright(), ..s }, Seq::empty()),
                Some(dir) => {
                    let held = s.held_in(s.local);
                    if e.sustained(dir, now) {
                        State { home: e.upright(), ..held }.try_cross(0, dir)
                    } else {
                        (State { home: e.leaning(dir, now), ..held }, Seq::empty())
                    }
                },
            }
        },
    }
}

/// The last beacon of the active client is recent enough.
pub open spec fn beacon_fresh(st: State, now: u64) -> bool {
    st.away_beacon matches Some(t) && age(now, t) < REMOTE_BEACON_FRESH
}

/// What follows a motion that has carried the virtual cursor to where `s`
/// has it, while control is on client `id`'s screen.
pub open spec fn away_after(s: State, id: u8, dx: int, dy: int, now: u64) -> (State, Seq<Action>) {
    let forward = seq![Action::Send(Message::MouseMoveRel { dx: dx as i32, dy: dy as i32 })];
    match find_screen(s.layout, id) {
        None => (s, Seq::empty()),
        Some(screen) => {
            let fresh = beacon_fresh(s, now);
            let fired = if fresh {
                s.fires(id, s.away, dx, dy)
            } else {
                None
            };
            match fired {
                Some(dir) => s.try_cross(id, dir),
                None => {
                    let e = s.away.pushed(fresh, dx, dy, now);
                    match exit_side(s.layout, id, s.cursor.x as int, s.cursor.y as int) {
                        None => (State { away: e.upright(), ..s }, forward),
                        Some(dir) => {
                            let held = s.held_in(screen.rect);
                            if !fresh && e.sustained(dir, now) {
                                let free = State { away: e.upright(), ..held };
                                if free.alive(id, dir) {
                                    free.try_cross(id, dir)
                                } else {
                                    (free, forward)
                                }
                            } else {
                                (State { away: e.leaning(dir, now), ..held }, forward)
                            }
                        },
                    }
                },
            }
        },
    }
}

/// Relative motion of the physical mouse.
pub open spec fn motion(st: State, dx: int, dy: int, now: u64) -> (State, Seq<Action>) {
    match st.cursor.mode {
        Mode::Local => home_after(st.moved(dx, dy), dx, dy, now),
        Mode::Remote(id) => away_after(st.moved(dx, dy), id, dx, dy, now),
    }
}

/// A beacon with the real cursor's position on the local screen.
pub open spec fn home_beacon(st: State, x: int, y: int, now: u64) -> (State, Seq<Action>) {
    let at = touched(st.local, x, y);
    let s = State {
        cursor: Cursor {
            x: (st.local.x + x) as i32,
            y: (st.local.y + y) as i32,
            mode: st.cursor.mode,
        },
        home: st.home.reported(at),
        ..st
    };
    match st.home.parks(at, now) {
        Some(dir) => s.try_cross(0, dir),
        None => (s, Seq::empty()),
    }
}

/// A beacon with the real cursor's position on client `id`'s screen.
pub open spec fn away_beacon(st: State, id: u8, x: int, y: int, now: u64) -> (State, Seq<Action>) {
    match find_screen(st.layout, id) {
        Some(screen) if st.cursor.mode == Mode::Remote(id) => {
            let r = screen.rect;
            let px = clamped(x, 0, imax(r.w - 1, 0));
            let py = clamped(y, 0, imax(r.h - 1, 0));
            let at = touched(r, px, py);
            let s = State {
                cursor: Cursor {
                    x: (r.x + px) as i32,
                    y: (r.y + py) as i32,
                    mode: st.cursor.mode,
                },
                away: st.away.reported(at),
                away_beacon: Some(now),
                ..st
            };
            match st.away.parks(at, now) {
                Some(dir) => s.try_cross(id, dir),
                None => (s, Seq::empty()),
            }
        },
        _ => (st, Seq::empty()),
    }
}

/// Control brought home right now.
pub open spec fn homecoming(st: State) -> (State, Action) {
    let c = st.local.inner_middle();
    (st.entered(0, c.0, c.1), Action::SwitchToLocal { x: c.0 as i32, y: c.1 as i32 })
}

/// A *local* input event at time `now`.
pub open spec fn local_event(st: State, msg: Message, now: u64) -> (State, Seq<Action>) {
    match msg {
        Message::MouseMoveRel { dx, dy } => motion(st, dx as int, dy as int, now),
        Message::MouseMoveAbs { x, y } => if st.cursor.mode is Local {
            home_beacon(st, x as int, y as int, now)
        } else {
            (st, Seq::empty())
        },
        Message::MouseButton { .. } | Message::MouseWheel { .. } | Message::Key { .. } =>
            if st.cursor.mode is Remote {
                (st, seq![Action::Send(msg)])
            } else {
                (st, Seq::empty())
            },
        Message::Escape => (homecoming(st).0, seq![homecoming(st).1]),
        _ => (st, Seq::empty()),
    }
}

/// The state of a session that adopts a layout whose local screen has the
/// rectangle `local`.
pub open spec fn adopted(layout: Seq<Screen>, local: Rect) -> State {
    State {
        layout,
        cursor: Cursor {
            x: local.middle().0 as i32,
            y: local.middle().1 as i32,
            mode: Mode::Local,
        },
        local,
        home: calm(),
        away: calm(),
        away_beacon: None,
        guests: Set::empty(),
        guarded: false,
        present: Set::empty(),
        locked: false,
    }
}

/// Some screen has this name.
pub open spec fn named_in(s: Seq<Screen>, name: Seq<char>) -> bool {
    exists|k: int| 0 <= k < s.len() && (#[trigger] s[k]).name@ == name
}

/// The screen of a guest that a new layout neither names nor displaces.
pub open spec fn stays(guests: Set<u8>, layout: Seq<Screen>, e: Screen) -> bool {
    &&& guests.contains(e.id)
    &&& !named_in(layout, e.name@)
    &&& find_screen(layout, e.id) is None
}

/// A new layout, with the guests that stay.
pub open spec fn merged(st: State, layout: Seq<Screen>) -> Seq<Screen> {
    layout + st.layout.filter(|e: Screen| stays(st.guests, layout, e))
}

/// A session that is offered a new layout: one without a local screen
/// (id 0) is rejected; any other is adopted, and control comes home.
/// Guests that the new layout does not name keep their screens, so an
/// unrelated edit never takes a live client's screen away. Who is
/// connected stays, and so does a lock on the walls.
pub open spec fn swapped(st: State, layout: Seq<Screen>) -> (State, Seq<Action>) {
    match find_screen(layout, 0) {
        None => (st, Seq::empty()),
        Some(home) => (
            State {
                guests: Set::new(
                    |id: u8| st.guests.contains(id) && find_screen(layout, id) is None,
                ),
                guarded: st.guarded,
                present: st.present,
                locked: st.locked,
                ..adopted(merged(st, layout), home.rect)
            },
            if st.cursor.mode is Remote {
                seq![
                    Action::SwitchToLocal {
                        x: home.rect.inner_middle().0 as i32,
                        y: home.rect.inner_middle().1 as i32,
                    },
                ]
            } else {
                Seq::empty()
            },
        ),
    }
}

/// The event's coordinates stay in the integer range, and a cursor that
/// motion carries out of its screen has a non-empty screen to be held in.
pub open spec fn acceptable(st: State, msg: Message) -> bool {
    match msg {
        Message::MouseMoveRel { dx, dy } => {
            &&& i32::MIN <= st.cursor.x + dx <= i32::MAX
            &&& i32::MIN <= st.cursor.y + dy <= i32::MAX
            &&& match st.cursor.mode {
                Mode::Local => st.local.nonempty(),
                Mode::Remote(id) => find_screen(st.layout, id) matches Some(s)
                    ==> s.rect.nonempty(),
            }
        },
        Message::MouseMoveAbs { x, y } => st.cursor.mode is Local ==> {
            &&& i32::MIN <= st.local.x + x <= i32::MAX
            &&& i32::MIN <= st.local.y + y <= i32::MAX
        },
        Message::Escape => find_screen(st.layout, 0) is Some,
        _ => true,
    }
}

impl State {
    /// The coordinates are machine integers, and a cursor that is away is
    /// on a client's screen of the layout.
    pub open spec fn valid(self) -> bool {
        &&& bounded_layout(self.layout)
        &&& bounded(self.local)
        &&& home_fits(self.layout, self.local)
        &&& self.cursor.mode matches Mode::Remote(id) ==> id != 0 && find_screen(
            self.layout,
            id,
        ) is Some
    }
}

// ---------------------------------------------------------------------
// The implementation
// ---------------------------------------------------------------------

impl Boundary {
    closed spec fn ok(self) -> bool {
        self.at_wall < 16
    }

    closed spec fn edge(self) -> Edge {
        Edge { armed: walls(self.at_wall), last_out: self.last_out, pushing: self.pushing }
    }

    fn calm() -> (r: Boundary)
        ensures
            r.ok(),
            r.edge() == calm(),
    {
        proof {
            mask_is_empty(0);
        }
        Boundary { at_wall: 0, last_out: None, pushing: None }
    }

    /// [`Edge::sustained`].
    fn is_sustained(&self, dir: Direction, now: u64) -> (r: bool)
        ensures
            r == self.edge().sustained(dir, now),
    {
        match self.pushing {
            Some(p) => p.dir == dir && elapsed(now, p.since) >= EDGE_PUSH_FALLBACK,
            None => false,
        }
    }

    /// [`Edge::leaning`].
    fn lean(&mut self, dir: Direction, now: u64)
        requires
            old(self).ok(),
        ensures
            final(self).ok(),
            final(self).edge() == old(self).edge().leaning(dir, now),
    {
        let keep: bool = match self.pushing {
            Some(p) => p.dir == dir,
            None => false,
        };
        if !keep {
            self.pushing = Some(Pushing { dir, since: now });
        }
    }

    /// [`Edge::upright`].
    fn straighten(&mut self)
        requires
            old(self).ok(),
        ensures
            final(self).ok(),
            final(self).edge() == old(self).edge().upright(),
    {
        self.pushing = None;
    }

    /// [`Edge::reported`] with the walls of a mask; gives [`Edge::parks`].
    fn report(&mut self, bits: u8, now: u64) -> (r: Option<Direction>)
        requires
            old(self).ok(),
            bits < 16,
        ensures
            final(self).ok(),
            final(self).edge() == old(self).edge().reported(walls(bits)),
            r == old(self).edge().parks(walls(bits), now),
    {
        let newly: u8 = newly_set(bits, self.at_wall);
        proof {
            mask_is_empty(bits);
        }
        self.at_wall = bits;
        if bits == 0 {
            self.pushing = None;
        }
        match self.last_out {
            Some(p) => if armed(newly, p.dir) && elapsed(now, p.at) < EDGE_PUSH_FRESH {
                Some(p.dir)
            } else {
                None
            },
            None => None,
        }
    }
}

/// Does this delta push *outward* through `dir` (toward that edge)?
pub fn pushes_outward(dir: Direction, dx: i32, dy: i32) -> (r: bool)
    ensures
        r == pushes(dir, dx as int, dy as int),
{
    match dir {
        Direction::Left => dx < 0,
        Direction::Right => dx > 0,
        Direction::Top => dy < 0,
        Direction::Bottom => dy > 0,
    }
}

/// Does this delta move *away* from `dir`'s wall (back into the screen)?
pub fn pulls_inward(dir: Direction, dx: i32, dy: i32) -> (r: bool)
    ensures
        r == pulls(dir, dx as int, dy as int),
{
    match dir {
        Direction::Left => dx > 0,
        Direction::Right => dx < 0,
        Direction::Top => dy > 0,
        Direction::Bottom => dy < 0,
    }
}

/// [`spans`] as a value.
fn is_spanned(a: &Rect, b: &Rect) -> (r: bool)
    ensures
        r == spans(*a, *b),
{
    let right: i64 = a.x as i64 + b.w as i64;
    let bottom: i64 = a.y as i64 + b.h as i64;
    let lo: i64 = i32::MIN as i64;
    let hi: i64 = i32::MAX as i64;
    b.w > i32::MIN && b.h > i32::MIN && lo < right && right <= hi && lo < bottom && bottom <= hi
}

impl Layout {
    /// Are the coordinates of every screen machine integers?
    pub fn is_bounded(&self) -> (b: bool)
        ensures
            b == bounded_layout(self@),
    {
        let n: usize = self.screens.len();
        let mut i: usize = 0;
        while i < n
            invariant
                i <= n,
                n == self@.len(),
                n == self.screens@.len(),
                forall|k: int, m: int|
                    #![trigger self@[k], self@[m]]
                    0 <= k < i && 0 <= m < n && self@[k].id == self@[m].id ==> spans(
                        self@[k].rect,
                        self@[m].rect,
                    ),
            decreases n - i,
        {
            let mut j: usize = 0;
            while j < n
                invariant
                    i < n,
                    j <= n,
                    n == self@.len(),
                    n == self.screens@.len(),
                    forall|m: int|
                        #![trigger self@[m]]
                        0 <= m < j && self@[i as int].id == self@[m].id ==> spans(
                            self@[i as int].rect,
                            self@[m].rect,
                        ),
                decreases n - j,
            {
                let a: &Screen = &self.screens[i];
                let b: &Screen = &self.screens[j];
                if a.id == b.id && !is_spanned(&a.rect, &b.rect) {
                    assert(!spans(self@[i as int].rect, self@[j as int].rect));
                    return false;
                }
                j += 1;
            }
            i += 1;
        }
        true
    }

    /// Resize the screen of an id. See [`resized`].
    pub(crate) fn resize(&mut self, id: u8, info: ScreenInfo)
        ensures
            final(self)@ == resized(old(self)@, id, info),
    {
        let ghost s = self@;
        let ghost p = |e: Screen| e.id == id;
        let mut i: usize = 0;
        while i < self.screens.len()
            invariant
                i <= self.screens@.len(),
                s == self.screens@,
                *self == *old(self),
                p == (|e: Screen| e.id == id),
                forall|j: int| 0 <= j < i ==> !p(#[trigger] s[j]),
            decreases self.screens@.len() - i,
        {
            if self.screens[i].id == id {
                assert(is_first(s, p, i as int));
                self.screens[i].rect.w = info.logical_w;
                self.screens[i].rect.h = info.logical_h;
                proof {
                    lemma_resized(s, id, info, i as int);
                    assert(self@ =~= resized(s, id, info));
                }
                return;
            }
            i += 1;
        }
        proof {
            search_is_complete(s, p);
        }
    }
}

/// The switching brain.
pub struct Session {
    layout: Layout,
    cursor: Cursor,
    local: Rect,
    home: Boundary,
    away: Boundary,
    away_beacon: Option<u64>,
    guests: Vec<u8>,
    guarded: bool,
    present: Vec<u8>,
    locked: bool,
    clock: Clock,
}

impl View for Session {
    type V = State;

    closed spec fn view(&self) -> State {
        State {
            layout: self.layout@,
            cursor: self.cursor,
            local: self.local,
            home: self.home.edge(),
            away: self.away.edge(),
            away_beacon: self.away_beacon,
            guests: self.guests@.to_set(),
            guarded: self.guarded,
            present: self.present@.to_set(),
            locked: self.locked,
        }
    }
}

impl Session {
    /// The session's invariant.
    pub closed spec fn wf(self) -> bool {
        &&& self@.valid()
        &&& self.home.ok()
        &&& self.away.ok()
    }

    /// A well-formed session's state is valid.
    pub proof fn wf_is_valid(self)
        requires
            self.wf(),
        ensures
            self@.valid(),
    {
    }

    /// A session on the screen `local_id`, with the cursor in its middle.
    pub fn new(layout: Layout, local_id: u8) -> (r: Self)
        requires
            find_screen(layout@, local_id) is Some,
            bounded_layout(layout@),
            local_id == 0 || home_fits(layout@, find_screen(layout@, local_id)->0.rect),
        ensures
            r.wf(),
            r@ == adopted(layout@, find_screen(layout@, local_id)->0.rect),
    {
        proof {
            lemma_found_is_bounded(layout@, local_id);
        }
        let local: Rect = match layout.find(local_id) {
            Some(s) => s.rect,
            None => Rect { x: 0, y: 0, w: 0, h: 0 },
        };
        let (x, y): (i32, i32) = local.center();
        let guests: Vec<u8> = Vec::new();
        assert(guests@.to_set() =~= Set::<u8>::empty());
        Session {
            cursor: Cursor { x, y, mode: Mode::Local },
            layout,
            local,
            home: Boundary::calm(),
            away: Boundary::calm(),
            away_beacon: None,
            guests,
            guarded: false,
            present: Vec::new(),
            locked: false,
            clock: Clock::start(),
        }
    }

    /// Where the cursor is.
    pub fn mode(&self) -> (r: Mode)
        ensures
            r == self@.cursor.mode,
    {
        self.cursor.mode
    }

    /// The current layout (read-only view).
    pub fn layout(&self) -> (r: &Layout)
        ensures
            r@ == self@.layout,
    {
        &self.layout
    }

    /// The virtual cursor position.
    pub fn cursor_pos(&self) -> (r: (i32, i32))
        ensures
            r.0 == self@.cursor.x,
            r.1 == self@.cursor.y,
    {
        (self.cursor.x, self.cursor.y)
    }

    /// The layout screen id for a client that introduced itself with
    /// `name`, if the layout has a remote screen with that name.
    pub fn assign_screen_id(&self, name: &str) -> (r: Option<u8>)
        ensures
            r == (match first_where(self@.layout, |e: Screen| e.id != 0 && e.name@ == name@) {
                Some(s) => Some(s.id),
                None => None,
            }),
    {
        let ghost p = |e: Screen| e.id != 0 && e.name@ == name@;
        let ghost s = self@.layout;
        let mut i: usize = 0;
        while i < self.layout.screens.len()
            invariant
                i <= self.layout.screens@.len(),
                s == self.layout.screens@,
                p == (|e: Screen| e.id != 0 && e.name@ == name@),
                forall|j: int| 0 <= j < i ==> !p(#[trigger] s[j]),
            decreases self.layout.screens@.len() - i,
        {
            let e: &Screen = &self.layout.screens[i];
            if e.id != 0 && same(e.name.as_str(), name) {
                proof {
                    assert(is_first(s, p, i as int));
                    crate::layout::lemma_first_where(s, p, i as int);
                }
                return Some(e.id);
            }
            i += 1;
        }
        proof {
            search_is_complete(s, p);
        }
        None
    }

    /// A client reported a new screen shape: resize its rect in the
    /// layout (position stays). Used to keep edge math correct after
    /// resolution changes.
    pub fn update_screen_info(&mut self, id: u8, info: ScreenInfo)
        requires
            old(self).wf(),
            bounded_layout(resized(old(self)@.layout, id, info)),
        ensures
            final(self).wf(),
            final(self)@ == (State { layout: resized(old(self)@.layout, id, info), ..old(self)@ }),
    {
        proof {
            resizing_keeps_ids(self@.layout, id, info);
        }
        self.layout.resize(id, info);
    }

    /// Do the coordinates stay machine integers when screen `id` takes
    /// this shape?
    pub fn can_resize(&self, id: u8, info: ScreenInfo) -> (r: bool)
        ensures
            r == bounded_layout(resized(self@.layout, id, info)),
    {
        let mut layout: Layout = self.layout.clone();
        layout.resize(id, info);
        layout.is_bounded()
    }
}

/// A screen that is found in a bounded layout is bounded.
pub(crate) proof fn lemma_found_is_bounded(s: Seq<Screen>, id: u8)
    requires
        bounded_layout(s),
        find_screen(s, id) is Some,
    ensures
        find_screen(s, id)->0.id == id,
        bounded(find_screen(s, id)->0.rect),
        forall|k: int|
            0 <= k < s.len() && (#[trigger] s[k]).id == id ==> spans(
                find_screen(s, id)->0.rect,
                s[k].rect,
            ),
{
    lookup_is_complete(s, id);
    let e = find_screen(s, id)->0;
    let m = choose|m: int| 0 <= m < s.len() && s[m] == e;
    assert(s[m].id == id);
}

/// The layout with the shape of screen `id` replaced. Its position stays.
pub open spec fn resized(s: Seq<Screen>, id: u8, info: ScreenInfo) -> Seq<Screen> {
    let p = |e: Screen| e.id == id;
    if exists|k: int| is_first(s, p, k) {
        let k = choose|k: int| is_first(s, p, k);
        s.update(
            k,
            Screen {
                rect: Rect { x: s[k].rect.x, y: s[k].rect.y, w: info.logical_w, h: info.logical_h },
                ..s[k]
            },
        )
    } else {
        s
    }
}

proof fn lemma_resized(s: Seq<Screen>, id: u8, info: ScreenInfo, k: int)
    requires
        is_first(s, |e: Screen| e.id == id, k),
    ensures
        resized(s, id, info) == s.update(
            k,
            Screen {
                rect: Rect { x: s[k].rect.x, y: s[k].rect.y, w: info.logical_w, h: info.logical_h },
                ..s[k]
            },
        ),
        forall|other: u8|
            find_screen(s, other) is Some <==> #[trigger] find_screen(
                resized(s, id, info),
                other,
            ) is Some,
        forall|other: u8|
            #[trigger] find_screen(resized(s, id, info), other) matches Some(e) ==> {
                &&& e.rect.x == find_screen(s, other)->0.rect.x
                &&& e.rect.y == find_screen(s, other)->0.rect.y
            },
{
    let p = |e: Screen| e.id == id;
    let c = choose|k: int| is_first(s, p, k);
    assert(is_first(s, p, c));
    assert(c == k) by {
        if c < k {
            assert(!p(s[c]));
        } else if k < c {
            assert(!p(s[k]));
        }
    }
    let t = resized(s, id, info);
    assert forall|other: u8|
        find_screen(s, other) is Some <==> #[trigger] find_screen(t, other) is Some by {
        lookup_is_complete(s, other);
        lookup_is_complete(t, other);
        if find_screen(s, other) is Some {
            let j = choose|j: int| 0 <= j < s.len() && (#[trigger] s[j]).id == other;
            assert(t[j].id == other);
        }
        if find_screen(t, other) is Some {
            let j = choose|j: int| 0 <= j < t.len() && (#[trigger] t[j]).id == other;
            assert(s[j].id == other);
        }
    }
    assert forall|other: u8| #[trigger] find_screen(t, other) is Some implies find_screen(
        t,
        other,
    )->0.rect.x == find_screen(s, other)->0.rect.x && find_screen(t, other)->0.rect.y
        == find_screen(s, other)->0.rect.y by {
        let q = |e: Screen| e.id == other;
        let f = choose|f: int| is_first(t, q, f);
        assert(is_first(t, q, f));
        assert forall|j: int| 0 <= j < f implies !q(#[trigger] s[j]) by {
            assert(!q(t[j]));
        }
        assert(is_first(s, q, f));
        crate::layout::lemma_first_where(s, q, f);
        crate::layout::lemma_first_where(t, q, f);
    }
}

impl State {
    /// The desktop without the screens of an id.
    pub open spec fn without_screen(self, id: u8) -> State {
        State { layout: self.layout.filter(|e: Screen| e.id != id), ..self }
    }
}

pub(crate) proof fn lemma_push_contains(s: Seq<u8>, x: u8, y: u8)
    ensures
        s.push(x).contains(y) <==> s.contains(y) || x == y,
{
    let t = s.push(x);
    if s.contains(y) {
        let i = choose|i: int| 0 <= i < s.len() && s[i] == y;
        assert(t[i] == y);
    }
    if x == y {
        assert(t[s.len() as int] == y);
    }
}

/// Does some screen of the layout have this name?
fn has_name(layout: &Layout, name: &str) -> (r: bool)
    ensures
        r == named_in(layout@, name@),
{
    let mut i: usize = 0;
    while i < layout.screens.len()
        invariant
            i <= layout.screens@.len(),
            forall|k: int| 0 <= k < i ==> (#[trigger] layout@[k]).name@ != name@,
        decreases layout.screens@.len() - i,
    {
        if same(layout.screens[i].name.as_str(), name) {
            assert(layout@[i as int].name@ == name@);
            return true;
        }
        i += 1;
    }
    false
}

pub(crate) proof fn lemma_filter_screens(s: Seq<Screen>, p: spec_fn(Screen) -> bool, e: Screen)
    ensures
        s.filter(p).contains(e) <==> s.contains(e) && p(e),
    decreases s.len(),
{
    reveal(Seq::filter);
    if s.len() > 0 {
        let before = s.drop_last();
        lemma_filter_screens(before, p, e);
        assert(s =~= before.push(s.last()));
        assert(s.contains(e) <==> before.contains(e) || s.last() == e) by {
            if before.contains(e) {
                let i = choose|i: int| 0 <= i < before.len() && before[i] == e;
                assert(s[i] == e);
            }
            if s.last() == e {
                assert(s[s.len() - 1] == e);
            }
        }
        let f = before.filter(p);
        let g = f.push(s.last());
        assert(g.contains(e) <==> f.contains(e) || s.last() == e) by {
            if f.contains(e) {
                let i = choose|i: int| 0 <= i < f.len() && f[i] == e;
                assert(g[i] == e);
            }
            if s.last() == e {
                assert(g[f.len() as int] == e);
            }
        }
    }
}

/// A screen of a merged layout is the new layout's, or a guest's that
/// the new layout does not displace.
proof fn lemma_merged(st: State, layout: Seq<Screen>, k: int)
    requires
        0 <= k < merged(st, layout).len(),
    ensures
        k < layout.len() ==> merged(st, layout)[k] == layout[k],
        k >= layout.len() ==> {
            &&& st.layout.contains(merged(st, layout)[k])
            &&& stays(st.guests, layout, merged(st, layout)[k])
        },
{
    let keep = |e: Screen| stays(st.guests, layout, e);
    let kept = st.layout.filter(keep);
    if k >= layout.len() {
        let e = kept[k - layout.len()];
        assert(kept.contains(e));
        lemma_filter_screens(st.layout, keep, e);
    }
}

/// The new layout's home screen is that of the merged one.
pub(crate) proof fn lemma_merged_home(st: State, layout: Seq<Screen>)
    requires
        find_screen(layout, 0) is Some,
    ensures
        find_screen(merged(st, layout), 0) == find_screen(layout, 0),
{
    let all = merged(st, layout);
    let p = |e: Screen| e.id == 0;
    let k = choose|k: int| is_first(layout, p, k);
    assert(is_first(layout, p, k));
    assert forall|j: int| 0 <= j < k implies !p(#[trigger] all[j]) by {
        assert(!p(layout[j]));
    }
    assert(p(all[k]));
    assert(is_first(all, p, k));
    crate::layout::lemma_first_where(layout, p, k);
    crate::layout::lemma_first_where(all, p, k);
}

/// What is looked for and kept by a filter is found as before.
proof fn lemma_filter_first(
    s: Seq<Screen>,
    keep: spec_fn(Screen) -> bool,
    p: spec_fn(Screen) -> bool,
)
    requires
        forall|e: Screen| p(e) ==> #[trigger] keep(e),
    ensures
        first_where(s.filter(keep), p) == first_where(s, p),
    decreases s.len(),
{
    reveal(Seq::filter);
    if s.len() > 0 {
        let before = s.drop_last();
        lemma_filter_first(before, keep, p);
        assert(s =~= before.push(s.last()));
        lemma_first_push(before, s.last(), p);
        lemma_first_push(before.filter(keep), s.last(), p);
    } else {
        assert(s.filter(keep) =~= s);
    }
}

proof fn lemma_first_push(s: Seq<Screen>, e: Screen, p: spec_fn(Screen) -> bool)
    ensures
        first_where(s.push(e), p) == match first_where(s, p) {
            Some(f) => Some(f),
            None => if p(e) {
                Some(e)
            } else {
                None
            },
        },
{
    let t = s.push(e);
    search_is_complete(s, p);
    search_is_complete(t, p);
    if first_where(s, p) is Some {
        let k = choose|k: int| is_first(s, p, k);
        assert(is_first(s, p, k));
        assert forall|j: int| 0 <= j < k implies !p(#[trigger] t[j]) by {
            assert(!p(s[j]));
        }
        assert(p(t[k]));
        assert(is_first(t, p, k));
        crate::layout::lemma_first_where(s, p, k);
        crate::layout::lemma_first_where(t, p, k);
    } else {
        assert forall|j: int| 0 <= j < s.len() implies !p(#[trigger] t[j]) by {
            assert(!p(s[j]));
        }
        if p(e) {
            assert(t[s.len() as int] == e);
            assert(is_first(t, p, s.len() as int));
            crate::layout::lemma_first_where(t, p, s.len() as int);
        }
    }
}

/// Removing a screen removes that id and no other, and keeps the state
/// valid when the cursor is elsewhere.
pub proof fn lemma_without_screen(st: State, id: u8)
    requires
        st.valid(),
        st.cursor.mode != Mode::Remote(id),
    ensures
        st.without_screen(id).valid(),
        find_screen(st.without_screen(id).layout, id) is None,
        forall|other: u8|
            other != id ==> find_screen(st.layout, other) == #[trigger] find_screen(
                st.without_screen(id).layout,
                other,
            ),
{
    let s = st.layout;
    let keep = |e: Screen| e.id != id;
    let t = s.filter(keep);
    assert forall|k: int| 0 <= k < t.len() implies s.contains(#[trigger] t[k]) && t[k].id != id by {
        lemma_filter_screens(s, keep, t[k]);
        assert(t.contains(t[k]));
    }
    assert forall|i: int, j: int|
        #![trigger t[i], t[j]]
        0 <= i < t.len() && 0 <= j < t.len() && t[i].id == t[j].id implies spans(
        t[i].rect,
        t[j].rect,
    ) by {
        let a = choose|a: int| 0 <= a < s.len() && s[a] == t[i];
        let b = choose|b: int| 0 <= b < s.len() && s[b] == t[j];
        assert(spans(s[a].rect, s[b].rect));
    }
    lookup_is_complete(t, id);
    assert forall|other: u8| other != id implies find_screen(s, other) == #[trigger] find_screen(
        t,
        other,
    ) by {
        lemma_filter_first(s, keep, |e: Screen| e.id == other);
    }
}

pub(crate) proof fn lemma_landing(st: State, from: u8, dir: Direction)
    requires
        st.valid(),
        st.alive(from, dir),
    ensures
        ({
            let (id, x, y) = st.landing(from, dir);
            let n = neighbor_of(
                st.layout,
                from,
                dir,
                st.cursor.x as int,
                st.cursor.y as int,
            )->0;
            &&& id != from
            &&& find_screen(st.layout, id) is Some
            &&& bounded(find_screen(st.layout, id)->0.rect)
            &&& 0 <= n.1 <= i32::MAX
            &&& 0 <= n.2 <= i32::MAX
            &&& i32::MIN <= x <= i32::MAX
            &&& i32::MIN <= y <= i32::MAX
            &&& i32::MIN <= find_screen(st.layout, id)->0.rect.x + x <= i32::MAX
            &&& i32::MIN <= find_screen(st.layout, id)->0.rect.y + y <= i32::MAX
        }),
{
    let s = st.layout;
    let (x, y) = (st.cursor.x as int, st.cursor.y as int);
    lookup_is_complete(s, from);
    let f = find_screen(s, from)->0;
    neighbor_is_the_nearest_screen(s, f, dir, x, y);
    let n = neighbor_of(s, from, dir, x, y)->0;
    let k = choose|k: int|
        #[trigger] crate::layout::candidate(s, f, dir, k) && s[k].id == n.0 && (n.1, n.2)
            == crate::layout::entry(s[k].rect, dir, x, y);
    crate::layout::entry_is_inside(s[k].rect, dir, x, y);
    lookup_is_complete(s, n.0);
    assert(s[k].id == n.0);
    lemma_found_is_bounded(s, n.0);
    let r = find_screen(s, n.0)->0.rect;
    assert(spans(r, s[k].rect));
}

impl Session {
    /// Snap the virtual cursor to the entry point of screen `id` (local
    /// coords `x, y`), set the mode, and clear every boundary latch: any
    /// arm from the old screen is meaningless.
    fn enter_screen(&mut self, id: u8, x: i32, y: i32)
        requires
            old(self).wf(),
            find_screen(old(self)@.layout, id) is Some,
            i32::MIN <= find_screen(old(self)@.layout, id)->0.rect.x + x <= i32::MAX,
            i32::MIN <= find_screen(old(self)@.layout, id)->0.rect.y + y <= i32::MAX,
        ensures
            final(self).wf(),
            final(self)@ == old(self)@.entered(id, x as int, y as int),
    {
        let r: Rect = match self.layout.find(id) {
            Some(s) => s.rect,
            None => self.local,
        };
        self.cursor = Cursor {
            x: r.x + x,
            y: r.y + y,
            mode: if id == 0 {
                Mode::Local
            } else {
                Mode::Remote(id)
            },
        };
        self.clear_boundary_state();
    }

    /// Reset every boundary latch.
    fn clear_boundary_state(&mut self)
        ensures
            final(self).home.ok(),
            final(self).away.ok(),
            final(self)@ == (State { home: calm(), away: calm(), away_beacon: None, ..old(self)@ }),
    {
        self.home = Boundary::calm();
        self.away = Boundary::calm();
        self.away_beacon = None;
    }

    /// Push an entry point [`ENTRY_INSET`] px past the crossed edge
    /// (clamped to the screen), so the cursor never lands exactly on a
    /// wall.
    fn inset_entry(&self, id: u8, dir: Direction, x: i32, y: i32) -> (r: (i32, i32))
        requires
            self.wf(),
            find_screen(self@.layout, id) is Some,
            bounded(find_screen(self@.layout, id)->0.rect),
            0 <= x,
            0 <= y,
        ensures
            (r.0 as int, r.1 as int) == inset(
                find_screen(self@.layout, id)->0.rect,
                dir,
                x as int,
                y as int,
            ),
    {
        let r: Rect = match self.layout.find(id) {
            Some(s) => s.rect,
            None => self.local,
        };
        match dir {
            Direction::Left => (if x > ENTRY_INSET {
                x - ENTRY_INSET
            } else {
                0
            }, y),
            Direction::Right => (if (x as i64 + ENTRY_INSET as i64) < r.w as i64 - 1 {
                x + ENTRY_INSET
            } else {
                r.w - 1
            }, y),
            Direction::Top => (x, if y > ENTRY_INSET {
                y - ENTRY_INSET
            } else {
                0
            }),
            Direction::Bottom => (x, if (y as i64 + ENTRY_INSET as i64) < r.h as i64 - 1 {
                y + ENTRY_INSET
            } else {
                r.h - 1
            }),
        }
    }

    /// Leave screen `from` through `dir`: switch to the neighbor in that
    /// direction. Resets the boundary state and snaps the virtual cursor
    /// to the neighbor's entry point, inset past the seam. Returns
    /// nothing on a dead edge.
    fn cross(&mut self, from: u8, dir: Direction) -> (r: Vec<Action>)
        requires
            old(self).wf(),
        ensures
            final(self).wf(),
            final(self)@ == old(self)@.try_cross(from, dir).0,
            r@ == old(self)@.try_cross(from, dir).1,
    {
        let ghost st = self@;
        let mut actions: Vec<Action> = Vec::new();
        if self.locked {
            return actions;
        }
        match self.layout.neighbor(from, dir, self.cursor.x, self.cursor.y) {
            Some((id, x, y)) => {
                if !self.may_enter(id) {
                    return actions;
                }
                proof {
                    lemma_landing(st, from, dir);
                }
                let (x, y): (i32, i32) = self.inset_entry(id, dir, x, y);
                self.enter_screen(id, x, y);
                if id == 0 {
                    actions.push(Action::SwitchToLocal { x, y });
                } else {
                    actions.push(Action::SwitchTo { to: id, x, y });
                }
            },
            None => {},
        }
        actions
    }

    /// Is there a screen past the edge `dir` of screen `from` that may be
    /// entered?
    fn edge_alive(&self, from: u8, dir: Direction) -> (r: bool)
        ensures
            r == self@.alive(from, dir),
    {
        if self.locked {
            return false;
        }
        match self.layout.neighbor(from, dir, self.cursor.x, self.cursor.y) {
            Some((id, _, _)) => self.may_enter(id),
            None => false,
        }
    }

    /// [`State::open_to`].
    fn may_enter(&self, id: u8) -> (r: bool)
        ensures
            r == self@.open_to(id),
    {
        id == 0 || !self.guarded || self.is_present(id)
    }

    /// Is the client connected?
    fn is_present(&self, id: u8) -> (r: bool)
        ensures
            r == self@.present.contains(id),
    {
        let mut i: usize = 0;
        while i < self.present.len()
            invariant
                i <= self.present@.len(),
                forall|k: int| 0 <= k < i ==> self.present@[k] != id,
            decreases self.present@.len() - i,
        {
            if self.present[i] == id {
                assert(self.present@.contains(id));
                return true;
            }
            i += 1;
        }
        false
    }

    /// From here on, crossings enter a client's screen only while the
    /// client is connected. At first none is.
    pub fn guard_crossings(&mut self)
        requires
            old(self).wf(),
        ensures
            final(self).wf(),
            final(self)@ == (State { guarded: true, present: Set::empty(), ..old(self)@ }),
    {
        self.guarded = true;
        self.present = Vec::new();
        assert(self@.present =~= Set::<u8>::empty());
    }

    /// A client is fully registered: crossings may enter its screen. Of a
    /// guarded session, a crossing can never fire into a screen whose
    /// client does not exist.
    pub fn on_client_connected(&mut self, id: u8)
        requires
            old(self).wf(),
        ensures
            final(self).wf(),
            final(self)@ == old(self)@.joined(id),
    {
        let ghost before = self.present@;
        self.present.push(id);
        proof {
            assert forall|j: u8|
                before.push(id).to_set().contains(j) == before.to_set().insert(id).contains(j) by {
                lemma_push_contains(before, id, j);
            }
            assert(before.push(id).to_set() =~= before.to_set().insert(id));
        }
    }

    /// [`State::parted`].
    fn part(&mut self, id: u8)
        requires
            old(self).wf(),
        ensures
            final(self).wf(),
            final(self)@ == old(self)@.parted(id),
    {
        let ghost before = self.present@;
        let mut kept: Vec<u8> = Vec::new();
        let mut i: usize = 0;
        while i < self.present.len()
            invariant
                i <= self.present@.len(),
                self.present@ == before,
                *self == *old(self),
                forall|j: u8|
                    #[trigger] kept@.contains(j) <==> before.take(i as int).contains(j) && j != id,
            decreases self.present@.len() - i,
        {
            let p: u8 = self.present[i];
            let ghost k0 = kept@;
            if p != id {
                kept.push(p);
            }
            proof {
                assert(before.take(i + 1) =~= before.take(i as int).push(p));
                assert forall|j: u8| #[trigger] kept@.contains(j) <==> before.take(
                    i + 1,
                ).contains(j) && j != id by {
                    lemma_push_contains(before.take(i as int), p, j);
                    lemma_push_contains(k0, p, j);
                    assert(k0.contains(j) <==> before.take(i as int).contains(j) && j != id);
                }
            }
            i += 1;
        }
        assert(before.take(i as int) =~= before);
        assert(kept@.to_set() =~= before.to_set().remove(id));
        self.present = kept;
    }

    /// Clamp the virtual cursor inside `rect` (in virtual coords).
    fn clamp_to(&mut self, rect: &Rect)
        requires
            old(self).wf(),
            rect.nonempty(),
            bounded(*rect),
        ensures
            final(self).wf(),
            final(self)@ == old(self)@.held_in(*rect),
            final(self).home == old(self).home,
            final(self).away == old(self).away,
    {
        let (lx, hx): (i32, i32) = (rect.x, rect.x + rect.w - 1);
        let (ly, hy): (i32, i32) = (rect.y, rect.y + rect.h - 1);
        if self.cursor.x < lx {
            self.cursor.x = lx;
        } else if self.cursor.x > hx {
            self.cursor.x = hx;
        }
        if self.cursor.y < ly {
            self.cursor.y = ly;
        } else if self.cursor.y > hy {
            self.cursor.y = hy;
        }
    }

    /// The user asked (via the escape key, or because the active client
    /// reported blocked input) to return control home right now,
    /// regardless of where the virtual cursor is.
    pub fn force_local(&mut self) -> (r: Action)
        requires
            old(self).wf(),
            find_screen(old(self)@.layout, 0) is Some,
        ensures
            final(self).wf(),
            final(self)@ == homecoming(old(self)@).0,
            r == homecoming(old(self)@).1,
    {
        let (x, y): (i32, i32) = self.local.local_center();
        self.enter_screen(0, x, y);
        Action::SwitchToLocal { x, y }
    }

    /// The client with the given id disconnected: while it was active,
    /// drop back to the local screen. Its screen is closed to crossings
    /// of a guarded session until it connects again.
    pub fn on_client_disconnected(&mut self, id: u8) -> (r: Action)
        requires
            old(self).wf(),
            find_screen(old(self)@.layout, 0) is Some,
        ensures
            final(self).wf(),
            old(self)@.cursor.mode == Mode::Remote(id) ==> final(self)@ == homecoming(
                old(self)@,
            ).0.parted(id) && r == homecoming(old(self)@).1,
            old(self)@.cursor.mode != Mode::Remote(id) ==> final(self)@ == old(self)@.parted(id)
                && r == Action::Nothing,
    {
        self.part(id);
        if self.cursor.mode == Mode::Remote(id) {
            self.force_local()
        } else {
            Action::Nothing
        }
    }

    /// A client was refused for good: like a disconnect, and its screen
    /// leaves the desktop.
    pub fn on_client_removed(&mut self, id: u8) -> (r: Action)
        requires
            old(self).wf(),
            find_screen(old(self)@.layout, 0) is Some,
            id != 0,
        ensures
            final(self).wf(),
            old(self)@.cursor.mode == Mode::Remote(id) ==> final(self)@ == homecoming(
                old(self)@,
            ).0.parted(id).without_screen(id) && r == homecoming(old(self)@).1,
            old(self)@.cursor.mode != Mode::Remote(id) ==> final(self)@ == old(self)@.parted(
                id,
            ).without_screen(id) && r == Action::Nothing,
            find_screen(final(self)@.layout, 0) is Some,
    {
        let action: Action = self.on_client_disconnected(id);
        let ghost st = self@;
        let mut kept: Vec<Screen> = Vec::new();
        let ghost keep = |e: Screen| e.id != id;
        let mut i: usize = 0;
        proof {
            reveal(Seq::filter);
            assert(st.layout.take(0) =~= Seq::<Screen>::empty());
        }
        while i < self.layout.screens.len()
            invariant
                i <= self.layout.screens@.len(),
                st.layout == self.layout.screens@,
                st == self@,
                self.wf(),
                keep == (|e: Screen| e.id != id),
                kept@ == st.layout.take(i as int).filter(keep),
            decreases self.layout.screens@.len() - i,
        {
            proof {
                reveal(Seq::filter);
                let next = st.layout.take(i + 1);
                assert(next.drop_last() =~= st.layout.take(i as int));
                assert(next.last() == st.layout[i as int]);
            }
            if self.layout.screens[i].id != id {
                kept.push(self.layout.screens[i].clone());
            }
            i += 1;
        }
        proof {
            assert(st.layout.take(i as int) =~= st.layout);
            lemma_without_screen(st, id);
        }
        self.layout = Layout::new(kept);
        action
    }

    /// Is the id a guest's?
    fn is_guest(&self, id: u8) -> (r: bool)
        ensures
            r == self@.guests.contains(id),
    {
        let mut i: usize = 0;
        while i < self.guests.len()
            invariant
                i <= self.guests@.len(),
                forall|k: int| 0 <= k < i ==> self.guests@[k] != id,
            decreases self.guests@.len() - i,
        {
            if self.guests[i] == id {
                assert(self.guests@.contains(id));
                return true;
            }
            i += 1;
        }
        false
    }

    /// The guests' screens that stay beside a new layout.
    fn staying(&self, layout: &Layout) -> (r: Vec<Screen>)
        ensures
            r@ == self@.layout.filter(|e: Screen| stays(self@.guests, layout@, e)),
    {
        let ghost s = self@.layout;
        let ghost keep = |e: Screen| stays(self@.guests, layout@, e);
        let mut kept: Vec<Screen> = Vec::new();
        let mut i: usize = 0;
        proof {
            reveal(Seq::filter);
            assert(s.take(0) =~= Seq::<Screen>::empty());
        }
        while i < self.layout.screens.len()
            invariant
                i <= self.layout.screens@.len(),
                s == self.layout.screens@,
                keep == (|e: Screen| stays(self@.guests, layout@, e)),
                kept@ == s.take(i as int).filter(keep),
            decreases self.layout.screens@.len() - i,
        {
            proof {
                reveal(Seq::filter);
                assert(s.take(i + 1).drop_last() =~= s.take(i as int));
                assert(s.take(i + 1).last() == s[i as int]);
            }
            let e: &Screen = &self.layout.screens[i];
            if self.is_guest(e.id) && layout.find(e.id).is_none() && !has_name(
                layout,
                e.name.as_str(),
            ) {
                kept.push(e.clone());
            }
            i += 1;
        }
        assert(s.take(i as int) =~= s);
        kept
    }

    /// The guests whose ids a new layout leaves free.
    fn remaining_guests(&self, layout: &Layout) -> (r: Vec<u8>)
        ensures
            r@.to_set() == Set::new(
                |id: u8| self@.guests.contains(id) && find_screen(layout@, id) is None,
            ),
    {
        let mut out: Vec<u8> = Vec::new();
        let mut i: usize = 0;
        while i < self.guests.len()
            invariant
                i <= self.guests@.len(),
                forall|id: u8|
                    out@.contains(id) <==> self.guests@.take(i as int).contains(id)
                        && #[trigger] find_screen(layout@, id) is None,
            decreases self.guests@.len() - i,
        {
            let id: u8 = self.guests[i];
            let ghost before = out@;
            let free: bool = layout.find(id).is_none();
            if free {
                out.push(id);
            }
            proof {
                let g = self.guests@;
                assert forall|j: u8|
                    out@.contains(j) <==> g.take(i + 1).contains(j) && #[trigger] find_screen(
                        layout@,
                        j,
                    ) is None by {
                    lemma_push_contains(g.take(i as int), id, j);
                    assert(g.take(i + 1) =~= g.take(i as int).push(id));
                    if free {
                        lemma_push_contains(before, id, j);
                    }
                }
            }
            i += 1;
        }
        proof {
            assert(self.guests@.take(i as int) =~= self.guests@);
            assert forall|id: u8|
                out@.to_set().contains(id) == (self@.guests.contains(id) && find_screen(
                    layout@,
                    id,
                ) is None) by {
                assert(out@.contains(id) <==> self.guests@.contains(id) && find_screen(
                    layout@,
                    id,
                ) is None);
            }
            assert(out@.to_set() =~= Set::new(
                |id: u8| self@.guests.contains(id) && find_screen(layout@, id) is None,
            ));
        }
        out
    }

    /// Adopt a new layout at runtime (config hot-reload).
    ///
    /// If the cursor was on a remote client it is brought home first
    /// (`SwitchToLocal` at the new local center); if it was already local
    /// the virtual cursor is re-anchored to the local center without
    /// moving the physical one. A layout whose local screen (id 0) is
    /// missing is rejected and leaves the session untouched. The screens
    /// of guests that the layout does not name stay.
    pub fn swap_layout(&mut self, layout: Layout) -> (r: Vec<Action>)
        requires
            old(self).wf(),
            bounded_layout(layout@),
        ensures
            final(self).wf(),
            final(self)@ == swapped(old(self)@, layout@).0,
            r@ == swapped(old(self)@, layout@).1,
    {
        let ghost st = self@;
        let ghost offered = layout@;
        let mut actions: Vec<Action> = Vec::new();
        proof {
            lookup_is_complete(layout@, 0);
        }
        let local: Rect = match layout.find(0) {
            Some(s) => s.rect,
            None => {
                return actions;
            },
        };
        let was_remote: bool = self.cursor.mode != Mode::Local;
        proof {
            lemma_found_is_bounded(layout@, 0);
        }
        let (x, y): (i32, i32) = local.center();
        let guests: Vec<u8> = self.remaining_guests(&layout);
        let mut kept: Vec<Screen> = self.staying(&layout);
        proof {
            let all = merged(st, offered);
            assert forall|i: int, j: int|
                #![trigger all[i], all[j]]
                0 <= i < all.len() && 0 <= j < all.len() && all[i].id == all[j].id implies spans(
                all[i].rect,
                all[j].rect,
            ) by {
                lemma_merged(st, offered, i);
                lemma_merged(st, offered, j);
                lookup_is_complete(offered, all[i].id);
                let n = offered.len();
                if i < n && j < n {
                    assert(spans(offered[i].rect, offered[j].rect));
                } else if i < n {
                    assert(offered[i].id == all[j].id);
                } else if j < n {
                    assert(offered[j].id == all[i].id);
                } else {
                    let a = choose|a: int| 0 <= a < st.layout.len() && st.layout[a] == all[i];
                    let b = choose|b: int| 0 <= b < st.layout.len() && st.layout[b] == all[j];
                    assert(spans(st.layout[a].rect, st.layout[b].rect));
                }
            }
            lemma_merged_home(st, offered);
        }
        let mut layout: Layout = layout;
        layout.screens.append(&mut kept);
        self.layout = layout;
        self.local = local;
        self.cursor = Cursor { x, y, mode: Mode::Local };
        self.guests = guests;
        self.clear_boundary_state();
        if was_remote {
            let (x, y): (i32, i32) = local.local_center();
            actions.push(Action::SwitchToLocal { x, y });
        }
        actions
    }

    /// Forward a message to the client that has control, if any.
    fn forward_while_remote(&self, msg: Message) -> (r: Vec<Action>)
        ensures
            r@ == if self@.cursor.mode is Remote {
                seq![Action::Send(msg)]
            } else {
                Seq::<Action>::empty()
            },
    {
        let mut actions: Vec<Action> = Vec::new();
        match self.cursor.mode {
            Mode::Remote(_) => {
                actions.push(Action::Send(msg));
            },
            Mode::Local => {},
        }
        actions
    }
}

impl Boundary {
    /// The mask without `dir` when the motion runs away from it, or (with
    /// a trustworthy report) against it.
    fn after_motion(bits: u8, dir: Direction, fresh: bool, dx: i32, dy: i32) -> (r: u8)
        requires
            bits < 16,
        ensures
            r < 16,
            walls(r) =~= if pulls(dir, dx as int, dy as int) || (fresh && pushes(
                dir,
                dx as int,
                dy as int,
            )) {
                walls(bits).remove(dir)
            } else {
                walls(bits)
            },
    {
        if pulls_inward(dir, dx, dy) || (fresh && pushes_outward(dir, dx, dy)) {
            disarmed(bits, dir)
        } else {
            bits
        }
    }

    /// [`Edge::pushed`].
    fn push(&mut self, fresh: bool, dx: i32, dy: i32, now: u64)
        requires
            old(self).ok(),
        ensures
            final(self).ok(),
            final(self).edge() == old(self).edge().pushed(fresh, dx as int, dy as int, now),
    {
        let b: u8 = Self::after_motion(self.at_wall, Direction::Left, fresh, dx, dy);
        let b: u8 = Self::after_motion(b, Direction::Right, fresh, dx, dy);
        let b: u8 = Self::after_motion(b, Direction::Top, fresh, dx, dy);
        let b: u8 = Self::after_motion(b, Direction::Bottom, fresh, dx, dy);
        let ghost want = self.edge().pushed(fresh, dx as int, dy as int, now).armed;
        assert(walls(b) =~= want) by {
            assert forall|d: Direction| walls(b).contains(d) == want.contains(d) by {
                match d {
                    Direction::Left => {},
                    Direction::Right => {},
                    Direction::Top => {},
                    Direction::Bottom => {},
                }
            }
        }
        self.at_wall = b;
        if dx < 0 {
            self.last_out = Some(Push { dir: Direction::Left, at: now });
        } else if dx > 0 {
            self.last_out = Some(Push { dir: Direction::Right, at: now });
        }
        if dy < 0 {
            self.last_out = Some(Push { dir: Direction::Top, at: now });
        } else if dy > 0 {
            self.last_out = Some(Push { dir: Direction::Bottom, at: now });
        }
    }
}

impl Session {
    /// The edge of screen `from` that a push fires, given the mask of the
    /// armed walls.
    fn fired(&self, from: u8, at_wall: u8, dx: i32, dy: i32) -> (r: Option<Direction>)
        ensures
            forall|e: Edge|
                e.armed == walls(at_wall) ==> r == #[trigger] self@.fires(
                    from,
                    e,
                    dx as int,
                    dy as int,
                ),
    {
        if dx != 0 {
            let h: Direction = if dx < 0 {
                Direction::Left
            } else {
                Direction::Right
            };
            if armed(at_wall, h) && self.edge_alive(from, h) {
                return Some(h);
            }
        }
        if dy != 0 {
            let v: Direction = if dy < 0 {
                Direction::Top
            } else {
                Direction::Bottom
            };
            if armed(at_wall, v) && self.edge_alive(from, v) {
                return Some(v);
            }
        }
        None
    }

    /// Cursor is on the local screen and has moved by the delta.
    fn handle_local_motion(&mut self, dx: i32, dy: i32, now: u64) -> (r: Vec<Action>)
        requires
            old(self).wf(),
            old(self)@.local.nonempty(),
        ensures
            final(self).wf(),
            final(self)@ == home_after(old(self)@, dx as int, dy as int, now).0,
            r@ == home_after(old(self)@, dx as int, dy as int, now).1,
    {
        // An outward push through a wall that the real cursor sits on IS
        // the crossing intent: fire immediately.
        match self.fired(0, self.home.at_wall, dx, dy) {
            Some(dir) => {
                return self.cross(0, dir);
            },
            None => {},
        }
        // A delta moving away from a wall disarms it, and so does a push
        // against a dead edge.
        self.home.push(true, dx, dy, now);
        // Fallback for a stalled beacon stream.
        match self.layout.exit_direction(0, self.cursor.x, self.cursor.y) {
            None => {
                self.home.straighten();
                Vec::new()
            },
            Some(dir) => {
                let local: Rect = self.local;
                self.clamp_to(&local);
                if self.home.is_sustained(dir, now) {
                    self.home.straighten();
                    self.cross(0, dir)
                } else {
                    self.home.lean(dir, now);
                    Vec::new()
                }
            },
        }
    }

    /// Cursor is on client `id`'s screen and has moved by the delta.
    fn handle_remote_motion(&mut self, id: u8, dx: i32, dy: i32, now: u64) -> (r: Vec<Action>)
        requires
            old(self).wf(),
            find_screen(old(self)@.layout, id) matches Some(s) ==> s.rect.nonempty(),
        ensures
            final(self).wf(),
            final(self)@ == away_after(old(self)@, id, dx as int, dy as int, now).0,
            r@ == away_after(old(self)@, id, dx as int, dy as int, now).1,
    {
        let rect: Rect = match self.layout.find(id) {
            Some(s) => s.rect,
            None => {
                return Vec::new();
            },
        };
        proof {
            lemma_found_is_bounded(self@.layout, id);
        }
        let fresh: bool = match self.away_beacon {
            Some(t) => elapsed(now, t) < REMOTE_BEACON_FRESH,
            None => false,
        };
        if fresh {
            match self.fired(id, self.away.at_wall, dx, dy) {
                Some(dir) => {
                    return self.cross(id, dir);
                },
                None => {},
            }
        }
        self.away.push(fresh, dx, dy, now);
        // No confirmed crossing: forward the motion verbatim.
        let mut actions: Vec<Action> = Vec::new();
        actions.push(Action::Send(Message::MouseMoveRel { dx, dy }));
        match self.layout.exit_direction(id, self.cursor.x, self.cursor.y) {
            None => {
                self.away.straighten();
                actions
            },
            Some(dir) => {
                self.clamp_to(&rect);
                if !fresh && self.away.is_sustained(dir, now) {
                    self.away.straighten();
                    if self.edge_alive(id, dir) {
                        self.cross(id, dir)
                    } else {
                        actions
                    }
                } else {
                    self.away.lean(dir, now);
                    actions
                }
            },
        }
    }

    /// Relative motion of the physical cursor while the virtual cursor is
    /// anywhere.
    fn on_local_motion(&mut self, dx: i32, dy: i32, now: u64) -> (r: Vec<Action>)
        requires
            old(self).wf(),
            acceptable(old(self)@, Message::MouseMoveRel { dx, dy }),
        ensures
            final(self).wf(),
            final(self)@ == motion(old(self)@, dx as int, dy as int, now).0,
            r@ == motion(old(self)@, dx as int, dy as int, now).1,
    {
        self.cursor.x = self.cursor.x + dx;
        self.cursor.y = self.cursor.y + dy;
        match self.cursor.mode {
            Mode::Local => self.handle_local_motion(dx, dy, now),
            Mode::Remote(id) => self.handle_remote_motion(id, dx, dy, now),
        }
    }

    /// A beacon reporting the *real* cursor position on the local screen
    /// (capture pixels). Re-anchors the virtual cursor and updates the
    /// wall-arm state; may fire a crossing when the cursor parks on a
    /// wall mid-sweep.
    fn on_local_beacon(&mut self, x: i32, y: i32, now: u64) -> (r: Vec<Action>)
        requires
            old(self).wf(),
            old(self)@.cursor.mode is Local,
            acceptable(old(self)@, Message::MouseMoveAbs { x, y }),
        ensures
            final(self).wf(),
            final(self)@ == home_beacon(old(self)@, x as int, y as int, now).0,
            r@ == home_beacon(old(self)@, x as int, y as int, now).1,
    {
        self.cursor.x = self.local.x + x;
        self.cursor.y = self.local.y + y;
        let bits: u8 = wall_bits(&self.local, x, y);
        assert(walls(bits) == touched(self.local, x as int, y as int));
        match self.home.report(bits, now) {
            Some(dir) => self.cross(0, dir),
            None => Vec::new(),
        }
    }

    /// A client reported where its *real* cursor is (client-local
    /// pixels), `now` nanoseconds on the session's clock.
    ///
    /// The real position is the ground truth on a remote screen, so it
    /// both re-anchors the virtual cursor and updates the wall-arm state.
    /// When the beacon *parks* the cursor on a wall mid-push, the
    /// crossing is returned here so the caller can execute it on the
    /// spot.
    pub fn on_remote_beacon_at(&mut self, id: u8, x: i32, y: i32, now: u64) -> (r: Vec<Action>)
        requires
            old(self).wf(),
        ensures
            final(self).wf(),
            final(self)@ == away_beacon(old(self)@, id, x as int, y as int, now).0,
            r@ == away_beacon(old(self)@, id, x as int, y as int, now).1,
    {
        if self.cursor.mode != Mode::Remote(id) {
            return Vec::new();
        }
        let rect: Rect = match self.layout.find(id) {
            Some(s) => s.rect,
            None => {
                return Vec::new();
            },
        };
        proof {
            lemma_found_is_bounded(self@.layout, id);
        }
        self.away_beacon = Some(now);
        let x: i32 = clamp_coord(x, rect.w);
        let y: i32 = clamp_coord(y, rect.h);
        self.cursor.x = rect.x + x;
        self.cursor.y = rect.y + y;
        let bits: u8 = wall_bits(&rect, x, y);
        assert(walls(bits) == touched(rect, x as int, y as int));
        match self.away.report(bits, now) {
            Some(dir) => self.cross(id, dir),
            None => Vec::new(),
        }
    }

    /// A client reported where its real cursor is, right now. See
    /// [`Session::on_remote_beacon_at`]; the time is the session clock's.
    pub fn on_remote_beacon(&mut self, id: u8, x: i32, y: i32) -> (r: Vec<Action>)
        requires
            old(self).wf(),
        ensures
            final(self).wf(),
            exists|now: u64|
                {
                    let out = #[trigger] away_beacon(old(self)@, id, x as int, y as int, now);
                    final(self)@ == out.0 && r@ == out.1
                },
    {
        let now: u64 = self.clock.now();
        let ghost st = self@;
        let r: Vec<Action> = self.on_remote_beacon_at(id, x, y, now);
        assert(self@ == away_beacon(st, id, x as int, y as int, now).0);
        r
    }

    /// Process a *local* input event (the user's physical mouse/keyboard
    /// on the server machine), `now` nanoseconds on the session's clock.
    /// Returns everything the caller must do.
    ///
    /// Motion is in pixels of the screen that has control.
    pub fn on_local_event_at(&mut self, msg: Message, now: u64) -> (r: Vec<Action>)
        requires
            old(self).wf(),
            acceptable(old(self)@, msg),
        ensures
            final(self).wf(),
            final(self)@ == local_event(old(self)@, msg, now).0,
            r@ == local_event(old(self)@, msg, now).1,
    {
        match msg {
            Message::MouseMoveRel { dx, dy } => self.on_local_motion(dx, dy, now),
            Message::MouseMoveAbs { x, y } => match self.cursor.mode {
                Mode::Local => self.on_local_beacon(x, y, now),
                Mode::Remote(_) => Vec::new(),
            },
            Message::MouseButton { button, pressed } => self.forward_while_remote(
                Message::MouseButton { button, pressed },
            ),
            Message::MouseWheel { dx, dy } => self.forward_while_remote(
                Message::MouseWheel { dx, dy },
            ),
            Message::Key { kind, key } => self.forward_while_remote(Message::Key { kind, key }),
            Message::Escape => {
                let mut actions: Vec<Action> = Vec::new();
                actions.push(self.force_local());
                actions
            },
            _ => Vec::new(),
        }
    }

    /// Process a *local* input event right now. See
    /// [`Session::on_local_event_at`]; the time is the session clock's.
    pub fn on_local_event(&mut self, msg: Message) -> (r: Vec<Action>)
        requires
            old(self).wf(),
            acceptable(old(self)@, msg),
        ensures
            final(self).wf(),
            exists|now: u64|
                {
                    let out = #[trigger] local_event(old(self)@, msg, now);
                    final(self)@ == out.0 && r@ == out.1
                },
    {
        let now: u64 = self.clock.now();
        let ghost st = self@;
        let r: Vec<Action> = self.on_local_event_at(msg, now);
        assert(self@ == local_event(st, msg, now).0);
        r
    }

    /// Can the event be processed? See [`acceptable`].
    pub fn accepts(&self, msg: &Message) -> (r: bool)
        requires
            self.wf(),
        ensures
            r == acceptable(self@, *msg),
    {
        match msg {
            Message::MouseMoveRel { dx, dy } => {
                if self.cursor.x.checked_add(*dx).is_none() {
                    return false;
                }
                if self.cursor.y.checked_add(*dy).is_none() {
                    return false;
                }
                match self.cursor.mode {
                    Mode::Local => self.local.w > 0 && self.local.h > 0,
                    Mode::Remote(id) => match self.layout.find(id) {
                        Some(s) => s.rect.w > 0 && s.rect.h > 0,
                        None => true,
                    },
                }
            },
            Message::MouseMoveAbs { x, y } => match self.cursor.mode {
                Mode::Local => self.local.x.checked_add(*x).is_some()
                    && self.local.y.checked_add(*y).is_some(),
                Mode::Remote(_) => true,
            },
            Message::Escape => self.layout.find(0).is_some(),
            _ => true,
        }
    }
}

/// A coordinate moved onto a side of the given length.
fn clamp_coord(v: i32, size: i32) -> (r: i32)
    ensures
        r == clamped(v as int, 0, imax(size - 1, 0)),
{
    let last: i32 = if size > 0 {
        size - 1
    } else {
        0
    };
    if v < 0 {
        0
    } else if v > last {
        last
    } else {
        v
    }
}

/// Input events change neither the layout, nor who is connected, nor the
/// lock on the walls.
pub proof fn event_keeps_layout(st: State, msg: Message, now: u64)
    ensures
        local_event(st, msg, now).0.layout == st.layout,
        local_event(st, msg, now).0.local == st.local,
        local_event(st, msg, now).0.guarded == st.guarded,
        local_event(st, msg, now).0.present == st.present,
        local_event(st, msg, now).0.locked == st.locked,
{
}

/// Position beacons change neither the layout, nor who is connected, nor
/// the lock on the walls.
pub proof fn beacon_keeps_layout(st: State, id: u8, x: int, y: int, now: u64)
    ensures
        away_beacon(st, id, x, y, now).0.layout == st.layout,
        away_beacon(st, id, x, y, now).0.local == st.local,
        away_beacon(st, id, x, y, now).0.guarded == st.guarded,
        away_beacon(st, id, x, y, now).0.present == st.present,
        away_beacon(st, id, x, y, now).0.locked == st.locked,
{
}

/// Resizing a screen keeps every id of the layout and every position.
pub proof fn resizing_keeps_ids(s: Seq<Screen>, id: u8, info: ScreenInfo)
    ensures
        forall|other: u8|
            find_screen(s, other) is Some <==> #[trigger] find_screen(
                resized(s, id, info),
                other,
            ) is Some,
        forall|other: u8|
            #[trigger] find_screen(resized(s, id, info), other) matches Some(e) ==> {
                &&& e.rect.x == find_screen(s, other)->0.rect.x
                &&& e.rect.y == find_screen(s, other)->0.rect.y
            },
{
    let p = |e: Screen| e.id == id;
    if exists|k: int| is_first(s, p, k) {
        let k = choose|k: int| is_first(s, p, k);
        lemma_resized(s, id, info, k);
    }
}

/// A session with a home screen keeps one, whatever layout it is offered.
pub proof fn swapping_keeps_home(st: State, layout: Seq<Screen>)
    requires
        find_screen(st.layout, 0) is Some,
    ensures
        find_screen(swapped(st, layout).0.layout, 0) is Some,
{
    lookup_is_complete(layout, 0);
    if find_screen(layout, 0) is Some {
        let all = merged(st, layout);
        let k = choose|k: int| 0 <= k < layout.len() && (#[trigger] layout[k]).id == 0;
        assert(all[k].id == 0);
        lookup_is_complete(all, 0);
    }
}

} // verus!
