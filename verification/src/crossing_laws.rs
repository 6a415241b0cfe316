//! When a push or a position report crosses an edge, and where the cursor
//! lands, in coordinates and in time.
use vstd::prelude::*;

use crate::layout::{
    candidate, entry, exit_side, find_screen, lookup_is_complete, neighbor_is_the_nearest_screen,
    neighbor_of, Direction,
};
use crate::protocol::{Message, Rect, Screen};
use crate::session::{
    away_beacon, home_beacon, lemma_landing, local_event, motion, pulls, pushes, Action, Cursor,
    Edge, Push, Pushing, State,
};
use crate::Mode;

verus! {

/// From the point `(x, y)`, the edge `dir` of screen `from` leads to a
/// screen that the cursor may enter: the walls are not locked, some screen
/// is reached, and it is the local one, or its client is connected where
/// that is asked for.
pub open spec fn leads(st: State, from: u8, dir: Direction, x: int, y: int) -> bool {
    &&& !st.locked
    &&& neighbor_of(st.layout, from, dir, x, y) is Some
    &&& ({
        let (id, _, _) = neighbor_of(st.layout, from, dir, x, y)->0;
        id == 0 || !st.guarded || st.present.contains(id)
    })
}

/// Nothing is armed, pushed or leaned on.
pub open spec fn at_rest(e: Edge) -> bool {
    &&& forall|d: Direction| !#[trigger] e.armed.contains(d)
    &&& e.last_out is None
    &&& e.pushing is None
}

/// `after` is `st` with control on screen `id` and the cursor at its local
/// `(x, y)`: every latch is cleared, and nothing else has changed.
pub open spec fn arrived_at(st: State, after: State, id: u8, x: int, y: int) -> bool {
    let r = find_screen(st.layout, id)->0.rect;
    &&& find_screen(st.layout, id) is Some
    &&& after.cursor.x == r.x + x
    &&& after.cursor.y == r.y + y
    &&& id == 0 ==> after.cursor.mode is Local
    &&& id != 0 ==> after.cursor.mode == Mode::Remote(id)
    &&& at_rest(after.home)
    &&& at_rest(after.away)
    &&& after.away_beacon is None
    &&& after.layout == st.layout
    &&& after.local == st.local
    &&& after.guests == st.guests
    &&& after.guarded == st.guarded
    &&& after.present == st.present
    &&& after.locked == st.locked
}

/// The action takes control to screen `id`, at its local `(x, y)`.
pub open spec fn takes_to(a: Action, id: u8, x: int, y: int) -> bool {
    match a {
        Action::SwitchTo { to, x: ax, y: ay } => id != 0 && to == id && ax == x && ay == y,
        Action::SwitchToLocal { x: ax, y: ay } => id == 0 && ax == x && ay == y,
        _ => false,
    }
}

/// An edge may be crossed exactly where it leads somewhere.
pub proof fn an_edge_is_crossed_where_it_leads(st: State, from: u8, dir: Direction)
    ensures
        st.alive(from, dir) <==> leads(st, from, dir, st.cursor.x as int, st.cursor.y as int),
        st.alive(from, dir) ==> st.try_cross(from, dir).1 == seq![st.crossed(from, dir).1]
            && st.try_cross(from, dir).0 == st.crossed(from, dir).0,
        !st.alive(from, dir) ==> st.try_cross(from, dir) == (st, Seq::<Action>::empty()),
{
}

/// A crossing goes 48 px deep, or as deep as the screen is, and in no other
/// way does it move the point of entry: through a left or right edge it
/// lands on the row at which the screen is entered, through a top or bottom
/// edge on the column. The cursor and the action that carries the crossing
/// out agree.
pub proof fn a_crossing_moves_only_across_the_edge(st: State, from: u8, dir: Direction)
    requires
        st.valid(),
        st.alive(from, dir),
    ensures
        ({
            let (id, ex, ey) = neighbor_of(
                st.layout,
                from,
                dir,
                st.cursor.x as int,
                st.cursor.y as int,
            )->0;
            let r = find_screen(st.layout, id)->0.rect;
            let (after, act) = st.crossed(from, dir);
            let (x, y) = (after.cursor.x - r.x, after.cursor.y - r.y);
            &&& id != from
            &&& arrived_at(st, after, id, x, y)
            &&& takes_to(act, id, x, y)
            &&& dir is Left || dir is Right ==> y == ey
            &&& dir is Top || dir is Bottom ==> x == ex
            &&& dir is Left ==> x == if ex >= 48 { ex - 48 } else { 0 }
            &&& dir is Right ==> x == if ex + 48 < r.w { ex + 48 } else { r.w - 1 }
            &&& dir is Top ==> y == if ey >= 48 { ey - 48 } else { 0 }
            &&& dir is Bottom ==> y == if ey + 48 < r.h { ey + 48 } else { r.h - 1 }
        }),
{
    lemma_landing(st, from, dir);
}

/// A crossing goes straight across: at a row (through a left or right edge)
/// or column (through a top or bottom edge) that the destination has, the
/// cursor lands on that same virtual row or column, 48 px behind the edge
/// that it came through where the screen is deep enough.
pub proof fn a_crossing_goes_straight_across(st: State, from: u8, dir: Direction)
    requires
        st.valid(),
        st.alive(from, dir),
        forall|i: int, j: int|
            0 <= i < j < st.layout.len() ==> (#[trigger] st.layout[i]).id != (
            #[trigger] st.layout[j]).id,
    ensures
        ({
            let after = st.crossed(from, dir).0;
            let (id, _, _) = neighbor_of(
                st.layout,
                from,
                dir,
                st.cursor.x as int,
                st.cursor.y as int,
            )->0;
            let r = find_screen(st.layout, id)->0.rect;
            &&& (dir is Left || dir is Right) && r.y <= st.cursor.y < r.y + r.h ==> after.cursor.y
                == st.cursor.y
            &&& (dir is Top || dir is Bottom) && r.x <= st.cursor.x < r.x + r.w ==> after.cursor.x
                == st.cursor.x
            &&& dir is Left && r.w > 48 ==> after.cursor.x == r.x + r.w - 49
            &&& dir is Right && r.w > 48 ==> after.cursor.x == r.x + 48
            &&& dir is Top && r.h > 48 ==> after.cursor.y == r.y + r.h - 49
            &&& dir is Bottom && r.h > 48 ==> after.cursor.y == r.y + 48
            &&& r.w > 0 && r.h > 0 ==> r.x <= after.cursor.x < r.x + r.w && r.y <= after.cursor.y
                < r.y + r.h
        }),
{
    lemma_landing(st, from, dir);
    let s = st.layout;
    let (x, y) = (st.cursor.x as int, st.cursor.y as int);
    lookup_is_complete(s, from);
    let f = find_screen(s, from)->0;
    neighbor_is_the_nearest_screen(s, f, dir, x, y);
    let n = neighbor_of(s, from, dir, x, y)->0;
    let k = choose|k: int|
        #[trigger] candidate(s, f, dir, k) && s[k].id == n.0 && (n.1, n.2) == entry(
            s[k].rect,
            dir,
            x,
            y,
        );
    lookup_is_complete(s, n.0);
    let e = find_screen(s, n.0)->0;
    let m = choose|m: int| 0 <= m < s.len() && s[m] == e;
    assert(m == k) by {
        if m < k {
            assert(s[m].id != s[k].id);
        } else if k < m {
            assert(s[k].id != s[m].id);
        }
    }
}

// ---------------------------------------------------------------------
// Pushes
// ---------------------------------------------------------------------

/// A push is outward through an edge exactly when it moves the point toward
/// that edge's side, and it moves away from the edge exactly when the
/// opposite edge is pushed.
pub proof fn a_push_moves_toward_its_edge(dir: Direction, dx: int, dy: int)
    ensures
        pushes(Direction::Left, dx, dy) <==> dx < 0,
        pushes(Direction::Right, dx, dy) <==> dx > 0,
        pushes(Direction::Top, dx, dy) <==> dy < 0,
        pushes(Direction::Bottom, dx, dy) <==> dy > 0,
        pulls(Direction::Left, dx, dy) <==> dx > 0,
        pulls(Direction::Right, dx, dy) <==> dx < 0,
        pulls(Direction::Top, dx, dy) <==> dy > 0,
        pulls(Direction::Bottom, dx, dy) <==> dy < 0,
        dir.opposite().opposite() == dir,
        pulls(dir, dx, dy) <==> pushes(dir.opposite(), dx, dy),
{
}

/// What a motion that crossed nothing leaves of the latches. A wall stays
/// armed only while the motion does not run away from it, and does not run
/// against it either; one whose report is too old to be trusted survives
/// being run against. The last push is the motion's: upward or downward
/// where it has such a part, else to the side.
pub open spec fn worn(before: Edge, after: Edge, trusted: bool, dx: int, dy: int, now: u64) -> bool {
    &&& after.armed.contains(Direction::Left) <==> before.armed.contains(Direction::Left) && dx <= 0
        && (trusted ==> dx == 0)
    &&& after.armed.contains(Direction::Right) <==> before.armed.contains(Direction::Right) && dx
        >= 0 && (trusted ==> dx == 0)
    &&& after.armed.contains(Direction::Top) <==> before.armed.contains(Direction::Top) && dy <= 0
        && (trusted ==> dy == 0)
    &&& after.armed.contains(Direction::Bottom) <==> before.armed.contains(Direction::Bottom) && dy
        >= 0 && (trusted ==> dy == 0)
    &&& dy < 0 ==> after.last_out == Some(Push { dir: Direction::Top, at: now })
    &&& dy > 0 ==> after.last_out == Some(Push { dir: Direction::Bottom, at: now })
    &&& dy == 0 && dx < 0 ==> after.last_out == Some(Push { dir: Direction::Left, at: now })
    &&& dy == 0 && dx > 0 ==> after.last_out == Some(Push { dir: Direction::Right, at: now })
    &&& dy == 0 && dx == 0 ==> after.last_out == before.last_out
}

/// The fallback through `dir` has been going on for at least 150 ms.
pub open spec fn leaned_long(e: Edge, dir: Direction, now: u64) -> bool {
    e.pushing is Some && e.pushing->0.dir == dir && now >= e.pushing->0.since + 150_000_000
}

/// A push through the armed wall `dir` crosses there: the wall is armed,
/// the motion runs toward it, and it leads somewhere from the point that
/// the motion reaches. A left or right wall comes before a top or bottom
/// one.
pub open spec fn struck(
    st: State,
    from: u8,
    e: Edge,
    dir: Direction,
    dx: int,
    dy: int,
    x: int,
    y: int,
) -> bool {
    &&& e.armed.contains(dir)
    &&& leads(st, from, dir, x, y)
    &&& dir is Left ==> dx < 0
    &&& dir is Right ==> dx > 0
    &&& dir is Top ==> dy < 0
    &&& dir is Bottom ==> dy > 0
}

/// `st` with the virtual cursor at `(x, y)`.
pub open spec fn pointed(st: State, x: int, y: int) -> State {
    State { cursor: Cursor { x: x as i32, y: y as i32, mode: st.cursor.mode }, ..st }
}

/// The nearest of the `size` lines from `lo` on to the line `v`.
pub open spec fn nearest_line(v: int, lo: int, size: int, to: int) -> bool {
    &&& lo <= v < lo + size ==> to == v
    &&& v < lo ==> to == lo
    &&& v >= lo && v >= lo + size ==> to == lo + size - 1
}

/// Motion at home, push by push. At an armed wall that leads somewhere it
/// crosses at once. Otherwise the cursor follows the motion; where it would
/// leave the screen it is held at the edge, and only when it has been
/// pushed out there for 150 ms without a report in between does it cross,
/// if the edge leads somewhere.
pub proof fn motion_at_home(st: State, dx: int, dy: int, now: u64)
    requires
        st.cursor.mode is Local,
        find_screen(st.layout, 0) matches Some(e) && e.rect == st.local,
        st.local.w > 0 && st.local.h > 0,
        st.local.fits(),
        i32::MIN <= st.cursor.x + dx <= i32::MAX,
        i32::MIN <= st.cursor.y + dy <= i32::MAX,
    ensures
        ({
            let (x, y) = (st.cursor.x + dx, st.cursor.y + dy);
            let r = st.local;
            let (s, acts) = motion(st, dx, dy, now);
            let there = pointed(st, x, y);
            let out = exit_side(st.layout, 0, x, y);
            let side = if struck(st, 0, st.home, Direction::Left, dx, dy, x, y) {
                Some(Direction::Left)
            } else if struck(st, 0, st.home, Direction::Right, dx, dy, x, y) {
                Some(Direction::Right)
            } else if struck(st, 0, st.home, Direction::Top, dx, dy, x, y) {
                Some(Direction::Top)
            } else if struck(st, 0, st.home, Direction::Bottom, dx, dy, x, y) {
                Some(Direction::Bottom)
            } else {
                None
            };
            &&& side matches Some(d) ==> s == there.crossed(0, d).0 && acts == seq![
                there.crossed(0, d).1,
            ]
            &&& side is None && out is None ==> {
                &&& acts.len() == 0
                &&& s == State { home: s.home, ..there }
                &&& worn(st.home, s.home, true, dx, dy, now)
                &&& s.home.pushing is None
            }
            &&& side is None && out is Some ==> exists|hx: int, hy: int| {
                let d = out->0;
                let held = #[trigger] pointed(st, hx, hy);
                &&& nearest_line(x, r.x as int, r.w as int, hx)
                &&& nearest_line(y, r.y as int, r.h as int, hy)
                &&& leaned_long(st.home, d, now) && leads(st, 0, d, hx, hy) ==> s == held.crossed(
                    0,
                    d,
                ).0 && acts == seq![held.crossed(0, d).1]
                &&& !(leaned_long(st.home, d, now) && leads(st, 0, d, hx, hy)) ==> {
                    &&& acts.len() == 0
                    &&& s == State { home: s.home, ..held }
                    &&& worn(st.home, s.home, true, dx, dy, now)
                    &&& leaned_long(st.home, d, now) ==> s.home.pushing is None
                    &&& !leaned_long(st.home, d, now) ==> s.home.pushing == Some(
                        Pushing {
                            dir: d,
                            since: if st.home.pushing is Some && st.home.pushing->0.dir == d {
                                st.home.pushing->0.since
                            } else {
                                now
                            },
                        },
                    )
                }
            }
        }),
{
    let (x, y) = (st.cursor.x + dx, st.cursor.y + dy);
    let m = st.moved(dx, dy);
    assert(m == pointed(st, x, y));
    let h = m.held_in(st.local);
    assert(h == pointed(st, h.cursor.x as int, h.cursor.y as int));
    let e = m.home.pushed(true, dx, dy, now);
    assert(worn(st.home, e, true, dx, dy, now));
    let free = State { home: e.upright(), ..h };
    if let Some(d) = exit_side(st.layout, 0, x, y) {
        if free.alive(0, d) {
            assert(free.crossed(0, d) == h.crossed(0, d));
        }
    }
}

/// The client's last report is less than 120 ms old.
pub open spec fn trusted(st: State, now: u64) -> bool {
    st.away_beacon is Some && now < st.away_beacon->0 + 120_000_000
}

/// Motion while control is on a client's screen. A wall that a recent
/// report armed is crossed by the push that runs against it. Otherwise the
/// motion is passed on to the client as it is, and only while the client's
/// reports have stalled does a push of 150 ms cross.
pub proof fn motion_away(st: State, id: u8, screen: Screen, dx: i32, dy: i32, now: u64)
    requires
        st.cursor.mode == Mode::Remote(id),
        find_screen(st.layout, id) == Some(screen),
        screen.rect.w > 0 && screen.rect.h > 0,
        screen.rect.fits(),
        i32::MIN <= st.cursor.x + dx <= i32::MAX,
        i32::MIN <= st.cursor.y + dy <= i32::MAX,
    ensures
        ({
            let (x, y) = (st.cursor.x + dx, st.cursor.y + dy);
            let r = screen.rect;
            let (s, acts) = motion(st, dx as int, dy as int, now);
            let there = pointed(st, x, y);
            let fresh = trusted(st, now);
            let out = exit_side(st.layout, id, x, y);
            let side = if !fresh {
                None
            } else if struck(st, id, st.away, Direction::Left, dx as int, dy as int, x, y) {
                Some(Direction::Left)
            } else if struck(st, id, st.away, Direction::Right, dx as int, dy as int, x, y) {
                Some(Direction::Right)
            } else if struck(st, id, st.away, Direction::Top, dx as int, dy as int, x, y) {
                Some(Direction::Top)
            } else if struck(st, id, st.away, Direction::Bottom, dx as int, dy as int, x, y) {
                Some(Direction::Bottom)
            } else {
                None
            };
            let passed_on = seq![Action::Send(Message::MouseMoveRel { dx, dy })];
            &&& side matches Some(d) ==> s == there.crossed(id, d).0 && acts == seq![
                there.crossed(id, d).1,
            ]
            &&& side is None && out is None ==> {
                &&& acts == passed_on
                &&& s == State { away: s.away, ..there }
                &&& worn(st.away, s.away, fresh, dx as int, dy as int, now)
                &&& s.away.pushing is None
            }
            &&& side is None && out is Some ==> exists|hx: int, hy: int| {
                let d = out->0;
                let held = #[trigger] pointed(st, hx, hy);
                let late = !fresh && leaned_long(st.away, d, now);
                &&& nearest_line(x, r.x as int, r.w as int, hx)
                &&& nearest_line(y, r.y as int, r.h as int, hy)
                &&& late && leads(st, id, d, hx, hy) ==> s == held.crossed(id, d).0 && acts == seq![
                    held.crossed(id, d).1,
                ]
                &&& !(late && leads(st, id, d, hx, hy)) ==> {
                    &&& acts == passed_on
                    &&& s == State { away: s.away, ..held }
                    &&& worn(st.away, s.away, fresh, dx as int, dy as int, now)
                    &&& late ==> s.away.pushing is None
                    &&& !late ==> s.away.pushing == Some(
                        Pushing {
                            dir: d,
                            since: if st.away.pushing is Some && st.away.pushing->0.dir == d {
                                st.away.pushing->0.since
                            } else {
                                now
                            },
                        },
                    )
                }
            }
        }),
{
    let (x, y) = (st.cursor.x + dx, st.cursor.y + dy);
    let m = st.moved(dx as int, dy as int);
    assert(m == pointed(st, x, y));
    let h = m.held_in(screen.rect);
    assert(h == pointed(st, h.cursor.x as int, h.cursor.y as int));
    let fresh = trusted(st, now);
    let e = m.away.pushed(fresh, dx as int, dy as int, now);
    assert(worn(st.away, e, fresh, dx as int, dy as int, now));
    let free = State { away: e.upright(), ..h };
    if let Some(d) = exit_side(st.layout, id, x, y) {
        if free.alive(id, d) {
            assert(free.crossed(id, d) == h.crossed(id, d));
        }
    }
}

// ---------------------------------------------------------------------
// Position reports
// ---------------------------------------------------------------------

/// `armed` holds exactly the walls within two pixels of which the local
/// point `(x, y)` lies, on a screen of the size of `r`. A side of four
/// pixels or less has no walls.
pub open spec fn within_two_pixels(armed: Set<Direction>, r: Rect, x: int, y: int) -> bool {
    &&& armed.contains(Direction::Left) <==> r.w > 4 && x <= 1
    &&& armed.contains(Direction::Right) <==> r.w > 4 && x >= r.w - 2
    &&& armed.contains(Direction::Top) <==> r.h > 4 && y <= 1
    &&& armed.contains(Direction::Bottom) <==> r.h > 4 && y >= r.h - 2
}

/// The report at the local point `(x, y)` completes a crossing through
/// `dir`: that wall was pushed against less than 40 ms ago, the cursor has
/// only now come within two pixels of it, and it leads somewhere.
pub open spec fn completes(
    st: State,
    from: u8,
    e: Edge,
    r: Rect,
    dir: Direction,
    x: int,
    y: int,
    now: u64,
) -> bool {
    &&& e.last_out is Some && e.last_out->0.dir == dir && now < e.last_out->0.at + 40_000_000
    &&& !e.armed.contains(dir)
    &&& dir is Left ==> r.w > 4 && x <= 1
    &&& dir is Right ==> r.w > 4 && x >= r.w - 2
    &&& dir is Top ==> r.h > 4 && y <= 1
    &&& dir is Bottom ==> r.h > 4 && y >= r.h - 2
    &&& leads(st, from, dir, r.x + x, r.y + y)
}

/// A report of where the real cursor is on the local screen puts the
/// virtual one there, arms exactly the walls that it touches, and ends a
/// fallback where it touches none. It crosses only where it completes a
/// push.
pub proof fn a_report_at_home(st: State, x: int, y: int, now: u64)
    requires
        st.cursor.mode is Local,
        i32::MIN <= st.local.x + x <= i32::MAX,
        i32::MIN <= st.local.y + y <= i32::MAX,
    ensures
        ({
            let r = st.local;
            let (s, acts) = home_beacon(st, x, y, now);
            let there = pointed(st, r.x + x, r.y + y);
            let dir = st.home.last_out->0.dir;
            &&& completes(st, 0, st.home, r, dir, x, y, now) ==> s == there.crossed(0, dir).0
                && acts == seq![there.crossed(0, dir).1]
            &&& !completes(st, 0, st.home, r, dir, x, y, now) ==> {
                &&& acts.len() == 0
                &&& s == State { home: s.home, ..there }
                &&& within_two_pixels(s.home.armed, r, x, y)
                &&& s.home.last_out == st.home.last_out
                &&& s.home.pushing == if exists|d: Direction| s.home.armed.contains(d) {
                    st.home.pushing
                } else {
                    None
                }
            }
        }),
{
    let r = st.local;
    let at = crate::walls::touched(r, x, y);
    let dir = st.home.last_out->0.dir;
    let there = pointed(st, r.x + x, r.y + y);
    let s = State { home: st.home.reported(at), ..there };
    if s.alive(0, dir) {
        assert(s.crossed(0, dir) == there.crossed(0, dir));
    }
    lemma_some_wall(at);
}

proof fn lemma_some_wall(at: Set<Direction>)
    ensures
        (exists|d: Direction| at.contains(d)) <==> !(at =~= Set::<Direction>::empty()),
{
    if !(at =~= Set::<Direction>::empty()) {
        assert(exists|d: Direction| at.contains(d));
    }
}

/// A client's report of where its real cursor is: the point is taken to the
/// nearest pixel of the screen, then it counts as a report at home does. A
/// client that does not have control is not listened to.
pub proof fn a_report_from_a_client(st: State, id: u8, screen: Screen, x: int, y: int, now: u64)
    requires
        st.cursor.mode == Mode::Remote(id),
        find_screen(st.layout, id) == Some(screen),
        screen.rect.w > 0 && screen.rect.h > 0,
        screen.rect.fits(),
    ensures
        ({
            let r = screen.rect;
            let (s, acts) = away_beacon(st, id, x, y, now);
            forall|px: int, py: int| #[trigger]
                nearest_line(x, 0, r.w as int, px) && #[trigger] nearest_line(
                    y,
                    0,
                    r.h as int,
                    py,
                ) ==> {
                let there = pointed(st, r.x + px, r.y + py);
                let dir = st.away.last_out->0.dir;
                &&& completes(st, id, st.away, r, dir, px, py, now) ==> s == there.crossed(
                    id,
                    dir,
                ).0 && acts == seq![there.crossed(id, dir).1]
                &&& !completes(st, id, st.away, r, dir, px, py, now) ==> {
                    &&& acts.len() == 0
                    &&& s == State { away: s.away, away_beacon: Some(now), ..there }
                    &&& within_two_pixels(s.away.armed, r, px, py)
                    &&& s.away.last_out == st.away.last_out
                    &&& s.away.pushing == if exists|d: Direction| s.away.armed.contains(d) {
                        st.away.pushing
                    } else {
                        None
                    }
                }
            }
        }),
        forall|other: u8, ox: int, oy: int|
            other != id ==> #[trigger] away_beacon(st, other, ox, oy, now) == (
                st,
                Seq::<Action>::empty(),
            ),
{
    let r = screen.rect;
    let dir = st.away.last_out->0.dir;
    assert forall|px: int, py: int| #[trigger]
        nearest_line(x, 0, r.w as int, px) && #[trigger] nearest_line(y, 0, r.h as int, py) implies {
        let (s, acts) = away_beacon(st, id, x, y, now);
        let there = pointed(st, r.x + px, r.y + py);
        &&& completes(st, id, st.away, r, dir, px, py, now) ==> s == there.crossed(id, dir).0
            && acts == seq![there.crossed(id, dir).1]
        &&& !completes(st, id, st.away, r, dir, px, py, now) ==> {
            &&& acts.len() == 0
            &&& s == State { away: s.away, away_beacon: Some(now), ..there }
            &&& within_two_pixels(s.away.armed, r, px, py)
            &&& s.away.last_out == st.away.last_out
            &&& s.away.pushing == if exists|d: Direction| s.away.armed.contains(d) {
                st.away.pushing
            } else {
                None
            }
        }
    } by {
        let at = crate::walls::touched(r, px, py);
        let there = pointed(st, r.x + px, r.y + py);
        let s = State { away: st.away.reported(at), away_beacon: Some(now), ..there };
        if s.alive(id, dir) {
            assert(s.crossed(id, dir) == there.crossed(id, dir));
        }
        lemma_some_wall(at);
    }
}

/// Escape brings control home from anywhere: to the middle of the local
/// screen, with every latch cleared. It is the one event besides motion and
/// reports that moves the cursor.
pub proof fn escape_lands_in_the_middle(st: State, now: u64)
    requires
        st.valid(),
        find_screen(st.layout, 0) is Some,
        st.local.w >= 0 && st.local.h >= 0,
    ensures
        ({
            let (s, acts) = local_event(st, Message::Escape, now);
            let (x, y) = (st.local.w / 2, st.local.h / 2);
            &&& arrived_at(st, s, 0, x as int, y as int)
            &&& acts.len() == 1 && takes_to(acts[0], 0, x as int, y as int)
        }),
{
}

} // verus!
