//! What holds of every session: the boundary rules as theorems over the
//! session's transition functions.
use vstd::prelude::*;

use crate::actions::UserAction;
use crate::clock::age;
use crate::layout::{
    clamped, entry, exit_side, find_screen, imax, lookup_is_complete, neighbor_is_the_nearest_screen,
    neighbor_of, Direction,
};
use crate::protocol::{Message, Rect, Screen};
use crate::session::{
    away_after, away_beacon, beacon_fresh, bounded_layout, calm, home_after, home_beacon,
    homecoming, inset, lemma_found_is_bounded, lemma_landing, lemma_merged_home, local_event,
    merged, motion, named_in, pulls, pushes, stays, swapped, upright, Action, Cursor, Push, State,
    EDGE_PUSH_FALLBACK, EDGE_PUSH_FRESH, ENTRY_INSET,
};
use crate::session::commands::obeyed;
use crate::walls::{touched, touches, EDGE_BAND};
use crate::Mode;

verus! {

/// The state after a run of position beacons on the local screen, each
/// with its time.
pub open spec fn after_beacons(st: State, bs: Seq<(int, int, u64)>) -> State
    decreases bs.len(),
{
    if bs.len() == 0 {
        st
    } else {
        let prev = after_beacons(st, bs.drop_last());
        let b = bs.last();
        home_beacon(prev, b.0, b.1, b.2).0
    }
}

/// Resting at the wall never crosses: without a push, position beacons
/// alone leave control at home, however many come and wherever they put
/// the cursor.
pub proof fn resting_at_the_wall_never_crosses(st: State, bs: Seq<(int, int, u64)>)
    requires
        st.cursor.mode is Local,
        st.home.last_out is None,
    ensures
        after_beacons(st, bs).cursor.mode is Local,
        after_beacons(st, bs).home.last_out is None,
        forall|x: int, y: int, now: u64|
            (#[trigger] home_beacon(after_beacons(st, bs), x, y, now)).1 == Seq::<Action>::empty(),
    decreases bs.len(),
{
    if bs.len() > 0 {
        resting_at_the_wall_never_crosses(st, bs.drop_last());
    }
}

/// A push that has gone stale is no push: a beacon that parks the cursor
/// on a wall later than the fresh window only arms.
pub proof fn stale_push_only_arms(st: State, x: int, y: int, now: u64)
    requires
        st.cursor.mode is Local,
        st.home.last_out matches Some(p) ==> age(now, p.at) >= EDGE_PUSH_FRESH,
    ensures
        home_beacon(st, x, y, now).1 == Seq::<Action>::empty(),
        home_beacon(st, x, y, now).0.cursor.mode is Local,
        home_beacon(st, x, y, now).0.home.armed == touched(st.local, x, y),
{
}

/// The state after a run of motions on the local screen, each with its
/// time.
pub open spec fn after_motions(st: State, ms: Seq<(int, int, u64)>) -> State
    decreases ms.len(),
{
    if ms.len() == 0 {
        st
    } else {
        let m = ms.last();
        motion(after_motions(st, ms.drop_last()), m.0, m.1, m.2).0
    }
}

/// Deltas alone never cross: with no wall armed and no fallback begun
/// before `t0`, a run of motions of any size leaves control at home until
/// [`EDGE_PUSH_FALLBACK`] has passed.
pub proof fn deltas_alone_never_cross(st: State, ms: Seq<(int, int, u64)>, t0: u64)
    requires
        st.cursor.mode is Local,
        st.home.armed =~= Set::<Direction>::empty(),
        st.home.pushing matches Some(p) ==> p.since >= t0,
        forall|i: int|
            0 <= i < ms.len() ==> t0 <= (#[trigger] ms[i]).2 < t0 + EDGE_PUSH_FALLBACK,
    ensures
        after_motions(st, ms).cursor.mode is Local,
        after_motions(st, ms).home.armed =~= Set::<Direction>::empty(),
        after_motions(st, ms).home.pushing matches Some(p) ==> p.since >= t0,
        forall|dx: int, dy: int, now: u64|
            t0 <= now < t0 + EDGE_PUSH_FALLBACK ==> (#[trigger] motion(
                after_motions(st, ms),
                dx,
                dy,
                now,
            )).1 == Seq::<Action>::empty(),
    decreases ms.len(),
{
    if ms.len() > 0 {
        let before = ms.drop_last();
        assert forall|i: int| 0 <= i < before.len() implies t0 <= (#[trigger] before[i]).2 < t0
            + EDGE_PUSH_FALLBACK by {
            assert(before[i] == ms[i]);
        }
        deltas_alone_never_cross(st, before, t0);
        let prev = after_motions(st, before);
        let m = ms.last();
        assert(ms[ms.len() - 1] == m);
        lemma_unarmed_motion(prev, m.0, m.1, m.2, t0);
    }
    let end = after_motions(st, ms);
    assert forall|dx: int, dy: int, now: u64| t0 <= now < t0 + EDGE_PUSH_FALLBACK implies (
    #[trigger] motion(end, dx, dy, now)).1 == Seq::<Action>::empty() by {
        lemma_unarmed_motion(end, dx, dy, now, t0);
    }
}

proof fn lemma_unarmed_motion(st: State, dx: int, dy: int, now: u64, t0: u64)
    requires
        st.cursor.mode is Local,
        st.home.armed =~= Set::<Direction>::empty(),
        st.home.pushing matches Some(p) ==> p.since >= t0,
        t0 <= now < t0 + EDGE_PUSH_FALLBACK,
    ensures
        ({
            let out = motion(st, dx, dy, now);
            &&& out.1 == Seq::<Action>::empty()
            &&& out.0.cursor.mode is Local
            &&& out.0.home.armed =~= Set::<Direction>::empty()
            &&& out.0.home.pushing matches Some(p) ==> p.since >= t0
        }),
{
    let s = st.moved(dx, dy);
    assert(s.fires(0, s.home, dx, dy) is None);
    let e = s.home.pushed(true, dx, dy, now);
    assert(e.armed =~= Set::<Direction>::empty());
}

/// An interior cursor never crosses: after a beacon that places the real
/// cursor away from every wall, no push crosses until the fallback window
/// has passed, no matter how fast the deltas run.
pub proof fn interior_cursor_never_crosses(
    st: State,
    x: int,
    y: int,
    t: u64,
    ms: Seq<(int, int, u64)>,
)
    requires
        st.cursor.mode is Local,
        touched(st.local, x, y) =~= Set::<Direction>::empty(),
        forall|i: int| 0 <= i < ms.len() ==> t <= (#[trigger] ms[i]).2 < t + EDGE_PUSH_FALLBACK,
    ensures
        home_beacon(st, x, y, t).1 == Seq::<Action>::empty(),
        after_motions(home_beacon(st, x, y, t).0, ms).cursor.mode is Local,
{
    let s = home_beacon(st, x, y, t).0;
    assert(!touched(st.local, x, y).contains(Direction::Left));
    assert(st.home.parks(touched(st.local, x, y), t) is None);
    deltas_alone_never_cross(s, ms, t);
}

/// The point reported by a beacon lies at the wall `dir`, and pushing
/// through `dir` there leads to a screen that may be entered, with the
/// walls not locked.
pub open spec fn seam_at(st: State, dir: Direction, x: int, y: int) -> bool {
    &&& touches(st.local, x, y, dir)
    &&& !st.locked
    &&& neighbor_of(
        st.layout,
        0,
        dir,
        ((st.local.x + x) as i32) as int,
        ((st.local.y + y) as i32) as int,
    ) matches Some(n)
    &&& st.open_to(n.0)
}

/// A sweep that ends exactly at the wall still crosses, on the park
/// itself: a push through `dir` that fired nothing, followed within
/// [`EDGE_PUSH_FRESH`] by a beacon at that wall, crosses there and then.
pub proof fn park_mid_push_crosses(
    st: State,
    dir: Direction,
    dx: int,
    dy: int,
    t: u64,
    x: int,
    y: int,
    now: u64,
)
    requires
        st.cursor.mode is Local,
        pushes(dir, dx, dy),
        dir.horizontal() ==> dy == 0,
        motion(st, dx, dy, t).1 == Seq::<Action>::empty(),
        age(now, t) < EDGE_PUSH_FRESH,
        seam_at(st, dir, x, y),
    ensures
        ({
            let pushed = motion(st, dx, dy, t).0;
            let out = home_beacon(pushed, x, y, now);
            &&& pushed.cursor.mode is Local
            &&& out.1.len() == 1
            &&& out.1[0] is SwitchTo
            &&& out.0.cursor.mode is Remote
        }),
{
    let pushed = motion(st, dx, dy, t).0;
    lemma_quiet_motion(st, dx, dy, t);
    assert(pushed.home.last_out == Some(Push { dir, at: t }));
    assert(!pushed.home.armed.contains(dir));
    let at = touched(pushed.local, x, y);
    assert(at.contains(dir));
    assert(pushed.home.parks(at, now) == Some(dir));
    let s = State {
        cursor: Cursor {
            x: (pushed.local.x + x) as i32,
            y: (pushed.local.y + y) as i32,
            mode: pushed.cursor.mode,
        },
        home: pushed.home.reported(at),
        ..pushed
    };
    assert(s.alive(0, dir));
    lemma_leaves_home(s, dir);
}

/// A motion at home that returns no action: control stays, and the
/// boundary state is the pushed one but for the fallback.
proof fn lemma_quiet_motion(st: State, dx: int, dy: int, t: u64)
    requires
        st.cursor.mode is Local,
        motion(st, dx, dy, t).1 == Seq::<Action>::empty(),
    ensures
        ({
            let out = motion(st, dx, dy, t).0;
            let e = st.home.pushed(true, dx, dy, t);
            &&& out.cursor.mode is Local
            &&& out.layout == st.layout
            &&& out.local == st.local
            &&& out.guarded == st.guarded
            &&& out.present == st.present
            &&& out.locked == st.locked
            &&& out.home.armed == e.armed
            &&& out.home.last_out == e.last_out
        }),
{
    let s = st.moved(dx, dy);
    match s.fires(0, s.home, dx, dy) {
        Some(dir) => {
            assert(s.alive(0, dir));
            assert(s.try_cross(0, dir).1.len() == 1);
        },
        None => {
            let e = s.home.pushed(true, dx, dy, t);
            if let Some(dir) = exit_side(s.layout, 0, s.cursor.x as int, s.cursor.y as int) {
                let free = State { home: e.upright(), ..s.held_in(s.local) };
                if free.alive(0, dir) {
                    assert(free.try_cross(0, dir).1.len() == 1);
                }
            }
        },
    }
}

/// A crossing out of the local screen goes to a client.
proof fn lemma_leaves_home(s: State, dir: Direction)
    requires
        s.alive(0, dir),
    ensures
        s.crossed(0, dir).1 is SwitchTo,
        s.crossed(0, dir).0.cursor.mode is Remote,
        s.landing(0, dir).0 != 0,
{
    let (x, y) = (s.cursor.x as int, s.cursor.y as int);
    lookup_is_complete(s.layout, 0);
    let f = find_screen(s.layout, 0)->0;
    neighbor_is_the_nearest_screen(s.layout, f, dir, x, y);
}

/// At the wall, a push is a crossing: once a beacon has put the real
/// cursor on the wall `dir` of the local screen, the next push through it
/// crosses at once, wherever an edge leads somewhere.
pub proof fn armed_wall_fires_on_the_next_push(
    st: State,
    dir: Direction,
    x: int,
    y: int,
    t: u64,
    dx: int,
    dy: int,
    now: u64,
)
    requires
        st.cursor.mode is Local,
        touches(st.local, x, y, dir),
        home_beacon(st, x, y, t).1 == Seq::<Action>::empty(),
        pushes(dir, dx, dy),
        home_beacon(st, x, y, t).0.moved(dx, dy).alive(0, dir),
    ensures
        ({
            let out = motion(home_beacon(st, x, y, t).0, dx, dy, now);
            &&& out.1.len() == 1
            &&& out.1[0] is SwitchTo
            &&& out.0.cursor.mode is Remote
        }),
{
    let at = touched(st.local, x, y);
    assert(at.contains(dir));
    let b = home_beacon(st, x, y, t).0;
    assert(b.cursor.mode is Local && b.home.armed.contains(dir)) by {
        match st.home.parks(at, t) {
            Some(d) => {
                let s = State {
                    cursor: Cursor {
                        x: (st.local.x + x) as i32,
                        y: (st.local.y + y) as i32,
                        mode: st.cursor.mode,
                    },
                    home: st.home.reported(at),
                    ..st
                };
                assert(!s.alive(0, d)) by {
                    if s.alive(0, d) {
                        assert(s.try_cross(0, d).1.len() == 1);
                    }
                }
            },
            None => {},
        }
    }
    let s = b.moved(dx, dy);
    assert(s.home.armed.contains(dir));
    assert(s.fires(0, s.home, dx, dy) is Some);
    let d = s.fires(0, s.home, dx, dy)->0;
    assert(s.alive(0, d));
    lemma_leaves_home(s, d);
}

/// Moving away from a wall disarms it: after a motion away from `dir`,
/// a push through it does not fire it until a beacon arms it again.
pub proof fn moving_away_disarms(
    st: State,
    dir: Direction,
    dx: int,
    dy: int,
    t: u64,
)
    requires
        st.cursor.mode is Local,
        pulls(dir, dx, dy),
        motion(st, dx, dy, t).1 == Seq::<Action>::empty(),
    ensures
        !motion(st, dx, dy, t).0.home.armed.contains(dir),
        forall|px: int, py: int|
            (#[trigger] motion(st, dx, dy, t).0.moved(px, py).fires(
                0,
                motion(st, dx, dy, t).0.home,
                px,
                py,
            )) != Some(dir),
{
    lemma_quiet_motion(st, dx, dy, t);
}

/// Sliding along a wall never fires it: motion without a component
/// through `dir` leaves its wall armed and does not cross it.
pub proof fn sliding_along_the_wall_keeps_it_armed(
    st: State,
    dir: Direction,
    dx: int,
    dy: int,
    t: u64,
)
    requires
        st.cursor.mode is Local,
        !pushes(dir, dx, dy),
        !pulls(dir, dx, dy),
        st.home.armed.contains(dir),
        motion(st, dx, dy, t).1 == Seq::<Action>::empty(),
    ensures
        motion(st, dx, dy, t).0.home.armed.contains(dir),
        motion(st, dx, dy, t).0.cursor.mode is Local,
{
    lemma_quiet_motion(st, dx, dy, t);
}

/// On every switch the virtual cursor is snapped to the entry point of
/// the destination, and every latch of the old screen is cleared.
pub proof fn entry_snaps_the_cursor(st: State, from: u8, dir: Direction)
    requires
        st.valid(),
        st.alive(from, dir),
    ensures
        ({
            let (id, x, y) = st.landing(from, dir);
            let out = st.crossed(from, dir).0;
            let r = find_screen(st.layout, id)->0.rect;
            &&& id != from
            &&& find_screen(st.layout, id) is Some
            &&& out.cursor.x == r.x + x
            &&& out.cursor.y == r.y + y
            &&& out.cursor.mode == if id == 0 {
                Mode::Local
            } else {
                Mode::Remote(id)
            }
            &&& out.home == calm()
            &&& out.away == calm()
            &&& out.away_beacon is None
            &&& out.valid()
        }),
{
    crate::session::lemma_landing(st, from, dir);
}

/// The entry point never lies on the wall just crossed, nor on the
/// opposite one, for a screen wider (or taller) than the inset and the
/// band together.
pub proof fn entry_is_off_the_seam(r: Rect, dir: Direction, x: int, y: int)
    requires
        dir.horizontal() ==> r.w > ENTRY_INSET + EDGE_BAND,
        !dir.horizontal() ==> r.h > ENTRY_INSET + EDGE_BAND,
    ensures
        ({
            let e = entry(r, dir, x, y);
            let p = inset(r, dir, e.0, e.1);
            &&& dir.horizontal() ==> !touches(r, p.0, p.1, Direction::Left)
            &&& dir is Left ==> !touches(r, p.0, p.1, Direction::Right)
            &&& dir is Right && r.w > ENTRY_INSET + 2 * EDGE_BAND ==> !touches(
                r,
                p.0,
                p.1,
                Direction::Right,
            )
            &&& !dir.horizontal() ==> !touches(r, p.0, p.1, Direction::Top)
            &&& dir is Top ==> !touches(r, p.0, p.1, Direction::Bottom)
            &&& dir is Bottom && r.h > ENTRY_INSET + 2 * EDGE_BAND ==> !touches(
                r,
                p.0,
                p.1,
                Direction::Bottom,
            )
        }),
{
}

/// An entry never bounces: the first beacon from the screen just entered
/// crosses nowhere, whatever it reports.
pub proof fn entry_never_bounces(st: State, from: u8, dir: Direction, x: int, y: int, now: u64)
    requires
        st.valid(),
        st.alive(from, dir),
    ensures
        ({
            let out = st.crossed(from, dir).0;
            let id = st.landing(from, dir).0;
            &&& id == 0 ==> home_beacon(out, x, y, now).1 == Seq::<Action>::empty()
            &&& id != 0 ==> away_beacon(out, id, x, y, now).1 == Seq::<Action>::empty()
        }),
{
}

/// A beacon from a client that does not have control changes nothing.
pub proof fn beacon_from_another_client_is_ignored(st: State, id: u8, x: int, y: int, now: u64)
    requires
        st.cursor.mode != Mode::Remote(id),
    ensures
        away_beacon(st, id, x, y, now) == (st, Seq::<Action>::empty()),
{
}

/// While control is away, the local pointer's own position means nothing.
pub proof fn local_beacon_is_ignored_while_away(st: State, x: i32, y: i32, now: u64)
    requires
        st.cursor.mode is Remote,
    ensures
        local_event(st, Message::MouseMoveAbs { x, y }, now) == (st, Seq::<Action>::empty()),
{
}

/// While control is away, motion is only ever forwarded relative and
/// verbatim, or becomes a switch: never an absolute position.
pub proof fn roaming_forwards_relative_motion(st: State, dx: i32, dy: i32, now: u64)
    requires
        st.cursor.mode is Remote,
    ensures
        ({
            let acts = local_event(st, Message::MouseMoveRel { dx, dy }, now).1;
            &&& acts.len() <= 1
            &&& forall|i: int|
                0 <= i < acts.len() ==> {
                    ||| #[trigger] acts[i] == Action::Send(Message::MouseMoveRel { dx, dy })
                    ||| acts[i] is SwitchTo
                    ||| acts[i] is SwitchToLocal
                }
        }),
{
}

/// The action hands control to another screen.
pub open spec fn switches(a: Action) -> bool {
    a is SwitchTo || a is SwitchToLocal
}

/// Control moves only by a switch: an event whose actions hold none
/// leaves it where it was.
pub proof fn control_moves_only_by_a_switch(st: State, msg: Message, now: u64)
    requires
        forall|i: int|
            0 <= i < local_event(st, msg, now).1.len() ==> !switches(
                #[trigger] local_event(st, msg, now).1[i],
            ),
    ensures
        local_event(st, msg, now).0.cursor.mode == st.cursor.mode,
{
    let acts = local_event(st, msg, now).1;
    if acts.len() > 0 {
        assert(!switches(acts[0]));
    }
}

/// Buttons, wheel and keys reach the client that has control, unchanged,
/// and nobody else.
pub proof fn input_is_forwarded_only_while_away(st: State, msg: Message, now: u64)
    requires
        msg is MouseButton || msg is MouseWheel || msg is Key,
    ensures
        st.cursor.mode is Remote ==> local_event(st, msg, now) == (st, seq![Action::Send(msg)]),
        st.cursor.mode is Local ==> local_event(st, msg, now) == (st, Seq::<Action>::empty()),
{
}

/// The escape key brings control home from anywhere, with every latch
/// cleared.
pub proof fn escape_returns_home(st: State, now: u64)
    ensures
        ({
            let (s, acts) = local_event(st, Message::Escape, now);
            &&& s.cursor.mode is Local
            &&& s.home == calm()
            &&& s.away == calm()
            &&& acts.len() == 1
            &&& acts[0] is SwitchToLocal
        }),
{
}

/// Sustained pushing crosses when the beacon stream stalls: once the
/// virtual cursor has been pushed out through `dir` for
/// [`EDGE_PUSH_FALLBACK`], the next push out through it crosses, if that
/// edge leads somewhere.
pub proof fn sustained_push_crosses(st: State, dir: Direction, dx: int, dy: int, now: u64)
    requires
        st.cursor.mode is Local,
        st.home.pushing matches Some(p) && p.dir == dir && age(now, p.since)
            >= EDGE_PUSH_FALLBACK,
        ({
            let s = st.moved(dx, dy);
            &&& exit_side(s.layout, 0, s.cursor.x as int, s.cursor.y as int) == Some(dir)
            &&& s.held_in(s.local).alive(0, dir)
        }),
    ensures
        motion(st, dx, dy, now).1.len() == 1,
        motion(st, dx, dy, now).1[0] is SwitchTo,
        motion(st, dx, dy, now).0.cursor.mode is Remote,
{
    let s = st.moved(dx, dy);
    match s.fires(0, s.home, dx, dy) {
        Some(d) => {
            assert(s.alive(0, d));
            lemma_leaves_home(s, d);
        },
        None => {
            let e = s.home.pushed(true, dx, dy, now);
            assert(e.sustained(dir, now));
            let free = State { home: e.upright(), ..s.held_in(s.local) };
            assert(free.alive(0, dir));
            lemma_leaves_home(free, dir);
        },
    }
}

/// The same on a client's screen: with no fresh beacon, a push sustained
/// for [`EDGE_PUSH_FALLBACK`] crosses a living edge.
pub proof fn sustained_remote_push_crosses(
    st: State,
    id: u8,
    dir: Direction,
    dx: int,
    dy: int,
    now: u64,
)
    requires
        st.cursor.mode == Mode::Remote(id),
        !beacon_fresh(st, now),
        st.away.pushing matches Some(p) && p.dir == dir && age(now, p.since)
            >= EDGE_PUSH_FALLBACK,
        ({
            let s = st.moved(dx, dy);
            &&& exit_side(s.layout, id, s.cursor.x as int, s.cursor.y as int) == Some(dir)
            &&& s.held_in(find_screen(s.layout, id)->0.rect).alive(id, dir)
        }),
    ensures
        motion(st, dx, dy, now).1.len() == 1,
        motion(st, dx, dy, now).1[0] is SwitchTo || motion(st, dx, dy, now).1[0] is SwitchToLocal,
{
    let s = st.moved(dx, dy);
    let e = s.away.pushed(false, dx, dy, now);
    assert(e.sustained(dir, now));
    let free = State { away: e.upright(), ..s.held_in(find_screen(s.layout, id)->0.rect) };
    assert(free.alive(id, dir));
}

/// The real cursor must be at the wall to cross back: while the client's
/// beacons are fresh and put its cursor on no wall, motion only forwards.
pub proof fn crossing_back_requires_the_real_cursor_at_the_wall(
    st: State,
    id: u8,
    dx: i32,
    dy: i32,
    now: u64,
)
    requires
        st.cursor.mode == Mode::Remote(id),
        find_screen(st.layout, id) is Some,
        beacon_fresh(st, now),
        st.away.armed =~= Set::<Direction>::empty(),
    ensures
        motion(st, dx as int, dy as int, now).1 == seq![
            Action::Send(Message::MouseMoveRel { dx, dy }),
        ],
        motion(st, dx as int, dy as int, now).0.cursor.mode == Mode::Remote(id),
{
    let s = st.moved(dx as int, dy as int);
    assert(s.fires(id, s.away, dx as int, dy as int) is None);
}

/// Motion at home keeps the virtual cursor on the local screen until it
/// crosses.
pub proof fn motion_keeps_the_cursor_on_its_screen(st: State, dx: i32, dy: i32, now: u64)
    requires
        st.cursor.mode is Local,
        find_screen(st.layout, 0) matches Some(s) && s.rect == st.local,
        st.local.nonempty(),
        st.local.fits(),
        i32::MIN <= st.cursor.x + dx <= i32::MAX,
        i32::MIN <= st.cursor.y + dy <= i32::MAX,
    ensures
        ({
            let s = motion(st, dx as int, dy as int, now).0;
            s.cursor.mode is Local ==> st.local.covers(s.cursor.x as int, s.cursor.y as int)
        }),
{
    let s = st.moved(dx as int, dy as int);
    match s.fires(0, s.home, dx as int, dy as int) {
        Some(d) => {
            assert(s.alive(0, d));
            lemma_leaves_home(s, d);
        },
        None => {
            let e = s.home.pushed(true, dx as int, dy as int, now);
            match exit_side(s.layout, 0, s.cursor.x as int, s.cursor.y as int) {
                None => {},
                Some(dir) => {
                    let free = State { home: e.upright(), ..s.held_in(s.local) };
                    if free.alive(0, dir) {
                        lemma_leaves_home(free, dir);
                    }
                },
            }
        },
    }
}

/// A bad layout never disturbs the session: one without a local screen is
/// rejected and leaves everything as it was.
pub proof fn layout_without_home_is_rejected(st: State, layout: Seq<Screen>)
    requires
        forall|k: int| 0 <= k < layout.len() ==> (#[trigger] layout[k]).id != 0,
    ensures
        swapped(st, layout) == (st, Seq::<Action>::empty()),
{
    lookup_is_complete(layout, 0);
}

/// Adopting a layout always ends at home, with every latch cleared; only
/// a cursor that was away is moved.
pub proof fn layout_swap_comes_home(st: State, layout: Seq<Screen>)
    requires
        find_screen(layout, 0) is Some,
    ensures
        swapped(st, layout).0.cursor.mode is Local,
        swapped(st, layout).0.home == calm(),
        swapped(st, layout).0.away == calm(),
        layout.is_prefix_of(swapped(st, layout).0.layout),
        st.guests == Set::<u8>::empty() ==> swapped(st, layout).0.layout == layout,
        swapped(st, layout).1.len() == if st.cursor.mode is Remote {
            1nat
        } else {
            0
        },
{
    let keep = |e: Screen| stays(st.guests, layout, e);
    let extra = st.layout.filter(keep);
    let all = merged(st, layout);
    assert(layout =~= all.subrange(0, layout.len() as int));
    if st.guests == Set::<u8>::empty() {
        if extra.len() > 0 {
            st.layout.lemma_filter_pred(keep, 0);
        }
        assert(all =~= layout);
    }
}

/// An unrelated edit never takes a guest's screen away: a screen that was
/// given to a client which the new layout does not name stays where it is,
/// as long as the new layout leaves its id free.
pub proof fn guests_survive_a_reload(st: State, layout: Seq<Screen>, e: Screen)
    requires
        find_screen(layout, 0) is Some,
        st.layout.contains(e),
        st.guests.contains(e.id),
        !named_in(layout, e.name@),
        find_screen(layout, e.id) is None,
    ensures
        swapped(st, layout).0.layout.contains(e),
        swapped(st, layout).0.guests.contains(e.id),
{
    let keep = |x: Screen| stays(st.guests, layout, x);
    let extra = st.layout.filter(keep);
    crate::session::lemma_filter_screens(st.layout, keep, e);
    let k = choose|k: int| 0 <= k < extra.len() && extra[k] == e;
    assert(merged(st, layout)[layout.len() + k] == e);
}

// ---------------------------------------------------------------------
// Positions
// ---------------------------------------------------------------------

/// The switches among the actions say where the cursor is: counted from
/// the corner of the screen that it enters, they give its virtual
/// position.
pub open spec fn agrees(after: State, actions: Seq<Action>) -> bool {
    forall|i: int|
        0 <= i < actions.len() ==> match #[trigger] actions[i] {
            Action::SwitchTo { to, x, y } => arrived(after, to, x, y),
            Action::SwitchToLocal { x, y } => arrived(after, 0, x, y),
            _ => true,
        }
}

/// The cursor is at the local `(x, y)` of screen `id`.
pub open spec fn arrived(st: State, id: u8, x: i32, y: i32) -> bool {
    &&& find_screen(st.layout, id) matches Some(e)
    &&& st.cursor.x == e.rect.x + x
    &&& st.cursor.y == e.rect.y + y
}

proof fn lemma_cross_agrees(s: State, from: u8, dir: Direction)
    requires
        s.valid(),
    ensures
        agrees(s.try_cross(from, dir).0, s.try_cross(from, dir).1),
{
    if s.alive(from, dir) {
        lemma_landing(s, from, dir);
        let (id, x, y) = s.landing(from, dir);
        assert(s.crossed(from, dir).0 == s.entered(id, x, y));
    }
}

proof fn lemma_home_agrees(s: State, dx: int, dy: int, now: u64)
    requires
        s.valid(),
    ensures
        agrees(home_after(s, dx, dy, now).0, home_after(s, dx, dy, now).1),
{
    match s.fires(0, s.home, dx, dy) {
        Some(dir) => {
            lemma_cross_agrees(s, 0, dir);
        },
        None => {
            let e = s.home.pushed(true, dx, dy, now);
            if let Some(dir) = exit_side(s.layout, 0, s.cursor.x as int, s.cursor.y as int) {
                lemma_cross_agrees(State { home: e.upright(), ..s.held_in(s.local) }, 0, dir);
            }
        },
    }
}

proof fn lemma_away_agrees(s: State, id: u8, dx: int, dy: int, now: u64)
    requires
        s.valid(),
    ensures
        agrees(away_after(s, id, dx, dy, now).0, away_after(s, id, dx, dy, now).1),
{
    if let Some(screen) = find_screen(s.layout, id) {
        let fresh = beacon_fresh(s, now);
        let fired = if fresh {
            s.fires(id, s.away, dx, dy)
        } else {
            None
        };
        match fired {
            Some(dir) => {
                lemma_cross_agrees(s, id, dir);
            },
            None => {
                let e = s.away.pushed(fresh, dx, dy, now);
                if let Some(dir) = exit_side(s.layout, id, s.cursor.x as int, s.cursor.y as int) {
                    let free = State { away: e.upright(), ..s.held_in(screen.rect) };
                    lemma_cross_agrees(free, id, dir);
                }
            },
        }
    }
}

/// Absolute positions and entries always agree, so nothing drifts: every
/// switch that an input event causes names the cursor's position on the
/// screen that it enters.
pub proof fn events_agree_with_the_cursor(st: State, msg: Message, now: u64)
    requires
        st.valid(),
        find_screen(st.layout, 0) is Some,
    ensures
        agrees(local_event(st, msg, now).0, local_event(st, msg, now).1),
{
    match msg {
        Message::MouseMoveRel { dx, dy } => {
            let s = st.moved(dx as int, dy as int);
            match st.cursor.mode {
                Mode::Local => {
                    lemma_home_agrees(s, dx as int, dy as int, now);
                },
                Mode::Remote(id) => {
                    lemma_away_agrees(s, id, dx as int, dy as int, now);
                },
            }
        },
        Message::MouseMoveAbs { x, y } => {
            let at = touched(st.local, x as int, y as int);
            if let Some(dir) = st.home.parks(at, now) {
                let s = State {
                    cursor: Cursor {
                        x: (st.local.x + x) as i32,
                        y: (st.local.y + y) as i32,
                        mode: st.cursor.mode,
                    },
                    home: st.home.reported(at),
                    ..st
                };
                lemma_cross_agrees(s, 0, dir);
            }
        },
        _ => {},
    }
}

/// The same of every switch that a client's position report causes.
pub proof fn beacons_agree_with_the_cursor(st: State, id: u8, x: int, y: int, now: u64)
    requires
        st.valid(),
    ensures
        agrees(away_beacon(st, id, x, y, now).0, away_beacon(st, id, x, y, now).1),
{
    if st.cursor.mode == Mode::Remote(id) {
        if let Some(screen) = find_screen(st.layout, id) {
            let r = screen.rect;
            let px = clamped(x, 0, imax(r.w - 1, 0));
            let py = clamped(y, 0, imax(r.h - 1, 0));
            let at = touched(r, px, py);
            if let Some(dir) = st.away.parks(at, now) {
                let s = State {
                    cursor: Cursor {
                        x: (r.x + px) as i32,
                        y: (r.y + py) as i32,
                        mode: st.cursor.mode,
                    },
                    away: st.away.reported(at),
                    away_beacon: Some(now),
                    ..st
                };
                lemma_cross_agrees(s, id, dir);
            }
        }
    }
}

/// The same of the switch home that a new layout causes, and of the
/// switches that the user commands.
pub proof fn commands_and_reloads_agree_with_the_cursor(
    st: State,
    layout: Seq<Screen>,
    action: UserAction,
)
    requires
        st.valid(),
        find_screen(st.layout, 0) is Some,
        bounded_layout(layout),
    ensures
        agrees(swapped(st, layout).0, swapped(st, layout).1),
        agrees(obeyed(st, action).0, obeyed(st, action).1),
{
    if find_screen(layout, 0) is Some {
        lemma_found_is_bounded(layout, 0);
        lemma_merged_home(st, layout);
    }
    let (s, actions) = obeyed(st, action);
    if actions.len() > 0 {
        if let Action::SwitchTo { to, .. } = actions[0] {
            lemma_found_is_bounded(st.layout, to);
        }
    }
}

/// Coming home ends in the middle of the local screen: where screen 0 is
/// the local one, the cursor stands on its middle and the local pointer is
/// placed there.
pub proof fn homecoming_lands_in_the_middle(st: State)
    requires
        st.valid(),
        find_screen(st.layout, 0) matches Some(e) && e.rect == st.local,
    ensures
        homecoming(st).0.cursor.x == st.local.middle().0,
        homecoming(st).0.cursor.y == st.local.middle().1,
        homecoming(st).1 matches Action::SwitchToLocal { x, y } && (x as int, y as int)
            == st.local.inner_middle(),
        st.local.nonempty() ==> st.local.covers(
            homecoming(st).0.cursor.x as int,
            homecoming(st).0.cursor.y as int,
        ),
{
}

} // verus!
