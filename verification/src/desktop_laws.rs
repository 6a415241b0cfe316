//! What the user's commands, a new client and a new layout do to the
//! desktop, in screens and coordinates.
use vstd::prelude::*;

use crate::actions::UserAction;
use crate::crossing_laws::{arrived_at, at_rest, takes_to};
use crate::layout::{
    find_screen, is_first, lemma_first_where, lookup_is_complete, search_is_complete,
};
use crate::protocol::{Message, Rect, Screen, ScreenInfo};
use crate::session::{
    adopted, bounded, home_beacon, lemma_filter_screens, lemma_found_is_bounded, local_event,
    merged, motion, resized, stays, swapped, Action, State,
};
use crate::session::commands::obeyed;
use crate::session::newcomer::{has_slot, named_screen, own_name, right_end, with_newcomer};
use crate::Mode;

verus! {

/// Which rule an input event falls under: motion and reports move the
/// cursor, a report counts only at home, buttons, wheel and keys go to the
/// client that has control as they are, and everything that is no input
/// does nothing.
pub proof fn each_event_has_its_rule(st: State, msg: Message, now: u64)
    ensures
        msg matches Message::MouseMoveRel { dx, dy } ==> local_event(st, msg, now) == motion(
            st,
            dx as int,
            dy as int,
            now,
        ),
        msg matches Message::MouseMoveAbs { x, y } ==> st.cursor.mode is Local ==> local_event(
            st,
            msg,
            now,
        ) == home_beacon(st, x as int, y as int, now),
        msg is MouseMoveAbs && st.cursor.mode is Remote ==> local_event(st, msg, now) == (
            st,
            Seq::<Action>::empty(),
        ),
        (msg is MouseButton || msg is MouseWheel || msg is Key) && st.cursor.mode is Remote
            ==> local_event(st, msg, now).0 == st && local_event(st, msg, now).1.len() == 1
            && local_event(st, msg, now).1[0] == Action::Send(msg),
        (msg is MouseButton || msg is MouseWheel || msg is Key) && st.cursor.mode is Local
            ==> local_event(st, msg, now) == (st, Seq::<Action>::empty()),
        !(msg is MouseMoveRel || msg is MouseMoveAbs || msg is MouseButton || msg is MouseWheel
            || msg is Key || msg is Escape) ==> local_event(st, msg, now) == (
            st,
            Seq::<Action>::empty(),
        ),
{
}

// ---------------------------------------------------------------------
// Commands
// ---------------------------------------------------------------------

/// The screen that has control is `id`.
pub open spec fn control_is_on(st: State, id: u8) -> bool {
    match st.cursor.mode {
        Mode::Local => id == 0,
        Mode::Remote(r) => id == r,
    }
}

/// Screen `id` may be entered.
pub open spec fn enterable(st: State, id: u8) -> bool {
    id == 0 || !st.guarded || st.present.contains(id)
}

/// `out` is what sending control to screen `id` gives: where `id` may be
/// entered and does not have control, it arrives in the middle; elsewhere
/// nothing happens.
pub open spec fn sent_to(st: State, id: u8, out: (State, Seq<Action>)) -> bool {
    let r = if id == 0 {
        st.local
    } else {
        find_screen(st.layout, id)->0.rect
    };
    if find_screen(st.layout, id) is Some && enterable(st, id) && !control_is_on(st, id) {
        &&& arrived_at(st, out.0, id, r.w / 2, r.h / 2)
        &&& out.1.len() == 1
        &&& takes_to(out.1[0], id, r.w / 2, r.h / 2)
    } else {
        out == (st, Seq::<Action>::empty())
    }
}

proof fn lemma_sent(st: State, id: u8)
    requires
        st.valid(),
        forall|k: int|
            0 <= k < st.layout.len() ==> (#[trigger] st.layout[k]).rect.w >= 0
                && st.layout[k].rect.h >= 0,
        st.local.w >= 0 && st.local.h >= 0,
    ensures
        sent_to(st, id, st.summoned(id)),
{
    if find_screen(st.layout, id) is Some {
        lemma_found_is_bounded(st.layout, id);
        lookup_is_complete(st.layout, id);
        let e = find_screen(st.layout, id)->0;
        let k = choose|k: int| 0 <= k < st.layout.len() && st.layout[k] == e;
        assert(st.layout[k].rect.w >= 0);
    }
}

/// A switch by name goes to the first screen with that name; a name that no
/// screen has does nothing.
pub proof fn switching_goes_to_the_named_screen(st: State, to: String)
    requires
        st.valid(),
        forall|k: int|
            0 <= k < st.layout.len() ==> (#[trigger] st.layout[k]).rect.w >= 0
                && st.layout[k].rect.h >= 0,
        st.local.w >= 0 && st.local.h >= 0,
    ensures
        (forall|k: int| 0 <= k < st.layout.len() ==> (#[trigger] st.layout[k]).name@ != to@)
            ==> obeyed(st, UserAction::SwitchToScreen { to }) == (st, Seq::<Action>::empty()),
        forall|k: int|
            0 <= k < st.layout.len() && (#[trigger] st.layout[k]).name@ == to@ && (forall|j: int|
                0 <= j < k ==> (#[trigger] st.layout[j]).name@ != to@) ==> sent_to(
                st,
                st.layout[k].id,
                obeyed(st, UserAction::SwitchToScreen { to }),
            ),
{
    let p = |e: Screen| e.name@ == to@;
    search_is_complete(st.layout, p);
    assert forall|k: int|
        0 <= k < st.layout.len() && (#[trigger] st.layout[k]).name@ == to@ && (forall|j: int|
            0 <= j < k ==> (#[trigger] st.layout[j]).name@ != to@) implies sent_to(
        st,
        st.layout[k].id,
        obeyed(st, UserAction::SwitchToScreen { to }),
    ) by {
        assert(is_first(st.layout, p, k));
        lemma_first_where(st.layout, p, k);
        lemma_sent(st, st.layout[k].id);
    }
}

/// How many screens lie between the one at `from` and the one at `to`,
/// going round the layout of `n` screens.
pub open spec fn steps_round(from: int, to: int, n: int) -> int {
    if to > from {
        to - from
    } else {
        to - from + n
    }
}

/// Cycling goes to the next screen in layout order, going round, that may
/// be entered: of all those it is the fewest screens away from the one that
/// has control. Where no other screen may be entered, nothing happens.
pub proof fn cycling_goes_to_the_next_screen(st: State, f: int)
    requires
        st.valid(),
        forall|k: int|
            0 <= k < st.layout.len() ==> (#[trigger] st.layout[k]).rect.w >= 0
                && st.layout[k].rect.h >= 0,
        st.local.w >= 0 && st.local.h >= 0,
        0 <= f < st.layout.len(),
        control_is_on(st, st.layout[f].id),
        forall|j: int| 0 <= j < f ==> (#[trigger] st.layout[j]).id != st.layout[f].id,
    ensures
        ({
            let n = st.layout.len() as int;
            let here = st.layout[f].id;
            let out = obeyed(st, UserAction::SwitchNext);
            &&& (forall|k: int|
                0 <= k < n && (#[trigger] st.layout[k]).id != here ==> !enterable(
                    st,
                    st.layout[k].id,
                )) ==> out == (st, Seq::<Action>::empty())
            &&& forall|m: int|
                0 <= m < n && (#[trigger] st.layout[m]).id != here && enterable(
                    st,
                    st.layout[m].id,
                ) && (forall|j: int|
                    0 <= j < n && (#[trigger] st.layout[j]).id != here && enterable(
                        st,
                        st.layout[j].id,
                    ) ==> steps_round(f, m, n) <= steps_round(f, j, n)) ==> sent_to(
                    st,
                    st.layout[m].id,
                    out,
                )
        }),
{
    let s = st.layout;
    let n = s.len() as int;
    let here = s[f].id;
    let h = |e: Screen| e.id == st.here();
    assert(st.here() == here);
    assert(is_first(s, h, f));
    let c = choose|k: int| is_first(s, h, k);
    assert(is_first(s, h, c));
    assert(c == f) by {
        if c < f {
            assert(s[c].id != here);
        } else if f < c {
            assert(!h(s[f]));
        }
    }
    let round = st.round_from_here();
    assert(round == s.skip(f + 1) + s.take(f));
    let p = |e: Screen| e.id != st.here() && st.open_to(e.id);
    search_is_complete(round, p);
    assert forall|i: int| 0 <= i < round.len() implies #[trigger] round[i] == s[if i < n - f - 1 {
        f + 1 + i
    } else {
        i - (n - f - 1)
    }] by {}
    if forall|k: int| 0 <= k < n && (#[trigger] s[k]).id != here ==> !enterable(st, s[k].id) {
        assert forall|i: int| 0 <= i < round.len() implies !p(#[trigger] round[i]) by {
            let k = if i < n - f - 1 {
                f + 1 + i
            } else {
                i - (n - f - 1)
            };
            assert(round[i] == s[k]);
        }
    }
    assert forall|m: int|
        0 <= m < n && (#[trigger] s[m]).id != here && enterable(st, s[m].id) && (forall|j: int|
            0 <= j < n && (#[trigger] s[j]).id != here && enterable(st, s[j].id) ==> steps_round(
                f,
                m,
                n,
            ) <= steps_round(f, j, n)) implies sent_to(
        st,
        s[m].id,
        obeyed(st, UserAction::SwitchNext),
    ) by {
        let i = steps_round(f, m, n) - 1;
        assert(round[i] == s[m]);
        assert(p(round[i]));
        assert forall|q: int| 0 <= q < i implies !p(#[trigger] round[q]) by {
            let k = if q < n - f - 1 {
                f + 1 + q
            } else {
                q - (n - f - 1)
            };
            assert(round[q] == s[k]);
            if p(round[q]) {
                assert(steps_round(f, m, n) <= steps_round(f, k, n));
            }
        }
        assert(is_first(round, p, i));
        lemma_first_where(round, p, i);
        lemma_sent(st, s[m].id);
    }
}

/// The lock command locks open walls and opens locked ones, and does
/// nothing else. Going home is what escape does.
pub proof fn locking_and_going_home(st: State, now: u64)
    ensures
        obeyed(st, UserAction::ToggleLock).0 == (State { locked: !st.locked, ..st }),
        obeyed(st, UserAction::ToggleLock).1.len() == 0,
        obeyed(st, UserAction::GoHome) == local_event(st, Message::Escape, now),
{
}

// ---------------------------------------------------------------------
// Who is connected
// ---------------------------------------------------------------------

/// A client that connects is present, one that goes is not, and nobody else
/// is touched; nor is anything else.
pub proof fn presence_is_kept_per_client(st: State, id: u8, other: u8)
    ensures
        st.joined(id).present.contains(id),
        !st.parted(id).present.contains(id),
        other != id ==> (st.joined(id).present.contains(other) <==> st.present.contains(other)),
        other != id ==> (st.parted(id).present.contains(other) <==> st.present.contains(other)),
        st.joined(id) == (State { present: st.joined(id).present, ..st }),
        st.parted(id) == (State { present: st.parted(id).present, ..st }),
        enterable(st.joined(id), id),
        st.guarded && id != 0 ==> !enterable(st.parted(id), id),
        st.open_to(id) <==> enterable(st, id),
{
}

/// Taking a client's screen out of the desktop leaves every other screen,
/// and no screen with that id.
pub proof fn a_removed_screen_is_gone(st: State, id: u8, e: Screen)
    ensures
        st.without_screen(id).layout.contains(e) <==> st.layout.contains(e) && e.id != id,
        st.without_screen(id) == (State { layout: st.without_screen(id).layout, ..st }),
{
    lemma_filter_screens(st.layout, |x: Screen| x.id != id, e);
}

/// A client that reports a new size has its screen resized where it stands:
/// the first screen with its id takes the logical size, keeping its corner
/// and its name, and no other screen changes.
pub proof fn a_resized_screen_stays_in_place(s: Seq<Screen>, id: u8, info: ScreenInfo, k: int)
    requires
        0 <= k < s.len(),
    ensures
        resized(s, id, info).len() == s.len(),
        ({
            let first = s[k].id == id && forall|j: int| 0 <= j < k ==> (#[trigger] s[j]).id != id;
            let t = resized(s, id, info)[k];
            &&& first ==> t.rect == (Rect {
                x: s[k].rect.x,
                y: s[k].rect.y,
                w: info.logical_w,
                h: info.logical_h,
            }) && t.id == s[k].id && t.name == s[k].name
            &&& !first ==> t == s[k]
        }),
{
    let p = |e: Screen| e.id == id;
    if exists|i: int| is_first(s, p, i) {
        let i = choose|i: int| is_first(s, p, i);
        assert(is_first(s, p, i));
        assert(p(s[i]));
        if s[k].id == id && forall|j: int| 0 <= j < k ==> (#[trigger] s[j]).id != id {
            if i < k {
                assert(s[i].id != id);
            } else if k < i {
                assert(!p(s[k]));
            }
        }
        if i == k {
            assert forall|j: int| 0 <= j < k implies (#[trigger] s[j]).id != id by {
                assert(!p(s[j]));
            }
        }
    } else if s[k].id == id && forall|j: int| 0 <= j < k ==> (#[trigger] s[j]).id != id {
        assert(is_first(s, p, k));
    }
}

// ---------------------------------------------------------------------
// Newcomers
// ---------------------------------------------------------------------

proof fn lemma_right_end(s: Seq<Screen>, local: Rect)
    ensures
        right_end(s, local) >= local.x + local.w,
        forall|k: int|
            0 <= k < s.len() ==> right_end(s, local) >= (#[trigger] s[k]).rect.x + s[k].rect.w,
        right_end(s, local) == local.x + local.w || exists|k: int|
            0 <= k < s.len() && right_end(s, local) == (#[trigger] s[k]).rect.x + s[k].rect.w,
    decreases s.len(),
{
    if s.len() > 0 {
        let t = s.drop_last();
        lemma_right_end(t, local);
        assert forall|k: int| 0 <= k < s.len() implies right_end(s, local) >= (
        #[trigger] s[k]).rect.x + s[k].rect.w by {
            if k < t.len() {
                assert(t[k] == s[k]);
            }
        }
        assert(s[s.len() - 1] == s.last());
        if right_end(t, local) != local.x + local.w {
            let k = choose|k: int|
                0 <= k < t.len() && right_end(t, local) == (#[trigger] t[k]).rect.x + t[k].rect.w;
            assert(s[k] == t[k]);
        }
    }
}

/// Some screen has this id.
pub open spec fn id_taken(s: Seq<Screen>, id: u8) -> bool {
    exists|k: int| 0 <= k < s.len() && (#[trigger] s[k]).id == id
}

/// A client that nobody has placed gets a screen of its own size directly
/// right of everything else, level with the server's own screen. It has
/// the lowest id that is free, is a guest's from here on, and nothing else
/// on the desktop moves.
pub proof fn a_newcomer_stands_right_of_the_desktop(
    s: State,
    t: State,
    id: u8,
    name: Seq<char>,
    info: ScreenInfo,
)
    requires
        with_newcomer(s, t, id, name, info),
        has_slot(s, info),
    ensures
        ({
            let n = s.layout.len() as int;
            let e = t.layout[n];
            &&& t.layout.len() == n + 1
            &&& forall|k: int| 0 <= k < n ==> #[trigger] t.layout[k] == s.layout[k]
            &&& e.id == id && e.name@ == name
            &&& e.rect.y == s.local.y
            &&& e.rect.w == info.logical_w && e.rect.h == info.logical_h
            &&& e.rect.x >= s.local.x + s.local.w
            &&& forall|k: int|
                0 <= k < n ==> e.rect.x >= (#[trigger] s.layout[k]).rect.x + s.layout[k].rect.w
            &&& e.rect.x == s.local.x + s.local.w || exists|k: int|
                0 <= k < n && e.rect.x == (#[trigger] s.layout[k]).rect.x + s.layout[k].rect.w
            &&& id >= 1
            &&& forall|k: int| 0 <= k < n ==> (#[trigger] s.layout[k]).id != id
            &&& forall|j: u8| 1 <= j < id ==> #[trigger] id_taken(s.layout, j)
            &&& forall|g: u8| #[trigger] t.guests.contains(g) <==> s.guests.contains(g) || g == id
            &&& t.cursor == s.cursor && t.local == s.local && t.present == s.present
            &&& t.guarded == s.guarded && t.locked == s.locked
            &&& t.home == s.home && t.away == s.away && t.away_beacon == s.away_beacon
        }),
{
    let n = s.layout.len() as int;
    lemma_right_end(s.layout, s.local);
    lookup_is_complete(s.layout, id);
    assert forall|k: int| 0 <= k < n implies #[trigger] t.layout[k] == s.layout[k] by {
        assert(t.layout.drop_last()[k] == t.layout[k]);
    }
    assert forall|j: u8| 1 <= j < id implies #[trigger] id_taken(s.layout, j) by {
        lookup_is_complete(s.layout, j);
        assert(find_screen(s.layout, j) is Some);
    }
}

/// The server's own name is the first local screen's, and a client's screen
/// is the first one of another id with the client's name.
pub proof fn whose_name_it_is(s: Seq<Screen>, name: String)
    ensures
        own_name(s, name@) <==> exists|k: int|
            0 <= k < s.len() && (#[trigger] s[k]).id == 0 && s[k].name@ == name@ && forall|j: int|
                0 <= j < k ==> (#[trigger] s[j]).id != 0,
        named_screen(s, name@) is None <==> forall|k: int|
            0 <= k < s.len() ==> !((#[trigger] s[k]).id != 0 && s[k].name@ == name@),
        forall|k: int|
            0 <= k < s.len() && (#[trigger] s[k]).id != 0 && s[k].name@ == name@ && (forall|j: int|
                0 <= j < k ==> !((#[trigger] s[j]).id != 0 && s[j].name@ == name@))
                ==> named_screen(s, name@) == Some(s[k]),
{
    let p = |e: Screen| e.id != 0 && e.name@ == name@;
    let z = |e: Screen| e.id == 0;
    search_is_complete(s, p);
    search_is_complete(s, z);
    if own_name(s, name@) {
        let k = choose|k: int| is_first(s, z, k);
        assert(is_first(s, z, k));
        assert forall|j: int| 0 <= j < k implies (#[trigger] s[j]).id != 0 by {
            assert(!z(s[j]));
        }
        assert(z(s[k]));
    }
    if exists|k: int|
        0 <= k < s.len() && (#[trigger] s[k]).id == 0 && s[k].name@ == name@ && forall|j: int|
            0 <= j < k ==> (#[trigger] s[j]).id != 0 {
        let k = choose|k: int|
            0 <= k < s.len() && (#[trigger] s[k]).id == 0 && s[k].name@ == name@ && forall|j: int|
                0 <= j < k ==> (#[trigger] s[j]).id != 0;
        assert(is_first(s, z, k));
        lemma_first_where(s, z, k);
    }
    if named_screen(s, name@) is None {
        assert forall|k: int| 0 <= k < s.len() implies !((#[trigger] s[k]).id != 0 && s[k].name@
            == name@) by {
            assert(!p(s[k]));
        }
    }
    if forall|k: int| 0 <= k < s.len() ==> !((#[trigger] s[k]).id != 0 && s[k].name@ == name@) {
        assert forall|k: int| 0 <= k < s.len() implies !p(#[trigger] s[k]) by {}
    }
    assert forall|k: int|
        0 <= k < s.len() && (#[trigger] s[k]).id != 0 && s[k].name@ == name@ && (forall|j: int|
            0 <= j < k ==> !((#[trigger] s[j]).id != 0 && s[j].name@ == name@)) implies named_screen(
        s,
        name@,
    ) == Some(s[k]) by {
        assert(is_first(s, p, k));
        lemma_first_where(s, p, k);
    }
}

// ---------------------------------------------------------------------
// New layouts
// ---------------------------------------------------------------------

/// The cursor stands in the middle of `r`, at home, with every latch
/// cleared.
pub open spec fn rests_in(st: State, r: Rect) -> bool {
    &&& st.local == r
    &&& st.cursor.mode is Local
    &&& st.cursor.x == r.x + r.w / 2
    &&& st.cursor.y == r.y + r.h / 2
    &&& at_rest(st.home)
    &&& at_rest(st.away)
    &&& st.away_beacon is None
}

/// A session starts at home, in the middle of its own screen, with nobody
/// connected, no guests, and open walls.
pub proof fn a_session_starts_at_home(layout: Seq<Screen>, local: Rect)
    requires
        bounded(local),
        local.w >= 0 && local.h >= 0,
    ensures
        rests_in(adopted(layout, local), local),
        adopted(layout, local).layout == layout,
        forall|id: u8| !#[trigger] adopted(layout, local).guests.contains(id),
        forall|id: u8| !#[trigger] adopted(layout, local).present.contains(id),
        !adopted(layout, local).guarded,
        !adopted(layout, local).locked,
{
}

/// A new layout with a home screen is adopted whole, in its order, with
/// behind it the screens of the guests whom it neither names nor takes the
/// id of. Control is home in the middle of the new home screen; who is
/// connected and whether the walls are locked stays. A cursor that was away
/// is brought home there, one that was home is left alone.
pub proof fn a_new_layout_is_adopted_whole(st: State, layout: Seq<Screen>, home: Screen, e: Screen)
    requires
        find_screen(layout, 0) == Some(home),
        bounded(home.rect),
        home.rect.w >= 0 && home.rect.h >= 0,
    ensures
        ({
            let (s, acts) = swapped(st, layout);
            let n = layout.len() as int;
            &&& rests_in(s, home.rect)
            &&& s.layout.len() >= n
            &&& forall|k: int| 0 <= k < n ==> #[trigger] s.layout[k] == layout[k]
            &&& s.layout.skip(n).contains(e) <==> {
                &&& st.layout.contains(e)
                &&& st.guests.contains(e.id)
                &&& forall|k: int|
                    0 <= k < n ==> (#[trigger] layout[k]).id != e.id && layout[k].name@ != e.name@
            }
            &&& forall|id: u8| #[trigger]
                s.guests.contains(id) <==> st.guests.contains(id) && forall|k: int|
                    0 <= k < n ==> (#[trigger] layout[k]).id != id
            &&& s.guarded == st.guarded
            &&& s.present == st.present
            &&& s.locked == st.locked
            &&& st.cursor.mode is Local ==> acts.len() == 0
            &&& st.cursor.mode is Remote ==> acts.len() == 1 && takes_to(
                acts[0],
                0,
                home.rect.w / 2,
                home.rect.h / 2,
            )
        }),
{
    let n = layout.len() as int;
    let keep = |x: Screen| stays(st.guests, layout, x);
    let extra = st.layout.filter(keep);
    let all = merged(st, layout);
    assert(all.skip(n) =~= extra);
    lemma_filter_screens(st.layout, keep, e);
    lookup_is_complete(layout, e.id);
    assert(stays(st.guests, layout, e) <==> st.guests.contains(e.id) && forall|k: int|
        0 <= k < n ==> (#[trigger] layout[k]).id != e.id && layout[k].name@ != e.name@);
    let s = swapped(st, layout).0;
    assert forall|id: u8| #[trigger] s.guests.contains(id) <==> st.guests.contains(id) && forall|
        k: int,
    |
        0 <= k < n ==> (#[trigger] layout[k]).id != id by {
        lookup_is_complete(layout, id);
    }
}

} // verus!
