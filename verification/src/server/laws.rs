//! What holds of every server: registration, revocation and the cursor's
//! whereabouts.
use vstd::prelude::*;

use crate::actions::UserAction;
use crate::layout::{clamped, exit_side, find_screen, imax, Direction};
use crate::protocol::{Message, Screen, ScreenInfo};
use crate::server::hub::{
    client_at, distinct, has_screen, ids, lemma_no_owner, lemma_owner, lemma_without, owner,
    without, Client, Effect, HubState, ACTIVE_BEACON_TIMEOUT,
};
use crate::server::net::{Endpoint, PeerIp};
use crate::server::policy::{barred, Policy};
use crate::session::{
    away_after, away_beacon, beacon_fresh, home_after, local_event, named_in, swapped, Action,
    Cursor, State,
};
use crate::session::commands::obeyed;
use crate::walls::touched;
use crate::Mode;

verus! {

/// The server and the session agree on where the cursor is.
pub open spec fn in_step(h: HubState) -> bool {
    match h.session.cursor.mode {
        Mode::Local => h.active is None,
        Mode::Remote(id) => h.active == Some(id),
    }
}

/// The actions of a transition say where the cursor went: at most one,
/// and a switch names the screen that has control afterwards. It goes to a
/// screen that may be entered, and changes nothing about who is connected.
pub open spec fn faithful(before: State, after: State, actions: Seq<Action>) -> bool {
    &&& after.guarded == before.guarded
    &&& after.present == before.present
    &&& actions.len() <= 1
    &&& actions.len() == 0 ==> after.cursor.mode == before.cursor.mode
    &&& actions.len() == 1 ==> match actions[0] {
        Action::SwitchTo { to, .. } => after.cursor.mode == Mode::Remote(to) && to != 0
            && before.open_to(to),
        Action::SwitchToLocal { .. } => after.cursor.mode == Mode::Local,
        _ => after.cursor.mode == before.cursor.mode,
    }
}

proof fn lemma_cross_faithful(st: State, s: State, from: u8, dir: Direction)
    requires
        s.cursor.mode == st.cursor.mode,
        s.guarded == st.guarded,
        s.present == st.present,
    ensures
        faithful(st, s.try_cross(from, dir).0, s.try_cross(from, dir).1),
{
    let (id, x, y) = s.landing(from, dir);
    if s.alive(from, dir) {
        assert(s.try_cross(from, dir).1 == seq![s.crossed(from, dir).1]);
        assert(s.crossed(from, dir).0 == s.entered(id, x, y));
    }
}

proof fn lemma_home_faithful(s: State, dx: int, dy: int, now: u64)
    ensures
        faithful(s, home_after(s, dx, dy, now).0, home_after(s, dx, dy, now).1),
{
    match s.fires(0, s.home, dx, dy) {
        Some(dir) => {
            lemma_cross_faithful(s, s, 0, dir);
        },
        None => {
            let e = s.home.pushed(true, dx, dy, now);
            if let Some(dir) = exit_side(s.layout, 0, s.cursor.x as int, s.cursor.y as int) {
                let free = State { home: e.upright(), ..s.held_in(s.local) };
                lemma_cross_faithful(s, free, 0, dir);
            }
        },
    }
}

proof fn lemma_away_faithful(s: State, id: u8, dx: int, dy: int, now: u64)
    ensures
        faithful(s, away_after(s, id, dx, dy, now).0, away_after(s, id, dx, dy, now).1),
{
    if let Some(screen) = find_screen(s.layout, id) {
        let fresh = beacon_fresh(s, now);
        let fired = if fresh {
            s.fires(id, s.away, dx, dy)
        } else {
            None
        };
        match fired {
            Some(dir) => {
                lemma_cross_faithful(s, s, id, dir);
            },
            None => {
                let e = s.away.pushed(fresh, dx, dy, now);
                if let Some(dir) = exit_side(s.layout, id, s.cursor.x as int, s.cursor.y as int) {
                    let free = State { away: e.upright(), ..s.held_in(screen.rect) };
                    lemma_cross_faithful(s, free, id, dir);
                }
            },
        }
    }
}

/// Every input event is faithfully reported.
pub proof fn events_are_faithful(st: State, msg: Message, now: u64)
    ensures
        faithful(st, local_event(st, msg, now).0, local_event(st, msg, now).1),
{
    match msg {
        Message::MouseMoveRel { dx, dy } => {
            let s = st.moved(dx as int, dy as int);
            match st.cursor.mode {
                Mode::Local => {
                    lemma_home_faithful(s, dx as int, dy as int, now);
                },
                Mode::Remote(id) => {
                    lemma_away_faithful(s, id, dx as int, dy as int, now);
                },
            }
        },
        Message::MouseMoveAbs { x, y } => {
            let at = touched(st.local, x as int, y as int);
            if let Some(dir) = st.home.parks(at, now) {
                let s = State {
                    cursor: Cursor {
                        x: (st.local.x + x) as i32,
                        y: (st.local.y + y) as i32,
                        mode: st.cursor.mode,
                    },
                    home: st.home.reported(at),
                    ..st
                };
                lemma_cross_faithful(st, s, 0, dir);
            }
        },
        _ => {},
    }
}

/// Every beacon of a client is faithfully reported.
pub proof fn beacons_are_faithful(st: State, id: u8, x: int, y: int, now: u64)
    ensures
        faithful(st, away_beacon(st, id, x, y, now).0, away_beacon(st, id, x, y, now).1),
{
    if st.cursor.mode == Mode::Remote(id) {
        if let Some(screen) = find_screen(st.layout, id) {
            let r = screen.rect;
            let px = clamped(x, 0, imax(r.w - 1, 0));
            let py = clamped(y, 0, imax(r.h - 1, 0));
            let at = touched(r, px, py);
            if let Some(dir) = st.away.parks(at, now) {
                let s = State {
                    cursor: Cursor {
                        x: (r.x + px) as i32,
                        y: (r.y + py) as i32,
                        mode: st.cursor.mode,
                    },
                    away: st.away.reported(at),
                    away_beacon: Some(now),
                    ..st
                };
                lemma_cross_faithful(st, s, id, dir);
            }
        }
    }
}

/// Every command of the user is faithfully reported.
pub proof fn commands_are_faithful(st: State, action: UserAction)
    ensures
        faithful(st, obeyed(st, action).0, obeyed(st, action).1),
        obeyed(st, action).0.layout == st.layout,
{
}

pub(crate) proof fn lemma_apply_in_step(h: HubState, session: State, actions: Seq<Action>, now: u64)
    requires
        in_step(h),
        h.guards(),
        faithful(h.session, session, actions),
    ensures
        in_step((HubState { session, ..h }).applied_all(actions, now).0),
        (HubState { session, ..h }).applied_all(actions, now).0.session == session,
{
    let g = HubState { session, ..h };
    if actions.len() == 1 {
        assert(actions.drop_first().len() == 0);
        let a = g.applied(actions[0], now).0;
        assert(a.applied_all(actions.drop_first(), now).0 == a);
        if let Action::SwitchTo { to, .. } = actions[0] {
            assert(client_at(h.clients, to) is Some);
        }
    }
}

/// Input keeps the server and the session in step.
pub proof fn input_keeps_in_step(h: HubState, msg: Message, now: u64, now_ms: u64)
    requires
        in_step(h),
        h.guards(),
    ensures
        in_step(h.fed(msg, now, now_ms).0),
{
    events_are_faithful(h.session, msg, now);
    let (session, actions) = local_event(h.session, msg, now);
    lemma_apply_in_step(h, session, actions, now_ms);
}

/// A user's command keeps the server and the session in step.
pub proof fn commands_keep_in_step(h: HubState, action: UserAction, now_ms: u64)
    requires
        in_step(h),
        h.guards(),
    ensures
        in_step(h.ordered(action, now_ms).0),
{
    commands_are_faithful(h.session, action);
    let (session, actions) = obeyed(h.session, action);
    lemma_apply_in_step(h, session, actions, now_ms);
}

/// The cursor stream keeps the server and the session in step.
pub proof fn datagrams_keep_in_step(
    h: HubState,
    id: u8,
    from: Endpoint,
    seq: u32,
    newer: bool,
    msg: Message,
    now: u64,
    now_ms: u64,
)
    requires
        in_step(h),
        h.guards(),
    ensures
        in_step(h.received(id, from, seq, newer, msg, now, now_ms).0),
{
    let s = h.streaming(id, from, now_ms);
    if let Message::CursorPos { x, y } = msg {
        beacons_are_faithful(s.session, id, x as int, y as int, now);
        let (session, actions) = away_beacon(s.session, id, x as int, y as int, now);
        let base = HubState { seqs: s.seqs.insert(id, seq), ..s };
        lemma_apply_in_step(base, session, actions, now_ms);
    }
}

/// A client that is gone takes the cursor with it nowhere: losing any
/// client keeps the server and the session in step, and control is not on
/// the lost client.
pub proof fn losing_a_client_keeps_in_step(h: HubState, id: u8, remove_screen: bool, now: u64)
    requires
        in_step(h),
    ensures
        in_step(h.forgotten(id).let_go(id, remove_screen, now).0),
        h.forgotten(id).let_go(id, remove_screen, now).0.session.cursor.mode != Mode::Remote(id),
        h.forgotten(id).let_go(id, remove_screen, now).0.active != Some(id),
{
}

/// A torn-down client is forgotten everywhere, and control is home if it
/// was there.
pub proof fn teardown_forgets_the_client(h: HubState, conn: u64, now: u64)
    requires
        h.valid(),
        in_step(h),
        owner(h.clients, conn) is Some,
    ensures
        ({
            let id = owner(h.clients, conn)->0.id;
            let g = h.torn_down(conn, now).0;
            &&& client_at(g.clients, id) is None
            &&& !g.addrs.dom().contains(id)
            &&& !g.seqs.dom().contains(id)
            &&& !g.heard.dom().contains(id)
            &&& !g.ips.dom().contains(id)
            &&& g.active != Some(id)
            &&& in_step(g)
            &&& h.session.cursor.mode == Mode::Remote(id) ==> g.session.cursor.mode is Local
        }),
{
    let id = owner(h.clients, conn)->0.id;
    lemma_without(h.clients, id);
    losing_a_client_keeps_in_step(h, id, false, now);
}

/// A fresh connection is authoritative: once a machine has reconnected
/// under its id, the end of its old connection changes nothing.
pub proof fn superseded_connection_is_harmless(
    h: HubState,
    old: Client,
    fresh: Client,
    ip: PeerIp,
    addr: String,
    info: ScreenInfo,
    admitted: bool,
    now: u64,
)
    requires
        h.valid(),
        client_at(h.clients, fresh.id) == Some(old),
        fresh.conn != old.conn,
    ensures
        ({
            let g = h.registered(fresh, ip, addr, info, admitted).0;
            g.torn_down(old.conn, now) == (g, Seq::<Effect>::empty())
        }),
{
    let g = h.registered(fresh, ip, addr, info, admitted).0;
    let s = ids(h.clients);
    s.index_of_first_ensures(fresh.id);
    let f = s.index_of_first(fresh.id)->0;
    assert(h.clients[f] == old);
    let t = h.clients.remove(f);
    assert forall|j: int| 0 <= j < g.clients.len() implies (#[trigger] g.clients[j]).conn
        != old.conn by {
        if j < t.len() {
            let a = if j < f {
                j
            } else {
                j + 1
            };
            assert(g.clients[j] == h.clients[a]);
            if a < f {
                assert(h.clients[a].conn != h.clients[f].conn);
            } else {
                assert(h.clients[f].conn != h.clients[a].conn);
            }
        }
    }
    lemma_no_owner(g.clients, old.conn);
}

proof fn lemma_disconnected_clients(h: HubState, id: u8, remove_screen: bool, now: u64)
    ensures
        h.disconnected(id, remove_screen, now).0.clients == without(h.clients, id),
        h.disconnected(id, remove_screen, now).0.policy == h.policy,
        !remove_screen ==> h.disconnected(id, remove_screen, now).0.session.layout
            == h.session.layout,
{
}

pub(crate) proof fn lemma_disconnected_all(h: HubState, gone: Seq<u8>, remove_screen: bool, now: u64)
    requires
        distinct(h.clients),
    ensures
        ({
            let g = h.disconnected_all(gone, remove_screen, now).0;
            &&& distinct(g.clients)
            &&& g.policy == h.policy
            &&& !remove_screen ==> g.session.layout == h.session.layout
            &&& forall|k: int|
                0 <= k < g.clients.len() ==> h.clients.contains(#[trigger] g.clients[k])
                    && !gone.contains(g.clients[k].id)
        }),
    decreases gone.len(),
{
    if gone.len() > 0 {
        let h1 = h.disconnected(gone[0], remove_screen, now).0;
        lemma_disconnected_clients(h, gone[0], remove_screen, now);
        lemma_without(h.clients, gone[0]);
        let rest = gone.drop_first();
        lemma_disconnected_all(h1, rest, remove_screen, now);
        let g = h.disconnected_all(gone, remove_screen, now).0;
        assert(g == h1.disconnected_all(rest, remove_screen, now).0);
        assert forall|k: int| 0 <= k < g.clients.len() implies h.clients.contains(
            #[trigger] g.clients[k],
        ) && !gone.contains(g.clients[k].id) by {
            let c = g.clients[k];
            assert(h1.clients.contains(c));
            let j = choose|j: int| 0 <= j < h1.clients.len() && h1.clients[j] == c;
            assert(h1.clients[j].id != gone[0]);
            if gone.contains(c.id) {
                let m = choose|m: int| 0 <= m < gone.len() && gone[m] == c.id;
                assert(m > 0);
                assert(rest[m - 1] == c.id);
                assert(rest.contains(c.id));
            }
        }
    } else {
        let g = h.disconnected_all(gone, remove_screen, now).0;
        assert(g == h);
        assert forall|k: int| 0 <= k < g.clients.len() implies h.clients.contains(
            #[trigger] g.clients[k],
        ) by {
            assert(h.clients[k] == g.clients[k]);
        }
    }
}

pub(crate) proof fn lemma_filtered_ids(cs: Seq<Client>, p: spec_fn(Client) -> bool, c: Client)
    requires
        cs.contains(c),
        p(c),
    ensures
        ids(cs.filter(p)).contains(c.id),
{
    broadcast use vstd::seq_lib::group_filter_ensures;

    let i = choose|i: int| 0 <= i < cs.len() && cs[i] == c;
    assert(cs.filter(p).contains(cs[i]));
    let k = choose|k: int| 0 <= k < cs.filter(p).len() && cs.filter(p)[k] == c;
    assert(ids(cs.filter(p))[k] == c.id);
}

/// A revocation takes effect at once: after a policy is adopted, no
/// connected client is revoked by it.
pub proof fn revocation_takes_effect_at_once(h: HubState, policy: Policy, now: u64)
    requires
        distinct(h.clients),
    ensures
        ({
            let g = h.governed(policy, now).0;
            &&& g.policy == policy
            &&& forall|k: int|
                0 <= k < g.clients.len() ==> !barred(
                    policy.revoked_ids@,
                    (#[trigger] g.clients[k]).machine_id@,
                )
        }),
{
    let h1 = HubState { policy, ..h };
    lemma_disconnected_all(h1, h1.revoked(), true, now);
    let g = h.governed(policy, now).0;
    let p = |c: Client| barred(h1.policy.revoked_ids@, c.machine_id@);
    assert forall|k: int| 0 <= k < g.clients.len() implies !barred(
        policy.revoked_ids@,
        (#[trigger] g.clients[k]).machine_id@,
    ) by {
        let c = g.clients[k];
        assert(h1.clients.contains(c));
        if p(c) {
            lemma_filtered_ids(h1.clients, p, c);
        }
    }
}

/// No ghost connections linger: after a reload every connected client has
/// its screen in the layout.
pub proof fn reload_leaves_no_ghosts(h: HubState, layout: Seq<Screen>, now: u64)
    requires
        distinct(h.clients),
    ensures
        ({
            let g = h.reloaded(layout, now).0;
            forall|k: int|
                0 <= k < g.clients.len() ==> has_screen(
                    g.session.layout,
                    #[trigger] g.clients[k],
                )
        }),
{
    let (session, actions) = swapped(h.session, layout);
    let h0 = HubState { session, ..h };
    let h1 = h0.applied_all(actions, now).0;
    assert(h1.clients == h.clients && h1.session == session) by {
        if actions.len() > 0 {
            assert(actions.drop_first().len() == 0);
            let a = h0.applied(actions[0], now).0;
            assert(a.applied_all(actions.drop_first(), now).0 == a);
        }
    }
    lemma_disconnected_all(h1, h1.stale(), false, now);
    let g = h.reloaded(layout, now).0;
    let p = |c: Client| !has_screen(h1.session.layout, c);
    assert forall|k: int| 0 <= k < g.clients.len() implies has_screen(
        g.session.layout,
        #[trigger] g.clients[k],
    ) by {
        let c = g.clients[k];
        assert(h1.clients.contains(c));
        if p(c) {
            lemma_filtered_ids(h1.clients, p, c);
        }
    }
}

/// A reload that changes nothing for a client keeps it connected: a
/// client whose screen is in the layout is never dropped as stale.
pub proof fn client_with_a_screen_is_not_stale(h: HubState, c: Client)
    requires
        distinct(h.clients),
        h.clients.contains(c),
        has_screen(h.session.layout, c),
    ensures
        !h.stale().contains(c.id),
{
    broadcast use vstd::seq_lib::group_filter_ensures;

    let p = |x: Client| !has_screen(h.session.layout, x);
    let f = h.clients.filter(p);
    if h.stale().contains(c.id) {
        let k = choose|k: int| 0 <= k < ids(f).len() && ids(f)[k] == c.id;
        let x = f[k];
        assert(p(f[k]));
        crate::server::hub::lemma_filter_from(h.clients, p, x);
        let a = choose|a: int| 0 <= a < h.clients.len() && h.clients[a] == x;
        let b = choose|b: int| 0 <= b < h.clients.len() && h.clients[b] == c;
        assert(a == b);
    }
}

/// A datagram that does not come from where the client's handshake came
/// from changes nothing, whatever id it claims.
pub proof fn forged_datagram_changes_nothing(
    h: HubState,
    id: u8,
    from: Endpoint,
    seq: u32,
    newer: bool,
    msg: Message,
    now: u64,
    now_ms: u64,
)
    requires
        !h.ips.dom().contains(id) || h.ips[id] != from.ip,
    ensures
        h.received(id, from, seq, newer, msg, now, now_ms) == (h, Seq::<Effect>::empty()),
{
}

/// A late report never arms a crossing: a beacon that is not newer than
/// the last applied one leaves the session alone.
pub proof fn stale_beacon_never_moves_the_cursor(
    h: HubState,
    id: u8,
    from: Endpoint,
    seq: u32,
    msg: Message,
    now: u64,
    now_ms: u64,
)
    ensures
        h.received(id, from, seq, false, msg, now, now_ms).0.session == h.session,
        h.received(id, from, seq, false, msg, now, now_ms).1 == Seq::<Effect>::empty(),
{
}

/// A reconnect is not deafened by old sequence numbers: a stream from a
/// new source starts counting from zero.
pub proof fn new_source_starts_a_new_sequence(h: HubState, id: u8, from: Endpoint, now_ms: u64)
    requires
        h.addrs.dom().contains(id),
        h.addrs[id] != from,
    ensures
        h.streaming(id, from, now_ms).last_seq(id) == 0,
        h.streaming(id, from, now_ms).addrs[id] == from,
{
}

/// A crossing after an idle stretch is not dropped by the watchdog: a
/// client that has just been given the cursor has the whole window to
/// start reporting.
pub proof fn fresh_crossing_gets_the_whole_window(
    h: HubState,
    to: u8,
    x: i32,
    y: i32,
    now: u64,
    later: u64,
)
    requires
        h.connected(to),
        later <= now + ACTIVE_BEACON_TIMEOUT,
    ensures
        h.applied(Action::SwitchTo { to, x, y }, now).0.wedged(later) is None,
{
}

/// A silent stream never strands the cursor: when the watchdog finds the
/// active client wedged, control is home again.
pub proof fn watchdog_brings_control_home(h: HubState, now_ms: u64)
    requires
        h.valid(),
        in_step(h),
        h.wedged(now_ms) is Some,
    ensures
        h.watched(now_ms).0.session.cursor.mode is Local,
        h.watched(now_ms).0.active is None,
{
    let id = h.wedged(now_ms)->0;
    let c = client_at(h.clients, id)->0;
    ids(h.clients).index_of_first_ensures(id);
    let k = ids(h.clients).index_of_first(id)->0;
    assert(h.clients[k].id == id);
    lemma_owner(h.clients, c.conn, k);
    teardown_forgets_the_client(h, c.conn, now_ms);
}

pub(crate) proof fn lemma_others_stay(h: HubState, gone: Seq<u8>, remove_screen: bool, now: u64, c: Client)
    requires
        distinct(h.clients),
        h.clients.contains(c),
        !gone.contains(c.id),
    ensures
        h.disconnected_all(gone, remove_screen, now).0.clients.contains(c),
    decreases gone.len(),
{
    if gone.len() > 0 {
        let h1 = h.disconnected(gone[0], remove_screen, now).0;
        lemma_disconnected_clients(h, gone[0], remove_screen, now);
        lemma_without(h.clients, gone[0]);
        let rest = gone.drop_first();
        assert(gone[0] != c.id);
        assert(!rest.contains(c.id)) by {
            if rest.contains(c.id) {
                let m = choose|m: int| 0 <= m < rest.len() && rest[m] == c.id;
                assert(gone[m + 1] == c.id);
            }
        }
        let i = choose|i: int| 0 <= i < h.clients.len() && h.clients[i] == c;
        ids(h.clients).index_of_first_ensures(gone[0]);
        match ids(h.clients).index_of_first(gone[0]) {
            Some(k) => {
                assert(i != k);
                let j = if i < k {
                    i
                } else {
                    i - 1
                };
                assert(h1.clients[j] == c);
            },
            None => {
                assert(h1.clients[i] == c);
            },
        }
        lemma_others_stay(h1, rest, remove_screen, now, c);
    } else {
        assert(h.disconnected_all(gone, remove_screen, now).0 == h);
    }
}

/// An unrelated edit never kicks a live guest off: a client that was
/// admitted without being named, and that a new layout still does not
/// name, stays connected through the reload.
pub proof fn reload_keeps_the_guests(
    h: HubState,
    layout: Seq<Screen>,
    now: u64,
    c: Client,
    e: Screen,
)
    requires
        distinct(h.clients),
        h.clients.contains(c),
        h.session.layout.contains(e),
        e.id == c.id,
        e.name@ == c.name@,
        h.session.guests.contains(c.id),
        find_screen(layout, 0) is Some,
        !named_in(layout, c.name@),
        find_screen(layout, c.id) is None,
    ensures
        h.reloaded(layout, now).0.clients.contains(c),
{
    let (session, actions) = swapped(h.session, layout);
    let h0 = HubState { session, ..h };
    let h1 = h0.applied_all(actions, now).0;
    assert(h1.clients == h.clients && h1.session == session) by {
        if actions.len() > 0 {
            assert(actions.drop_first().len() == 0);
            let a = h0.applied(actions[0], now).0;
            assert(a.applied_all(actions.drop_first(), now).0 == a);
        }
    }
    crate::session_laws::guests_survive_a_reload(h.session, layout, e);
    let k = choose|k: int| 0 <= k < session.layout.len() && session.layout[k] == e;
    assert(session.layout[k].id == c.id && session.layout[k].name@ == c.name@);
    client_with_a_screen_is_not_stale(h1, c);
    lemma_others_stay(h1, h1.stale(), false, now, c);
}

} // verus!
