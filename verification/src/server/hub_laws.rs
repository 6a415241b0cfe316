//! What the server says to whom, and what it keeps, event by event.
use vstd::prelude::*;

use crate::actions::{Chords, KeyFate, UserAction};
use crate::crossing_laws::arrived_at;
use crate::layout::find_screen;
use crate::protocol::{Command, KeyKind, Message, Screen, ScreenInfo};
use crate::server::control::{controlled, keyed, Control};
use crate::server::hub::{
    client_at, client_named, distinct, has_screen, ids, lemma_at, lemma_filter_from, lemma_no_owner,
    lemma_owner, lemma_registered, owner, routed, without, Client, Effect, HubState, Outbound,
    ServerEvent,
};
use crate::server::laws::{
    client_with_a_screen_is_not_stale, in_step, lemma_disconnected_all, lemma_filtered_ids,
    lemma_others_stay, reload_leaves_no_ghosts,
};
use crate::server::net::{Endpoint, PeerIp};
use crate::server::policy::{barred, Policy};
use crate::session::{away_beacon, homecoming, local_event, resized, swapped, Action, State};
use crate::session::commands::obeyed;
use crate::Mode;

verus! {

// ---------------------------------------------------------------------
// Who is meant
// ---------------------------------------------------------------------

/// Relative motion travels on the datagram link, everything else on the
/// control channel; no message is changed on the way.
pub proof fn each_message_has_its_link(msg: Message)
    ensures
        msg is MouseMoveRel ==> routed(msg) == Outbound::Udp(msg),
        !(msg is MouseMoveRel) ==> routed(msg) == Outbound::Tcp(msg),
{
}

/// Index `k` holds the first client with this id.
pub open spec fn is_client(cs: Seq<Client>, id: u8, k: int) -> bool {
    0 <= k < cs.len() && cs[k].id == id && forall|j: int| 0 <= j < k ==> (#[trigger] cs[j]).id != id
}

/// A client is found under its id, by its connection and by its name: the
/// first one in each case, or none where nobody has it.
pub proof fn clients_are_found(cs: Seq<Client>, id: u8, conn: u64, name: String, k: int)
    requires
        0 <= k < cs.len(),
    ensures
        is_client(cs, id, k) ==> client_at(cs, id) == Some(cs[k]) && without(cs, id) == cs.remove(
            k,
        ),
        (forall|j: int| 0 <= j < cs.len() ==> (#[trigger] cs[j]).id != id) ==> client_at(
            cs,
            id,
        ) is None && without(cs, id) == cs,
        cs[k].conn == conn && (forall|j: int| 0 <= j < k ==> (#[trigger] cs[j]).conn != conn)
            ==> owner(cs, conn) == Some(cs[k]),
        (forall|j: int| 0 <= j < cs.len() ==> (#[trigger] cs[j]).conn != conn) ==> owner(
            cs,
            conn,
        ) is None,
        cs[k].name@ == name@ && (forall|j: int| 0 <= j < k ==> (#[trigger] cs[j]).name@ != name@)
            ==> client_named(cs, name@) == Some(cs[k]),
        (forall|j: int| 0 <= j < cs.len() ==> (#[trigger] cs[j]).name@ != name@) ==> client_named(
            cs,
            name@,
        ) is None,
{
    if is_client(cs, id, k) {
        lemma_at(cs, id, k);
    }
    if forall|j: int| 0 <= j < cs.len() ==> (#[trigger] cs[j]).id != id {
        lemma_registered(cs, id);
        ids(cs).index_of_first_ensures(id);
        if ids(cs).contains(id) {
            let j = choose|j: int| 0 <= j < ids(cs).len() && ids(cs)[j] == id;
            assert(cs[j].id == id);
        }
    }
    if cs[k].conn == conn && (forall|j: int| 0 <= j < k ==> (#[trigger] cs[j]).conn != conn) {
        lemma_owner(cs, conn, k);
    }
    if forall|j: int| 0 <= j < cs.len() ==> (#[trigger] cs[j]).conn != conn {
        lemma_no_owner(cs, conn);
    }
    let s = cs.map_values(|c: Client| c.name@);
    s.index_of_first_ensures(name@);
    if cs[k].name@ == name@ && (forall|j: int| 0 <= j < k ==> (#[trigger] cs[j]).name@ != name@) {
        assert(s[k] == name@);
        assert(s.contains(name@));
        let f = s.index_of_first(name@)->0;
        if f < k {
            assert(cs[f].name@ == name@);
        }
    }
    if forall|j: int| 0 <= j < cs.len() ==> (#[trigger] cs[j]).name@ != name@ {
        if s.contains(name@) {
            let j = choose|j: int| 0 <= j < s.len() && s[j] == name@;
            assert(cs[j].name@ == name@);
        }
    }
}

// ---------------------------------------------------------------------
// A session's actions
// ---------------------------------------------------------------------

/// The effects begin with the goodbye to the client that had the cursor,
/// on its connection and under its id, where there is one. Gives how many
/// effects that is.
pub open spec fn begins_with_goodbye(h: HubState, es: Seq<Effect>, n: int) -> bool {
    &&& n == 0 || n == 1
    &&& n == 1 <==> h.active is Some && exists|k: int| is_client(h.clients, h.active->0, k)
    &&& forall|k: int|
        h.active is Some && #[trigger] is_client(h.clients, h.active->0, k) ==> es.len() > 0 && es[0]
            == Effect::Queue {
            conn: h.clients[k].conn,
            item: Outbound::Tcp(Message::Leave { screen_id: h.active->0 }),
        }
}

proof fn lemma_goodbye(h: HubState)
    ensures
        h.farewell().len() <= 1,
        begins_with_goodbye(h, h.farewell(), h.farewell().len() as int),
{
    if let Some(a) = h.active {
        lemma_registered(h.clients, a);
        ids(h.clients).index_of_first_ensures(a);
        if client_at(h.clients, a) is Some {
            let f = ids(h.clients).index_of_first(a)->0;
            assert(h.clients[f].id == a);
            assert forall|j: int| 0 <= j < f implies (#[trigger] h.clients[j]).id != a by {
                assert(ids(h.clients)[j] == h.clients[j].id);
            }
            assert(is_client(h.clients, a, f));
        }
        assert forall|k: int| #[trigger] is_client(h.clients, a, k) implies h.farewell() == seq![
            Effect::Queue {
                conn: h.clients[k].conn,
                item: Outbound::Tcp(Message::Leave { screen_id: a }),
            },
        ] by {
            lemma_at(h.clients, a, k);
        }
    }
}

/// A switch to a registered client: the client that had the cursor is told
/// to leave, then the new one to enter, at the point that the session chose
/// and under its own id; then the local machine lets go of its keyboard,
/// pointer and cursor. The new client has the cursor and its stream counts
/// as heard from now. A client that is not registered is not switched to.
pub proof fn a_switch_says_goodbye_and_then_hello(
    h: HubState,
    to: u8,
    x: i32,
    y: i32,
    now: u64,
    k: int,
)
    ensures
        is_client(h.clients, to, k) ==> {
            let (g, es) = h.applied(Action::SwitchTo { to, x, y }, now);
            let n = es.len() - 4;
            &&& begins_with_goodbye(h, es, n)
            &&& es[n] == Effect::Queue {
                conn: h.clients[k].conn,
                item: Outbound::Tcp(Message::Enter { screen_id: to, x, y }),
            }
            &&& es[n + 1] == Effect::GrabInput(true)
            &&& es[n + 2] == Effect::IsolateInput(true)
            &&& es[n + 3] == Effect::ShowCursor(false)
            &&& g.active == Some(to)
            &&& g.heard.contains_key(to) && g.heard[to] == now
            &&& forall|id: u8|
                id != to ==> (#[trigger] g.heard.contains_key(id) <==> h.heard.contains_key(id))
                    && g.heard[id] == h.heard[id]
            &&& g == (HubState { active: g.active, heard: g.heard, ..h })
        },
        (forall|j: int| 0 <= j < h.clients.len() ==> (#[trigger] h.clients[j]).id != to)
            ==> h.applied(Action::SwitchTo { to, x, y }, now) == (h, Seq::<Effect>::empty()),
{
    lemma_goodbye(h);
    lemma_registered(h.clients, to);
    if is_client(h.clients, to, k) {
        lemma_at(h.clients, to, k);
        let (g, es) = h.applied(Action::SwitchTo { to, x, y }, now);
        let n = es.len() - 4;
        assert(n == h.farewell().len());
        if n == 1 {
            assert(es[0] == h.farewell()[0]);
        }
    }
}

/// A switch home: the client that had the cursor is told to leave, and the
/// local machine has its devices, its keyboard and pointer, its cursor at
/// the point that the session chose, and sight of it, in this order.
pub proof fn a_switch_home_says_goodbye(h: HubState, x: i32, y: i32, now: u64)
    ensures
        ({
            let (g, es) = h.applied(Action::SwitchToLocal { x, y }, now);
            let n = es.len() - 4;
            &&& begins_with_goodbye(h, es, n)
            &&& es[n] == Effect::IsolateInput(false)
            &&& es[n + 1] == Effect::GrabInput(false)
            &&& es[n + 2] == Effect::WarpLocal { x, y }
            &&& es[n + 3] == Effect::ShowCursor(true)
            &&& g.active is None
            &&& g == (HubState { active: g.active, ..h })
        }),
{
    lemma_goodbye(h);
    let es = h.applied(Action::SwitchToLocal { x, y }, now).1;
    if h.farewell().len() == 1 {
        assert(es[0] == h.farewell()[0]);
    }
}

/// Input for a client goes to the one that has the cursor, unchanged, and
/// to nobody when none has it.
pub proof fn input_goes_to_the_holder(h: HubState, msg: Message, now: u64, k: int)
    ensures
        h.applied(Action::Send(msg), now).0 == h,
        h.active is None ==> h.applied(Action::Send(msg), now).1.len() == 0,
        h.active is Some && is_client(h.clients, h.active->0, k) ==> {
            let es = h.applied(Action::Send(msg), now).1;
            &&& es.len() == 1
            &&& msg is MouseMoveRel ==> es[0] == Effect::Queue {
                conn: h.clients[k].conn,
                item: Outbound::Udp(msg),
            }
            &&& !(msg is MouseMoveRel) ==> es[0] == Effect::Queue {
                conn: h.clients[k].conn,
                item: Outbound::Tcp(msg),
            }
        },
        h.applied(Action::Nothing, now) == (h, Seq::<Effect>::empty()),
{
    if h.active is Some && is_client(h.clients, h.active->0, k) {
        lemma_at(h.clients, h.active->0, k);
    }
}

/// Actions are carried out one after the other, in order.
pub proof fn actions_are_carried_out_in_order(h: HubState, a: Action, rest: Seq<Action>, now: u64)
    ensures
        h.applied_all(Seq::empty(), now) == (h, Seq::<Effect>::empty()),
        h.applied_all(seq![a] + rest, now).0 == h.applied(a, now).0.applied_all(rest, now).0,
        h.applied_all(seq![a] + rest, now).1 == h.applied(a, now).1 + h.applied(
            a,
            now,
        ).0.applied_all(rest, now).1,
{
    assert((seq![a] + rest).drop_first() =~= rest);
}

/// Where the server's input comes from, the session decides and the server
/// carries out what the session says: local input, a shortcut's command, a
/// client's position report, and nothing else, reach the session.
pub proof fn the_session_decides(
    h: HubState,
    msg: Message,
    action: UserAction,
    id: u8,
    x: i32,
    y: i32,
    now: u64,
    now_ms: u64,
)
    ensures
        ({
            let (s, acts) = local_event(h.session, msg, now);
            h.fed(msg, now, now_ms) == (HubState { session: s, ..h }).applied_all(acts, now_ms)
        }),
        ({
            let (s, acts) = obeyed(h.session, action);
            h.ordered(action, now_ms) == (HubState { session: s, ..h }).applied_all(acts, now_ms)
        }),
        ({
            let (s, acts) = away_beacon(h.session, id, x as int, y as int, now);
            h.heeded(id, Message::CursorPos { x, y }, now, now_ms) == (HubState {
                session: s,
                ..h
            }).applied_all(acts, now_ms)
        }),
{
}

/// A local key first passes the shortcuts: a command is carried out, a
/// swallowed key goes nowhere, and any other is local input. At home is
/// where control is local.
pub proof fn a_key_passes_the_shortcuts_first(
    h: HubState,
    c: Chords,
    kind: KeyKind,
    key: u32,
    now: u64,
    now_ms: u64,
)
    ensures
        ({
            let at_home = match h.session.cursor.mode {
                Mode::Local => true,
                Mode::Remote(_) => false,
            };
            let out = keyed(h, c, kind, key, now, now_ms);
            &&& c.fate(kind, key, at_home) matches KeyFate::Fire(action) ==> out == h.ordered(
                action,
                now_ms,
            )
            &&& c.fate(kind, key, at_home) is Consume ==> out == (h, Seq::<Effect>::empty())
            &&& c.fate(kind, key, at_home) is Forward ==> out == h.fed(
                Message::Key { kind, key },
                now,
                now_ms,
            )
        }),
{
}

// ---------------------------------------------------------------------
// Clients that go
// ---------------------------------------------------------------------

/// Everything kept under a client's id goes with it, and nothing kept under
/// another one. The cursor is nobody's where it was the client's.
pub proof fn a_client_is_forgotten_alone(h: HubState, id: u8, other: u8, k: int)
    ensures
        ({
            let g = h.forgotten(id);
            &&& is_client(h.clients, id, k) ==> g.clients == h.clients.remove(k)
            &&& !g.addrs.contains_key(id) && !g.seqs.contains_key(id)
            &&& !g.heard.contains_key(id) && !g.ips.contains_key(id)
            &&& other != id ==> {
                &&& g.addrs.contains_key(other) <==> h.addrs.contains_key(other)
                &&& h.addrs.contains_key(other) ==> g.addrs[other] == h.addrs[other]
                &&& g.seqs.contains_key(other) <==> h.seqs.contains_key(other)
                &&& h.seqs.contains_key(other) ==> g.seqs[other] == h.seqs[other]
                &&& g.heard.contains_key(other) <==> h.heard.contains_key(other)
                &&& h.heard.contains_key(other) ==> g.heard[other] == h.heard[other]
                &&& g.ips.contains_key(other) <==> h.ips.contains_key(other)
                &&& h.ips.contains_key(other) ==> g.ips[other] == h.ips[other]
            }
            &&& h.active == Some(id) ==> g.active is None
            &&& h.active != Some(id) ==> g.active == h.active
            &&& g.session == h.session && g.policy == h.policy
        }),
{
    if is_client(h.clients, id, k) {
        lemma_at(h.clients, id, k);
    }
}

/// `s` is the session after client `id` is gone: its screen is closed to
/// crossings, and taken out of the desktop where `removed` says so. Control
/// is home where it was there; nothing else changes.
pub open spec fn closed_to(before: State, s: State, id: u8, removed: bool) -> bool {
    let came_home = before.cursor.mode == Mode::Remote(id);
    &&& !s.present.contains(id)
    &&& forall|o: u8| o != id ==> (#[trigger] s.present.contains(o) <==> before.present.contains(o))
    &&& forall|e: Screen| #[trigger]
        s.layout.contains(e) <==> before.layout.contains(e) && !(removed && e.id == id)
    &&& !removed ==> s.layout == before.layout
    &&& !came_home ==> s == (State { present: s.present, layout: s.layout, ..before })
    &&& came_home ==> arrived_at(
        before,
        State { present: before.present, layout: before.layout, ..s },
        0,
        before.local.w / 2,
        before.local.h / 2,
    )
}

/// The effects of control coming home, where the client had it.
pub open spec fn brought_home(before: State, id: u8, es: Seq<Effect>) -> bool {
    &&& before.cursor.mode != Mode::Remote(id) ==> es.len() == 0
    &&& before.cursor.mode == Mode::Remote(id) ==> {
        &&& es.len() == 4
        &&& es[0] == Effect::IsolateInput(false)
        &&& es[1] == Effect::GrabInput(false)
        &&& es[2] matches Effect::WarpLocal { x, y }
        &&& x == before.local.w / 2 && y == before.local.h / 2
        &&& es[3] == Effect::ShowCursor(true)
    }
}

proof fn lemma_let_go(h: HubState, id: u8, removed: bool, now: u64)
    requires
        h.session.valid(),
        find_screen(h.session.layout, 0) is Some,
        h.session.local.w >= 0 && h.session.local.h >= 0,
        in_step(h),
    ensures
        ({
            let (g, es) = h.forgotten(id).let_go(id, removed, now);
            &&& closed_to(h.session, g.session, id, removed)
            &&& brought_home(h.session, id, es)
            &&& g == (HubState { session: g.session, ..h.forgotten(id) })
        }),
{
    let f = h.forgotten(id);
    let (g, es) = f.let_go(id, removed, now);
    let base = if h.session.cursor.mode == Mode::Remote(id) {
        homecoming(h.session).0
    } else {
        h.session
    };
    assert forall|e: Screen| #[trigger] g.session.layout.contains(e) <==> h.session.layout.contains(
        e,
    ) && !(removed && e.id == id) by {
        crate::desktop_laws::a_removed_screen_is_gone(base.parted(id), id, e);
    }
    if h.session.cursor.mode == Mode::Remote(id) {
        assert(f.active is None);
        assert(f.farewell() =~= Seq::<Effect>::empty());
    }
}

/// The end of a connection: the client that is registered with it is told
/// to leave and to come back, the app layer learns of it, and control comes
/// home where the client had it. Its screen stays on the desktop, closed.
/// An end that belongs to nobody does nothing.
pub proof fn the_end_of_a_connection(h: HubState, conn: u64, now: u64, k: int)
    requires
        h.valid(),
        h.session.local.w >= 0 && h.session.local.h >= 0,
        in_step(h),
    ensures
        0 <= k < h.clients.len() && h.clients[k].conn == conn ==> {
            let (g, es) = h.torn_down(conn, now);
            let c = h.clients[k];
            &&& es.len() >= 3
            &&& es[0] == Effect::Queue {
                conn,
                item: Outbound::Tcp(Message::Leave { screen_id: c.id }),
            }
            &&& es[1] == Effect::Queue {
                conn,
                item: Outbound::Tcp(Message::Control { command: Command::Reconnect }),
            }
            &&& es[2] == Effect::Notify(ServerEvent::ClientDisconnected { name: c.name })
            &&& brought_home(h.session, c.id, es.skip(3))
            &&& closed_to(h.session, g.session, c.id, false)
            &&& g == (HubState { session: g.session, ..h.forgotten(c.id) })
        },
        (forall|j: int| 0 <= j < h.clients.len() ==> (#[trigger] h.clients[j]).conn != conn)
            ==> h.torn_down(conn, now) == (h, Seq::<Effect>::empty()),
{
    if 0 <= k < h.clients.len() && h.clients[k].conn == conn {
        assert forall|j: int| 0 <= j < k implies (#[trigger] h.clients[j]).conn != conn by {
            assert(h.clients[j].conn != h.clients[k].conn);
        }
        lemma_owner(h.clients, conn, k);
        let c = h.clients[k];
        lemma_let_go(h, c.id, false, now);
        let es = h.torn_down(conn, now).1;
        assert(es.skip(3) =~= h.forgotten(c.id).let_go(c.id, false, now).1);
    }
    if forall|j: int| 0 <= j < h.clients.len() ==> (#[trigger] h.clients[j]).conn != conn {
        lemma_no_owner(h.clients, conn);
    }
}

/// A disconnect by the server: the client is told to stay away and to
/// leave, control comes home where the client had it, and the app layer
/// learns of it. Its screen goes where the server says so.
pub proof fn a_disconnect_by_the_server(h: HubState, id: u8, removed: bool, now: u64, k: int)
    requires
        h.valid(),
        h.session.local.w >= 0 && h.session.local.h >= 0,
        in_step(h),
    ensures
        is_client(h.clients, id, k) ==> {
            let (g, es) = h.disconnected(id, removed, now);
            let c = h.clients[k];
            let n = es.len() - 1;
            &&& n >= 2
            &&& es[0] == Effect::Queue {
                conn: c.conn,
                item: Outbound::Tcp(Message::Control { command: Command::Disconnect }),
            }
            &&& es[1] == Effect::Queue {
                conn: c.conn,
                item: Outbound::Tcp(Message::Leave { screen_id: id }),
            }
            &&& es[n] == Effect::Notify(ServerEvent::ClientDisconnected { name: c.name })
            &&& brought_home(h.session, id, es.subrange(2, n))
            &&& closed_to(h.session, g.session, id, removed)
            &&& g == (HubState { session: g.session, ..h.forgotten(id) })
        },
        (forall|j: int| 0 <= j < h.clients.len() ==> (#[trigger] h.clients[j]).id != id)
            ==> h.disconnected(id, removed, now) == (h, Seq::<Effect>::empty()),
{
    lemma_registered(h.clients, id);
    if is_client(h.clients, id, k) {
        lemma_at(h.clients, id, k);
        lemma_let_go(h, id, removed, now);
        let es = h.disconnected(id, removed, now).1;
        let home = h.forgotten(id).let_go(id, removed, now).1;
        assert(es.subrange(2, es.len() - 1) =~= home);
    }
}

/// A command for a client reaches the first one of that name: a disconnect
/// is carried out here, screen and all, any other is passed on to it. A
/// name that nobody has does nothing.
pub proof fn a_command_reaches_the_named_client(
    h: HubState,
    name: String,
    command: Command,
    now: u64,
    k: int,
)
    requires
        distinct(h.clients),
    ensures
        0 <= k < h.clients.len() && h.clients[k].name@ == name@ && (forall|j: int|
            0 <= j < k ==> (#[trigger] h.clients[j]).name@ != name@) ==> {
            let out = h.commanded(name@, command, now);
            &&& command is Disconnect ==> out == h.disconnected(h.clients[k].id, true, now)
            &&& !(command is Disconnect) ==> out.0 == h && out.1.len() == 1 && out.1[0]
                == Effect::Queue {
                conn: h.clients[k].conn,
                item: Outbound::Tcp(Message::Control { command }),
            }
        },
        (forall|j: int| 0 <= j < h.clients.len() ==> (#[trigger] h.clients[j]).name@ != name@)
            ==> h.commanded(name@, command, now) == (h, Seq::<Effect>::empty()),
{
    if h.clients.len() > 0 {
        let m = if 0 <= k < h.clients.len() {
            k
        } else {
            0
        };
        clients_are_found(h.clients, h.clients[m].id, 0, name, m);
        assert forall|j: int| 0 <= j < m implies (#[trigger] h.clients[j]).id != h.clients[m].id by {
            assert(h.clients[j].id != h.clients[m].id);
        }
        assert(is_client(h.clients, h.clients[m].id, m));
    } else {
        let s = h.clients.map_values(|c: Client| c.name@);
        s.index_of_first_ensures(name@);
    }
}

// ---------------------------------------------------------------------
// Clients that come
// ---------------------------------------------------------------------

/// A client that has passed the handshake is welcomed under its id, an
/// earlier connection under that id is told to leave and to stay away, and
/// the app layer learns of the client. Where its screen is new, everybody
/// is sent the map. It is registered, its screen has the size it reported
/// and is open to crossings, and its address is remembered; nothing else
/// changes.
pub proof fn a_client_is_registered(
    h: HubState,
    client: Client,
    ip: PeerIp,
    addr: String,
    info: ScreenInfo,
    admitted: bool,
    other: u8,
    k: int,
)
    ensures
        ({
            let (g, es) = h.registered(client, ip, addr, info, admitted);
            let n = h.clients.len() as int;
            let found = is_client(h.clients, client.id, k);
            let nobody = forall|j: int|
                0 <= j < n ==> (#[trigger] h.clients[j]).id != client.id;
            let at = if found {
                3int
            } else {
                1int
            };
            &&& es.len() >= 1 && es[0] == Effect::Welcome { conn: client.conn, id: client.id }
            &&& found ==> {
                &&& g.clients == h.clients.remove(k).push(client)
                &&& es[1] == Effect::Queue {
                    conn: h.clients[k].conn,
                    item: Outbound::Tcp(Message::Leave { screen_id: client.id }),
                }
                &&& es[2] == Effect::Queue {
                    conn: h.clients[k].conn,
                    item: Outbound::Tcp(Message::Control { command: Command::Disconnect }),
                }
            }
            &&& nobody ==> g.clients == h.clients.push(client)
            &&& found || nobody ==> {
                &&& es[at] matches Effect::Notify(
                    ServerEvent::ClientConnected { name, id, addr: a, since_ms, info: i },
                )
                &&& name == client.name && id == client.machine_id && a == addr && since_ms
                    == client.since_ms && i == info
                &&& !admitted ==> es.len() == at + 1
                &&& admitted ==> es.len() == at + 1 + g.clients.len() && forall|j: int|
                    0 <= j < g.clients.len() ==> es[at + 1 + j] == Effect::ShareLayout {
                        conn: (#[trigger] g.clients[j]).conn,
                    }
            }
            &&& g.session == (State {
                layout: resized(h.session.layout, client.id, info),
                present: g.session.present,
                ..h.session
            })
            &&& g.session.present.contains(client.id)
            &&& other != client.id ==> (g.session.present.contains(other)
                <==> h.session.present.contains(other))
            &&& g.ips.contains_key(client.id) && g.ips[client.id] == ip
            &&& other != client.id ==> (g.ips.contains_key(other) <==> h.ips.contains_key(other))
                && g.ips[other] == h.ips[other]
            &&& g.active == h.active && g.addrs == h.addrs && g.seqs == h.seqs && g.heard
                == h.heard && g.policy == h.policy
        }),
{
    lemma_registered(h.clients, client.id);
    if is_client(h.clients, client.id, k) {
        lemma_at(h.clients, client.id, k);
    }
    if h.clients.len() > 0 {
        clients_are_found(h.clients, client.id, 0, client.name, 0);
    } else {
        ids(h.clients).index_of_first_ensures(client.id);
    }
}

// ---------------------------------------------------------------------
// Reloads and policies
// ---------------------------------------------------------------------

/// After a reload exactly the clients whose screen, by id and by name, is in
/// the layout are connected, and each is sent the map at the end. The
/// session has adopted or rejected the layout on its own terms.
pub proof fn a_reload_keeps_whoever_has_a_screen(
    h: HubState,
    layout: Seq<Screen>,
    now: u64,
    c: Client,
)
    requires
        distinct(h.clients),
    ensures
        ({
            let (g, es) = h.reloaded(layout, now);
            let n = es.len() - g.clients.len();
            &&& g.clients.contains(c) <==> h.clients.contains(c) && exists|k: int|
                0 <= k < g.session.layout.len() && (#[trigger] g.session.layout[k]).id == c.id
                    && g.session.layout[k].name@ == c.name@
            &&& g.session.layout == swapped(h.session, layout).0.layout
            &&& n >= 0
            &&& forall|j: int|
                0 <= j < g.clients.len() ==> es[n + j] == Effect::ShareLayout {
                    conn: (#[trigger] g.clients[j]).conn,
                }
        }),
{
    let (session, actions) = swapped(h.session, layout);
    let h0 = HubState { session, ..h };
    let h1 = h0.applied_all(actions, now).0;
    assert(h1.clients == h.clients && h1.session == session) by {
        if actions.len() > 0 {
            assert(actions.drop_first().len() == 0);
            let a = h0.applied(actions[0], now).0;
            assert(a.applied_all(actions.drop_first(), now).0 == a);
        }
    }
    lemma_disconnected_all(h1, h1.stale(), false, now);
    reload_leaves_no_ghosts(h, layout, now);
    let g = h.reloaded(layout, now).0;
    if h.clients.contains(c) && has_screen(g.session.layout, c) {
        client_with_a_screen_is_not_stale(h1, c);
        lemma_others_stay(h1, h1.stale(), false, now, c);
    }
    if g.clients.contains(c) {
        let k = choose|k: int| 0 <= k < g.clients.len() && g.clients[k] == c;
        assert(h1.clients.contains(g.clients[k]));
        assert(has_screen(g.session.layout, g.clients[k]));
    }
}

/// A policy is adopted at once: exactly the clients whose machine it does
/// not revoke stay connected.
pub proof fn a_policy_drops_exactly_the_revoked(h: HubState, policy: Policy, now: u64, c: Client)
    requires
        distinct(h.clients),
    ensures
        h.governed(policy, now).0.policy == policy,
        h.governed(policy, now).0.clients.contains(c) <==> h.clients.contains(c) && !barred(
            policy.revoked_ids@,
            c.machine_id@,
        ),
{
    let h1 = HubState { policy, ..h };
    let gone = h1.revoked();
    let p = |x: Client| barred(h1.policy.revoked_ids@, x.machine_id@);
    lemma_disconnected_all(h1, gone, true, now);
    let g = h.governed(policy, now).0;
    if g.clients.contains(c) {
        let k = choose|k: int| 0 <= k < g.clients.len() && g.clients[k] == c;
        assert(h1.clients.contains(g.clients[k]));
        if p(c) {
            lemma_filtered_ids(h1.clients, p, c);
        }
    }
    if h.clients.contains(c) && !p(c) {
        assert(!gone.contains(c.id)) by {
            if gone.contains(c.id) {
                let f = h1.clients.filter(p);
                let j = choose|j: int| 0 <= j < gone.len() && gone[j] == c.id;
                let x = f[j];
                assert(x.id == c.id);
                h1.clients.lemma_filter_pred(p, j);
                assert(f.contains(x));
                lemma_filter_from(h1.clients, p, x);
                let a = choose|a: int| 0 <= a < h1.clients.len() && h1.clients[a] == x;
                let b = choose|b: int| 0 <= b < h1.clients.len() && h1.clients[b] == c;
                assert(a == b) by {
                    if a < b {
                        assert(h1.clients[a].id != h1.clients[b].id);
                    } else if b < a {
                        assert(h1.clients[b].id != h1.clients[a].id);
                    }
                }
            }
        }
        lemma_others_stay(h1, gone, true, now, c);
    }
}

/// Each control message of the app layer has its own effect.
pub proof fn each_control_message_has_its_effect(h: HubState, control: Control, now: u64)
    ensures
        control matches Control::Reload(layout, _) ==> controlled(h, control, now) == h.reloaded(
            layout@,
            now,
        ),
        control matches Control::SetPolicy(policy) ==> controlled(h, control, now) == h.governed(
            policy,
            now,
        ),
        control matches Control::ClientCommand { name, command } ==> controlled(h, control, now)
            == h.commanded(name@, command, now),
{
}

// ---------------------------------------------------------------------
// What clients say
// ---------------------------------------------------------------------

/// On its control channel a client can report its size, which resizes its
/// own screen and gets it the map, hand over clipboard content, which goes
/// to the local clipboard as it is, and report its cursor. Anything else it
/// says does nothing.
pub proof fn what_a_client_may_say(
    h: HubState,
    id: u8,
    msg: Message,
    now: u64,
    now_ms: u64,
    k: int,
)
    ensures
        ({
            let (g, es) = h.heeded(id, msg, now, now_ms);
            &&& msg matches Message::ScreenInfo { info } ==> {
                &&& g == (HubState {
                    session: State { layout: resized(h.session.layout, id, info), ..h.session },
                    ..h
                })
                &&& is_client(h.clients, id, k) ==> es.len() == 1 && es[0] == Effect::ShareLayout {
                    conn: h.clients[k].conn,
                }
            }
            &&& msg matches Message::Clipboard { mime, data } ==> g == h && es.len() == 1 && es[0]
                == Effect::SetClipboard { mime, data }
            &&& !(msg is ScreenInfo || msg is Clipboard || msg is CursorPos) ==> g == h && es.len()
                == 0
        }),
{
    if is_client(h.clients, id, k) {
        lemma_at(h.clients, id, k);
    }
}

/// A datagram counts only under the id of a registered client and from the
/// machine that its handshake came from; any other changes nothing. One
/// that counts is heard: its source is remembered, and a source that
/// changes starts a new numbering.
pub proof fn whose_datagram_it_is(
    h: HubState,
    id: u8,
    from: Endpoint,
    seq: u32,
    newer: bool,
    msg: Message,
    now: u64,
    now_ms: u64,
    other: u8,
)
    ensures
        ({
            let own = (exists|k: int|
                0 <= k < h.clients.len() && (#[trigger] h.clients[k]).id == id)
                && h.ips.contains_key(id) && h.ips[id] == from.ip;
            let (g, es) = h.received(id, from, seq, newer, msg, now, now_ms);
            let s = h.streaming(id, from, now_ms);
            let moved = h.addrs.contains_key(id) && h.addrs[id] != from;
            &&& h.genuine(id, from) <==> own
            &&& !own ==> g == h && es.len() == 0
            &&& s.heard.contains_key(id) && s.heard[id] == now_ms
            &&& s.addrs.contains_key(id) && s.addrs[id] == from
            &&& moved ==> !s.seqs.contains_key(id)
            &&& !moved ==> s.seqs == h.seqs
            &&& other != id ==> {
                &&& s.heard.contains_key(other) <==> h.heard.contains_key(other)
                &&& s.heard[other] == h.heard[other]
                &&& s.addrs.contains_key(other) <==> h.addrs.contains_key(other)
                &&& s.addrs[other] == h.addrs[other]
                &&& s.seqs.contains_key(other) <==> h.seqs.contains_key(other)
                &&& h.seqs.contains_key(other) ==> s.seqs[other] == h.seqs[other]
            }
            &&& s == (HubState { heard: s.heard, addrs: s.addrs, seqs: s.seqs, ..h })
            &&& own && !(msg is CursorPos) ==> g == s && es.len() == 0
        }),
{
    lemma_registered(h.clients, id);
}

/// A position report on the cursor stream moves the session exactly when it
/// is newer than the last one taken, which it then is itself. The first of
/// a numbering is compared with zero.
pub proof fn a_newer_report_is_taken(
    h: HubState,
    id: u8,
    from: Endpoint,
    seq: u32,
    newer: bool,
    x: i32,
    y: i32,
    now: u64,
    now_ms: u64,
)
    requires
        h.genuine(id, from),
    ensures
        ({
            let s = h.streaming(id, from, now_ms);
            let out = h.received(id, from, seq, newer, Message::CursorPos { x, y }, now, now_ms);
            let (session, acts) = away_beacon(h.session, id, x as int, y as int, now);
            &&& newer ==> out == (HubState {
                session,
                seqs: s.seqs.insert(id, seq),
                ..s
            }).applied_all(acts, now_ms)
            &&& !newer ==> out.1.len() == 0 && out.0.session == h.session && out.0.last_seq(id)
                == s.last_seq(id) && out.0 == (HubState { seqs: out.0.seqs, ..s })
            &&& h.seqs.contains_key(id) ==> h.last_seq(id) == h.seqs[id]
            &&& !h.seqs.contains_key(id) ==> h.last_seq(id) == 0
        }),
{
}

/// The watchdog acts on the client that has the cursor alone, and only when
/// its stream has been silent for more than a second and a half: its
/// connection is ended.
pub proof fn the_watchdog_waits_a_second_and_a_half(h: HubState, now: u64, k: int)
    ensures
        ({
            let silent = h.active is Some && h.heard.contains_key(h.active->0) && now
                > h.heard[h.active->0] + 1500;
            &&& h.wedged(now) == if silent {
                h.active
            } else {
                None
            }
            &&& !silent ==> h.watched(now) == (h, Seq::<Effect>::empty())
            &&& silent && is_client(h.clients, h.active->0, k) ==> h.watched(now) == h.torn_down(
                h.clients[k].conn,
                now,
            )
        }),
{
    if h.active is Some && is_client(h.clients, h.active->0, k) {
        lemma_at(h.clients, h.active->0, k);
    }
}

} // verus!
