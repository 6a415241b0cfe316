//! Which clients have been told that they have the cursor: the one that
//! has it, and nobody else.
use vstd::prelude::*;

use crate::protocol::{Command, Message, ScreenInfo};
use crate::server::control::{controlled, Control};
use crate::server::history::{all_regular, attentive, ran, regular, stepped, Step};
use crate::server::hub::{
    client_at, client_named, deliver, distinct, ids, lemma_at, owner, without, Client, Effect,
    HubState, Outbound,
};
use crate::server::laws::{
    beacons_are_faithful, commands_are_faithful, events_are_faithful, faithful, in_step,
};
use crate::server::net::PeerIp;
use crate::session::{away_beacon, local_event, swapped, Action, State};
use crate::session::commands::obeyed;
use crate::Mode;

verus! {

/// The connections that were told `Enter` and not `Leave` since, after one
/// more effect.
pub open spec fn inside_after(inside: Set<u64>, e: Effect) -> Set<u64> {
    match e {
        Effect::Queue { conn, item: Outbound::Tcp(Message::Enter { .. }) } => inside.insert(conn),
        Effect::Queue { conn, item: Outbound::Tcp(Message::Leave { .. }) } => inside.remove(conn),
        _ => inside,
    }
}

/// The same after effects, in order.
pub open spec fn inside_after_all(inside: Set<u64>, es: Seq<Effect>) -> Set<u64>
    decreases es.len(),
{
    if es.len() == 0 {
        inside
    } else {
        inside_after(inside_after_all(inside, es.drop_last()), es.last())
    }
}

/// Nobody is inside but the client that has the cursor.
pub open spec fn nobody_else_inside(h: HubState, inside: Set<u64>) -> bool {
    forall|conn: u64| #[trigger]
        inside.contains(conn) ==> h.active is Some && exists|k: int|
            0 <= k < h.clients.len() && (#[trigger] h.clients[k]).id == h.active->0
                && h.clients[k].conn == conn
}

/// The client that has the cursor is inside.
pub open spec fn holder_inside(h: HubState, inside: Set<u64>) -> bool {
    forall|k: int|
        0 <= k < h.clients.len() && h.active == Some((#[trigger] h.clients[k]).id)
            ==> inside.contains(h.clients[k].conn)
}

/// A machine that connects again does not have the cursor.
pub open spec fn keeps_its_holder(h: HubState, s: Step) -> bool {
    s matches Step::Joined { client, .. } ==> h.active != Some(client.id)
}

/// So it is at every step of the run.
pub open spec fn always_keeps_its_holder(h: HubState, run: Seq<Step>) -> bool
    decreases run.len(),
{
    run.len() > 0 ==> always_keeps_its_holder(h, run.drop_last()) && keeps_its_holder(
        ran(h, run.drop_last()).0,
        run.last(),
    )
}

// ---------------------------------------------------------------------
// Effects
// ---------------------------------------------------------------------

/// The effect tells nobody to enter or to leave.
spec fn neutral(e: Effect) -> bool {
    !(e matches Effect::Queue { item: Outbound::Tcp(Message::Enter { .. }), .. }) && !(
    e matches Effect::Queue { item: Outbound::Tcp(Message::Leave { .. }), .. })
}

spec fn all_neutral(es: Seq<Effect>) -> bool {
    forall|i: int| 0 <= i < es.len() ==> neutral(#[trigger] es[i])
}

proof fn lemma_neutral(inside: Set<u64>, es: Seq<Effect>)
    requires
        all_neutral(es),
    ensures
        inside_after_all(inside, es) == inside,
    decreases es.len(),
{
    if es.len() > 0 {
        assert(all_neutral(es.drop_last()));
        lemma_neutral(inside, es.drop_last());
        assert(neutral(es[es.len() - 1]));
    }
}

proof fn lemma_parts(inside: Set<u64>, a: Seq<Effect>, b: Seq<Effect>)
    ensures
        inside_after_all(inside, a + b) == inside_after_all(inside_after_all(inside, a), b),
    decreases b.len(),
{
    if b.len() == 0 {
        assert(a + b =~= a);
    } else {
        assert((a + b).drop_last() =~= a + b.drop_last());
        assert((a + b).last() == b.last());
        lemma_parts(inside, a, b.drop_last());
    }
}

proof fn lemma_one(inside: Set<u64>, e: Effect)
    ensures
        inside_after_all(inside, seq![e]) == inside_after(inside, e),
{
    let es = seq![e];
    assert(es.drop_last() =~= Seq::<Effect>::empty());
    assert(es.last() == e);
    assert(inside_after_all(inside, es.drop_last()) == inside);
}

/// A client that is found under an id is the only one there.
proof fn lemma_found(cs: Seq<Client>, id: u8) -> (k: int)
    requires
        distinct(cs),
        client_at(cs, id) is Some,
    ensures
        0 <= k < cs.len(),
        cs[k] == client_at(cs, id)->0,
        cs[k].id == id,
        forall|j: int| 0 <= j < cs.len() && (#[trigger] cs[j]).id == id ==> j == k,
{
    let s = ids(cs);
    s.index_of_first_ensures(id);
    let f = s.index_of_first(id)->0;
    assert(cs[f].id == id);
    assert forall|j: int| 0 <= j < cs.len() && (#[trigger] cs[j]).id == id implies j == f by {
        if j < f {
            assert(cs[j].id != cs[f].id);
        } else if f < j {
            assert(cs[f].id != cs[j].id);
        }
    }
    f
}

/// Leaving the screen that has the cursor empties the set.
proof fn lemma_farewell(h: HubState, inside: Set<u64>)
    requires
        attentive(h),
        nobody_else_inside(h, inside),
    ensures
        inside_after_all(inside, h.farewell()) =~= Set::<u64>::empty(),
{
    match h.active {
        Some(a) => {
            assert(h.connected(a));
            let k = lemma_found(h.clients, a);
            let c = h.clients[k];
            let e = Effect::Queue {
                conn: c.conn,
                item: Outbound::Tcp(Message::Leave { screen_id: a }),
            };
            assert(h.farewell() =~= seq![e]);
            lemma_one(inside, e);
            let out = inside_after(inside, e);
            assert forall|conn: u64| !out.contains(conn) by {
                if out.contains(conn) {
                    assert(inside.contains(conn));
                    let j = choose|j: int|
                        0 <= j < h.clients.len() && (#[trigger] h.clients[j]).id == a
                            && h.clients[j].conn == conn;
                    assert(j == k);
                }
            }
        },
        None => {
            assert(h.farewell() =~= Seq::<Effect>::empty());
            assert forall|conn: u64| !inside.contains(conn) by {}
        },
    }
}

/// The action forwards input, or nothing.
spec fn carries_input(a: Action) -> bool {
    a matches Action::Send(m) ==> !(m is Enter) && !(m is Leave)
}

proof fn lemma_action(h: HubState, action: Action, now: u64, inside: Set<u64>)
    requires
        attentive(h),
        nobody_else_inside(h, inside),
        carries_input(action),
    ensures
        ({
            let (g, es) = h.applied(action, now);
            let after = inside_after_all(inside, es);
            &&& nobody_else_inside(g, after)
            &&& holder_inside(h, inside) ==> holder_inside(g, after)
        }),
{
    let (g, es) = h.applied(action, now);
    match action {
        Action::SwitchTo { to, x, y } => {
            if h.connected(to) {
                let k = lemma_found(h.clients, to);
                let c = h.clients[k];
                let e = Effect::Queue {
                    conn: c.conn,
                    item: Outbound::Tcp(Message::Enter { screen_id: to, x, y }),
                };
                let last = seq![
                    Effect::GrabInput(true),
                    Effect::IsolateInput(true),
                    Effect::ShowCursor(false),
                ];
                assert(es =~= h.farewell() + seq![e] + last);
                lemma_farewell(h, inside);
                lemma_parts(inside, h.farewell(), seq![e]);
                lemma_one(inside_after_all(inside, h.farewell()), e);
                lemma_parts(inside, h.farewell() + seq![e], last);
                lemma_neutral(inside_after_all(inside, h.farewell() + seq![e]), last);
                let after = inside_after_all(inside, es);
                assert forall|conn: u64| #[trigger] after.contains(conn) <==> conn == c.conn by {}
                assert(g.clients[k].id == to && g.clients[k].conn == c.conn);
            }
        },
        Action::SwitchToLocal { x, y } => {
            let last = seq![
                Effect::IsolateInput(false),
                Effect::GrabInput(false),
                Effect::WarpLocal { x, y },
                Effect::ShowCursor(true),
            ];
            lemma_farewell(h, inside);
            lemma_parts(inside, h.farewell(), last);
            lemma_neutral(inside_after_all(inside, h.farewell()), last);
        },
        _ => {
            assert(all_neutral(es));
            lemma_neutral(inside, es);
            assert(g == h);
        },
    }
}

proof fn lemma_transition(
    h: HubState,
    session: State,
    actions: Seq<Action>,
    now: u64,
    inside: Set<u64>,
)
    requires
        attentive(h),
        nobody_else_inside(h, inside),
        faithful(h.session, session, actions),
        actions.len() == 1 ==> carries_input(actions[0]),
    ensures
        ({
            let (g, es) = (HubState { session, ..h }).applied_all(actions, now);
            let after = inside_after_all(inside, es);
            &&& nobody_else_inside(g, after)
            &&& holder_inside(h, inside) ==> holder_inside(g, after)
        }),
{
    let g = HubState { session, ..h };
    assert(attentive(g)) by {
        assert forall|id: u8| g.session.present.contains(id) <==> #[trigger] client_at(
            g.clients,
            id,
        ) is Some by {
            assert(h.session.present.contains(id) <==> client_at(h.clients, id) is Some);
        }
    }
    if actions.len() == 1 {
        let (a, es) = g.applied(actions[0], now);
        assert(actions.drop_first().len() == 0);
        assert(a.applied_all(actions.drop_first(), now) == (a, Seq::<Effect>::empty()));
        assert(es + Seq::<Effect>::empty() =~= es);
        lemma_action(g, actions[0], now, inside);
    }
}

/// Losing a client: once it was told to leave, the set is right for those
/// who stay.
proof fn lemma_lost(
    h: HubState,
    c: Client,
    remove_screen: bool,
    now: u64,
    inside: Set<u64>,
)
    requires
        attentive(h),
        in_step(h),
        nobody_else_inside(h, inside),
        client_at(h.clients, c.id) == Some(c),
    ensures
        ({
            let (g, home) = h.forgotten(c.id).let_go(c.id, remove_screen, now);
            let after = inside_after_all(inside.remove(c.conn), home);
            &&& nobody_else_inside(g, after)
            &&& holder_inside(h, inside) ==> holder_inside(g, after)
        }),
{
    let f = h.forgotten(c.id);
    let (g, home) = f.let_go(c.id, remove_screen, now);
    let left = inside.remove(c.conn);
    let k = lemma_found(h.clients, c.id);
    let t = without(h.clients, c.id);
    lemma_at(h.clients, c.id, k);
    assert(t == h.clients.remove(k));
    assert(f.farewell() == Seq::<Effect>::empty() || f.active == h.active);
    if h.session.cursor.mode == Mode::Remote(c.id) {
        assert(h.active == Some(c.id));
        assert(f.active is None);
        assert(f.farewell() =~= Seq::<Effect>::empty());
        assert(all_neutral(home));
        assert(g.active is None);
    } else {
        assert(home =~= Seq::<Effect>::empty());
        assert(h.active != Some(c.id));
        assert(g.active == h.active);
    }
    lemma_neutral(left, home);
    assert(g.clients == t);
    assert forall|conn: u64| #[trigger] left.contains(conn) implies g.active is Some && exists|j: int|
        0 <= j < g.clients.len() && (#[trigger] g.clients[j]).id == g.active->0 && g.clients[j].conn
            == conn by {
        assert(inside.contains(conn));
        let j = choose|j: int|
            0 <= j < h.clients.len() && (#[trigger] h.clients[j]).id == h.active->0
                && h.clients[j].conn == conn;
        if j == k {
            assert(conn == c.conn);
        } else {
            let m = if j < k {
                j
            } else {
                j - 1
            };
            assert(g.clients[m] == h.clients[j]);
            assert(h.clients[j].id != c.id);
        }
    }
    if holder_inside(h, inside) {
        assert forall|j: int|
            0 <= j < g.clients.len() && g.active == Some((#[trigger] g.clients[j]).id) implies left.contains(
            g.clients[j].conn,
        ) by {
            let m = if j < k {
                j
            } else {
                j + 1
            };
            assert(g.clients[j] == h.clients[m]);
            assert(inside.contains(h.clients[m].conn));
            if m < k {
                assert(h.clients[m].conn != h.clients[k].conn);
            } else {
                assert(h.clients[k].conn != h.clients[m].conn);
            }
        }
    }
}

proof fn lemma_disconnected(h: HubState, id: u8, remove_screen: bool, now: u64, inside: Set<u64>)
    requires
        attentive(h),
        in_step(h),
        nobody_else_inside(h, inside),
    ensures
        ({
            let (g, es) = h.disconnected(id, remove_screen, now);
            let after = inside_after_all(inside, es);
            &&& nobody_else_inside(g, after)
            &&& holder_inside(h, inside) ==> holder_inside(g, after)
        }),
{
    if let Some(c) = client_at(h.clients, id) {
        let k = lemma_found(h.clients, id);
        let (g, es) = h.disconnected(id, remove_screen, now);
        let (_, home) = h.forgotten(id).let_go(id, remove_screen, now);
        let order = Effect::Queue {
            conn: c.conn,
            item: Outbound::Tcp(Message::Control { command: Command::Disconnect }),
        };
        let bye = Effect::Queue {
            conn: c.conn,
            item: Outbound::Tcp(Message::Leave { screen_id: id }),
        };
        let back = es.skip(2 + home.len() as int);
        assert(es =~= seq![order] + seq![bye] + home + back);
        lemma_one(inside, order);
        lemma_parts(inside, seq![order], seq![bye]);
        lemma_one(inside, bye);
        lemma_parts(inside, seq![order] + seq![bye], home);
        lemma_parts(inside, seq![order] + seq![bye] + home, back);
        assert(all_neutral(back));
        lemma_neutral(inside_after_all(inside, seq![order] + seq![bye] + home), back);
        lemma_lost(h, c, remove_screen, now, inside);
    }
}

proof fn lemma_disconnected_all(
    h: HubState,
    gone: Seq<u8>,
    remove_screen: bool,
    now: u64,
    inside: Set<u64>,
)
    requires
        attentive(h),
        in_step(h),
        nobody_else_inside(h, inside),
    ensures
        ({
            let (g, es) = h.disconnected_all(gone, remove_screen, now);
            let after = inside_after_all(inside, es);
            &&& nobody_else_inside(g, after)
            &&& holder_inside(h, inside) ==> holder_inside(g, after)
        }),
    decreases gone.len(),
{
    if gone.len() > 0 {
        let (h1, e1) = h.disconnected(gone[0], remove_screen, now);
        let (h2, e2) = h1.disconnected_all(gone.drop_first(), remove_screen, now);
        lemma_disconnected(h, gone[0], remove_screen, now, inside);
        crate::server::history::lemma_loss_attended(h, gone[0], remove_screen, now);
        crate::server::laws::losing_a_client_keeps_in_step(h, gone[0], remove_screen, now);
        lemma_disconnected_all(
            h1,
            gone.drop_first(),
            remove_screen,
            now,
            inside_after_all(inside, e1),
        );
        lemma_parts(inside, e1, e2);
    }
}

proof fn lemma_torn_down(h: HubState, conn: u64, now: u64, inside: Set<u64>)
    requires
        attentive(h),
        in_step(h),
        nobody_else_inside(h, inside),
    ensures
        ({
            let (g, es) = h.torn_down(conn, now);
            let after = inside_after_all(inside, es);
            &&& nobody_else_inside(g, after)
            &&& holder_inside(h, inside) ==> holder_inside(g, after)
        }),
{
    if let Some(c) = owner(h.clients, conn) {
        let conns = h.clients.map_values(|x: Client| x.conn);
        conns.index_of_first_ensures(conn);
        let f = conns.index_of_first(conn)->0;
        assert(h.clients[f] == c && c.conn == conn);
        assert forall|j: int| 0 <= j < f implies (#[trigger] h.clients[j]).id != c.id by {
            assert(h.clients[j].id != h.clients[f].id);
        }
        lemma_at(h.clients, c.id, f);
        let es = h.torn_down(conn, now).1;
        let (_, home) = h.forgotten(c.id).let_go(c.id, false, now);
        let bye = Effect::Queue { conn, item: Outbound::Tcp(Message::Leave { screen_id: c.id }) };
        let rest = es.subrange(1, 3);
        assert(es =~= seq![bye] + rest + home);
        lemma_one(inside, bye);
        assert(all_neutral(rest));
        lemma_parts(inside, seq![bye], rest);
        lemma_neutral(inside.remove(conn), rest);
        lemma_parts(inside, seq![bye] + rest, home);
        lemma_lost(h, c, false, now, inside);
    }
}

proof fn lemma_joined(
    h: HubState,
    client: Client,
    ip: PeerIp,
    addr: String,
    info: ScreenInfo,
    admitted: bool,
    inside: Set<u64>,
)
    requires
        attentive(h),
        nobody_else_inside(h, inside),
    ensures
        ({
            let (g, es) = h.registered(client, ip, addr, info, admitted);
            let after = inside_after_all(inside, es);
            &&& nobody_else_inside(g, after)
            &&& holder_inside(h, inside) && h.active != Some(client.id) ==> holder_inside(g, after)
        }),
{
    let (g, es) = h.registered(client, ip, addr, info, admitted);
    let t = without(h.clients, client.id);
    match client_at(h.clients, client.id) {
        Some(c) => {
            let k = lemma_found(h.clients, client.id);
            lemma_at(h.clients, client.id, k);
            let bye = Effect::Queue {
                conn: c.conn,
                item: Outbound::Tcp(Message::Leave { screen_id: client.id }),
            };
            let back = es.skip(2);
            assert(es =~= seq![es[0]] + seq![bye] + back);
            lemma_one(inside, es[0]);
            lemma_parts(inside, seq![es[0]], seq![bye]);
            lemma_one(inside, bye);
            assert(all_neutral(back));
            lemma_parts(inside, seq![es[0]] + seq![bye], back);
            let after = inside.remove(c.conn);
            lemma_neutral(after, back);
            assert forall|conn: u64| #[trigger] after.contains(conn) implies g.active is Some
                && exists|j: int|
                0 <= j < g.clients.len() && (#[trigger] g.clients[j]).id == g.active->0
                    && g.clients[j].conn == conn by {
                assert(inside.contains(conn));
                let j = choose|j: int|
                    0 <= j < h.clients.len() && (#[trigger] h.clients[j]).id == h.active->0
                        && h.clients[j].conn == conn;
                if j == k {
                    assert(conn == c.conn);
                } else {
                    let m = if j < k {
                        j
                    } else {
                        j - 1
                    };
                    assert(g.clients[m] == h.clients[j]);
                }
            }
            if holder_inside(h, inside) && h.active != Some(client.id) {
                assert forall|j: int|
                    0 <= j < g.clients.len() && g.active == Some(
                        (#[trigger] g.clients[j]).id,
                    ) implies after.contains(g.clients[j].conn) by {
                    assert(j < t.len());
                    let m = if j < k {
                        j
                    } else {
                        j + 1
                    };
                    assert(g.clients[j] == h.clients[m]);
                    assert(inside.contains(h.clients[m].conn));
                    if m < k {
                        assert(h.clients[m].conn != h.clients[k].conn);
                    } else {
                        assert(h.clients[k].conn != h.clients[m].conn);
                    }
                }
            }
        },
        None => {
            assert(all_neutral(es));
            lemma_neutral(inside, es);
            assert(t == h.clients) by {
                ids(h.clients).index_of_first_ensures(client.id);
            }
            assert forall|conn: u64| #[trigger] inside.contains(conn) implies g.active is Some
                && exists|j: int|
                0 <= j < g.clients.len() && (#[trigger] g.clients[j]).id == g.active->0
                    && g.clients[j].conn == conn by {
                let j = choose|j: int|
                    0 <= j < h.clients.len() && (#[trigger] h.clients[j]).id == h.active->0
                        && h.clients[j].conn == conn;
                assert(g.clients[j] == h.clients[j]);
            }
            if holder_inside(h, inside) && h.active != Some(client.id) {
                assert forall|j: int|
                    0 <= j < g.clients.len() && g.active == Some(
                        (#[trigger] g.clients[j]).id,
                    ) implies inside.contains(g.clients[j].conn) by {
                    assert(j < t.len());
                    assert(g.clients[j] == h.clients[j]);
                }
            }
        },
    }
}

proof fn lemma_told(h: HubState, control: Control, now: u64, inside: Set<u64>)
    requires
        attentive(h),
        in_step(h),
        nobody_else_inside(h, inside),
    ensures
        ({
            let (g, es) = controlled(h, control, now);
            let after = inside_after_all(inside, es);
            &&& nobody_else_inside(g, after)
            &&& holder_inside(h, inside) ==> holder_inside(g, after)
        }),
{
    match control {
        Control::Reload(layout, _) => {
            let (session, actions) = swapped(h.session, layout@);
            assert(faithful(h.session, session, actions));
            let (h1, e1) = (HubState { session, ..h }).applied_all(actions, now);
            let (h2, e2) = h1.disconnected_all(h1.stale(), false, now);
            lemma_transition(h, session, actions, now, inside);
            crate::server::history::lemma_crossing_attended(h, session, actions, now);
            crate::server::laws::lemma_apply_in_step(h, session, actions, now);
            let mid = inside_after_all(inside, e1);
            lemma_disconnected_all(h1, h1.stale(), false, now, mid);
            lemma_parts(inside, e1, e2);
            let news = h2.layout_news();
            assert(all_neutral(news));
            lemma_parts(inside, e1 + e2, news);
            lemma_neutral(inside_after_all(inside, e1 + e2), news);
        },
        Control::SetPolicy(policy) => {
            let g = HubState { policy, ..h };
            assert(attentive(g)) by {
                assert forall|id: u8| g.session.present.contains(id) <==> #[trigger] client_at(
                    g.clients,
                    id,
                ) is Some by {
                    assert(h.session.present.contains(id) <==> client_at(h.clients, id) is Some);
                }
            }
            lemma_disconnected_all(g, g.revoked(), true, now, inside);
        },
        Control::ClientCommand { name, command } => {
            if let Some(c) = client_named(h.clients, name@) {
                if command is Disconnect {
                    lemma_disconnected(h, c.id, true, now, inside);
                } else {
                    let es = deliver(h.clients, c.id, Message::Control { command });
                    assert(all_neutral(es));
                    lemma_neutral(inside, es);
                }
            }
        },
    }
}

proof fn lemma_same(h: HubState, g: HubState, inside: Set<u64>)
    requires
        nobody_else_inside(h, inside),
        g.clients == h.clients,
        g.active == h.active,
    ensures
        nobody_else_inside(g, inside),
        holder_inside(h, inside) ==> holder_inside(g, inside),
{
}

#[verifier::rlimit(40)]
proof fn lemma_step(h: HubState, s: Step, inside: Set<u64>)
    requires
        attentive(h),
        in_step(h),
        regular(h, s),
        nobody_else_inside(h, inside),
    ensures
        ({
            let (g, es) = stepped(h, s);
            let after = inside_after_all(inside, es);
            &&& nobody_else_inside(g, after)
            &&& holder_inside(h, inside) && keeps_its_holder(h, s) ==> holder_inside(g, after)
        }),
{
    let es = stepped(h, s).1;
    match s {
        Step::Input { msg, now, now_ms } => {
            events_are_faithful(h.session, msg, now);
            let (session, actions) = local_event(h.session, msg, now);
            lemma_transition(h, session, actions, now_ms, inside);
        },
        Step::Ordered { action, now_ms } => {
            commands_are_faithful(h.session, action);
            let (session, actions) = obeyed(h.session, action);
            lemma_transition(h, session, actions, now_ms, inside);
        },
        Step::Datagram { id, from, seq, newer, msg, now, now_ms } => {
            let g = h.streaming(id, from, now_ms);
            assert(attentive(g)) by {
                assert forall|i: u8| g.session.present.contains(i) <==> #[trigger] client_at(
                    g.clients,
                    i,
                ) is Some by {
                    assert(h.session.present.contains(i) <==> client_at(h.clients, i) is Some);
                }
            }
            if let Message::CursorPos { x, y } = msg {
                beacons_are_faithful(g.session, id, x as int, y as int, now);
                let (session, actions) = away_beacon(g.session, id, x as int, y as int, now);
                let base = HubState { seqs: g.seqs.insert(id, seq), ..g };
                lemma_transition(base, session, actions, now_ms, inside);
                if !(h.genuine(id, from) && newer) {
                    lemma_same(h, stepped(h, s).0, inside);
                }
            } else {
                lemma_same(h, stepped(h, s).0, inside);
            }
        },
        Step::Said { id, msg, now, now_ms } => {
            if let Message::CursorPos { x, y } = msg {
                beacons_are_faithful(h.session, id, x as int, y as int, now);
                let (session, actions) = away_beacon(h.session, id, x as int, y as int, now);
                lemma_transition(h, session, actions, now_ms, inside);
            } else {
                assert(all_neutral(es));
                lemma_neutral(inside, es);
                lemma_same(h, stepped(h, s).0, inside);
            }
        },
        Step::Admitted { .. } => {
            lemma_same(h, stepped(h, s).0, inside);
        },
        Step::Joined { client, ip, addr, info, admitted } => {
            lemma_joined(h, client, ip, addr, info, admitted, inside);
        },
        Step::Gone { conn, now_ms } => {
            lemma_torn_down(h, conn, now_ms, inside);
        },
        Step::Told { control, now_ms } => {
            lemma_told(h, control, now_ms, inside);
        },
        Step::Watched { now_ms } => {
            if let Some(id) = h.wedged(now_ms) {
                if let Some(c) = client_at(h.clients, id) {
                    lemma_torn_down(h, c.conn, now_ms, inside);
                }
            }
        },
    }
}

// ---------------------------------------------------------------------
// Laws
// ---------------------------------------------------------------------

/// Whoever loses the cursor is told: after any run of events, nobody is
/// left with an `Enter` that was not followed by a `Leave` but the client
/// that has the cursor. And that client has been told `Enter`, as long as
/// no machine connects again while it has the cursor: its new connection
/// is not told.
pub proof fn exactly_the_holder_is_inside(h: HubState, inside: Set<u64>, run: Seq<Step>)
    requires
        attentive(h),
        in_step(h),
        nobody_else_inside(h, inside),
        all_regular(h, run),
    ensures
        nobody_else_inside(ran(h, run).0, inside_after_all(inside, ran(h, run).1)),
        holder_inside(h, inside) && always_keeps_its_holder(h, run) ==> holder_inside(
            ran(h, run).0,
            inside_after_all(inside, ran(h, run).1),
        ),
    decreases run.len(),
{
    if run.len() > 0 {
        let (g, es) = ran(h, run.drop_last());
        exactly_the_holder_is_inside(h, inside, run.drop_last());
        crate::server::history::the_cursor_is_with_a_registered_client(h, run.drop_last());
        crate::server::history::lemma_run_in_step(h, run.drop_last());
        lemma_step(g, run.last(), inside_after_all(inside, es));
        lemma_parts(inside, es, stepped(g, run.last()).1);
    }
}

/// A server that has just started has told nobody anything, and holds no
/// cursor away from home: the law above holds from there on.
pub proof fn nobody_is_inside_at_the_start(h: HubState)
    requires
        h.active is None,
    ensures
        nobody_else_inside(h, Set::empty()),
        holder_inside(h, Set::empty()),
{
}

} // verus!
