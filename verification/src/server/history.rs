//! What holds after any run of events: the server, the session and the
//! local machine's input agree on where control is.
use vstd::prelude::*;

use crate::actions::UserAction;
use crate::protocol::{Message, ScreenInfo};
use crate::server::control::{controlled, Control};
use crate::server::hub::{
    client_at, client_named, deliver, distinct, lemma_joins, lemma_without, lemma_without_others,
    owner, without, Client, Effect, HubState,
};
use crate::server::laws::{
    beacons_are_faithful, commands_are_faithful, events_are_faithful, faithful, in_step,
};
use crate::server::net::{Endpoint, PeerIp};
use crate::session::{away_beacon, homecoming, local_event, swapped, Action, State};
use crate::session::commands::obeyed;
use crate::Mode;

verus! {

/// What is being done to the local machine.
pub struct Hold {
    /// The keyboard and the pointer are grabbed.
    pub grabbed: bool,
    /// The physical devices are isolated.
    pub isolated: bool,
    /// The cursor is hidden.
    pub hidden: bool,
}

impl Hold {
    /// All or nothing.
    pub open spec fn all(on: bool) -> Hold {
        Hold { grabbed: on, isolated: on, hidden: on }
    }

    /// The hold after one effect.
    pub open spec fn after(self, e: Effect) -> Hold {
        match e {
            Effect::GrabInput(on) => Hold { grabbed: on, ..self },
            Effect::IsolateInput(on) => Hold { isolated: on, ..self },
            Effect::ShowCursor(on) => Hold { hidden: !on, ..self },
            _ => self,
        }
    }

    /// The hold after effects, in order.
    pub open spec fn after_all(self, es: Seq<Effect>) -> Hold
        decreases es.len(),
    {
        if es.len() == 0 {
            self
        } else {
            self.after_all(es.drop_last()).after(es.last())
        }
    }
}

/// Something that happens to a server.
pub enum Step {
    /// Local input arrives.
    Input { msg: Message, now: u64, now_ms: u64 },
    /// A shortcut fires a command.
    Ordered { action: UserAction, now_ms: u64 },
    /// A datagram arrives on the cursor stream.
    Datagram {
        id: u8,
        from: Endpoint,
        seq: u32,
        newer: bool,
        msg: Message,
        now: u64,
        now_ms: u64,
    },
    /// A client's message arrives on its control channel.
    Said { id: u8, msg: Message, now: u64, now_ms: u64 },
    /// A client's screen was found or made: the session is now this.
    Admitted { session: State },
    /// A client that has its screen is registered.
    Joined { client: Client, ip: PeerIp, addr: String, info: ScreenInfo, admitted: bool },
    /// A connection ends.
    Gone { conn: u64, now_ms: u64 },
    /// The app layer sends a control message.
    Told { control: Control, now_ms: u64 },
    /// The watchdog looks.
    Watched { now_ms: u64 },
}

/// The server after a step, and the effects of the step.
pub open spec fn stepped(h: HubState, s: Step) -> (HubState, Seq<Effect>) {
    match s {
        Step::Input { msg, now, now_ms } => h.fed(msg, now, now_ms),
        Step::Ordered { action, now_ms } => h.ordered(action, now_ms),
        Step::Datagram { id, from, seq, newer, msg, now, now_ms } => h.received(
            id,
            from,
            seq,
            newer,
            msg,
            now,
            now_ms,
        ),
        Step::Said { id, msg, now, now_ms } => h.heeded(id, msg, now, now_ms),
        Step::Admitted { session } => (HubState { session, ..h }, Seq::empty()),
        Step::Joined { client, ip, addr, info, admitted } => h.registered(
            client,
            ip,
            addr,
            info,
            admitted,
        ),
        Step::Gone { conn, now_ms } => h.torn_down(conn, now_ms),
        Step::Told { control, now_ms } => controlled(h, control, now_ms),
        Step::Watched { now_ms } => h.watched(now_ms),
    }
}

/// The step can be taken: an admission leaves the cursor alone, and who is
/// connected; and a client that joins has a connection of its own.
pub open spec fn regular(h: HubState, s: Step) -> bool {
    match s {
        Step::Admitted { session } => session.cursor == h.session.cursor && session.guarded
            == h.session.guarded && session.present == h.session.present,
        Step::Joined { client, .. } => owner(h.clients, client.conn) is None,
        _ => true,
    }
}

/// The server after a run of steps, and the effects of the run.
pub open spec fn ran(h: HubState, run: Seq<Step>) -> (HubState, Seq<Effect>)
    decreases run.len(),
{
    if run.len() == 0 {
        (h, Seq::empty())
    } else {
        let (g, es) = ran(h, run.drop_last());
        let (g2, es2) = stepped(g, run.last());
        (g2, es + es2)
    }
}

/// Every step of the run can be taken when it comes.
pub open spec fn all_regular(h: HubState, run: Seq<Step>) -> bool
    decreases run.len(),
{
    run.len() > 0 ==> all_regular(h, run.drop_last()) && regular(
        ran(h, run.drop_last()).0,
        run.last(),
    )
}

/// The local machine is held exactly while control is away.
pub open spec fn held_while_away(h: HubState, d: Hold) -> bool {
    d == Hold::all(h.session.cursor.mode is Remote)
}

// ---------------------------------------------------------------------
// Effects
// ---------------------------------------------------------------------

/// The effects do not touch the local machine's input.
spec fn quiet(es: Seq<Effect>) -> bool {
    forall|i: int|
        0 <= i < es.len() ==> !((#[trigger] es[i]) is GrabInput) && !(es[i] is IsolateInput) && !(
        es[i] is ShowCursor)
}

proof fn lemma_quiet(d: Hold, es: Seq<Effect>)
    requires
        quiet(es),
    ensures
        d.after_all(es) == d,
    decreases es.len(),
{
    if es.len() > 0 {
        assert(quiet(es.drop_last()));
        lemma_quiet(d, es.drop_last());
        assert(es.last() == es[es.len() - 1]);
    }
}

proof fn lemma_concat(d: Hold, a: Seq<Effect>, b: Seq<Effect>)
    ensures
        d.after_all(a + b) == d.after_all(a).after_all(b),
    decreases b.len(),
{
    if b.len() == 0 {
        assert(a + b =~= a);
    } else {
        assert((a + b).drop_last() =~= a + b.drop_last());
        assert((a + b).last() == b.last());
        lemma_concat(d, a, b.drop_last());
    }
}

proof fn lemma_four(d: Hold, es: Seq<Effect>)
    requires
        es.len() == 4,
    ensures
        d.after_all(es) == d.after(es[0]).after(es[1]).after(es[2]).after(es[3]),
{
    reveal_with_fuel(Hold::after_all, 5);
}

proof fn lemma_three(d: Hold, es: Seq<Effect>)
    requires
        es.len() == 3,
    ensures
        d.after_all(es) == d.after(es[0]).after(es[1]).after(es[2]),
{
    reveal_with_fuel(Hold::after_all, 4);
}

/// A switch settles the hold, whatever it was.
proof fn lemma_applied(h: HubState, action: Action, now: u64, d: Hold)
    requires
        action matches Action::SwitchTo { to, .. } ==> h.connected(to),
    ensures
        match action {
            Action::SwitchTo { .. } => d.after_all(h.applied(action, now).1) == Hold::all(true),
            Action::SwitchToLocal { .. } => d.after_all(h.applied(action, now).1) == Hold::all(
                false,
            ),
            _ => d.after_all(h.applied(action, now).1) == d,
        },
{
    let es = h.applied(action, now).1;
    match action {
        Action::SwitchTo { to, x, y } => {
            let before = h.farewell() + deliver(
                h.clients,
                to,
                Message::Enter { screen_id: to, x, y },
            );
            let last = seq![
                Effect::GrabInput(true),
                Effect::IsolateInput(true),
                Effect::ShowCursor(false),
            ];
            assert(quiet(before));
            lemma_quiet(d, before);
            lemma_concat(d, before, last);
            lemma_three(d, last);
        },
        Action::SwitchToLocal { x, y } => {
            let last = seq![
                Effect::IsolateInput(false),
                Effect::GrabInput(false),
                Effect::WarpLocal { x, y },
                Effect::ShowCursor(true),
            ];
            assert(quiet(h.farewell()));
            lemma_quiet(d, h.farewell());
            lemma_concat(d, h.farewell(), last);
            lemma_four(d, last);
        },
        _ => {
            assert(quiet(es));
            lemma_quiet(d, es);
        },
    }
}

proof fn lemma_faithful(h: HubState, session: State, actions: Seq<Action>, now: u64, d: Hold)
    requires
        held_while_away(h, d),
        in_step(h),
        h.guards(),
        faithful(h.session, session, actions),
    ensures
        ({
            let (g, es) = (HubState { session, ..h }).applied_all(actions, now);
            held_while_away(g, d.after_all(es)) && in_step(g) && g.session == session
        }),
{
    let g = HubState { session, ..h };
    if actions.len() == 1 {
        let (a, es) = g.applied(actions[0], now);
        assert(actions.drop_first().len() == 0);
        assert(a.applied_all(actions.drop_first(), now) == (a, Seq::<Effect>::empty()));
        assert(es + Seq::<Effect>::empty() =~= es);
        if let Action::SwitchTo { to, .. } = actions[0] {
            assert(client_at(h.clients, to) is Some);
        }
        lemma_applied(g, actions[0], now, d);
    }
}

proof fn lemma_let_go(h: HubState, id: u8, remove_screen: bool, now: u64, d: Hold)
    requires
        held_while_away(h, d),
        in_step(h),
    ensures
        ({
            let (g, es) = h.forgotten(id).let_go(id, remove_screen, now);
            held_while_away(g, d.after_all(es)) && in_step(g)
        }),
{
    let f = h.forgotten(id);
    if h.session.cursor.mode == Mode::Remote(id) {
        let s = homecoming(h.session).0;
        let g = HubState {
            session: if remove_screen {
                s.parted(id).without_screen(id)
            } else {
                s.parted(id)
            },
            ..f
        };
        lemma_applied(g, homecoming(h.session).1, now, d);
    }
}

proof fn lemma_disconnected(h: HubState, id: u8, remove_screen: bool, now: u64, d: Hold)
    requires
        held_while_away(h, d),
        in_step(h),
    ensures
        ({
            let (g, es) = h.disconnected(id, remove_screen, now);
            held_while_away(g, d.after_all(es)) && in_step(g)
        }),
{
    if let Some(c) = client_at(h.clients, id) {
        let es = h.disconnected(id, remove_screen, now).1;
        let (g, home) = h.forgotten(id).let_go(id, remove_screen, now);
        let front = es.take(2);
        let back = es.skip(2 + home.len() as int);
        assert(es =~= front + home + back);
        assert(quiet(front) && quiet(back));
        lemma_quiet(d, front);
        lemma_let_go(h, id, remove_screen, now, d);
        lemma_concat(d, front, home);
        lemma_concat(d, front + home, back);
        lemma_quiet(d.after_all(front + home), back);
    }
}

proof fn lemma_disconnected_all(
    h: HubState,
    gone: Seq<u8>,
    remove_screen: bool,
    now: u64,
    d: Hold,
)
    requires
        held_while_away(h, d),
        in_step(h),
    ensures
        ({
            let (g, es) = h.disconnected_all(gone, remove_screen, now);
            held_while_away(g, d.after_all(es)) && in_step(g)
        }),
    decreases gone.len(),
{
    if gone.len() > 0 {
        let (h1, e1) = h.disconnected(gone[0], remove_screen, now);
        let (h2, e2) = h1.disconnected_all(gone.drop_first(), remove_screen, now);
        lemma_disconnected(h, gone[0], remove_screen, now, d);
        lemma_disconnected_all(h1, gone.drop_first(), remove_screen, now, d.after_all(e1));
        lemma_concat(d, e1, e2);
    }
}

proof fn lemma_torn_down(h: HubState, conn: u64, now: u64, d: Hold)
    requires
        held_while_away(h, d),
        in_step(h),
    ensures
        ({
            let (g, es) = h.torn_down(conn, now);
            held_while_away(g, d.after_all(es)) && in_step(g)
        }),
{
    if let Some(c) = owner(h.clients, conn) {
        let es = h.torn_down(conn, now).1;
        let (g, home) = h.forgotten(c.id).let_go(c.id, false, now);
        let front = es.take(3);
        assert(es =~= front + home);
        assert(quiet(front));
        lemma_quiet(d, front);
        lemma_let_go(h, c.id, false, now, d);
        lemma_concat(d, front, home);
    }
}

proof fn lemma_told(h: HubState, control: Control, now: u64, d: Hold)
    requires
        held_while_away(h, d),
        in_step(h),
        h.guards(),
    ensures
        ({
            let (g, es) = controlled(h, control, now);
            held_while_away(g, d.after_all(es)) && in_step(g)
        }),
{
    match control {
        Control::Reload(layout, _) => {
            let (session, actions) = swapped(h.session, layout@);
            assert(faithful(h.session, session, actions));
            let (h1, e1) = (HubState { session, ..h }).applied_all(actions, now);
            let (h2, e2) = h1.disconnected_all(h1.stale(), false, now);
            lemma_faithful(h, session, actions, now, d);
            lemma_disconnected_all(h1, h1.stale(), false, now, d.after_all(e1));
            lemma_concat(d, e1, e2);
            let news = h2.layout_news();
            assert(quiet(news));
            lemma_quiet(d.after_all(e1 + e2), news);
            lemma_concat(d, e1 + e2, news);
        },
        Control::SetPolicy(policy) => {
            let g = HubState { policy, ..h };
            lemma_disconnected_all(g, g.revoked(), true, now, d);
        },
        Control::ClientCommand { name, command } => {
            if let Some(c) = client_named(h.clients, name@) {
                if command is Disconnect {
                    lemma_disconnected(h, c.id, true, now, d);
                } else {
                    let es = deliver(h.clients, c.id, Message::Control { command });
                    assert(quiet(es));
                    lemma_quiet(d, es);
                }
            }
        },
    }
}

proof fn lemma_step(h: HubState, s: Step, d: Hold)
    requires
        held_while_away(h, d),
        in_step(h),
        h.guards(),
        regular(h, s),
    ensures
        held_while_away(stepped(h, s).0, d.after_all(stepped(h, s).1)),
        in_step(stepped(h, s).0),
{
    let es = stepped(h, s).1;
    match s {
        Step::Input { msg, now, now_ms } => {
            events_are_faithful(h.session, msg, now);
            let (session, actions) = local_event(h.session, msg, now);
            lemma_faithful(h, session, actions, now_ms, d);
        },
        Step::Ordered { action, now_ms } => {
            commands_are_faithful(h.session, action);
            let (session, actions) = obeyed(h.session, action);
            lemma_faithful(h, session, actions, now_ms, d);
        },
        Step::Datagram { id, from, seq, newer, msg, now, now_ms } => {
            let g = h.streaming(id, from, now_ms);
            if let Message::CursorPos { x, y } = msg {
                beacons_are_faithful(g.session, id, x as int, y as int, now);
                let (session, actions) = away_beacon(g.session, id, x as int, y as int, now);
                let base = HubState { seqs: g.seqs.insert(id, seq), ..g };
                lemma_faithful(base, session, actions, now_ms, d);
            }
        },
        Step::Said { id, msg, now, now_ms } => {
            if let Message::CursorPos { x, y } = msg {
                beacons_are_faithful(h.session, id, x as int, y as int, now);
                let (session, actions) = away_beacon(h.session, id, x as int, y as int, now);
                lemma_faithful(h, session, actions, now_ms, d);
            } else {
                assert(quiet(es));
                lemma_quiet(d, es);
            }
        },
        Step::Admitted { .. } => {},
        Step::Joined { .. } => {
            assert(quiet(es));
            lemma_quiet(d, es);
        },
        Step::Gone { conn, now_ms } => {
            lemma_torn_down(h, conn, now_ms, d);
        },
        Step::Told { control, now_ms } => {
            lemma_told(h, control, now_ms, d);
        },
        Step::Watched { now_ms } => {
            if let Some(id) = h.wedged(now_ms) {
                if let Some(c) = client_at(h.clients, id) {
                    lemma_torn_down(h, c.conn, now_ms, d);
                }
            }
        },
    }
}

/// The local machine is never left trapped: after any run of events, its
/// keyboard and pointer are grabbed, its devices isolated and its cursor
/// hidden exactly while control is on a client, and the server and the
/// session agree on which client that is.
pub proof fn local_input_is_held_exactly_while_away(h: HubState, d: Hold, run: Seq<Step>)
    requires
        attentive(h),
        in_step(h),
        held_while_away(h, d),
        all_regular(h, run),
    ensures
        in_step(ran(h, run).0),
        held_while_away(ran(h, run).0, d.after_all(ran(h, run).1)),
    decreases run.len(),
{
    if run.len() > 0 {
        let (g, es) = ran(h, run.drop_last());
        local_input_is_held_exactly_while_away(h, d, run.drop_last());
        the_cursor_is_with_a_registered_client(h, run.drop_last());
        lemma_step(g, run.last(), d.after_all(es));
        lemma_concat(d, es, stepped(g, run.last()).1);
    }
}

pub(crate) proof fn lemma_run_in_step(h: HubState, run: Seq<Step>)
    requires
        attentive(h),
        in_step(h),
        all_regular(h, run),
    ensures
        in_step(ran(h, run).0),
{
    let d = Hold::all(h.session.cursor.mode is Remote);
    local_input_is_held_exactly_while_away(h, d, run);
}

// ---------------------------------------------------------------------
// Who has the cursor
// ---------------------------------------------------------------------

/// No two clients share an id or a connection, crossings enter the screens
/// of registered clients alone, and the client the cursor is on is
/// registered.
pub open spec fn attentive(h: HubState) -> bool {
    distinct(h.clients) && h.guards() && h.attended()
}

pub(crate) proof fn lemma_crossing_attended(h: HubState, session: State, actions: Seq<Action>, now: u64)
    requires
        attentive(h),
        faithful(h.session, session, actions),
    ensures
        attentive((HubState { session, ..h }).applied_all(actions, now).0),
{
    let g = HubState { session, ..h };
    if actions.len() == 1 {
        let a = g.applied(actions[0], now).0;
        assert(actions.drop_first().len() == 0);
        assert(a.applied_all(actions.drop_first(), now).0 == a);
        if let Action::SwitchTo { to, .. } = actions[0] {
            assert(client_at(h.clients, to) is Some);
        }
    }
}

pub(crate) proof fn lemma_loss_attended(h: HubState, id: u8, remove_screen: bool, now: u64)
    requires
        attentive(h),
    ensures
        attentive(h.forgotten(id).let_go(id, remove_screen, now).0),
{
    let g = h.forgotten(id).let_go(id, remove_screen, now).0;
    lemma_without(h.clients, id);
    assert(g.clients == without(h.clients, id));
    assert forall|other: u8| g.session.present.contains(other) <==> #[trigger] client_at(
        g.clients,
        other,
    ) is Some by {
        if other != id {
            lemma_without_others(h.clients, id, other);
            assert(h.session.present.contains(other) <==> client_at(h.clients, other) is Some);
        }
    }
    if let Some(a) = g.active {
        assert(h.active == Some(a) && a != id);
        lemma_without_others(h.clients, id, a);
    }
}

proof fn lemma_losses_attended(h: HubState, gone: Seq<u8>, remove_screen: bool, now: u64)
    requires
        attentive(h),
    ensures
        attentive(h.disconnected_all(gone, remove_screen, now).0),
    decreases gone.len(),
{
    if gone.len() > 0 {
        lemma_loss_attended(h, gone[0], remove_screen, now);
        let h1 = h.disconnected(gone[0], remove_screen, now).0;
        lemma_losses_attended(h1, gone.drop_first(), remove_screen, now);
    }
}

proof fn lemma_join_attended(
    h: HubState,
    client: Client,
    ip: PeerIp,
    addr: String,
    info: ScreenInfo,
    admitted: bool,
)
    requires
        attentive(h),
        owner(h.clients, client.conn) is None,
    ensures
        attentive(h.registered(client, ip, addr, info, admitted).0),
{
    let g = h.registered(client, ip, addr, info, admitted).0;
    lemma_without(h.clients, client.id);
    lemma_joins(h.clients, client);
    let t = without(h.clients, client.id);
    let conns = h.clients.map_values(|c: Client| c.conn);
    conns.index_of_first_ensures(client.conn);
    assert forall|k: int| 0 <= k < t.len() implies (#[trigger] t[k]).conn != client.conn by {
        let j = choose|j: int| 0 <= j < h.clients.len() && h.clients[j] == t[k];
        assert(conns[j] == t[k].conn);
    }
    assert(distinct(g.clients));
    assert forall|id: u8| g.session.present.contains(id) <==> #[trigger] client_at(
        g.clients,
        id,
    ) is Some by {
        assert(h.session.present.contains(id) <==> client_at(h.clients, id) is Some);
    }
}

proof fn lemma_step_attended(h: HubState, s: Step)
    requires
        attentive(h),
        regular(h, s),
    ensures
        attentive(stepped(h, s).0),
{
    match s {
        Step::Input { msg, now, now_ms } => {
            events_are_faithful(h.session, msg, now);
            let (session, actions) = local_event(h.session, msg, now);
            lemma_crossing_attended(h, session, actions, now_ms);
        },
        Step::Ordered { action, now_ms } => {
            commands_are_faithful(h.session, action);
            let (session, actions) = obeyed(h.session, action);
            lemma_crossing_attended(h, session, actions, now_ms);
        },
        Step::Datagram { id, from, seq, newer, msg, now, now_ms } => {
            let g = h.streaming(id, from, now_ms);
            if let Message::CursorPos { x, y } = msg {
                beacons_are_faithful(g.session, id, x as int, y as int, now);
                let (session, actions) = away_beacon(g.session, id, x as int, y as int, now);
                let base = HubState { seqs: g.seqs.insert(id, seq), ..g };
                lemma_crossing_attended(base, session, actions, now_ms);
            }
        },
        Step::Said { id, msg, now, now_ms } => {
            if let Message::CursorPos { x, y } = msg {
                beacons_are_faithful(h.session, id, x as int, y as int, now);
                let (session, actions) = away_beacon(h.session, id, x as int, y as int, now);
                lemma_crossing_attended(h, session, actions, now_ms);
            }
        },
        Step::Admitted { .. } => {},
        Step::Joined { client, ip, addr, info, admitted } => {
            lemma_join_attended(h, client, ip, addr, info, admitted);
        },
        Step::Gone { conn, now_ms } => {
            if let Some(c) = owner(h.clients, conn) {
                lemma_loss_attended(h, c.id, false, now_ms);
            }
        },
        Step::Told { control, now_ms } => match control {
            Control::Reload(layout, _) => {
                let (session, actions) = swapped(h.session, layout@);
                assert(faithful(h.session, session, actions));
                lemma_crossing_attended(h, session, actions, now_ms);
                let h1 = (HubState { session, ..h }).applied_all(actions, now_ms).0;
                lemma_losses_attended(h1, h1.stale(), false, now_ms);
            },
            Control::SetPolicy(policy) => {
                let g = HubState { policy, ..h };
                lemma_losses_attended(g, g.revoked(), true, now_ms);
            },
            Control::ClientCommand { name, command } => {
                if let Some(c) = client_named(h.clients, name@) {
                    lemma_loss_attended(h, c.id, true, now_ms);
                }
            },
        },
        Step::Watched { now_ms } => {
            if let Some(id) = h.wedged(now_ms) {
                if let Some(c) = client_at(h.clients, id) {
                    if let Some(o) = owner(h.clients, c.conn) {
                        lemma_loss_attended(h, o.id, false, now_ms);
                    }
                }
            }
        },
    }
}

/// A crossing never fires into a screen whose client is not there: after
/// any run of events, the client that has the cursor is registered, and a
/// client's screen is open to crossings exactly while its client is
/// registered.
pub proof fn the_cursor_is_with_a_registered_client(h: HubState, run: Seq<Step>)
    requires
        attentive(h),
        all_regular(h, run),
    ensures
        attentive(ran(h, run).0),
        ran(h, run).0.active matches Some(id) ==> ran(h, run).0.connected(id),
    decreases run.len(),
{
    if run.len() > 0 {
        the_cursor_is_with_a_registered_client(h, run.drop_last());
        lemma_step_attended(ran(h, run.drop_last()).0, run.last());
    }
}

} // verus!
