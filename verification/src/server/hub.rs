//! The registered clients and the executor that turns session actions into
//! effects on them and on the local machine.
use std::collections::HashMap;
use vstd::prelude::*;
use vstd::string::*;

use crate::actions::UserAction;
use crate::clock::age;
use crate::layout::{find_screen, Layout};
use crate::protocol::{Command, Message, Screen, ScreenInfo};
use crate::server::laws::commands_are_faithful;
use crate::server::net::{Endpoint, PeerIp};
use crate::server::policy::{barred, Policy};
use crate::session::{
    acceptable, adopted, away_beacon, bounded_layout, homecoming, local_event,
    resized, swapped, Action, Session, State,
};
use crate::session::commands::obeyed;
use crate::session::newcomer::{
    has_slot, named_screen, newcomer_takes_nobodys_place, own_name, with_newcomer,
};
use crate::text::same;
use crate::Mode;

verus! {

/// How long (ms) the active client's cursor stream may go silent before
/// the server drops it.
pub const ACTIVE_BEACON_TIMEOUT: u64 = 1500;

/// How many outbound items may queue per client before sends start
/// dropping. The bound exists so a wedged writer can never grow memory
/// without limit.
pub const OUT_QUEUE_CAP: usize = 1024;

/// The server's view of one connected client.
#[derive(Debug, PartialEq, Eq)]
pub struct Client {
    /// Its screen id.
    pub id: u8,
    /// Its screen name.
    pub name: String,
    /// The client's stable machine id, from its hello.
    pub machine_id: String,
    /// Monotonic ms when the client connected.
    pub since_ms: u64,
    /// Tells this connection from every other one, also from an earlier
    /// or later one of the same machine.
    pub conn: u64,
}

impl Clone for Client {
    fn clone(&self) -> (r: Self)
        ensures
            r == *self,
    {
        Client {
            id: self.id,
            name: self.name.clone(),
            machine_id: self.machine_id.clone(),
            since_ms: self.since_ms,
            conn: self.conn,
        }
    }
}

/// One outbound item for a client.
#[derive(Debug, PartialEq)]
pub enum Outbound {
    /// Reliable control frame (TCP).
    Tcp(Message),
    /// Loss-tolerant cursor frame (UDP): only relative motion.
    Udp(Message),
}

/// Lifecycle events the server emits for its app layer.
#[derive(Debug, PartialEq)]
pub enum ServerEvent {
    ClientConnected { name: String, id: String, addr: String, since_ms: u64, info: ScreenInfo },
    ClientDisconnected { name: String },
}

/// Something the caller must do, in the order given.
#[derive(Debug, PartialEq)]
pub enum Effect {
    /// Put an item on a connection's outbound queue.
    Queue { conn: u64, item: Outbound },
    /// Send a connection the current layout.
    ShareLayout { conn: u64 },
    /// Welcome a connection with its screen id and the current layout.
    Welcome { conn: u64, id: u8 },
    /// Take (or release) the local keyboard and pointer.
    GrabInput(bool),
    /// Isolate (or release) the physical input devices.
    IsolateInput(bool),
    /// Show (or hide) the local cursor.
    ShowCursor(bool),
    /// Warp the local cursor.
    WarpLocal { x: i32, y: i32 },
    /// Put content into the local clipboard.
    SetClipboard { mime: String, data: Vec<u8> },
    /// Tell the app layer.
    Notify(ServerEvent),
}

/// Which link a message travels on: everything is a reliable control
/// frame except the additive cursor motion.
pub open spec fn routed(msg: Message) -> Outbound {
    if msg is MouseMoveRel {
        Outbound::Udp(msg)
    } else {
        Outbound::Tcp(msg)
    }
}

/// [`routed`] as a value.
pub fn route(msg: Message) -> (r: Outbound)
    ensures
        r == routed(msg),
{
    match msg {
        Message::MouseMoveRel { dx, dy } => Outbound::Udp(Message::MouseMoveRel { dx, dy }),
        other => Outbound::Tcp(other),
    }
}

// ---------------------------------------------------------------------
// The model
// ---------------------------------------------------------------------

/// What the server knows.
pub struct HubState {
    pub session: State,
    pub clients: Seq<Client>,
    /// The client the cursor is on.
    pub active: Option<u8>,
    /// Where each client's cursor stream comes from.
    pub addrs: Map<u8, Endpoint>,
    /// The last applied beacon of each client.
    pub seqs: Map<u8, u32>,
    /// When each client's cursor stream was last heard (ms).
    pub heard: Map<u8, u64>,
    /// The address that each client's handshake came from.
    pub ips: Map<u8, PeerIp>,
    pub policy: Policy,
}

/// The screen ids of the clients.
pub open spec fn ids(cs: Seq<Client>) -> Seq<u8> {
    cs.map_values(|c: Client| c.id)
}

/// The client registered under an id.
pub open spec fn client_at(cs: Seq<Client>, id: u8) -> Option<Client> {
    match ids(cs).index_of_first(id) {
        Some(k) => Some(cs[k]),
        None => None,
    }
}

/// The clients without the one registered under an id.
pub open spec fn without(cs: Seq<Client>, id: u8) -> Seq<Client> {
    match ids(cs).index_of_first(id) {
        Some(k) => cs.remove(k),
        None => cs,
    }
}

/// No two clients share an id or a connection.
pub open spec fn distinct(cs: Seq<Client>) -> bool {
    forall|i: int, j: int|
        0 <= i < j < cs.len() ==> (#[trigger] cs[i]).id != (#[trigger] cs[j]).id && cs[i].conn
            != cs[j].conn
}

/// The effects of queueing a message for a client: none when it is gone.
pub open spec fn deliver(cs: Seq<Client>, id: u8, msg: Message) -> Seq<Effect> {
    match client_at(cs, id) {
        Some(c) => seq![Effect::Queue { conn: c.conn, item: routed(msg) }],
        None => Seq::empty(),
    }
}

impl HubState {
    /// The goodbye to the client that the cursor leaves, if any.
    pub open spec fn farewell(self) -> Seq<Effect> {
        match self.active {
            Some(id) => deliver(self.clients, id, Message::Leave { screen_id: id }),
            None => Seq::empty(),
        }
    }

    /// A session's action carried out at time `now`. A switch to a client
    /// that is not registered is not: its `Enter` would be dropped.
    pub open spec fn applied(self, action: Action, now: u64) -> (HubState, Seq<Effect>) {
        match action {
            Action::Nothing => (self, Seq::empty()),
            Action::Send(msg) => (
                self,
                match self.active {
                    Some(id) => deliver(self.clients, id, msg),
                    None => Seq::empty(),
                },
            ),
            Action::SwitchTo { to, x, y } => if !self.connected(to) {
                (self, Seq::empty())
            } else {
                (
                    HubState { active: Some(to), heard: self.heard.insert(to, now), ..self },
                    self.farewell() + deliver(
                        self.clients,
                        to,
                        Message::Enter { screen_id: to, x, y },
                    ) + seq![
                        Effect::GrabInput(true),
                        Effect::IsolateInput(true),
                        Effect::ShowCursor(false),
                    ],
                )
            },
            Action::SwitchToLocal { x, y } => (
                HubState { active: None, ..self },
                self.farewell() + seq![
                    Effect::IsolateInput(false),
                    Effect::GrabInput(false),
                    Effect::WarpLocal { x, y },
                    Effect::ShowCursor(true),
                ],
            ),
        }
    }

    /// Actions carried out in order.
    pub open spec fn applied_all(self, actions: Seq<Action>, now: u64) -> (HubState, Seq<Effect>)
        decreases actions.len(),
    {
        if actions.len() == 0 {
            (self, Seq::empty())
        } else {
            let (h, e) = self.applied(actions[0], now);
            let (h2, e2) = h.applied_all(actions.drop_first(), now);
            (h2, e + e2)
        }
    }

    /// A local input message.
    pub open spec fn fed(self, msg: Message, now: u64, now_ms: u64) -> (HubState, Seq<Effect>) {
        let (session, actions) = local_event(self.session, msg, now);
        HubState { session, ..self }.applied_all(actions, now_ms)
    }

    /// A command that a shortcut fired.
    pub open spec fn ordered(self, action: UserAction, now_ms: u64) -> (HubState, Seq<Effect>) {
        let (session, actions) = obeyed(self.session, action);
        HubState { session, ..self }.applied_all(actions, now_ms)
    }

    /// Everything kept under a client's id is forgotten.
    pub open spec fn forgotten(self, id: u8) -> HubState {
        HubState {
            clients: without(self.clients, id),
            addrs: self.addrs.remove(id),
            seqs: self.seqs.remove(id),
            heard: self.heard.remove(id),
            ips: self.ips.remove(id),
            active: if self.active == Some(id) {
                None
            } else {
                self.active
            },
            ..self
        }
    }

    /// The session's reaction to a client that is gone: control comes
    /// home if it was there, its screen is closed to crossings, and its
    /// screen goes when it is refused for good.
    pub open spec fn let_go(self, id: u8, remove_screen: bool, now: u64) -> (
        HubState,
        Seq<Effect>,
    ) {
        let was_there = self.session.cursor.mode == Mode::Remote(id);
        let s = if was_there {
            homecoming(self.session).0
        } else {
            self.session
        };
        let h = HubState {
            session: if remove_screen {
                s.parted(id).without_screen(id)
            } else {
                s.parted(id)
            },
            ..self
        };
        if was_there {
            h.applied(homecoming(self.session).1, now)
        } else {
            (h, Seq::empty())
        }
    }

    /// The connection `conn` is over. Only the client that is still
    /// registered with it is torn down.
    pub open spec fn torn_down(self, conn: u64, now: u64) -> (HubState, Seq<Effect>) {
        match owner(self.clients, conn) {
            None => (self, Seq::empty()),
            Some(c) => {
                let (h, home) = self.forgotten(c.id).let_go(c.id, false, now);
                (
                    h,
                    seq![
                        Effect::Queue {
                            conn,
                            item: Outbound::Tcp(Message::Leave { screen_id: c.id }),
                        },
                        Effect::Queue {
                            conn,
                            item: Outbound::Tcp(
                                Message::Control { command: Command::Reconnect },
                            ),
                        },
                        Effect::Notify(ServerEvent::ClientDisconnected { name: c.name }),
                    ] + home,
                )
            },
        }
    }

    /// The server disconnects client `id`, and takes its screen out of the
    /// desktop when told so.
    pub open spec fn disconnected(self, id: u8, remove_screen: bool, now: u64) -> (
        HubState,
        Seq<Effect>,
    ) {
        match client_at(self.clients, id) {
            None => (self, Seq::empty()),
            Some(c) => {
                let (h, home) = self.forgotten(id).let_go(id, remove_screen, now);
                (
                    h,
                    seq![
                        Effect::Queue {
                            conn: c.conn,
                            item: Outbound::Tcp(
                                Message::Control { command: Command::Disconnect },
                            ),
                        },
                        Effect::Queue {
                            conn: c.conn,
                            item: Outbound::Tcp(Message::Leave { screen_id: id }),
                        },
                    ] + home + seq![
                        Effect::Notify(ServerEvent::ClientDisconnected { name: c.name }),
                    ],
                )
            },
        }
    }

    /// The server disconnects the clients with these ids, in order.
    pub open spec fn disconnected_all(self, gone: Seq<u8>, remove_screen: bool, now: u64) -> (
        HubState,
        Seq<Effect>,
    )
        decreases gone.len(),
    {
        if gone.len() == 0 {
            (self, Seq::empty())
        } else {
            let (h, e) = self.disconnected(gone[0], remove_screen, now);
            let (h2, e2) = h.disconnected_all(gone.drop_first(), remove_screen, now);
            (h2, e + e2)
        }
    }

    /// The ids of the clients whose machine is revoked.
    pub open spec fn revoked(self) -> Seq<u8> {
        ids(self.clients.filter(|c: Client| barred(self.policy.revoked_ids@, c.machine_id@)))
    }

    /// The ids of the clients whose screen is not in the layout.
    pub open spec fn stale(self) -> Seq<u8> {
        ids(self.clients.filter(|c: Client| !has_screen(self.session.layout, c)))
    }

    /// Every client is sent the current layout.
    pub open spec fn layout_news(self) -> Seq<Effect> {
        self.clients.map_values(|c: Client| Effect::ShareLayout { conn: c.conn })
    }
}

/// The first client with this screen name.
pub open spec fn client_named(cs: Seq<Client>, name: Seq<char>) -> Option<Client> {
    match cs.map_values(|c: Client| c.name@).index_of_first(name) {
        Some(k) => Some(cs[k]),
        None => None,
    }
}

impl HubState {
    /// A client has passed the handshake: it is welcomed and registered,
    /// in place of an earlier connection under the same id, which is told
    /// to end. From here on crossings may enter its screen. When its
    /// screen is new, everybody learns the new map.
    pub open spec fn registered(
        self,
        client: Client,
        ip: PeerIp,
        addr: String,
        info: ScreenInfo,
        admitted: bool,
    ) -> (HubState, Seq<Effect>) {
        let h = HubState {
            session: State {
                layout: resized(self.session.layout, client.id, info),
                ..self.session
            }.joined(client.id),
            clients: without(self.clients, client.id).push(client),
            ips: self.ips.insert(client.id, ip),
            ..self
        };
        let replaced = match client_at(self.clients, client.id) {
            Some(c) => seq![
                Effect::Queue {
                    conn: c.conn,
                    item: Outbound::Tcp(Message::Leave { screen_id: client.id }),
                },
                Effect::Queue {
                    conn: c.conn,
                    item: Outbound::Tcp(Message::Control { command: Command::Disconnect }),
                },
            ],
            None => Seq::empty(),
        };
        let news = if admitted {
            h.layout_news()
        } else {
            Seq::empty()
        };
        (
            h,
            seq![Effect::Welcome { conn: client.conn, id: client.id }] + replaced + seq![
                Effect::Notify(
                    ServerEvent::ClientConnected {
                        name: client.name,
                        id: client.machine_id,
                        addr,
                        since_ms: client.since_ms,
                        info,
                    },
                ),
            ] + news,
        )
    }

    /// A new layout is offered. The session adopts or rejects it, clients
    /// whose screen is gone are disconnected, and the rest learn the map.
    pub open spec fn reloaded(self, layout: Seq<Screen>, now: u64) -> (HubState, Seq<Effect>) {
        let (session, actions) = swapped(self.session, layout);
        let (h1, e1) = HubState { session, ..self }.applied_all(actions, now);
        let (h2, e2) = h1.disconnected_all(h1.stale(), false, now);
        (h2, e1 + e2 + h2.layout_news())
    }

    /// A new policy is adopted: connected clients that it revokes are
    /// disconnected on the spot, and their screens go.
    pub open spec fn governed(self, policy: Policy, now: u64) -> (HubState, Seq<Effect>) {
        let h = HubState { policy, ..self };
        h.disconnected_all(h.revoked(), true, now)
    }

    /// A command for the client with a screen name. Nobody of that name:
    /// nothing happens.
    pub open spec fn commanded(self, name: Seq<char>, command: Command, now: u64) -> (
        HubState,
        Seq<Effect>,
    ) {
        match client_named(self.clients, name) {
            None => (self, Seq::empty()),
            Some(c) => if command is Disconnect {
                self.disconnected(c.id, true, now)
            } else {
                (self, deliver(self.clients, c.id, Message::Control { command }))
            },
        }
    }

    /// A control message from client `id`. A position report that completes
    /// a crossing has it carried out, as on the cursor stream.
    pub open spec fn heeded(self, id: u8, msg: Message, now: u64, now_ms: u64) -> (
        HubState,
        Seq<Effect>,
    ) {
        match msg {
            Message::ScreenInfo { info } => (
                HubState {
                    session: State { layout: resized(self.session.layout, id, info), ..self.session },
                    ..self
                },
                match client_at(self.clients, id) {
                    Some(c) => seq![Effect::ShareLayout { conn: c.conn }],
                    None => Seq::empty(),
                },
            ),
            Message::Clipboard { mime, data } => (
                self,
                seq![Effect::SetClipboard { mime, data }],
            ),
            Message::CursorPos { x, y } => {
                let (session, actions) = away_beacon(self.session, id, x as int, y as int, now);
                HubState { session, ..self }.applied_all(actions, now_ms)
            },
            _ => (self, Seq::empty()),
        }
    }

    /// A datagram under this id from this address is the client's own:
    /// the client is registered, and its handshake came from there.
    pub open spec fn genuine(self, id: u8, from: Endpoint) -> bool {
        &&& client_at(self.clients, id) is Some
        &&& self.ips.dom().contains(id)
        &&& self.ips[id] == from.ip
    }

    /// The stream of client `id` is the one from `from`. A stream from
    /// another source starts a new sequence.
    pub open spec fn streaming(self, id: u8, from: Endpoint, now_ms: u64) -> HubState {
        HubState {
            heard: self.heard.insert(id, now_ms),
            seqs: if self.addrs.dom().contains(id) && self.addrs[id] != from {
                self.seqs.remove(id)
            } else {
                self.seqs
            },
            addrs: if self.addrs.dom().contains(id) && self.addrs[id] == from {
                self.addrs
            } else {
                self.addrs.insert(id, from)
            },
            ..self
        }
    }

    /// The last applied beacon of client `id`, 0 before the first.
    pub open spec fn last_seq(self, id: u8) -> u32 {
        if self.seqs.dom().contains(id) {
            self.seqs[id]
        } else {
            0
        }
    }

    /// A datagram of the cursor stream. `newer` tells whether its
    /// sequence number is newer than the last applied one.
    pub open spec fn received(
        self,
        id: u8,
        from: Endpoint,
        seq: u32,
        newer: bool,
        msg: Message,
        now: u64,
        now_ms: u64,
    ) -> (HubState, Seq<Effect>) {
        let h = self.streaming(id, from, now_ms);
        if !self.genuine(id, from) {
            (self, Seq::empty())
        } else {
            match msg {
                Message::CursorPos { x, y } => if newer {
                    let (session, actions) = away_beacon(h.session, id, x as int, y as int, now);
                    HubState { session, seqs: h.seqs.insert(id, seq), ..h }.applied_all(
                        actions,
                        now_ms,
                    )
                } else {
                    (HubState { seqs: h.seqs.insert(id, h.last_seq(id)), ..h }, Seq::empty())
                },
                _ => (h, Seq::empty()),
            }
        }
    }

    /// The active client's cursor stream has been silent for longer than
    /// [`ACTIVE_BEACON_TIMEOUT`].
    pub open spec fn wedged(self, now_ms: u64) -> Option<u8> {
        match self.active {
            Some(id) if self.heard.dom().contains(id) && age(now_ms, self.heard[id])
                > ACTIVE_BEACON_TIMEOUT => Some(id),
            _ => None,
        }
    }

    /// The watchdog: a wedged client's connection is torn down, so that
    /// control returns home.
    pub open spec fn watched(self, now_ms: u64) -> (HubState, Seq<Effect>) {
        match self.wedged(now_ms) {
            None => (self, Seq::empty()),
            Some(id) => match client_at(self.clients, id) {
                None => (self, Seq::empty()),
                Some(c) => self.torn_down(c.conn, now_ms),
            },
        }
    }
}

/// The client that owns a connection.
pub open spec fn owner(cs: Seq<Client>, conn: u64) -> Option<Client> {
    match cs.map_values(|c: Client| c.conn).index_of_first(conn) {
        Some(k) => Some(cs[k]),
        None => None,
    }
}

/// The layout has the client's screen: the same id and the same name.
pub open spec fn has_screen(layout: Seq<Screen>, c: Client) -> bool {
    exists|k: int|
        0 <= k < layout.len() && (#[trigger] layout[k]).id == c.id && layout[k].name@ == c.name@
}

impl HubState {
    /// A client is registered under the id.
    pub open spec fn connected(self, id: u8) -> bool {
        client_at(self.clients, id) is Some
    }

    /// Every screen but `id` is open to crossings exactly while a client
    /// is registered under it.
    pub open spec fn guards_but(self, id: u8) -> bool {
        &&& self.session.guarded
        &&& forall|other: u8|
            other != id ==> (self.session.present.contains(other) <==> #[trigger] client_at(
                self.clients,
                other,
            ) is Some)
    }

    /// A client's screen is open to crossings exactly while a client is
    /// registered under its id.
    pub open spec fn guards(self) -> bool {
        &&& self.session.guarded
        &&& forall|id: u8|
            self.session.present.contains(id) <==> #[trigger] client_at(self.clients, id) is Some
    }

    /// The client the cursor is on, if any, is registered.
    pub open spec fn attended(self) -> bool {
        self.active matches Some(id) ==> self.connected(id)
    }

    /// The session is valid and has a home screen, and no two clients
    /// share an id or a connection, nor has one the home screen's id.
    pub open spec fn sound(self) -> bool {
        &&& self.session.valid()
        &&& find_screen(self.session.layout, 0) is Some
        &&& distinct(self.clients)
        &&& forall|k: int| 0 <= k < self.clients.len() ==> (#[trigger] self.clients[k]).id != 0
    }

    /// The server's invariant: it is sound, crossings enter the screens of
    /// registered clients alone, and the client the cursor is on is
    /// registered.
    pub open spec fn valid(self) -> bool {
        self.sound() && self.guards() && self.attended()
    }
}

// ---------------------------------------------------------------------
// The implementation
// ---------------------------------------------------------------------

/// The server's state.
pub struct Hub {
    session: Session,
    clients: Vec<Client>,
    active: Option<u8>,
    addrs: HashMap<u8, Endpoint>,
    seqs: HashMap<u8, u32>,
    last_heard: HashMap<u8, u64>,
    tcp_ips: HashMap<u8, PeerIp>,
    policy: Policy,
}

impl View for Hub {
    type V = HubState;

    closed spec fn view(&self) -> HubState {
        HubState {
            session: self.session@,
            clients: self.clients@,
            active: self.active,
            addrs: self.addrs@,
            seqs: self.seqs@,
            heard: self.last_heard@,
            ips: self.tcp_ips@,
            policy: self.policy,
        }
    }
}

pub(crate) proof fn lemma_at(cs: Seq<Client>, id: u8, k: int)
    requires
        0 <= k < cs.len(),
        cs[k].id == id,
        forall|j: int| 0 <= j < k ==> (#[trigger] cs[j]).id != id,
    ensures
        ids(cs).index_of_first(id) == Some(k),
        client_at(cs, id) == Some(cs[k]),
        without(cs, id) == cs.remove(k),
{
    let s = ids(cs);
    s.index_of_first_ensures(id);
    assert(s[k] == id);
    assert(s.contains(id));
    let f = s.index_of_first(id)->0;
    if f < k {
        assert(cs[f].id == id);
    }
}

proof fn lemma_nowhere(cs: Seq<Client>, id: u8)
    requires
        forall|j: int| 0 <= j < cs.len() ==> (#[trigger] cs[j]).id != id,
    ensures
        ids(cs).index_of_first(id) is None,
        client_at(cs, id) is None,
        without(cs, id) == cs,
{
    let s = ids(cs);
    s.index_of_first_ensures(id);
    if s.contains(id) {
        let k = choose|k: int| 0 <= k < s.len() && s[k] == id;
        assert(cs[k].id == id);
    }
}

pub(crate) proof fn lemma_owner(cs: Seq<Client>, conn: u64, k: int)
    requires
        0 <= k < cs.len(),
        cs[k].conn == conn,
        forall|j: int| 0 <= j < k ==> (#[trigger] cs[j]).conn != conn,
    ensures
        owner(cs, conn) == Some(cs[k]),
{
    let s = cs.map_values(|c: Client| c.conn);
    s.index_of_first_ensures(conn);
    assert(s[k] == conn);
    assert(s.contains(conn));
    let f = s.index_of_first(conn)->0;
    if f < k {
        assert(cs[f].conn == conn);
    }
}

pub(crate) proof fn lemma_no_owner(cs: Seq<Client>, conn: u64)
    requires
        forall|j: int| 0 <= j < cs.len() ==> (#[trigger] cs[j]).conn != conn,
    ensures
        owner(cs, conn) is None,
{
    let s = cs.map_values(|c: Client| c.conn);
    s.index_of_first_ensures(conn);
    if s.contains(conn) {
        let k = choose|k: int| 0 <= k < s.len() && s[k] == conn;
        assert(cs[k].conn == conn);
    }
}

/// Add `more` behind `list`.
fn extend(list: &mut Vec<Effect>, more: Vec<Effect>)
    ensures
        final(list)@ == old(list)@ + more@,
{
    let mut more: Vec<Effect> = more;
    list.append(&mut more);
}

impl Hub {
    /// The server's invariant.
    pub closed spec fn wf(self) -> bool {
        self.session.wf() && self@.valid()
    }

    /// A well-formed server's state is valid.
    pub proof fn wf_is_valid(self)
        requires
            self.wf(),
        ensures
            self@.valid(),
    {
    }

    /// A server without clients. No client's screen can be entered before
    /// its client is registered.
    pub fn new(session: Session, policy: Policy) -> (r: Self)
        requires
            session.wf(),
            find_screen(session@.layout, 0) is Some,
        ensures
            r.wf(),
            r@ == (HubState {
                session: State { guarded: true, present: Set::empty(), ..session@ },
                clients: Seq::empty(),
                active: None,
                addrs: Map::empty(),
                seqs: Map::empty(),
                heard: Map::empty(),
                ips: Map::empty(),
                policy,
            }),
    {
        let mut session: Session = session;
        session.guard_crossings();
        proof {
            session.wf_is_valid();
            assert forall|id: u8| client_at(Seq::<Client>::empty(), id) is None by {
                lemma_nowhere(Seq::empty(), id);
            }
        }
        Hub {
            session,
            clients: Vec::new(),
            active: None,
            addrs: HashMap::new(),
            seqs: HashMap::new(),
            last_heard: HashMap::new(),
            tcp_ips: HashMap::new(),
            policy,
        }
    }

    /// The session (read-only view).
    pub fn session(&self) -> (r: &Session)
        requires
            self.wf(),
        ensures
            r.wf(),
            r@ == self@.session,
    {
        &self.session
    }

    /// The connection policy in force.
    pub fn policy(&self) -> (r: &Policy)
        ensures
            *r == self@.policy,
    {
        &self.policy
    }

    /// The client the cursor is on, if any.
    pub fn active(&self) -> (r: Option<u8>)
        ensures
            r == self@.active,
    {
        self.active
    }

    /// How many clients are currently connected.
    pub fn client_count(&self) -> (r: usize)
        ensures
            r == self@.clients.len(),
    {
        self.clients.len()
    }

    /// Where the client's cursor stream comes from, once it is known.
    pub fn address_of(&self, id: u8) -> (r: Option<Endpoint>)
        ensures
            r == if self@.addrs.dom().contains(id) {
                Some(self@.addrs[id])
            } else {
                None
            },
    {
        match self.addrs.get(&id) {
            Some(a) => Some(*a),
            None => None,
        }
    }

    /// The index of the client registered under an id.
    fn index_of(&self, id: u8) -> (r: Option<usize>)
        ensures
            match r {
                Some(k) => k < self.clients@.len() && ids(self.clients@).index_of_first(id)
                    == Some(k as int) && client_at(self@.clients, id) == Some(
                    self.clients@[k as int],
                ) && self.clients@[k as int].id == id && without(self@.clients, id)
                    == self@.clients.remove(k as int),
                None => client_at(self@.clients, id) is None && without(self@.clients, id)
                    == self@.clients,
            },
    {
        let mut i: usize = 0;
        while i < self.clients.len()
            invariant
                i <= self.clients@.len(),
                forall|j: int| 0 <= j < i ==> (#[trigger] self.clients@[j]).id != id,
            decreases self.clients@.len() - i,
        {
            if self.clients[i].id == id {
                proof {
                    lemma_at(self.clients@, id, i as int);
                }
                return Some(i);
            }
            i += 1;
        }
        proof {
            lemma_nowhere(self.clients@, id);
        }
        None
    }

    /// The effects of queueing a message for a client. Unknown client =
    /// gone.
    pub fn enqueue(&self, id: u8, msg: Message) -> (r: Vec<Effect>)
        ensures
            r@ == deliver(self@.clients, id, msg),
    {
        let mut out: Vec<Effect> = Vec::new();
        match self.index_of(id) {
            Some(k) => {
                out.push(Effect::Queue { conn: self.clients[k].conn, item: route(msg) });
            },
            None => {},
        }
        out
    }

    /// [`HubState::farewell`].
    fn say_leave(&self) -> (r: Vec<Effect>)
        ensures
            r@ == self@.farewell(),
    {
        match self.active {
            Some(old) => self.enqueue(old, Message::Leave { screen_id: old }),
            None => Vec::new(),
        }
    }

    /// Apply a session's action to the world, `now_ms` on the server's
    /// clock. See [`HubState::applied`].
    pub fn apply_action(&mut self, action: Action, now_ms: u64) -> (r: Vec<Effect>)
        requires
            old(self).wf(),
        ensures
            final(self).wf(),
            final(self)@ == old(self)@.applied(action, now_ms).0,
            r@ == old(self)@.applied(action, now_ms).1,
    {
        match action {
            Action::Nothing => Vec::new(),
            Action::Send(msg) => match self.active {
                Some(id) => self.enqueue(id, msg),
                None => Vec::new(),
            },
            Action::SwitchTo { to, x, y } => {
                if self.index_of(to).is_none() {
                    return Vec::new();
                }
                let mut out: Vec<Effect> = self.say_leave();
                self.active = Some(to);
                // The client's beacons only flow while it is active: give
                // it the full watchdog window to start.
                self.last_heard.insert(to, now_ms);
                let enter: Vec<Effect> = self.enqueue(to, Message::Enter { screen_id: to, x, y });
                extend(&mut out, enter);
                out.push(Effect::GrabInput(true));
                out.push(Effect::IsolateInput(true));
                out.push(Effect::ShowCursor(false));
                assert(out@ =~= old(self)@.applied(action, now_ms).1);
                out
            },
            Action::SwitchToLocal { x, y } => {
                let mut out: Vec<Effect> = self.say_leave();
                self.active = None;
                out.push(Effect::IsolateInput(false));
                out.push(Effect::GrabInput(false));
                out.push(Effect::WarpLocal { x, y });
                out.push(Effect::ShowCursor(true));
                assert(out@ =~= old(self)@.applied(action, now_ms).1);
                out
            },
        }
    }

    /// Apply a session's actions in order.
    pub fn apply_actions(&mut self, actions: Vec<Action>, now_ms: u64) -> (r: Vec<Effect>)
        requires
            old(self).wf(),
        ensures
            final(self).wf(),
            final(self)@ == old(self)@.applied_all(actions@, now_ms).0,
            r@ == old(self)@.applied_all(actions@, now_ms).1,
    {
        let ghost h0 = self@;
        let ghost all = actions@;
        let mut rest: Vec<Action> = actions;
        let mut out: Vec<Effect> = Vec::new();
        proof {
            assert(out@ + h0.applied_all(all, now_ms).1 =~= h0.applied_all(all, now_ms).1);
        }
        while rest.len() > 0
            invariant
                self.wf(),
                self@.applied_all(rest@, now_ms).0 == h0.applied_all(all, now_ms).0,
                out@ + self@.applied_all(rest@, now_ms).1 == h0.applied_all(all, now_ms).1,
            decreases rest@.len(),
        {
            let ghost before = rest@;
            let ghost h = self@;
            let ghost done = out@;
            let action: Action = rest.remove(0);
            assert(rest@ =~= before.drop_first());
            let more: Vec<Effect> = self.apply_action(action, now_ms);
            extend(&mut out, more);
            proof {
                let e = h.applied(before[0], now_ms).1;
                let e2 = self@.applied_all(rest@, now_ms).1;
                assert(done + (e + e2) =~= done + e + e2);
            }
        }
        assert(out@ + Seq::<Effect>::empty() =~= out@);
        out
    }

    /// One local input message, `now` nanoseconds on the session's clock
    /// and `now_ms` on the server's.
    pub fn handle_local_input(&mut self, msg: Message, now: u64, now_ms: u64) -> (r: Vec<Effect>)
        requires
            old(self).wf(),
            acceptable(old(self)@.session, msg),
        ensures
            final(self).wf(),
            final(self)@ == old(self)@.fed(msg, now, now_ms).0,
            r@ == old(self)@.fed(msg, now, now_ms).1,
    {
        let ghost h0 = self@;
        let actions: Vec<Action> = self.session.on_local_event_at(msg, now);
        proof {
            self.session.wf_is_valid();
            crate::session::event_keeps_layout(h0.session, msg, now);
            assert(self@ == HubState { session: local_event(h0.session, msg, now).0, ..h0 });
        }
        self.apply_actions(actions, now_ms)
    }

    /// One command that a shortcut fired, `now_ms` on the server's clock.
    pub fn handle_user_action(&mut self, action: &UserAction, now_ms: u64) -> (r: Vec<Effect>)
        requires
            old(self).wf(),
        ensures
            final(self).wf(),
            final(self)@ == old(self)@.ordered(*action, now_ms).0,
            r@ == old(self)@.ordered(*action, now_ms).1,
    {
        let ghost h0 = self@;
        let actions: Vec<Action> = self.session.on_user_action(action);
        proof {
            self.session.wf_is_valid();
            commands_are_faithful(h0.session, *action);
            assert(self@ == HubState { session: obeyed(h0.session, *action).0, ..h0 });
        }
        self.apply_actions(actions, now_ms)
    }
}

pub(crate) proof fn lemma_without(cs: Seq<Client>, id: u8)
    requires
        distinct(cs),
    ensures
        distinct(without(cs, id)),
        client_at(without(cs, id), id) is None,
        forall|k: int| 0 <= k < without(cs, id).len() ==> cs.contains(#[trigger] without(cs, id)[k]) && without(cs, id)[k].id != id,
{
    let s = ids(cs);
    s.index_of_first_ensures(id);
    let t = without(cs, id);
    match s.index_of_first(id) {
        Some(f) => {
            assert(cs[f].id == id);
            assert forall|k: int| 0 <= k < t.len() implies cs.contains(#[trigger] t[k]) && t[k].id
                != id by {
                if k < f {
                    assert(t[k] == cs[k]);
                    assert(cs[k].id != cs[f].id);
                } else {
                    assert(t[k] == cs[k + 1]);
                    assert(cs[f].id != cs[k + 1].id);
                }
            }
            assert forall|i: int, j: int| 0 <= i < j < t.len() implies (#[trigger] t[i]).id != (
            #[trigger] t[j]).id && t[i].conn != t[j].conn by {
                let a = if i < f {
                    i
                } else {
                    i + 1
                };
                let b = if j < f {
                    j
                } else {
                    j + 1
                };
                assert(t[i] == cs[a]);
                assert(t[j] == cs[b]);
            }
        },
        None => {
            assert forall|k: int| 0 <= k < t.len() implies cs.contains(#[trigger] t[k]) && t[k].id
                != id by {
                assert(s[k] == t[k].id);
                assert(cs[k] == t[k]);
            }
        },
    }
    lemma_nowhere(t, id);
}

/// Losing one client leaves the others registered.
pub(crate) proof fn lemma_without_others(cs: Seq<Client>, id: u8, other: u8)
    requires
        distinct(cs),
        other != id,
    ensures
        client_at(without(cs, id), other) is Some <==> client_at(cs, other) is Some,
{
    lemma_registered(cs, other);
    lemma_registered(without(cs, id), other);
    let t = without(cs, id);
    let s = ids(cs);
    s.index_of_first_ensures(id);
    if let Some(f) = s.index_of_first(id) {
        if let Some(c) = client_at(cs, other) {
            let k = choose|k: int| 0 <= k < cs.len() && (#[trigger] cs[k]).id == other;
            assert(k != f);
            if k < f {
                assert(t[k].id == other);
            } else {
                assert(t[k - 1].id == other);
            }
        }
        if client_at(t, other) is Some {
            let k = choose|k: int| 0 <= k < t.len() && (#[trigger] t[k]).id == other;
            if k < f {
                assert(cs[k].id == other);
            } else {
                assert(cs[k + 1].id == other);
            }
        }
    }
}

/// A client that joins is registered under its id, and the others stay.
pub(crate) proof fn lemma_joins(cs: Seq<Client>, client: Client)
    requires
        distinct(cs),
    ensures
        forall|id: u8|
            #[trigger] client_at(without(cs, client.id).push(client), id) is Some <==> id
                == client.id || client_at(cs, id) is Some,
{
    let t = without(cs, client.id);
    let u = t.push(client);
    assert forall|id: u8| #[trigger] client_at(u, id) is Some <==> id == client.id || client_at(
        cs,
        id,
    ) is Some by {
        lemma_registered(u, id);
        lemma_registered(t, id);
        assert(u[t.len() as int].id == client.id);
        if id != client.id {
            lemma_without_others(cs, client.id, id);
            if client_at(t, id) is Some {
                let k = choose|k: int| 0 <= k < t.len() && (#[trigger] t[k]).id == id;
                assert(u[k].id == id);
            }
            if client_at(u, id) is Some {
                let k = choose|k: int| 0 <= k < u.len() && (#[trigger] u[k]).id == id;
                assert(t[k].id == id);
            }
        }
    }
}

/// A client is registered under an id exactly if some client has it.
pub(crate) proof fn lemma_registered(cs: Seq<Client>, id: u8)
    ensures
        client_at(cs, id) is Some <==> exists|k: int| 0 <= k < cs.len() && (#[trigger] cs[k]).id
            == id,
{
    let s = ids(cs);
    s.index_of_first_ensures(id);
    if let Some(f) = s.index_of_first(id) {
        assert(cs[f].id == id);
    }
    if exists|k: int| 0 <= k < cs.len() && (#[trigger] cs[k]).id == id {
        let k = choose|k: int| 0 <= k < cs.len() && (#[trigger] cs[k]).id == id;
        assert(s[k] == id);
        assert(s.contains(id));
    }
}

impl Hub {
    /// What holds between the two halves of losing client `id`.
    closed spec fn losing(self, id: u8) -> bool {
        &&& self.session.wf()
        &&& self@.sound()
        &&& self@.guards_but(id)
        &&& self@.attended()
        &&& !self@.connected(id)
    }

    /// [`HubState::forgotten`].
    fn forget(&mut self, id: u8)
        requires
            old(self).wf(),
        ensures
            final(self).losing(id),
            final(self)@ == old(self)@.forgotten(id),
    {
        proof {
            lemma_without(self.clients@, id);
            let present = self@.session.present;
            assert forall|other: u8| other != id implies (present.contains(other)
                <==> #[trigger] client_at(without(self.clients@, id), other) is Some) by {
                lemma_without_others(self.clients@, id, other);
                assert(present.contains(other) <==> client_at(self@.clients, other) is Some);
            }
            if let Some(a) = self.active {
                if a != id {
                    lemma_without_others(self.clients@, id, a);
                }
            }
            let t = without(self.clients@, id);
            assert forall|k: int| 0 <= k < t.len() implies (#[trigger] t[k]).id != 0 by {
                let j = choose|j: int| 0 <= j < self.clients@.len() && self.clients@[j] == t[k];
                assert(self.clients@[j].id != 0);
            }
        }
        match self.index_of(id) {
            Some(k) => {
                self.clients.remove(k);
            },
            None => {},
        }
        self.addrs.remove(&id);
        self.seqs.remove(&id);
        self.last_heard.remove(&id);
        self.tcp_ips.remove(&id);
        match self.active {
            Some(a) => if a == id {
                self.active = None;
            },
            None => {},
        }
    }

    /// [`HubState::let_go`].
    fn release(&mut self, id: u8, remove_screen: bool, now_ms: u64) -> (r: Vec<Effect>)
        requires
            old(self).losing(id),
            remove_screen ==> id != 0,
        ensures
            final(self).wf(),
            final(self)@ == old(self)@.let_go(id, remove_screen, now_ms).0,
            r@ == old(self)@.let_go(id, remove_screen, now_ms).1,
    {
        let was_there: bool = self.session.mode() == Mode::Remote(id);
        let action: Action = if remove_screen {
            self.session.on_client_removed(id)
        } else {
            self.session.on_client_disconnected(id)
        };
        proof {
            self.session.wf_is_valid();
        }
        if was_there {
            self.apply_action(action, now_ms)
        } else {
            Vec::new()
        }
    }

    /// Unregister the client that owns the connection everywhere and, if
    /// it had the cursor, bring the session home.
    ///
    /// Identity-safe: only the client that is *still registered* with
    /// this connection is torn down. A newer connection that took over
    /// the same id is untouched.
    pub fn teardown(&mut self, conn: u64, now_ms: u64) -> (r: Vec<Effect>)
        requires
            old(self).wf(),
        ensures
            final(self).wf(),
            final(self)@ == old(self)@.torn_down(conn, now_ms).0,
            r@ == old(self)@.torn_down(conn, now_ms).1,
    {
        let mut i: usize = 0;
        while i < self.clients.len()
            invariant
                i <= self.clients@.len(),
                self.wf(),
                *self == *old(self),
                forall|j: int| 0 <= j < i ==> (#[trigger] self.clients@[j]).conn != conn,
            decreases self.clients@.len() - i,
        {
            if self.clients[i].conn == conn {
                proof {
                    lemma_owner(self.clients@, conn, i as int);
                }
                let id: u8 = self.clients[i].id;
                let name: String = self.clients[i].name.clone();
                let mut out: Vec<Effect> = Vec::new();
                out.push(Effect::Queue { conn, item: route(Message::Leave { screen_id: id }) });
                out.push(
                    Effect::Queue {
                        conn,
                        item: route(Message::Control { command: Command::Reconnect }),
                    },
                );
                out.push(Effect::Notify(ServerEvent::ClientDisconnected { name }));
                self.forget(id);
                let home: Vec<Effect> = self.release(id, false, now_ms);
                extend(&mut out, home);
                assert(out@ =~= old(self)@.torn_down(conn, now_ms).1);
                return out;
            }
            i += 1;
        }
        proof {
            lemma_no_owner(self.clients@, conn);
        }
        Vec::new()
    }

    /// Disconnect one client and clean up everything its session held:
    /// the wire commands (disconnect and leave), the registration, the
    /// active-cursor state and the session, plus the event that keeps the
    /// app layer truthful. With `remove_screen` its screen leaves the
    /// running desktop too: the operator refused the machine, not just
    /// its session.
    pub fn disconnect_client(&mut self, id: u8, remove_screen: bool, now_ms: u64) -> (r: Vec<
        Effect,
    >)
        requires
            old(self).wf(),
        ensures
            final(self).wf(),
            final(self)@ == old(self)@.disconnected(id, remove_screen, now_ms).0,
            r@ == old(self)@.disconnected(id, remove_screen, now_ms).1,
    {
        let mut out: Vec<Effect> = Vec::new();
        match self.index_of(id) {
            None => {},
            Some(k) => {
                let conn: u64 = self.clients[k].conn;
                let name: String = self.clients[k].name.clone();
                out.push(
                    Effect::Queue {
                        conn,
                        item: route(Message::Control { command: Command::Disconnect }),
                    },
                );
                out.push(Effect::Queue { conn, item: route(Message::Leave { screen_id: id }) });
                self.forget(id);
                let home: Vec<Effect> = self.release(id, remove_screen, now_ms);
                extend(&mut out, home);
                out.push(Effect::Notify(ServerEvent::ClientDisconnected { name }));
                assert(out@ =~= old(self)@.disconnected(id, remove_screen, now_ms).1);
            },
        }
        out
    }

    /// Disconnect the clients with these ids, in order.
    fn disconnect_all(&mut self, gone: Vec<u8>, remove_screen: bool, now_ms: u64) -> (r: Vec<
        Effect,
    >)
        requires
            old(self).wf(),
        ensures
            final(self).wf(),
            final(self)@ == old(self)@.disconnected_all(gone@, remove_screen, now_ms).0,
            r@ == old(self)@.disconnected_all(gone@, remove_screen, now_ms).1,
    {
        let ghost h0 = self@;
        let mut out: Vec<Effect> = Vec::new();
        let mut i: usize = 0;
        proof {
            assert(gone@.skip(0) =~= gone@);
            let e = h0.disconnected_all(gone@, remove_screen, now_ms).1;
            assert(out@ + e =~= e);
        }
        while i < gone.len()
            invariant
                i <= gone@.len(),
                self.wf(),
                self@.disconnected_all(gone@.skip(i as int), remove_screen, now_ms).0
                    == h0.disconnected_all(gone@, remove_screen, now_ms).0,
                out@ + self@.disconnected_all(gone@.skip(i as int), remove_screen, now_ms).1
                    == h0.disconnected_all(gone@, remove_screen, now_ms).1,
            decreases gone@.len() - i,
        {
            let ghost h = self@;
            let ghost done = out@;
            let ghost rest = gone@.skip(i as int);
            assert(rest.drop_first() =~= gone@.skip(i + 1));
            assert(rest[0] == gone@[i as int]);
            let more: Vec<Effect> = self.disconnect_client(gone[i], remove_screen, now_ms);
            extend(&mut out, more);
            proof {
                let e = h.disconnected(rest[0], remove_screen, now_ms).1;
                let e2 = self@.disconnected_all(rest.drop_first(), remove_screen, now_ms).1;
                assert(done + (e + e2) =~= done + e + e2);
            }
            i += 1;
        }
        assert(gone@.skip(i as int) =~= Seq::<u8>::empty());
        assert(out@ + Seq::<Effect>::empty() =~= out@);
        out
    }

    /// Adopt a policy change and enforce its one immediate consequence: a
    /// client whose machine id is now revoked is disconnected on the
    /// spot.
    pub fn apply_policy(&mut self, policy: Policy, now_ms: u64) -> (r: Vec<Effect>)
        requires
            old(self).wf(),
        ensures
            final(self).wf(),
            final(self)@ == old(self)@.governed(policy, now_ms).0,
            r@ == old(self)@.governed(policy, now_ms).1,
    {
        self.policy = policy;
        let ghost h = self@;
        let ghost p = |c: Client| barred(h.policy.revoked_ids@, c.machine_id@);
        let mut gone: Vec<u8> = Vec::new();
        let mut i: usize = 0;
        proof {
            reveal(Seq::filter);
            assert(h.clients.take(0) =~= Seq::<Client>::empty());
            assert(gone@ =~= ids(h.clients.take(0).filter(p)));
        }
        while i < self.clients.len()
            invariant
                i <= self.clients@.len(),
                h == self@,
                self.wf(),
                p == (|c: Client| barred(h.policy.revoked_ids@, c.machine_id@)),
                gone@ == ids(h.clients.take(i as int).filter(p)),
            decreases self.clients@.len() - i,
        {
            proof {
                reveal(Seq::filter);
                let next = h.clients.take(i + 1);
                assert(next.drop_last() =~= h.clients.take(i as int));
                assert(next.last() == h.clients[i as int]);
            }
            if self.policy.is_revoked(self.clients[i].machine_id.as_str()) {
                let ghost before = h.clients.take(i as int).filter(p);
                gone.push(self.clients[i].id);
                assert(gone@ =~= ids(before.push(h.clients[i as int])));
            }
            i += 1;
        }
        assert(h.clients.take(i as int) =~= h.clients);
        assert(gone@ == h.revoked());
        self.disconnect_all(gone, true, now_ms)
    }

    /// Does the layout have the client's screen?
    fn screen_exists(&self, c: &Client) -> (r: bool)
        ensures
            r == has_screen(self@.session.layout, *c),
    {
        let layout: &Layout = self.session.layout();
        let mut i: usize = 0;
        while i < layout.screens.len()
            invariant
                i <= layout.screens@.len(),
                layout@ == self@.session.layout,
                forall|j: int|
                    0 <= j < i ==> !((#[trigger] layout@[j]).id == c.id && layout@[j].name@
                        == c.name@),
            decreases layout.screens@.len() - i,
        {
            if layout.screens[i].id == c.id && same(
                layout.screens[i].name.as_str(),
                c.name.as_str(),
            ) {
                assert(layout@[i as int].id == c.id);
                return true;
            }
            i += 1;
        }
        false
    }

    /// Disconnect clients whose screen disappeared from the layout (their
    /// id no longer maps to a screen with the same name), so no ghost
    /// connections linger after a reload.
    pub fn drop_stale_clients(&mut self, now_ms: u64) -> (r: Vec<Effect>)
        requires
            old(self).wf(),
        ensures
            final(self).wf(),
            final(self)@ == old(self)@.disconnected_all(old(self)@.stale(), false, now_ms).0,
            r@ == old(self)@.disconnected_all(old(self)@.stale(), false, now_ms).1,
    {
        let ghost h = self@;
        let ghost p = |c: Client| !has_screen(h.session.layout, c);
        let mut gone: Vec<u8> = Vec::new();
        let mut i: usize = 0;
        proof {
            reveal(Seq::filter);
            assert(h.clients.take(0) =~= Seq::<Client>::empty());
            assert(gone@ =~= ids(h.clients.take(0).filter(p)));
        }
        while i < self.clients.len()
            invariant
                i <= self.clients@.len(),
                h == self@,
                self.wf(),
                p == (|c: Client| !has_screen(h.session.layout, c)),
                gone@ == ids(h.clients.take(i as int).filter(p)),
            decreases self.clients@.len() - i,
        {
            proof {
                reveal(Seq::filter);
                let next = h.clients.take(i + 1);
                assert(next.drop_last() =~= h.clients.take(i as int));
                assert(next.last() == h.clients[i as int]);
            }
            if !self.screen_exists(&self.clients[i]) {
                let ghost before = h.clients.take(i as int).filter(p);
                gone.push(self.clients[i].id);
                assert(gone@ =~= ids(before.push(h.clients[i as int])));
            }
            i += 1;
        }
        assert(h.clients.take(i as int) =~= h.clients);
        assert(gone@ == h.stale());
        self.disconnect_all(gone, false, now_ms)
    }

    /// The connections of every registered client, in the order of
    /// registration: the targets of a broadcast.
    pub fn broadcast_targets(&self) -> (r: Vec<u64>)
        ensures
            r@ == self@.clients.map_values(|c: Client| c.conn),
    {
        let mut out: Vec<u64> = Vec::new();
        let mut i: usize = 0;
        while i < self.clients.len()
            invariant
                i <= self.clients@.len(),
                out@.len() == i,
                forall|k: int| 0 <= k < i ==> #[trigger] out@[k] == self.clients@[k].conn,
            decreases self.clients@.len() - i,
        {
            out.push(self.clients[i].conn);
            i += 1;
        }
        assert(out@ =~= self@.clients.map_values(|c: Client| c.conn));
        out
    }

    /// [`HubState::layout_news`].
    fn tell_layout(&self) -> (r: Vec<Effect>)
        ensures
            r@ == self@.layout_news(),
    {
        let mut out: Vec<Effect> = Vec::new();
        let mut i: usize = 0;
        while i < self.clients.len()
            invariant
                i <= self.clients@.len(),
                out@.len() == i,
                forall|k: int|
                    0 <= k < i ==> #[trigger] out@[k] == (Effect::ShareLayout {
                        conn: self.clients@[k].conn,
                    }),
            decreases self.clients@.len() - i,
        {
            out.push(Effect::ShareLayout { conn: self.clients[i].conn });
            i += 1;
        }
        assert(out@ =~= self@.layout_news());
        out
    }

    /// Offer the session a new layout (hot reload): it may bring the
    /// cursor home; clients that no longer exist in the layout are
    /// dropped; every remaining client is told.
    pub fn reload(&mut self, layout: Layout, now_ms: u64) -> (r: Vec<Effect>)
        requires
            old(self).wf(),
            bounded_layout(layout@),
        ensures
            final(self).wf(),
            final(self)@ == old(self)@.reloaded(layout@, now_ms).0,
            r@ == old(self)@.reloaded(layout@, now_ms).1,
    {
        let ghost h0 = self@;
        let ghost l = layout@;
        let actions: Vec<Action> = self.session.swap_layout(layout);
        proof {
            self.session.wf_is_valid();
            crate::session::swapping_keeps_home(h0.session, l);
            assert(self@ == HubState { session: swapped(h0.session, l).0, ..h0 });
        }
        let mut out: Vec<Effect> = self.apply_actions(actions, now_ms);
        let dropped: Vec<Effect> = self.drop_stale_clients(now_ms);
        extend(&mut out, dropped);
        let news: Vec<Effect> = self.tell_layout();
        extend(&mut out, news);
        out
    }

    /// Send an operational command to one connected client by screen
    /// name. A disconnect also takes its screen out of the desktop.
    pub fn apply_client_command(&mut self, name: &str, command: Command, now_ms: u64) -> (r: Vec<
        Effect,
    >)
        requires
            old(self).wf(),
        ensures
            final(self).wf(),
            final(self)@ == old(self)@.commanded(name@, command, now_ms).0,
            r@ == old(self)@.commanded(name@, command, now_ms).1,
    {
        let ghost names = self.clients@.map_values(|c: Client| c.name@);
        let mut i: usize = 0;
        while i < self.clients.len()
            invariant
                i <= self.clients@.len(),
                self.wf(),
                *self == *old(self),
                names == self.clients@.map_values(|c: Client| c.name@),
                forall|j: int| 0 <= j < i ==> #[trigger] names[j] != name@,
            decreases self.clients@.len() - i,
        {
            if same(self.clients[i].name.as_str(), name) {
                let id: u8 = self.clients[i].id;
                proof {
                    names.index_of_first_ensures(name@);
                    assert(names[i as int] == name@);
                    assert(names.contains(name@));
                    assert(names.index_of_first(name@) == Some(i as int));
                }
                return match command {
                    Command::Disconnect => self.disconnect_client(id, true, now_ms),
                    other => self.enqueue(id, Message::Control { command: other }),
                };
            }
            i += 1;
        }
        proof {
            names.index_of_first_ensures(name@);
        }
        Vec::new()
    }

    /// Find or make the screen of a client that passed the handshake. See
    /// [`Session::admit_client`].
    pub fn admit_client(&mut self, name: &str, info: ScreenInfo) -> (r: Option<(u8, bool)>)
        requires
            old(self).wf(),
            !own_name(old(self)@.session.layout, name@) && named_screen(
                old(self)@.session.layout,
                name@,
            ) is None ==> has_slot(old(self)@.session, info),
        ensures
            final(self).wf(),
            final(self)@ == (HubState { session: final(self)@.session, ..old(self)@ }),
            own_name(old(self)@.session.layout, name@) ==> r is None && final(self)@ == old(self)@,
            !own_name(old(self)@.session.layout, name@) ==> match named_screen(
                old(self)@.session.layout,
                name@,
            ) {
                Some(e) => r == Some((e.id, false)) && final(self)@ == old(self)@,
                None => {
                    &&& r matches Some((id, made))
                    &&& made
                    &&& with_newcomer(
                        old(self)@.session,
                        final(self)@.session,
                        id,
                        name@,
                        info,
                    )
                },
            },
    {
        let ghost before = self@.session;
        let r: Option<(u8, bool)> = self.session.admit_client(name, info);
        proof {
            self.session.wf_is_valid();
            if let Some((id, made)) = r {
                if made {
                    newcomer_takes_nobodys_place(before, self@.session, id, name@, info, 0);
                }
            }
        }
        r
    }

    /// Register a client that has passed the handshake under its screen
    /// id. A client already registered under it is replaced: the fresh
    /// connection is authoritative.
    pub fn register(
        &mut self,
        client: Client,
        ip: PeerIp,
        addr: String,
        info: ScreenInfo,
        admitted: bool,
    ) -> (r: Vec<Effect>)
        requires
            old(self).wf(),
            client.id != 0,
            owner(old(self)@.clients, client.conn) is None,
            bounded_layout(resized(old(self)@.session.layout, client.id, info)),
        ensures
            final(self).wf(),
            final(self)@ == old(self)@.registered(client, ip, addr, info, admitted).0,
            r@ == old(self)@.registered(client, ip, addr, info, admitted).1,
    {
        let ghost h0 = self@;
        let id: u8 = client.id;
        let conn: u64 = client.conn;
        let mut out: Vec<Effect> = Vec::new();
        self.session.update_screen_info(id, info);
        self.session.on_client_connected(id);
        proof {
            self.session.wf_is_valid();
            crate::session::resizing_keeps_ids(h0.session.layout, id, info);
            lemma_without(h0.clients, id);
            lemma_joins(h0.clients, client);
            let t = without(h0.clients, id);
            let conns = h0.clients.map_values(|c: Client| c.conn);
            conns.index_of_first_ensures(conn);
            assert forall|k: int| 0 <= k < t.len() implies (#[trigger] t[k]).id != 0 && t[k].conn
                != conn by {
                let j = choose|j: int| 0 <= j < h0.clients.len() && h0.clients[j] == t[k];
                assert(h0.clients[j].id != 0);
                assert(conns[j] == t[k].conn);
            }
            assert(distinct(t.push(client)));
        }
        out.push(Effect::Welcome { conn, id });
        self.tcp_ips.insert(id, ip);
        match self.index_of(id) {
            Some(k) => {
                let stale: u64 = self.clients[k].conn;
                self.clients.remove(k);
                out.push(
                    Effect::Queue { conn: stale, item: route(Message::Leave { screen_id: id }) },
                );
                out.push(
                    Effect::Queue {
                        conn: stale,
                        item: route(Message::Control { command: Command::Disconnect }),
                    },
                );
            },
            None => {},
        }
        out.push(
            Effect::Notify(
                ServerEvent::ClientConnected {
                    name: client.name.clone(),
                    id: client.machine_id.clone(),
                    addr,
                    since_ms: client.since_ms,
                    info,
                },
            ),
        );
        self.clients.push(client);
        if admitted {
            let news: Vec<Effect> = self.tell_layout();
            extend(&mut out, news);
        }
        assert(out@ =~= h0.registered(client, ip, addr, info, admitted).1);
        out
    }

    /// Dispatch one inbound control message from client `id`, `now`
    /// nanoseconds on the session's clock and `now_ms` on the server's.
    pub fn handle_client_message(&mut self, id: u8, msg: Message, now: u64, now_ms: u64) -> (r: Vec<
        Effect,
    >)
        requires
            old(self).wf(),
            msg matches Message::ScreenInfo { info } ==> bounded_layout(
                resized(old(self)@.session.layout, id, info),
            ),
        ensures
            final(self).wf(),
            final(self)@ == old(self)@.heeded(id, msg, now, now_ms).0,
            r@ == old(self)@.heeded(id, msg, now, now_ms).1,
    {
        let ghost h0 = self@;
        let mut out: Vec<Effect> = Vec::new();
        match msg {
            Message::ScreenInfo { info } => {
                self.session.update_screen_info(id, info);
                proof {
                    self.session.wf_is_valid();
                    crate::session::resizing_keeps_ids(h0.session.layout, id, info);
                }
                match self.index_of(id) {
                    Some(k) => {
                        out.push(Effect::ShareLayout { conn: self.clients[k].conn });
                    },
                    None => {},
                }
            },
            Message::Clipboard { mime, data } => {
                out.push(Effect::SetClipboard { mime, data });
            },
            Message::CursorPos { x, y } => {
                let actions: Vec<Action> = self.session.on_remote_beacon_at(id, x, y, now);
                proof {
                    self.session.wf_is_valid();
                    crate::session::beacon_keeps_layout(
                        h0.session,
                        id,
                        x as int,
                        y as int,
                        now,
                    );
                }
                out = self.apply_actions(actions, now_ms);
            },
            _ => {},
        }
        out
    }

    /// The last applied beacon of client `id` in the stream from `from`:
    /// the number that a newer one is compared with.
    pub fn sequence_base(&self, id: u8, from: Endpoint) -> (r: u32)
        ensures
            forall|now_ms: u64| r == (#[trigger] self@.streaming(id, from, now_ms)).last_seq(id),
    {
        match self.addrs.get(&id) {
            Some(a) => if *a != from {
                return 0;
            },
            None => {},
        }
        match self.seqs.get(&id) {
            Some(s) => *s,
            None => 0,
        }
    }

    /// One datagram of the cursor stream: learns each client's address,
    /// routes real-cursor beacons to the session (stale or duplicate ones
    /// are dropped), and executes any crossing a beacon fires. `newer`
    /// tells whether `seq` is newer than [`Hub::sequence_base`].
    pub fn datagram(
        &mut self,
        id: u8,
        from: Endpoint,
        seq: u32,
        newer: bool,
        msg: &Message,
        now: u64,
        now_ms: u64,
    ) -> (r: Vec<Effect>)
        requires
            old(self).wf(),
        ensures
            final(self).wf(),
            final(self)@ == old(self)@.received(id, from, seq, newer, *msg, now, now_ms).0,
            r@ == old(self)@.received(id, from, seq, newer, *msg, now, now_ms).1,
    {
        let ghost h0 = self@;
        match self.index_of(id) {
            Some(_) => {},
            None => {
                return Vec::new();
            },
        }
        match self.tcp_ips.get(&id) {
            Some(ip) => if *ip != from.ip {
                return Vec::new();
            },
            None => {
                return Vec::new();
            },
        }
        let base: u32 = self.sequence_base(id, from);
        self.last_heard.insert(id, now_ms);
        let (known, moved): (bool, bool) = match self.addrs.get(&id) {
            Some(a) => (true, *a != from),
            None => (false, false),
        };
        if moved {
            self.seqs.remove(&id);
        }
        if !known || moved {
            self.addrs.insert(id, from);
        }
        let ghost h = h0.streaming(id, from, now_ms);
        proof {
            assert(self@.heard =~= h.heard);
            assert(self@.seqs =~= h.seqs);
            assert(self@.addrs =~= h.addrs);
            assert(self@ == h);
        }
        match msg {
            Message::CursorPos { x, y } => {
                if !newer {
                    self.seqs.insert(id, base);
                    return Vec::new();
                }
                self.seqs.insert(id, seq);
                let actions: Vec<Action> = self.session.on_remote_beacon_at(id, *x, *y, now);
                proof {
                    self.session.wf_is_valid();
                    crate::session::beacon_keeps_layout(
                        h.session,
                        id,
                        *x as int,
                        *y as int,
                        now,
                    );
                }
                self.apply_actions(actions, now_ms)
            },
            _ => Vec::new(),
        }
    }

    /// Drop the active client when its cursor stream has been silent for
    /// longer than [`ACTIVE_BEACON_TIMEOUT`]: it catches a client whose
    /// motion loop is wedged while its keepalives still flow.
    pub fn check_active_beacon_staleness(&mut self, now_ms: u64) -> (r: Vec<Effect>)
        requires
            old(self).wf(),
        ensures
            final(self).wf(),
            final(self)@ == old(self)@.watched(now_ms).0,
            r@ == old(self)@.watched(now_ms).1,
    {
        let id: u8 = match self.active {
            Some(id) => id,
            None => {
                return Vec::new();
            },
        };
        let last: u64 = match self.last_heard.get(&id) {
            Some(t) => *t,
            None => {
                return Vec::new();
            },
        };
        if crate::clock::elapsed(now_ms, last) <= ACTIVE_BEACON_TIMEOUT {
            return Vec::new();
        }
        match self.index_of(id) {
            Some(k) => {
                let conn: u64 = self.clients[k].conn;
                self.teardown(conn, now_ms)
            },
            None => Vec::new(),
        }
    }
}

/// What a filter keeps was there before.
pub(crate) proof fn lemma_filter_from(cs: Seq<Client>, p: spec_fn(Client) -> bool, c: Client)
    requires
        cs.filter(p).contains(c),
    ensures
        cs.contains(c),
    decreases cs.len(),
{
    reveal(Seq::filter);
    if cs.len() > 0 {
        let before = cs.drop_last();
        let f = before.filter(p);
        let k = choose|k: int| 0 <= k < cs.filter(p).len() && cs.filter(p)[k] == c;
        if k < f.len() {
            assert(f[k] == c);
            lemma_filter_from(before, p, c);
            let i = choose|i: int| 0 <= i < before.len() && before[i] == c;
            assert(cs[i] == c);
        } else {
            assert(cs[cs.len() - 1] == c);
        }
    }
}

} // verus!
