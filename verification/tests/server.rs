//! A server and its clients, wired together without a network.
use kvmshare::actions::{hid, ActionEngine, BindSection, UserAction};
use kvmshare::client::dispatch::{ClientState, Deed, SessionEnd};
use kvmshare::client::events::InjectEvent;
use kvmshare::client::steering::Placement;
use kvmshare::protocol::{Command, ErrorCode, KeyKind, Message, Rect, Screen, ScreenInfo};
use kvmshare::server::control::{apply_control, apply_key};
use kvmshare::server::hello::{conclude_hello, exchange_hello, First, Hello, Peer, Refusal, Versions};
use kvmshare::server::hub::{route, Client, Effect, Outbound};
use kvmshare::server::link::{ReadEvent, Reader, ReaderStep, Writer, WriterStep};
use kvmshare::server::net::{is_local_ip, Endpoint, PeerIp};
use kvmshare::server::policy::id_matches;
use kvmshare::server::{Control, Hub, Liveness, Policy, ServerEvent};
use kvmshare::session::{Action, Session};
use kvmshare::{Layout, Mode};

/// Nanoseconds in a millisecond.
const MS: u64 = 1_000_000;
const SCREEN_W: i32 = 1920;
const SCREEN_H: i32 = 1080;
const VERSIONS: Versions = Versions { current: 4, min: 3, max: 4 };
const LOCALHOST: PeerIp = PeerIp::V4(0x7f00_0001);

fn two_screen_layout() -> Layout {
    Layout::new(vec![
        Screen { id: 0, name: "pc".into(), rect: Rect { x: 0, y: 0, w: 1920, h: 1080 } },
        Screen { id: 1, name: "hp".into(), rect: Rect { x: -1920, y: 0, w: 1920, h: 1080 } },
    ])
}

fn screen_info() -> ScreenInfo {
    ScreenInfo { width: 1920, height: 1080, logical_w: 1920, logical_h: 1080 }
}

/// A client machine: its state, its cursor and what was done to it.
struct Machine {
    conn: u64,
    state: ClientState,
    pos: (i32, i32),
    calls: Vec<String>,
    ended: Option<SessionEnd>,
    seq: u32,
}

impl Machine {
    fn new(conn: u64, id: u8) -> Self {
        Machine {
            conn,
            state: ClientState::new(id, Layout::default()),
            pos: (960, 540),
            calls: Vec::new(),
            ended: None,
            seq: 0,
        }
    }

    fn carry_out(&mut self, deeds: Vec<Deed>) {
        for d in deeds {
            match d {
                Deed::Enter => self.calls.push("enter".into()),
                Deed::Leave => self.calls.push("leave".into()),
                Deed::MoveCursor { x, y } => {
                    self.pos = (x, y);
                    self.calls.push(format!("move {x},{y}"));
                }
                Deed::Feed { dx, dy } => self.calls.push(format!("rel {dx},{dy}")),
                Deed::Anchor => {
                    let more = self.state.on_anchored(self.pos);
                    self.carry_out(more);
                }
                Deed::Beacon { .. } => {}
                Deed::SetClipboard { mime, .. } => self.calls.push(format!("clipboard {mime}")),
                Deed::End(end) => self.ended = Some(end),
            }
        }
    }

    fn receive(&mut self, item: Outbound) {
        let deeds = match item {
            Outbound::Tcp(msg) => {
                assert!(self.state.takes(&msg));
                self.state.dispatch(msg, true)
            }
            Outbound::Udp(msg) => {
                self.seq += 1;
                assert!(self.state.takes(&msg));
                self.state.on_datagram(self.state.own_id(), self.seq, true, msg, true)
            }
        };
        self.carry_out(deeds);
    }

    /// One tick of the motion loop; gives the beacon that follows it.
    fn tick(&mut self) -> Option<(i32, i32)> {
        if !self.state.is_active() {
            return None;
        }
        let (p, events) = self.state.tick(self.pos, true);
        match p {
            Placement::MoveTo { x, y } => {
                // The screen pins the cursor at its edges.
                let x = x.clamp(0, SCREEN_W - 1);
                let y = y.clamp(0, SCREEN_H - 1);
                self.pos = (x, y);
                self.calls.push(format!("place {x},{y}"));
            }
            Placement::Stay => {}
            Placement::Correct { .. } => panic!("an absolute backend never corrects"),
        }
        for e in events {
            self.calls.push(match e {
                InjectEvent::Button { button, pressed } => format!("button {button} {pressed}"),
                InjectEvent::Wheel { dx, dy } => format!("wheel {dx},{dy}"),
                InjectEvent::Key { kind, key } => format!("key {kind:?} {key}"),
            });
        }
        Some(self.pos)
    }
}

struct Harness {
    hub: Hub,
    engine: ActionEngine,
    now_ms: u64,
    engine_calls: Vec<String>,
    events: Vec<String>,
    machines: Vec<Machine>,
}

fn server_with(policy: Policy) -> Harness {
    Harness {
        hub: Hub::new(Session::new(two_screen_layout(), 0), policy),
        engine: ActionEngine::new(BindSection::default()),
        now_ms: 1000,
        engine_calls: Vec::new(),
        events: Vec::new(),
        machines: Vec::new(),
    }
}

fn start_server() -> Harness {
    server_with(Policy { allowlist: false, ..Policy::default() })
}

impl Harness {
    fn carry_out(&mut self, effects: Vec<Effect>) {
        for e in effects {
            match e {
                Effect::Queue { conn, item } => {
                    if let Some(m) = self.machines.iter_mut().find(|m| m.conn == conn) {
                        m.receive(item);
                    }
                }
                Effect::ShareLayout { .. } | Effect::Welcome { .. } => {}
                Effect::GrabInput(on) => self.engine_calls.push(format!("grab {on}")),
                Effect::IsolateInput(on) => self.engine_calls.push(format!("isolate {on}")),
                Effect::ShowCursor(on) => self.engine_calls.push(format!("cursor {on}")),
                Effect::WarpLocal { x, y } => self.engine_calls.push(format!("warp {x},{y}")),
                Effect::SetClipboard { mime, .. } => self.engine_calls.push(format!("clipboard {mime}")),
                Effect::Notify(ServerEvent::ClientConnected { name, .. }) => {
                    self.events.push(format!("connected:{name}"))
                }
                Effect::Notify(ServerEvent::ClientDisconnected { name }) => {
                    self.events.push(format!("disconnected:{name}"))
                }
            }
        }
    }

    /// The handshake of a new connection.
    fn connect(&mut self, name: &str, machine: &str, conn: u64) -> Result<u8, Refusal> {
        let hello = Hello { version: 4, id: machine.into(), name: name.into(), info: screen_info() };
        let peer = Peer { ip: LOCALHOST, text: "127.0.0.1:40000".into() };
        let h = exchange_hello(First::Hello(hello), VERSIONS, self.hub.policy(), self.hub.session(), &peer)?;
        assert!(self.hub.session().has_room_for(h.info));
        let slot = self.hub.admit_client(&h.name, h.info);
        let (id, made) = conclude_hello(&h.name, slot)?;
        self.machines.push(Machine::new(conn, id));
        let client = Client { id, name: h.name, machine_id: h.id, since_ms: self.now_ms, conn };
        let effects = self.hub.register(client, LOCALHOST, "127.0.0.1:40000".into(), h.info, made);
        self.carry_out(effects);
        Ok(id)
    }

    /// Feed one input event and let the pipeline settle.
    fn feed(&mut self, msg: Message) {
        self.now_ms += 5;
        assert!(self.hub.session().accepts(&msg));
        let effects = self.hub.handle_local_input(msg, self.now_ms * MS, self.now_ms);
        self.carry_out(effects);
        for _ in 0..2 {
            self.now_ms += 8;
            self.tick();
        }
    }

    /// A tick of every client's motion loop, with its beacons.
    fn tick(&mut self) {
        for i in 0..self.machines.len() {
            if let Some((x, y)) = self.machines[i].tick() {
                let seq = self.machines[i].state.next_beacon();
                let id = self.machines[i].state.own_id();
                let from = endpoint(self.machines[i].conn);
                self.beacon(id, from, seq, x, y);
            }
        }
    }

    fn beacon(&mut self, id: u8, from: Endpoint, seq: u32, x: i32, y: i32) {
        let newer = seq > self.hub.sequence_base(id, from);
        let effects = self.hub.datagram(
            id,
            from,
            seq,
            newer,
            &Message::CursorPos { x, y },
            self.now_ms * MS,
            self.now_ms,
        );
        self.carry_out(effects);
    }

    fn control(&mut self, c: Control) {
        let effects = apply_control(&mut self.hub, &mut self.engine, c, self.now_ms);
        self.carry_out(effects);
    }

    fn engine_saw(&self, what: &str) -> bool {
        self.engine_calls.iter().any(|c| c == what)
    }
}

fn endpoint(conn: u64) -> Endpoint {
    Endpoint { ip: LOCALHOST, port: 40000 + conn as u16 }
}

#[test]
fn cursor_enters_moves_and_crosses_back() {
    let mut h = start_server();
    assert_eq!(h.connect("hp", "machine-hp", 1).unwrap(), 1);

    // -- Cross from pc onto hp (left screen). --
    // The real cursor parks at the shared edge (beacon), then an outward
    // push crosses.
    h.feed(Message::MouseMoveAbs { x: 0, y: SCREEN_H / 2 });
    h.feed(Message::MouseMoveRel { dx: -5, dy: 0 });
    let cc = h.machines[0].calls.clone();
    assert!(cc.contains(&"enter".to_string()), "client should enter, got {cc:?}");
    // Entry point is hp's right edge inset past the seam.
    assert!(cc.contains(&format!("move {},{}", SCREEN_W - 49, SCREEN_H / 2)), "got {cc:?}");
    assert!(h.engine_saw("cursor false"), "server should hide its cursor");
    assert!(h.engine_saw("grab true"));
    // The hidden cursor must stay exactly where it crossed.
    assert!(!h.engine_calls.iter().any(|c| c.starts_with("warp ")));

    // -- Roam around on hp. --
    h.feed(Message::MouseMoveRel { dx: -100, dy: 0 });
    assert_eq!(h.machines[0].pos, (SCREEN_W - 49 - 100, SCREEN_H / 2));

    // -- Buttons and keys forward while on the client. --
    h.feed(Message::MouseButton { button: 0, pressed: true });
    h.feed(Message::Key { kind: KeyKind::Down, key: 0x04 });
    let cc = h.machines[0].calls.clone();
    assert!(cc.contains(&"button 0 true".to_string()), "button should forward, got {cc:?}");
    assert!(cc.contains(&"key Down 4".to_string()), "key should forward, got {cc:?}");

    // -- Cross back to pc. --
    h.feed(Message::MouseMoveRel { dx: 250, dy: 0 });
    h.feed(Message::MouseMoveRel { dx: 10, dy: 0 });
    assert!(h.machines[0].calls.contains(&"leave".to_string()), "client should leave");
    assert!(h.engine_saw("cursor true"), "server should restore its cursor");
    assert_eq!(h.hub.session().mode(), Mode::Local);
}

#[test]
fn core_tests_client_reconnect_is_not_deafened_by_stale_udp_sequences() {
    let mut h = start_server();
    // A session whose beacon numbers climbed high, then disconnected.
    h.connect("hp", "machine-hp", 1).unwrap();
    for seq in 1..=500 {
        h.beacon(1, endpoint(1), seq, SCREEN_W / 2, SCREEN_H / 2);
    }
    let effects = h.hub.teardown(1, h.now_ms);
    h.carry_out(effects);
    assert_eq!(h.hub.client_count(), 0, "old session should have disconnected");
    h.machines.clear();

    // The client reconnects: beacons from 1 on are fresh and drive the
    // crossing back.
    h.connect("hp", "machine-hp", 2).unwrap();
    h.feed(Message::MouseMoveAbs { x: 0, y: SCREEN_H / 2 });
    h.feed(Message::MouseMoveRel { dx: -5, dy: 0 });
    assert!(h.machines[0].calls.contains(&"enter".to_string()));
    assert!(h.engine_saw("cursor false"));
    h.feed(Message::MouseMoveRel { dx: 100, dy: 0 });
    assert!(h.machines[0].calls.contains(&"leave".to_string()), "should cross back");
    assert!(h.engine_saw("cursor true"));
}

#[test]
fn crossing_after_idle_is_not_dropped_by_the_beacon_watchdog() {
    let mut h = start_server();
    h.connect("hp", "machine-hp", 1).unwrap();
    // Registration, then idle past the active-beacon timeout.
    let now_ms = h.now_ms;
    let effects =
        h.hub.datagram(1, endpoint(1), 0, false, &Message::KeepAlive, now_ms * MS, now_ms);
    h.carry_out(effects);
    h.now_ms += 2000;

    // Cross onto hp; the client stays silent for a beat.
    let mut silent = h.machines.pop().unwrap();
    h.feed(Message::MouseMoveAbs { x: 0, y: SCREEN_H / 2 });
    h.feed(Message::MouseMoveRel { dx: -5, dy: 0 });
    assert!(h.engine_saw("cursor false"));
    h.now_ms += 100;
    let effects = h.hub.check_active_beacon_staleness(h.now_ms);
    h.carry_out(effects);
    assert!(!h.engine_saw("cursor true"), "client must survive the activation gap without beaconing");

    // Now it beacons normally and must stay alive.
    for _ in 0..10 {
        let seq = silent.state.next_beacon();
        h.beacon(1, endpoint(1), seq, SCREEN_W - 25, SCREEN_H / 2);
        h.now_ms += 100;
        let effects = h.hub.check_active_beacon_staleness(h.now_ms);
        h.carry_out(effects);
    }
    assert!(!h.engine_saw("cursor true"), "client must stay alive while beaconing");

    // Silence while active is a wedge: it is dropped and control is home.
    h.now_ms += 1501;
    let effects = h.hub.check_active_beacon_staleness(h.now_ms);
    h.carry_out(effects);
    assert!(h.engine_saw("cursor true"));
    assert_eq!(h.hub.client_count(), 0);
}

#[test]
fn core_tests_client_disconnect_returns_cursor_home() {
    let mut h = start_server();
    h.connect("hp", "machine-hp", 1).unwrap();
    h.feed(Message::MouseMoveAbs { x: 0, y: SCREEN_H / 2 });
    h.feed(Message::MouseMoveRel { dx: -5, dy: 0 });
    let effects = h.hub.teardown(1, h.now_ms);
    h.carry_out(effects);
    assert!(h.engine_saw("cursor true"), "cursor should be restored after disconnect");
}

#[test]
fn unknown_client_is_admitted_dynamically() {
    // A client the layout has never heard of is admitted on the spot
    // (placed right of the desktop) instead of being rejected.
    let mut h = start_server();
    // pc=0 and hp=1 are taken; the newcomer gets the next free id.
    assert_eq!(h.connect("not-in-layout", "machine-new", 1).unwrap(), 2);
    assert_eq!(h.hub.client_count(), 1);
    let newcomer = &h.hub.session().layout().screens[2];
    assert_eq!((newcomer.id, newcomer.name.as_str()), (2, "not-in-layout"));
    assert_eq!(newcomer.rect, Rect { x: 1920, y: 0, w: 1920, h: 1080 });
}

#[test]
fn the_servers_own_name_is_nobody_elses() {
    let mut h = start_server();
    let r = h.connect("pc", "machine-imposter", 1).unwrap_err();
    assert_eq!(r.reply.unwrap().0, ErrorCode::NameConflict);
    assert_eq!(r.reason, "client name pc conflicts with the local screen");
    assert_eq!(h.hub.session().layout().screens.len(), 2);
}

#[test]
fn allowlist_refuses_unknown_and_admits_trusted() {
    let mut h = server_with(Policy {
        allowlist: true,
        local_only: false,
        trusted_ids: vec!["machine-trusted".into()],
        ..Policy::default()
    });
    // Untrusted and unnamed: refused.
    let err = h.connect("stranger", "machine-stranger", 1).unwrap_err();
    assert_eq!(err.reply.unwrap().0, ErrorCode::NotAllowed);
    assert_eq!(h.hub.client_count(), 0, "refused client must not be registered");
    // Trusted id (even without a layout name): admitted dynamically.
    assert_eq!(h.connect("trusted-peer", "machine-trusted", 2).unwrap(), 2);
    assert_eq!(h.hub.client_count(), 1, "trusted client should be admitted");
}

#[test]
fn allowlist_admits_by_short_id_prefix() {
    let full = "70b97d38631dda4b8f6ef627d753022d";
    let mut h = server_with(Policy {
        allowlist: true,
        local_only: false,
        trusted_ids: vec![full[..8].to_string()],
        ..Policy::default()
    });
    assert_eq!(h.connect("short-id-peer", full, 1).unwrap(), 2);
    assert_eq!(h.hub.client_count(), 1, "short-id-trusted client should be admitted");
    // A different id that shares only a part of the prefix is not.
    let err = h.connect("wrong-peer", "70b97dXXffffffffffffffffffffffffff", 2).unwrap_err();
    assert_eq!(err.reply.unwrap().0, ErrorCode::NotAllowed);
}

#[test]
fn core_tests_config_hot_reload_returns_cursor_home_and_broadcasts() {
    let mut h = start_server();
    h.connect("hp", "machine-hp", 1).unwrap();
    h.feed(Message::MouseMoveAbs { x: 0, y: SCREEN_H / 2 });
    h.feed(Message::MouseMoveRel { dx: -5, dy: 0 });
    assert!(h.engine_saw("cursor false"));

    // A layout that no longer has hp.
    let new_layout = Layout::new(vec![Screen {
        id: 0,
        name: "pc".into(),
        rect: Rect { x: 0, y: 0, w: 1920, h: 1080 },
    }]);
    h.control(Control::Reload(new_layout, BindSection::default()));
    assert!(h.engine_saw("cursor true"), "cursor should return home");
    assert!(h.engine_saw("warp 960,540"), "cursor should warp to local center");
    assert!(h.machines[0].calls.contains(&"leave".to_string()), "client should be told to leave");
    assert_eq!(h.hub.client_count(), 0, "stale client should be dropped after reload");
}

#[test]
fn a_guest_survives_a_reload_that_does_not_name_it() {
    let mut h = start_server();
    assert_eq!(h.connect("guest", "machine-guest", 1).unwrap(), 2);
    h.control(Control::Reload(two_screen_layout(), BindSection::default()));
    assert_eq!(h.hub.client_count(), 1, "the guest keeps its session");
    let screens = &h.hub.session().layout().screens;
    assert_eq!(screens.len(), 3);
    assert_eq!((screens[2].id, screens[2].name.as_str()), (2, "guest"));
    assert_eq!(screens[2].rect, Rect { x: 1920, y: 0, w: 1920, h: 1080 });
}

#[test]
fn a_guest_gives_way_to_a_layout_that_takes_its_id() {
    let mut h = start_server();
    assert_eq!(h.connect("guest", "machine-guest", 1).unwrap(), 2);
    let mut screens = two_screen_layout().screens;
    screens.push(Screen { id: 2, name: "mac".into(), rect: Rect { x: 1920, y: 0, w: 800, h: 600 } });
    h.control(Control::Reload(Layout::new(screens), BindSection::default()));
    assert_eq!(h.hub.client_count(), 0, "the guest's place belongs to another machine now");
    assert_eq!(h.hub.session().layout().screens.len(), 3);
}

#[test]
fn a_revoked_guest_loses_its_screen() {
    let mut h = start_server();
    assert_eq!(h.connect("guest", "machine-guest", 1).unwrap(), 2);
    h.control(Control::SetPolicy(Policy {
        allowlist: false,
        revoked_ids: vec!["machine-guest".into()],
        ..Policy::default()
    }));
    assert_eq!(h.hub.client_count(), 0);
    assert_eq!(h.hub.session().layout().screens.len(), 2);
    assert!(h.hub.session().assign_screen_id("guest").is_none());
}

#[test]
fn newcomers_take_the_lowest_free_ids_in_a_row() {
    let mut h = start_server();
    assert_eq!(h.connect("a", "machine-a", 1).unwrap(), 2);
    assert_eq!(h.connect("b", "machine-b", 2).unwrap(), 3);
    // A name that the desktop knows keeps its screen.
    assert_eq!(h.connect("a", "machine-a", 3).unwrap(), 2);
    let screens = &h.hub.session().layout().screens;
    assert_eq!(screens.len(), 4);
    assert_eq!(screens[3].rect, Rect { x: 3840, y: 0, w: 1920, h: 1080 });
}

#[test]
fn duplicate_connection_replaces_stale_one_without_losing_the_live_client() {
    let mut h = start_server();
    h.connect("hp", "machine-hp", 1).unwrap();
    assert_eq!(h.connect("hp", "machine-hp", 2).unwrap(), 1);
    assert_eq!(h.hub.client_count(), 1, "duplicate connection must replace, not stack");

    // The stale connection's teardown is a no-op for the live one.
    let effects = h.hub.teardown(1, h.now_ms);
    assert!(effects.is_empty());
    assert_eq!(h.hub.client_count(), 1, "stale teardown must not evict the live replacement");

    // The live client is still serviced.
    h.feed(Message::MouseMoveAbs { x: 0, y: SCREEN_H / 2 });
    h.feed(Message::MouseMoveRel { dx: -5, dy: 0 });
    assert!(h.machines[1].calls.contains(&"enter".to_string()));
    assert!(h.engine_saw("cursor false"));
    h.feed(Message::MouseMoveRel { dx: 100, dy: 0 });
    assert!(h.machines[1].calls.contains(&"leave".to_string()), "live client should cross back");

    h.control(Control::ClientCommand { name: "hp".into(), command: Command::Disconnect });
    assert_eq!(h.machines[1].ended, Some(SessionEnd::Disconnected));
    assert_eq!(h.hub.client_count(), 0);
}

#[test]
fn revoked_machine_is_refused_even_when_named_in_the_layout() {
    let mut h = server_with(Policy {
        allowlist: true,
        local_only: false,
        revoked_ids: vec!["machine-hp".into()],
        ..Policy::default()
    });
    // "hp" is the layout's screen 1: named, matching, and still refused.
    let err = h.connect("hp", "machine-hp", 1).unwrap_err();
    let (code, text) = err.reply.unwrap();
    assert_eq!(code, ErrorCode::Revoked);
    assert!(text.contains("revoked"), "the refusal must say why, got: {text}");
    assert_eq!(h.hub.client_count(), 0, "a revoked client must never be registered");
}

#[test]
fn hot_revoke_disconnects_a_connected_client() {
    let mut h = start_server();
    h.connect("hp", "machine-hp", 1).unwrap();
    h.control(Control::SetPolicy(Policy {
        revoked_ids: vec!["machine-hp".into()],
        ..Policy::default()
    }));
    assert_eq!(h.hub.client_count(), 0, "the revoked machine must be dropped at once");
}

#[test]
fn server_initiated_disconnect_updates_the_client_list() {
    let mut h = start_server();
    h.connect("hp", "machine-hp", 1).unwrap();
    h.control(Control::ClientCommand { name: "hp".into(), command: Command::Disconnect });
    assert_eq!(h.hub.client_count(), 0);
    assert!(h.events.iter().any(|e| e == "disconnected:hp"), "got: {:?}", h.events);
}

#[test]
fn unrevoked_machine_is_readmitted_fresh() {
    let mut h = server_with(Policy {
        allowlist: true,
        local_only: false,
        revoked_ids: vec!["machine-hp".into()],
        ..Policy::default()
    });
    assert!(h.connect("hp", "machine-hp", 1).is_err());
    assert_eq!(h.hub.client_count(), 0);
    h.control(Control::SetPolicy(Policy { allowlist: true, local_only: false, ..Policy::default() }));
    assert_eq!(h.connect("hp", "machine-hp", 2).unwrap(), 1, "the pinned screen slot is reused");
    assert_eq!(h.hub.client_count(), 1, "an un-revoked machine is admitted again");
}

#[test]
fn reconnect_and_restart_are_passed_on() {
    let mut h = start_server();
    h.connect("hp", "machine-hp", 1).unwrap();
    h.control(Control::ClientCommand { name: "hp".into(), command: Command::Restart });
    assert_eq!(h.machines[0].ended, Some(SessionEnd::Reconnect));
    assert_eq!(h.hub.client_count(), 1);
    // Nobody of that name: nothing happens.
    h.control(Control::ClientCommand { name: "nobody".into(), command: Command::Disconnect });
    assert_eq!(h.hub.client_count(), 1);
}

#[test]
fn handshake_refuses_in_order() {
    let session = Session::new(two_screen_layout(), 0);
    let policy = Policy { local_only: true, ..Policy::default() };
    let peer = Peer { ip: PeerIp::V4(0x0808_0808), text: "8.8.8.8:1".into() };
    let hello = |version: u16| {
        First::Hello(Hello { version, id: "m".into(), name: "hp".into(), info: screen_info() })
    };
    let code = |first| {
        exchange_hello(first, VERSIONS, &policy, &session, &peer).unwrap_err().reply.map(|r| r.0)
    };
    assert_eq!(code(First::Other), None);
    assert_eq!(code(First::Closed), None);
    assert_eq!(code(hello(2)), Some(ErrorCode::VersionMismatch));
    assert_eq!(code(hello(5)), Some(ErrorCode::VersionMismatch));
    assert_eq!(code(hello(3)), Some(ErrorCode::NotLocal));
}

#[test]
fn local_addresses() {
    for ip in [0x0a00_0001, 0xac10_0001, 0xac1f_ffff, 0xc0a8_0101, 0x7f00_0001, 0xa9fe_0001] {
        assert!(is_local_ip(PeerIp::V4(ip)), "{ip:08x}");
    }
    for ip in [0x0808_0808, 0xac20_0000, 0xac0f_ffff, 0xc0a9_0000, 0xa9ff_0000] {
        assert!(!is_local_ip(PeerIp::V4(ip)), "{ip:08x}");
    }
    assert!(is_local_ip(PeerIp::V6(1)));
    assert!(is_local_ip(PeerIp::V6(0xfc00 << 112)));
    assert!(is_local_ip(PeerIp::V6(0xfe80 << 112)));
    assert!(!is_local_ip(PeerIp::V6(0x2001 << 112)));
}

#[test]
fn ids_match_by_prefix_of_at_least_four() {
    assert!(id_matches("70b97d38631dda4b", "70b97d38"));
    assert!(id_matches("70b97d38631dda4b", "70b9"));
    assert!(!id_matches("70b97d38631dda4b", "70b"));
    assert!(!id_matches("70b97d38631dda4b", ""));
    assert!(!id_matches("70b9", "70b97d38"));
}

#[test]
fn datagrams_from_another_address_change_nothing() {
    let mut h = start_server();
    h.connect("hp", "machine-hp", 1).unwrap();
    h.feed(Message::MouseMoveAbs { x: 0, y: SCREEN_H / 2 });
    h.feed(Message::MouseMoveRel { dx: -5, dy: 0 });
    let forged = Endpoint { ip: PeerIp::V4(0xc0a8_0109), port: 40001 };
    let at = h.hub.session().cursor_pos();
    let effects =
        h.hub.datagram(1, forged, 9999, true, &Message::CursorPos { x: 3, y: 3 }, h.now_ms * MS, h.now_ms);
    assert!(effects.is_empty());
    assert_eq!(h.hub.session().cursor_pos(), at);
    assert_eq!(h.hub.address_of(1), Some(endpoint(1)));
}

#[test]
fn only_motion_takes_the_cursor_stream() {
    assert_eq!(
        route(Message::MouseMoveRel { dx: 1, dy: 2 }),
        Outbound::Udp(Message::MouseMoveRel { dx: 1, dy: 2 })
    );
    assert_eq!(route(Message::KeepAlive), Outbound::Tcp(Message::KeepAlive));
}

#[test]
fn writer_numbers_cursor_frames() {
    let mut w = Writer::new();
    let frame = || Outbound::Udp(Message::MouseMoveRel { dx: 1, dy: 0 });
    assert_eq!(w.next(frame(), None), WriterStep::Drop { first: true });
    assert_eq!(w.next(frame(), None), WriterStep::Drop { first: false });
    let to = endpoint(1);
    for seq in 1..4 {
        assert_eq!(
            w.next(frame(), Some(to)),
            WriterStep::Udp { to, seq, msg: Message::MouseMoveRel { dx: 1, dy: 0 } }
        );
    }
    assert_eq!(w.next(Outbound::Tcp(Message::KeepAlive), None), WriterStep::Tcp(Message::KeepAlive));
}

#[test]
fn reader_is_patient_for_ten_seconds() {
    let mut r = Reader::new(0);
    assert_eq!(r.next(ReadEvent::Quiet, 10_000 * MS), ReaderStep::Wait);
    assert_eq!(r.next(ReadEvent::Arrived, 10_000 * MS), ReaderStep::Dispatch);
    assert_eq!(r.next(ReadEvent::Quiet, 20_000 * MS), ReaderStep::Wait);
    assert_eq!(r.next(ReadEvent::Quiet, 20_001 * MS), ReaderStep::Teardown);
    assert_eq!(r.next(ReadEvent::Ended, 0), ReaderStep::Teardown);
}

#[test]
fn supervisor_sees_only_a_wedge_while_remote() {
    let l = Liveness { loop_tick_ms: 1000, capture_tick_ms: 1000 };
    assert!(!l.is_wedged(true, 4000));
    assert!(l.is_wedged(true, 4001));
    assert!(!l.is_wedged(false, 9000), "local idle is no stall");
    assert!(!Liveness { capture_tick_ms: 0, ..l }.is_wedged(true, 9000), "nothing to guard");
    assert!(Liveness { loop_tick_ms: 9000, ..l }.is_wedged(true, 9000));
}

#[test]
fn client_clipboard_reaches_the_local_one() {
    let mut h = start_server();
    h.connect("hp", "machine-hp", 1).unwrap();
    let msg = Message::Clipboard { mime: "text/plain".into(), data: vec![1, 2] };
    let effects = h.hub.handle_client_message(1, msg, 0, 0);
    h.carry_out(effects);
    assert!(h.engine_saw("clipboard text/plain"));
}

#[test]
fn no_crossing_fires_into_an_absent_clients_screen() {
    let mut h = start_server();
    let push = |h: &mut Harness| {
        h.feed(Message::MouseMoveAbs { x: 0, y: SCREEN_H / 2 });
        h.feed(Message::MouseMoveRel { dx: -5, dy: 0 });
    };
    // "hp" has a screen on the left, but nobody is there.
    push(&mut h);
    assert_eq!(h.hub.session().mode(), Mode::Local);
    assert_eq!(h.hub.active(), None);
    assert!(h.engine_calls.is_empty(), "the local machine is left alone");
    // Nor does it by pushing for long.
    for _ in 0..40 {
        h.feed(Message::MouseMoveRel { dx: -5, dy: 0 });
    }
    assert_eq!(h.hub.session().mode(), Mode::Local);
    // The server itself does not switch to nobody either.
    let switch = Action::SwitchTo { to: 1, x: 10, y: 10 };
    assert!(h.hub.apply_action(switch, 5000).is_empty());
    assert_eq!(h.hub.active(), None);
    // It does once the client is registered, and no longer once it is
    // gone.
    h.connect("hp", "machine-hp", 1).unwrap();
    push(&mut h);
    assert_eq!(h.hub.active(), Some(1));
    let now = h.now_ms;
    let effects = h.hub.teardown(1, now);
    h.carry_out(effects);
    assert_eq!(h.hub.active(), None);
    push(&mut h);
    assert_eq!(h.hub.session().mode(), Mode::Local);
}

#[test]
fn a_report_on_the_control_channel_carries_its_crossing_out() {
    let mut h = start_server();
    h.connect("hp", "machine-hp", 1).unwrap();
    h.feed(Message::MouseMoveAbs { x: 0, y: SCREEN_H / 2 });
    h.feed(Message::MouseMoveRel { dx: -5, dy: 0 });
    assert_eq!(h.hub.active(), Some(1));
    // A push to the right, then a report at the right wall: the crossing
    // home completes on the report.
    h.now_ms += 200;
    let at = h.now_ms;
    let push = Message::MouseMoveRel { dx: 3, dy: 0 };
    let effects = h.hub.handle_local_input(push, at * MS, at);
    h.carry_out(effects);
    let report = Message::CursorPos { x: SCREEN_W - 1, y: 500 };
    let effects = h.hub.handle_client_message(1, report, at * MS + 1, at);
    h.carry_out(effects);
    assert_eq!(h.hub.session().mode(), Mode::Local);
    assert_eq!(h.hub.active(), None);
    let calls = &h.engine_calls;
    assert_eq!(
        calls[calls.len() - 4..],
        ["isolate false", "grab false", "warp 48,500", "cursor true"]
    );
    assert_eq!(h.machines[0].calls.last().unwrap(), "leave");
}

#[test]
fn shortcuts_are_carried_out() {
    let mut h = start_server();
    let mut now = 1_000;
    let mut press = |h: &mut Harness, key: u32| {
        for kind in [KeyKind::Down, KeyKind::Repeat, KeyKind::Up] {
            now += 1;
            let effects = apply_key(&mut h.hub, &mut h.engine, kind, key, now * MS, now);
            h.carry_out(effects);
        }
    };
    // Nobody to cycle to.
    press(&mut h, hid::SCROLL_LOCK);
    assert_eq!(h.hub.session().mode(), Mode::Local);
    // Scroll Lock cycles to the client and back.
    h.connect("hp", "machine-hp", 1).unwrap();
    press(&mut h, hid::SCROLL_LOCK);
    assert_eq!(h.hub.active(), Some(1));
    assert_eq!(h.machines[0].pos, (960, 540), "in the middle of the screen");
    let keys = |h: &Harness| h.machines[0].calls.iter().filter(|c| c.starts_with("key")).count();
    h.tick();
    assert_eq!(keys(&h), 0, "neither the press, nor its repeat, nor its release");
    // Any other key goes to the client.
    press(&mut h, 0x04);
    h.tick();
    assert_eq!(keys(&h), 3);
    press(&mut h, hid::SCROLL_LOCK);
    assert_eq!(h.hub.session().mode(), Mode::Local);
    // Pause locks the walls: a push at the wall crosses nothing.
    press(&mut h, hid::PAUSE);
    h.feed(Message::MouseMoveAbs { x: 0, y: SCREEN_H / 2 });
    h.feed(Message::MouseMoveRel { dx: -5, dy: 0 });
    assert_eq!(h.hub.session().mode(), Mode::Local);
    // Pause again unlocks them.
    press(&mut h, hid::PAUSE);
    h.feed(Message::MouseMoveAbs { x: 0, y: SCREEN_H / 2 });
    h.feed(Message::MouseMoveRel { dx: -5, dy: 0 });
    assert_eq!(h.hub.session().mode(), Mode::Remote(1));
}

#[test]
fn switches_by_name_go_to_registered_clients_only() {
    let mut h = start_server();
    let to = |name: &str| UserAction::SwitchToScreen { to: name.into() };
    let run = |h: &mut Harness, a: UserAction| {
        let now = h.now_ms;
        let effects = h.hub.handle_user_action(&a, now);
        h.carry_out(effects);
        h.hub.active()
    };
    assert_eq!(run(&mut h, to("hp")), None, "nobody is there");
    h.connect("hp", "machine-hp", 1).unwrap();
    assert_eq!(run(&mut h, to("nobody")), None);
    assert_eq!(run(&mut h, to("hp")), Some(1));
    assert_eq!(run(&mut h, to("pc")), None, "by the name of the own screen");
    assert_eq!(h.hub.session().mode(), Mode::Local);
    assert_eq!(run(&mut h, to("hp")), Some(1));
    assert_eq!(run(&mut h, UserAction::GoHome), None);
}

#[test]
fn revoking_the_full_id_drops_a_client_known_by_its_short_one() {
    let mut h = start_server();
    h.connect("hp", "70b97d38", 1).unwrap();
    h.control(Control::SetPolicy(Policy {
        revoked_ids: vec!["70b97d38631dda4b8f6ef627d753022d".into()],
        ..Policy::default()
    }));
    assert_eq!(h.hub.client_count(), 0);
    let err = h.connect("hp", "70b97d38", 2).unwrap_err();
    assert_eq!(err.reply.unwrap().0, ErrorCode::Revoked);
}

#[test]
fn local_input_is_held_only_while_away() {
    fn held(calls: &[String]) -> (bool, bool, bool) {
        let last = |on: &str, off: &str| {
            calls.iter().rev().find(|c| *c == on || *c == off).map_or(false, |c| c == on)
        };
        (
            last("grab true", "grab false"),
            last("isolate true", "isolate false"),
            last("cursor false", "cursor true"),
        )
    }
    let mut h = start_server();
    h.connect("hp", "machine-hp", 1).unwrap();
    assert_eq!(held(&h.engine_calls), (false, false, false));
    h.feed(Message::MouseMoveAbs { x: 0, y: SCREEN_H / 2 });
    h.feed(Message::MouseMoveRel { dx: -5, dy: 0 });
    assert_eq!(held(&h.engine_calls), (true, true, true));
    h.control(Control::ClientCommand { name: "hp".into(), command: Command::Disconnect });
    assert_eq!(h.hub.session().mode(), Mode::Local);
    assert_eq!(held(&h.engine_calls), (false, false, false));
    // The same by the escape key.
    h.connect("hp", "machine-hp", 2).unwrap();
    h.control(Control::Reload(two_screen_layout(), BindSection::default()));
    h.connect("hp", "machine-hp", 3).unwrap();
    h.feed(Message::MouseMoveAbs { x: 0, y: SCREEN_H / 2 });
    h.feed(Message::MouseMoveRel { dx: -5, dy: 0 });
    assert_eq!(held(&h.engine_calls), (true, true, true));
    h.feed(Message::Escape);
    assert_eq!(held(&h.engine_calls), (false, false, false));
}
