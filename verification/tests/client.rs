//! The client side.
use kvmshare::client::connect::{read_answer, ConnectError};
use kvmshare::client::dispatch::{ClientState, Deed, SessionEnd};
use kvmshare::client::events::{EventQueue, InjectEvent, EVENT_QUEUE_CAP};
use kvmshare::client::pace::{
    ends_now, is_stalled, next_step, rest, Cadence, EndReason, LinkStep, ScreenWatch,
};
use kvmshare::client::retry::{Outcome, Retry, Status};
use kvmshare::client::steering::{Placement, Steering};
use kvmshare::client::Injector;
use kvmshare::clipboard::should_send;
use kvmshare::clock::capped;
use kvmshare::protocol::{Command, ErrorCode, KeyKind, Message, ScreenInfo};
use kvmshare::server::link::ReadEvent;
use kvmshare::server::Policy;
use kvmshare::Layout;

/// Nanoseconds in a millisecond.
const MS: u64 = 1_000_000;

fn info() -> ScreenInfo {
    ScreenInfo { width: 1920, height: 1080, logical_w: 1920, logical_h: 1080 }
}

fn welcome(server_version: u16) -> Option<Message> {
    Some(Message::Welcome {
        server_version,
        server_id: "70b97d38631dda4b8f6ef627d753022d".into(),
        layout: Layout { screens: vec![] },
        own_screen_id: 7,
    })
}

/// Records calls. `pos` is the simulated real cursor position.
struct RecordingInjector {
    calls: Vec<String>,
    info: ScreenInfo,
    pos: (i32, i32),
    abs: bool,
}

impl RecordingInjector {
    fn new(abs: bool) -> Self {
        RecordingInjector { calls: Vec::new(), info: info(), pos: (0, 0), abs }
    }
}

impl Injector for RecordingInjector {
    fn absolute_motion(&self) -> bool {
        self.abs
    }
    fn screen_info(&mut self) -> ScreenInfo {
        self.info
    }
    fn move_cursor(&mut self, x: i32, y: i32) {
        self.pos = (x, y);
        self.calls.push(format!("move {x},{y}"));
    }
    fn move_rel(&mut self, dx: i32, dy: i32) {
        self.pos = (self.pos.0 + dx, self.pos.1 + dy);
        self.calls.push(format!("rel {dx},{dy}"));
    }
    fn cursor_position(&mut self) -> (i32, i32) {
        self.pos
    }
    fn button(&mut self, button: u8, pressed: bool) {
        self.calls.push(format!("button {button} {pressed}"));
    }
    fn wheel(&mut self, dx: i32, dy: i32) {
        self.calls.push(format!("wheel {dx},{dy}"));
    }
    fn key(&mut self, kind: KeyKind, key: u32) {
        self.calls.push(format!("key {kind:?} {key}"));
    }
    fn enter(&mut self) {
        self.calls.push("enter".into());
    }
    fn leave(&mut self) {
        self.calls.push("leave".into());
    }
}

/// Carry out what the client asks for on the fake machine.
fn carry_out(c: &mut ClientState, inj: &mut RecordingInjector, deeds: Vec<Deed>) {
    for d in deeds {
        match d {
            Deed::Enter => inj.enter(),
            Deed::Leave => inj.leave(),
            Deed::MoveCursor { x, y } => inj.move_cursor(x, y),
            Deed::Feed { dx, dy } => inj.move_rel(dx, dy),
            Deed::Anchor => {
                let at = inj.cursor_position();
                let more = c.on_anchored(at);
                carry_out(c, inj, more);
            }
            Deed::Beacon { .. } | Deed::SetClipboard { .. } | Deed::End(_) => {}
        }
    }
}

fn dispatch(c: &mut ClientState, inj: &mut RecordingInjector, msg: Message) {
    let abs = inj.absolute_motion();
    assert!(c.takes(&msg));
    let deeds = c.dispatch(msg, abs);
    carry_out(c, inj, deeds);
}

fn tick(c: &mut ClientState, inj: &mut RecordingInjector) {
    let seen = inj.cursor_position();
    let (p, events) = c.tick(seen, inj.absolute_motion());
    match p {
        Placement::Stay => {}
        Placement::MoveTo { x, y } => inj.move_cursor(x, y),
        Placement::Correct { ex, ey } => inj.move_rel(ex as i32, ey as i32),
    }
    for e in events {
        match e {
            InjectEvent::Button { button, pressed } => inj.button(button, pressed),
            InjectEvent::Wheel { dx, dy } => inj.wheel(dx, dy),
            InjectEvent::Key { kind, key } => inj.key(kind, key),
        }
    }
}

#[test]
fn client_tests_client_handshakes_and_applies_messages() {
    let w = read_answer(welcome(4), 4, &Policy::default()).unwrap();
    assert_eq!(w.own_id, 7);
    let mut c = ClientState::new(w.own_id, w.layout);
    assert_eq!(c.own_id(), 7);
    let mut inj = RecordingInjector::new(false);
    dispatch(&mut c, &mut inj, Message::MouseMoveAbs { x: 100, y: 200 });
    dispatch(&mut c, &mut inj, Message::Leave { screen_id: 1 });
    assert!(inj.calls.contains(&"move 100,200".to_string()));
    assert!(inj.calls.contains(&"leave".to_string()));
}

#[test]
fn client_tests_client_rejects_version_mismatch() {
    let err = read_answer(welcome(999), 4, &Policy::default()).unwrap_err();
    assert!(err.message("").contains("v999"));
    assert_eq!(err.message(""), "server speaks v999, client speaks v4");
}

#[test]
fn client_tests_resolution_change_is_reported() {
    let mut w = ScreenWatch { last: info() };
    assert!(!w.is_news(info(), true));
    let hidpi = ScreenInfo { width: 3840, height: 2160, logical_w: 1920, logical_h: 1080 };
    assert!(w.is_news(hidpi, false));
    assert!(!w.is_news(hidpi, true), "a change is reported once");
    assert!(w.is_news(hidpi, false), "a change of scale alone is news");
}

#[test]
fn client_tests_absolute_backends_land_exactly_on_the_command_via_tick_placement() {
    let mut c = ClientState::new(7, Layout { screens: vec![] });
    let mut inj = RecordingInjector::new(true);
    dispatch(&mut c, &mut inj, Message::Enter { screen_id: 7, x: 100, y: 100 });
    // A burst of three motion frames, then a stale duplicate.
    for (seq, dx) in [(1u32, 10), (2, 20), (3, 30)] {
        let newer = seq > c.motion_seq();
        let deeds = c.on_datagram(7, seq, newer, Message::MouseMoveRel { dx, dy: 0 }, true);
        carry_out(&mut c, &mut inj, deeds);
    }
    let newer = 2 > c.motion_seq();
    let deeds = c.on_datagram(7, 2, newer, Message::MouseMoveRel { dx: 99, dy: 0 }, true);
    carry_out(&mut c, &mut inj, deeds);
    tick(&mut c, &mut inj);
    // Nothing is injected per datagram: the tick places the whole command.
    assert!(inj.calls.iter().all(|c| !c.starts_with("rel ")), "got {:?}", inj.calls);
    assert!(inj.calls.iter().any(|c| c == "move 160,100"), "got {:?}", inj.calls);
    assert_eq!(inj.pos, (160, 100), "cursor lands exactly on the command");
    assert!(inj.calls.iter().all(|c| !c.contains("99")));
    assert!(inj.calls.contains(&"enter".to_string()));
    assert!(inj.calls.iter().any(|c| c == "move 100,100"));
    // A cursor that is already there is left alone.
    let before = inj.calls.len();
    tick(&mut c, &mut inj);
    assert_eq!(inj.calls.len(), before);
}

#[test]
fn button_wheel_and_key_are_injected_in_order_on_the_motion_thread() {
    let mut c = ClientState::new(7, Layout { screens: vec![] });
    let mut inj = RecordingInjector::new(true);
    dispatch(&mut c, &mut inj, Message::Enter { screen_id: 7, x: 50, y: 50 });
    dispatch(&mut c, &mut inj, Message::MouseButton { button: 1, pressed: true });
    dispatch(&mut c, &mut inj, Message::MouseButton { button: 1, pressed: false });
    dispatch(&mut c, &mut inj, Message::Key { kind: KeyKind::Down, key: 65 });
    let events = |inj: &RecordingInjector| -> Vec<String> {
        inj.calls.iter().filter(|c| c.starts_with("button ") || c.starts_with("key ")).cloned().collect()
    };
    assert!(events(&inj).is_empty(), "nothing fires on the control loop");
    tick(&mut c, &mut inj);
    assert_eq!(
        events(&inj),
        vec!["button 1 true".to_string(), "button 1 false".to_string(), "key Down 65".to_string()],
        "injection events execute in wire order"
    );
}

#[test]
fn cursor_is_placed_before_queued_events() {
    let mut c = ClientState::new(7, Layout { screens: vec![] });
    let mut inj = RecordingInjector::new(true);
    dispatch(&mut c, &mut inj, Message::Enter { screen_id: 7, x: 50, y: 50 });
    dispatch(&mut c, &mut inj, Message::MouseMoveRel { dx: 5, dy: 0 });
    dispatch(&mut c, &mut inj, Message::MouseWheel { dx: 0, dy: 1 });
    tick(&mut c, &mut inj);
    let n = inj.calls.len();
    assert_eq!(inj.calls[n - 2..], ["move 55,50".to_string(), "wheel 0,1".to_string()]);
}

#[test]
fn motion_outside_control_is_dropped() {
    let mut c = ClientState::new(7, Layout { screens: vec![] });
    let mut inj = RecordingInjector::new(false);
    let deeds = c.on_datagram(7, 1, true, Message::MouseMoveRel { dx: 9, dy: 0 }, false);
    assert!(deeds.is_empty());
    assert_eq!(c.motion_seq(), 1);
    dispatch(&mut c, &mut inj, Message::Enter { screen_id: 7, x: 10, y: 10 });
    assert!(c.is_active());
    // For another screen: not ours.
    assert!(c.on_datagram(3, 2, true, Message::MouseMoveRel { dx: 9, dy: 0 }, false).is_empty());
    assert_eq!(c.motion_seq(), 1);
    // A relative backend injects a part of the frame right away.
    let deeds = c.on_datagram(7, 2, true, Message::MouseMoveRel { dx: 9, dy: 0 }, false);
    assert_eq!(deeds, vec![Deed::Feed { dx: 9, dy: 0 }]);
    assert_eq!(c.tick((10, 10), false).0, Placement::Correct { ex: 9, ey: 0 });
    dispatch(&mut c, &mut inj, Message::Leave { screen_id: 7 });
    assert!(!c.is_active());
    assert_eq!(c.tick((10, 10), false).0, Placement::Stay);
    assert_eq!(c.last_placement(true), Placement::MoveTo { x: 19, y: 10 });
    assert_eq!(c.last_placement(false), Placement::Stay);
}

#[test]
fn beacons_are_numbered_from_one() {
    let mut c = ClientState::new(7, Layout { screens: vec![] });
    let deeds = c.dispatch(Message::Enter { screen_id: 7, x: 1, y: 2 }, true);
    assert_eq!(deeds, vec![Deed::Enter, Deed::MoveCursor { x: 1, y: 2 }, Deed::Anchor]);
    assert!(!c.is_active(), "control comes with the anchor");
    assert_eq!(c.on_anchored_at((1, 2), 0), vec![Deed::Beacon { seq: 1 }]);
    assert!(c.is_active());
    assert_eq!(c.next_beacon(), 2);
    assert_eq!(c.next_beacon(), 3);
}

#[test]
fn server_commands_end_the_session() {
    let mut c = ClientState::new(7, Layout { screens: vec![] });
    for (command, end) in [
        (Command::Disconnect, SessionEnd::Disconnected),
        (Command::Reconnect, SessionEnd::Reconnect),
        (Command::Restart, SessionEnd::Reconnect),
    ] {
        assert_eq!(c.dispatch(Message::Control { command }, true), vec![Deed::End(end)]);
    }
    // Traffic that only a server receives is ignored.
    for msg in [Message::KeepAlive, Message::Escape, Message::CursorPos { x: 1, y: 1 }] {
        assert!(c.dispatch(msg, true).is_empty());
    }
}

#[test]
fn clipboard_and_layout_are_passed_on() {
    let mut c = ClientState::new(7, Layout { screens: vec![] });
    let msg = Message::Clipboard { mime: "text/plain".into(), data: vec![7] };
    assert_eq!(
        c.dispatch(msg, true),
        vec![Deed::SetClipboard { mime: "text/plain".into(), data: vec![7] }]
    );
    let layout = Layout::new(vec![kvmshare::protocol::Screen {
        id: 0,
        name: "pc".into(),
        rect: kvmshare::protocol::Rect { x: 0, y: 0, w: 10, h: 10 },
    }]);
    assert!(c.dispatch(Message::Layout { layout }, true).is_empty());
    assert_eq!(c.layout().screens[0].name, "pc");
}

#[test]
fn event_queue_is_bounded() {
    let mut q = EventQueue::new();
    for key in 0..(EVENT_QUEUE_CAP as u32 + 10) {
        q.enqueue_event(InjectEvent::Key { kind: KeyKind::Down, key });
    }
    let out = q.drain_events();
    assert_eq!(out.len(), EVENT_QUEUE_CAP);
    assert_eq!(out[0], InjectEvent::Key { kind: KeyKind::Down, key: 0 });
    assert_eq!(out[511], InjectEvent::Key { kind: KeyKind::Down, key: 511 });
    assert!(q.drain_events().is_empty());
}

/// Six windows of commanded motion with a cursor that does not move.
fn pinned_after(windows: u64, at: (i32, i32)) -> bool {
    let mut s = Steering::new();
    s.enter(at.0, at.1);
    s.anchor_at(at, 0);
    // The first window starts where the cursor is.
    assert!(!s.probe_window_at(at, 100 * MS, || info()).pinned);
    let mut pinned = false;
    for w in 0..windows {
        assert!(s.takes(61, 0));
        s.apply_motion_frame(61, 0);
        pinned = s.probe_window_at(at, (200 + 100 * w) * MS, || info()).pinned;
    }
    pinned
}

#[test]
fn a_pinned_cursor_trips_after_six_windows() {
    assert!(!pinned_after(5, (500, 500)));
    assert!(pinned_after(6, (500, 500)));
    // At an edge it is a wall push.
    assert!(!pinned_after(6, (1, 500)));
    assert!(!pinned_after(6, (1918, 500)));
    assert!(!pinned_after(6, (500, 1078)));
    assert!(pinned_after(6, (1917, 500)));
}

#[test]
fn the_screen_is_asked_only_when_it_matters() {
    let mut s = Steering::new();
    s.enter(500, 500);
    s.anchor_at((500, 500), 0);
    let r = s.probe_window_at((500, 500), 100 * MS, || panic!("not on the hot path"));
    assert!(!r.pinned);
    assert!(r.trace.is_none());
    // Five stuck windows in a row do not ask either; the sixth does.
    for w in 0..5 {
        s.apply_motion_frame(61, 0);
        let r = s.probe_window_at((500, 500), (200 + 100 * w) * MS, || panic!("too early"));
        assert!(!r.pinned);
        assert!(r.alarm.is_none());
    }
    s.apply_motion_frame(61, 0);
    s.apply_motion_frame(1, 0);
    let r = s.probe_window_at((500, 500), 700 * MS, || info());
    assert!(r.pinned);
    assert_eq!(
        r.alarm.unwrap(),
        "cursor pinned ~600 ms while 2 frames/tick commanded motion — injected input is being eaten; releasing local input and restarting the session"
    );
}

#[test]
fn a_window_is_traced() {
    let mut s = Steering::new();
    s.enter(100, 100);
    s.anchor_at((100, 100), 0);
    s.apply_motion_frame(30, -5);
    s.tick((100, 100), false);
    s.tick((110, 98), false);
    let r = s.probe_window_at((120, 97), 100 * MS, || info());
    assert_eq!(
        r.trace.unwrap(),
        "motion req=(30,-5) act=(20,-3) err=(10,-2) real=(120,97) frames=1 ticks=2"
    );
    assert!(!s.takes(i32::MIN, 0));
}

#[test]
fn answers_that_are_no_welcome() {
    let p = Policy::default();
    let refused = Some(Message::Error { code: 3, text: "no".into() });
    let e = read_answer(refused, 4, &p).unwrap_err();
    assert_eq!(e.message(""), "server rejected the connection (3): no");
    let e = read_answer(Some(Message::KeepAlive), 4, &p).unwrap_err();
    assert_eq!(e, ConnectError::Unexpected);
    assert_eq!(e.message("KeepAlive"), "unexpected first message: KeepAlive");
    assert_eq!(read_answer(None, 4, &p).unwrap_err(), ConnectError::Unexpected);
    // A revoked server is refused by the client.
    let p = Policy { revoked_ids: vec!["70b97d38".into()], ..Policy::default() };
    let e = read_answer(welcome(4), 4, &p).unwrap_err();
    assert!(matches!(e, ConnectError::Revoked { .. }));
    assert!(e.message("").contains("revoked"));
}

#[test]
fn loops_keep_their_pace() {
    let mut c = Cadence::new(8 * MS, 0);
    assert!(!c.strike(7 * MS));
    assert!(c.strike(8 * MS));
    assert!(!c.strike(15 * MS));
    assert!(c.strike(16 * MS));
    assert_eq!(rest(4 * MS, MS), 3 * MS);
    assert_eq!(rest(4 * MS, 9 * MS), 0);
    assert!(!is_stalled(true, 1000, 4000));
    assert!(is_stalled(true, 1000, 4001));
    assert!(!is_stalled(false, 1000, 9000));
}

#[test]
fn the_control_loop_flushes_when_quiet() {
    let mut k = Cadence::new(2_000 * MS, 0);
    assert_eq!(next_step(ReadEvent::Arrived, &mut k, 5_000 * MS), LinkStep::Dispatch);
    assert_eq!(next_step(ReadEvent::Quiet, &mut k, 1_999 * MS), LinkStep::Flush { keepalive: false });
    assert_eq!(next_step(ReadEvent::Quiet, &mut k, 2_000 * MS), LinkStep::Flush { keepalive: true });
    assert_eq!(next_step(ReadEvent::Quiet, &mut k, 2_100 * MS), LinkStep::Flush { keepalive: false });
    assert_eq!(next_step(ReadEvent::Ended, &mut k, 0), LinkStep::Close);
    assert_eq!(ends_now(false, false, false), None);
    assert_eq!(ends_now(true, true, true), Some(EndReason::Stopped));
    assert_eq!(ends_now(false, true, true), Some(EndReason::Resumed));
    assert_eq!(ends_now(false, false, true), Some(EndReason::SecureDesktop));
}

#[test]
fn a_client_keeps_trying() {
    let mut r = Retry::new();
    let n = r.after(Outcome::ConnectFailed);
    assert!(n.warn && n.wait && !n.stop);
    assert_eq!(n.status, Some(Status::Disconnected));
    assert!(!r.after(Outcome::ConnectFailed).warn, "told once");
    assert!(!r.after(Outcome::NoPlatform).warn);
    let n = r.after(Outcome::SecureDesktop);
    assert!(n.warn && n.wait && n.status.is_none());
    assert!(!r.after(Outcome::SecureDesktop).warn);
    let n = r.after(Outcome::Ended(SessionEnd::Reconnect));
    assert!(!n.wait && !n.stop && n.status.is_none());
    assert!(r.after(Outcome::ConnectFailed).warn, "a session in between starts afresh");
    let n = r.after(Outcome::Ended(SessionEnd::LinkClosed));
    assert!(n.wait && !n.stop);
    let n = r.after(Outcome::Failed);
    assert!(n.warn && n.wait && n.status == Some(Status::Disconnected));
    let n = r.after(Outcome::Ended(SessionEnd::Disconnected));
    assert!(n.stop && n.status == Some(Status::Stopped));
    let n = r.after(Outcome::Refused { reason: "revoked".into() });
    assert!(n.stop);
    assert_eq!(
        n.status.unwrap().body("pc:24800"),
        "status=refused\nserver=pc:24800\nreason=revoked\n"
    );
    assert_eq!(Status::Connecting.body("pc:1"), "status=connecting\nserver=pc:1\n");
}

#[test]
fn clipboard_never_echoes() {
    let a = || Some(("text/plain".to_string(), vec![1u8, 2]));
    let b = || Some(("text/plain".to_string(), vec![3u8]));
    assert!(should_send(&a(), &None, &None));
    assert!(should_send(&a(), &b(), &b()));
    assert!(!should_send(&a(), &a(), &None), "already sent");
    assert!(!should_send(&a(), &None, &a()), "came from the peer");
    assert!(!should_send(&None, &None, &None));
}

#[test]
fn a_policy_answer_is_final() {
    let rejected = || ConnectError::Rejected { code: 3, text: "not here".into() };
    for answer in [ErrorCode::Revoked, ErrorCode::NotLocal, ErrorCode::NotAllowed] {
        assert_eq!(
            rejected().outcome(Some(answer)),
            Outcome::Refused { reason: "not here".into() }
        );
    }
    for answer in [ErrorCode::VersionMismatch, ErrorCode::NameConflict] {
        assert_eq!(rejected().outcome(Some(answer)), Outcome::ConnectFailed);
    }
    assert_eq!(rejected().outcome(None), Outcome::ConnectFailed);
    assert_eq!(
        ConnectError::Version { server: 5, client: 4 }.outcome(None),
        Outcome::ConnectFailed
    );
    assert_eq!(ConnectError::Unexpected.outcome(None), Outcome::ConnectFailed);
    assert_eq!(
        ConnectError::Revoked { server_id: "70b97d38".into() }.outcome(None),
        Outcome::Refused { reason: "server 70b97d38 is revoked on this machine".into() }
    );
}

#[test]
fn a_backend_neither_resumes_nor_shows_a_prompt_unless_it_says_so() {
    let mut inj = RecordingInjector::new(true);
    assert!(!inj.system_resumed());
    assert!(!inj.secure_desktop_active());
    assert!(inj.calls.is_empty());
    assert_eq!(inj.pos, (0, 0));
}

#[test]
fn a_clock_stops_at_its_last_nanosecond() {
    assert_eq!(capped(0), 0);
    assert_eq!(capped(u64::MAX as u128 - 1), u64::MAX - 1);
    assert_eq!(capped(u64::MAX as u128), u64::MAX);
    assert_eq!(capped(u64::MAX as u128 + 1), u64::MAX);
}
