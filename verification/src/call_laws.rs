//! What single calls of the library's objects do: how an object after a
//! call, and what the call gave back, stand to the object before it.
use vstd::prelude::*;

use crate::actions::chord_laws::{
    a_modifier_then_a_key_fires_their_chord, each_action_word_has_its_command,
    modifier_keys_set_their_own_flag,
};
use crate::actions::laws::gate_is_exact;
use crate::actions::{ActionEngine, BindSection, Binding, KeyFate, Mods, UserAction};
use crate::client::dispatch::{ClientState, Deed};
use crate::client::events::{EventQueue, InjectEvent};
use crate::client::laws::{
    a_window_is_measured_when_it_is_motion, aims_at, an_input_message_waits_in_line, injects,
};
use crate::client::pace::{Cadence, ScreenWatch};
use crate::client::retry::{Next, Outcome, Retry};
use crate::client::steering::{Placement, Steering};
use crate::config::geometry::first_named;
use crate::config::watch::{Stamp, Watch};
use crate::config::Config;
use crate::crossing_laws::{arrived_at, escape_lands_in_the_middle, takes_to};
use crate::desktop_laws::a_removed_screen_is_gone;
use crate::layout::{find_screen, Layout};
use crate::log::{init, Logger};
use crate::motion::follower::PositionFollower;
use crate::motion::gain::{GainTracker, Window};
use crate::protocol::{Command, KeyKind, Message, Screen, ScreenInfo};
use crate::server::control::{apply_control, apply_key, controlled, keyed, Control};
use crate::server::hub::{Client, Effect, Hub, Outbound, ServerEvent};
use crate::server::hub_laws::{
    a_switch_home_says_goodbye, a_switch_says_goodbye_and_then_hello, input_goes_to_the_holder,
    is_client,
};
use crate::server::net::{Endpoint, PeerIp};
use crate::server::policy::Policy;
use crate::server::roster::{after_event, Roster};
use crate::session::commands::obeyed;
use crate::session::newcomer::{named_screen, own_name, with_newcomer};
use crate::session::{
    away_beacon, homecoming, local_event, resized, swapped, Action, Session,
};
use crate::Mode;

verus! {

// ---------------------------------------------------------------------
// Shortcuts
// ---------------------------------------------------------------------

/// The two keys of each modifier set its flag when pressed and clear it
/// when released. Every other key leaves the flag alone.
pub proof fn a_modifier_key_sets_its_own_flag(m: &mut Mods, key: u32, down: bool)
    requires
        call_ensures(Mods::apply_key, (m, key, down), ()),
    ensures
        final(m).ctrl == if key == 0xE0 || key == 0xE4 { down } else { old(m).ctrl },
        final(m).shift == if key == 0xE1 || key == 0xE5 { down } else { old(m).shift },
        final(m).alt == if key == 0xE2 || key == 0xE6 { down } else { old(m).alt },
        final(m).meta == if key == 0xE3 || key == 0xE7 { down } else { old(m).meta },
{
    modifier_keys_set_their_own_flag(*m, key, down);
}

/// A modifier and a key make their chord: with every modifier up, the
/// modifier's key goes down and then the key that a `lock` shortcut has. It
/// fires exactly when that modifier is the one that the shortcut asks for.
pub proof fn a_shortcut_is_typed(
    e: &mut ActionEngine,
    then: &mut ActionEngine,
    modifier: u32,
    key: u32,
    k: int,
    at_home: bool,
    t0: u64,
    t1: u64,
    r0: KeyFate,
    r1: KeyFate,
)
    requires
        call_ensures(ActionEngine::on_key_at, (e, KeyKind::Down, modifier, at_home, t0), r0),
        final(e)@ == old(then)@,
        call_ensures(ActionEngine::on_key_at, (then, KeyKind::Down, key, at_home, t1), r1),
        old(e)@.enabled,
        !old(e)@.mods.ctrl && !old(e)@.mods.alt && !old(e)@.mods.shift && !old(e)@.mods.meta,
        0xE0 <= modifier <= 0xE7,
        !(0xE0 <= key <= 0xE7),
        0 <= k < old(e)@.bindings.len(),
        old(e)@.bindings[k].key == key,
        old(e)@.bindings[k].action@ == "lock"@,
        forall|j: int|
            0 <= j < old(e)@.bindings.len() && j != k ==> (#[trigger] old(e)@.bindings[j]).key
                != key,
    ensures
        r0 is Forward,
        ({
            let m = old(e)@.bindings[k].mods;
            r1 == KeyFate::Fire(UserAction::ToggleLock) <==> {
                &&& m.ctrl <==> modifier == 0xE0 || modifier == 0xE4
                &&& m.shift <==> modifier == 0xE1 || modifier == 0xE5
                &&& m.alt <==> modifier == 0xE2 || modifier == 0xE6
                &&& m.meta <==> modifier == 0xE3 || modifier == 0xE7
            }
        }),
{
    a_modifier_then_a_key_fires_their_chord(e@, modifier, key, k, Mods::empty(), t0, at_home);
    each_action_word_has_its_command(e@.bindings[k], at_home);
}

/// New shortcuts take effect at once: exactly the safe ones of those that
/// are asked for are in force, a half-typed chord is forgotten, and what is
/// held stays held.
pub proof fn new_shortcuts_take_effect(e: &mut ActionEngine, cfg: BindSection, b: Binding)
    requires
        call_ensures(ActionEngine::set_config, (e, cfg), ()),
    ensures
        final(e)@.enabled == cfg.enabled,
        final(e)@.bindings.contains(b) <==> cfg.bindings@.contains(b) && b.bindable(),
        final(e)@.pending is None,
        final(e)@.mods == old(e)@.mods,
        final(e)@.fired == old(e)@.fired,
        final(e)@.owned == old(e)@.owned,
        final(e)@.last_seen == old(e)@.last_seen,
{
    gate_is_exact(cfg.bindings@, b);
}

/// An engine starts with nothing held and nothing typed.
pub proof fn an_engine_starts_idle(cfg: BindSection, e: ActionEngine, b: Binding)
    requires
        call_ensures(ActionEngine::new, (cfg,), e),
    ensures
        e@.enabled == cfg.enabled,
        e@.bindings.contains(b) <==> cfg.bindings@.contains(b) && b.bindable(),
        !e@.mods.ctrl && !e@.mods.alt && !e@.mods.shift && !e@.mods.meta,
        e@.pending is None && e@.last_seen is None,
        e@.fired.len() == 0 && e@.owned.len() == 0,
{
    gate_is_exact(cfg.bindings@, b);
}

/// The calls of the engine are steps of its model.
pub proof fn each_key_is_a_step(
    e: &mut ActionEngine,
    kind: KeyKind,
    key: u32,
    hint: Mods,
    at_home: bool,
    now: u64,
    command: Option<UserAction>,
    fate: KeyFate,
    up: Option<u32>,
)
    ensures
        call_ensures(ActionEngine::key_down_at, (e, key, hint, at_home, now), command)
            ==> final(e)@ == old(e)@.pressed(key, hint, now) && command == old(e)@.fires(
            key,
            hint,
            at_home,
        ),
        call_ensures(ActionEngine::on_key_at, (e, kind, key, at_home, now), fate) ==> final(e)@
            == old(e)@.keyed(kind, key, now) && fate == old(e)@.fate(kind, key, at_home),
        call_ensures(ActionEngine::key_up, (e, key), up) ==> final(e)@ == old(e)@.released(key)
            && (up is Some <==> old(e)@.claims(key)) && (up is Some ==> up->0 == key),
        call_ensures(ActionEngine::tick_at, (e, now), ()) ==> final(e)@ == old(e)@.ticked(now),
{
}

// ---------------------------------------------------------------------
// The client
// ---------------------------------------------------------------------

/// A button, wheel or key message adds exactly one event to the queue,
/// behind those already there: the one that it describes. A queue that
/// holds 512 events takes no more.
pub proof fn an_input_message_is_queued(
    c: &mut ClientState,
    msg: Message,
    absolute: bool,
    r: Vec<Deed>,
)
    requires
        call_ensures(ClientState::dispatch, (c, msg, absolute), r),
        msg is MouseButton || msg is MouseWheel || msg is Key,
    ensures
        r@.len() == 0,
        forall|k: int|
            0 <= k < old(c)@.events.len() ==> #[trigger] final(c)@.events[k] == old(c)@.events[k],
        old(c)@.events.len() < 512 ==> final(c)@.events.len() == old(c)@.events.len() + 1
            && injects(msg, final(c)@.events.last()),
        old(c)@.events.len() >= 512 ==> final(c)@.events.len() == old(c)@.events.len(),
        final(c)@.active == old(c)@.active,
        final(c)@.course == old(c)@.course,
{
    an_input_message_waits_in_line(c@, msg, absolute);
}

/// A tick hands out what waits, in order and to the last, and leaves
/// nothing behind.
pub proof fn a_tick_empties_the_queue(
    c: &mut ClientState,
    seen: (i32, i32),
    absolute: bool,
    r: (Placement, Vec<InjectEvent>),
    q: &mut EventQueue,
    out: Vec<InjectEvent>,
)
    ensures
        call_ensures(ClientState::tick, (c, seen, absolute), r) ==> r.1@ == old(c)@.events
            && final(c)@.events.len() == 0,
        call_ensures(EventQueue::drain_events, (q,), out) ==> out@ == old(q)@ && final(q)@.len()
            == 0,
{
}

/// The calls of a client are steps of its model.
pub proof fn each_client_call_is_a_step(
    c: &mut ClientState,
    msg: Message,
    absolute: bool,
    id: u8,
    seq: u32,
    newer: bool,
    seen: (i32, i32),
    now: u64,
    r: Vec<Deed>,
)
    ensures
        call_ensures(ClientState::dispatch, (c, msg, absolute), r) ==> (final(c)@, r@) == old(
            c,
        )@.dispatched(msg, absolute),
        call_ensures(ClientState::on_datagram, (c, id, seq, newer, msg, absolute), r) ==> (
            final(c)@,
            r@,
        ) == old(c)@.received(id, seq, newer, msg, absolute),
        call_ensures(ClientState::on_anchored_at, (c, seen, now), r) ==> (final(c)@, r@) == old(
            c,
        )@.anchored(seen, now),
{
}

/// A client starts without the cursor, with nothing queued and nothing
/// heard or sent.
pub proof fn a_client_starts_idle(own_id: u8, layout: Layout, c: ClientState)
    requires
        call_ensures(ClientState::new, (own_id, layout), c),
    ensures
        c@.own_id == own_id,
        c@.layout == layout@,
        !c@.active,
        c@.events.len() == 0,
        c@.motion_seq == 0,
        c@.beacon_seq == 1,
{
}

/// The command of a follower is always the point of the screen nearest to
/// where it was sent: on entering, on a motion frame, on a new anchor, and
/// when the screen's size changes.
pub proof fn a_command_is_held_on_the_screen(
    f: &mut PositionFollower,
    x: i32,
    y: i32,
    w: u32,
    h: u32,
)
    ensures
        call_ensures(PositionFollower::enter, (f, x, y), ()) ==> final(f)@.active && aims_at(
            final(f)@,
            old(f)@.bounds,
            x as int,
            y as int,
        ),
        call_ensures(PositionFollower::advance, (f, x, y), ()) ==> final(f)@.active == old(
            f,
        )@.active && aims_at(final(f)@, old(f)@.bounds, old(f)@.x + x, old(f)@.y + y),
        call_ensures(PositionFollower::reanchor, (f, x, y), ()) ==> final(f)@.active == old(
            f,
        )@.active && aims_at(final(f)@, old(f)@.bounds, x as int, y as int),
        call_ensures(PositionFollower::set_bounds, (f, w, h), ()) ==> final(f)@.active == old(
            f,
        )@.active && aims_at(final(f)@, Some((w, h)), old(f)@.x, old(f)@.y),
        call_ensures(PositionFollower::leave, (f,), ()) ==> !final(f)@.active && final(f)@.x
            == old(f)@.x && final(f)@.y == old(f)@.y && final(f)@.bounds == old(f)@.bounds,
{
}

/// The calls that steer are steps of the course.
pub proof fn each_steering_call_is_a_step(
    s: &mut Steering,
    x: i32,
    y: i32,
    seen: (i32, i32),
    now: u64,
)
    ensures
        call_ensures(Steering::apply_motion_frame, (s, x, y), ()) ==> final(s)@ == old(s)@.framed(
            x as int,
            y as int,
        ),
        call_ensures(Steering::anchor_at, (s, seen, now), ()) ==> final(s)@ == old(s)@.anchored(
            seen,
            now,
        ),
        call_ensures(Steering::leave, (s,), ()) ==> final(s)@ == old(s)@.left(),
        call_ensures(Steering::enter, (s, x, y), ()) ==> final(s)@.aim.active && aims_at(
            final(s)@.aim,
            old(s)@.aim.bounds,
            x as int,
            y as int,
        ) && final(s)@.measure == old(s)@.measure && final(s)@.frames == old(s)@.frames
            && final(s)@.ticks == old(s)@.ticks && final(s)@.pins == old(s)@.pins,
        call_ensures(Steering::reanchor, (s, x, y), ()) ==> final(s)@.aim.active == old(
            s,
        )@.aim.active && aims_at(final(s)@.aim, old(s)@.aim.bounds, x as int, y as int)
            && final(s)@.measure == old(s)@.measure && final(s)@.frames == old(s)@.frames
            && final(s)@.ticks == old(s)@.ticks && final(s)@.pins == old(s)@.pins,
{
}

/// A cadence strikes when the interval has passed since it last struck, and
/// counts from then on.
pub proof fn a_cadence_strikes_when_due(c: &mut Cadence, now: u64, r: bool)
    requires
        call_ensures(Cadence::strike, (c, now), r),
        old(c).last <= now,
    ensures
        r <==> now - old(c).last >= old(c).interval,
        r ==> final(c).last == now,
        !r ==> final(c).last == old(c).last,
        final(c).interval == old(c).interval,
{
}

/// A screen is news when something about it differs from what was told
/// last, and it is what was told last from then on.
pub proof fn a_changed_screen_is_news(
    w: &mut ScreenWatch,
    info: ScreenInfo,
    same_scale: bool,
    r: bool,
)
    requires
        call_ensures(ScreenWatch::is_news, (w, info, same_scale), r),
    ensures
        r <==> info != old(w).last || !same_scale,
        final(w).last == info,
{
}

/// What follows a round of a client depends on its outcome and on what was
/// said before.
pub proof fn each_round_is_a_step(t: &mut Retry, o: Outcome, next: Next)
    requires
        call_ensures(Retry::after, (t, o), next),
    ensures
        *final(t) == old(t).said(o),
        next == old(t).next(o),
{
}

// ---------------------------------------------------------------------
// The session
// ---------------------------------------------------------------------

/// The calls of a session are steps of its state.
pub proof fn each_session_call_is_a_step(
    s: &mut Session,
    msg: Message,
    id: u8,
    x: i32,
    y: i32,
    now: u64,
    action: UserAction,
    layout: Layout,
    r: Vec<Action>,
)
    ensures
        call_ensures(Session::on_local_event_at, (s, msg, now), r) ==> (final(s)@, r@)
            == local_event(old(s)@, msg, now),
        call_ensures(Session::on_remote_beacon_at, (s, id, x, y, now), r) ==> (final(s)@, r@)
            == away_beacon(old(s)@, id, x as int, y as int, now),
        call_ensures(Session::on_user_action, (s, &action), r) ==> (final(s)@, r@) == obeyed(
            old(s)@,
            action,
        ),
        call_ensures(Session::swap_layout, (s, layout), r) ==> (final(s)@, r@) == swapped(
            old(s)@,
            layout@,
        ),
{
}

/// Sent home, the cursor stands in the middle of the server's own screen
/// and control is local, as after the escape key.
pub proof fn sent_home(s: &mut Session, r: Action)
    requires
        call_ensures(Session::force_local, (s,), r),
        old(s)@.valid(),
        find_screen(old(s)@.layout, 0) is Some,
        old(s)@.local.w >= 0 && old(s)@.local.h >= 0,
    ensures
        arrived_at(
            old(s)@,
            final(s)@,
            0,
            (old(s)@.local.w / 2) as int,
            (old(s)@.local.h / 2) as int,
        ),
        takes_to(r, 0, (old(s)@.local.w / 2) as int, (old(s)@.local.h / 2) as int),
{
    escape_lands_in_the_middle(s@, 0);
}

/// A lost client takes the cursor home exactly when it had it; it is no
/// longer present, and everybody else is.
pub proof fn a_lost_client(s: &mut Session, id: u8, r: Action)
    requires
        call_ensures(Session::on_client_disconnected, (s, id), r),
    ensures
        old(s)@.cursor.mode == Mode::Remote(id) ==> final(s)@.cursor.mode is Local
            && r is SwitchToLocal,
        old(s)@.cursor.mode != Mode::Remote(id) ==> final(s)@.cursor == old(s)@.cursor
            && r is Nothing,
        forall|other: u8| #[trigger]
            final(s)@.present.contains(other) <==> old(s)@.present.contains(other) && other != id,
        final(s)@.layout == old(s)@.layout,
{
}

/// A client that connects is present from then on.
pub proof fn a_client_that_connects(s: &mut Session, id: u8)
    requires
        call_ensures(Session::on_client_connected, (s, id), ()),
    ensures
        forall|other: u8| #[trigger]
            final(s)@.present.contains(other) <==> old(s)@.present.contains(other) || other == id,
        final(s)@.cursor == old(s)@.cursor,
        final(s)@.layout == old(s)@.layout,
        final(s)@.locked == old(s)@.locked,
{
}

// ---------------------------------------------------------------------
// The server
// ---------------------------------------------------------------------

/// Whenever the cursor leaves a registered client, the first effect tells
/// that client so, on its own connection and under its own id: before any
/// other client is told to enter.
pub proof fn whoever_loses_the_cursor_is_told_first(
    h: &mut Hub,
    action: Action,
    now_ms: u64,
    r: Vec<Effect>,
    k: int,
)
    requires
        call_ensures(Hub::apply_action, (h, action, now_ms), r),
        old(h)@.active is Some,
        is_client(old(h)@.clients, old(h)@.active->0, k),
        final(h)@.active != old(h)@.active,
    ensures
        r@.len() > 0,
        r@[0] == (Effect::Queue {
            conn: old(h)@.clients[k].conn,
            item: Outbound::Tcp(Message::Leave { screen_id: old(h)@.active->0 }),
        }),
{
    let m = h@;
    match action {
        Action::SwitchTo { to, x, y } => {
            if exists|j: int| is_client(m.clients, to, j) {
                let j = choose|j: int| is_client(m.clients, to, j);
                a_switch_says_goodbye_and_then_hello(m, to, x, y, now_ms, j);
            } else {
                lemma_nobody(m.clients, to, m.clients.len() as int);
                a_switch_says_goodbye_and_then_hello(m, to, x, y, now_ms, 0);
            }
        },
        Action::SwitchToLocal { x, y } => {
            a_switch_home_says_goodbye(m, x, y, now_ms);
        },
        Action::Send(msg) => {
            input_goes_to_the_holder(m, msg, now_ms, k);
        },
        Action::Nothing => {
            input_goes_to_the_holder(m, Message::KeepAlive, now_ms, k);
        },
    }
}

/// Where no index holds the first client with an id, nobody has it.
proof fn lemma_nobody(cs: Seq<Client>, id: u8, n: int)
    requires
        0 <= n <= cs.len(),
        forall|j: int| !#[trigger] is_client(cs, id, j),
    ensures
        forall|j: int| 0 <= j < n ==> (#[trigger] cs[j]).id != id,
    decreases n,
{
    if n > 0 {
        lemma_nobody(cs, id, n - 1);
        assert(!is_client(cs, id, n - 1));
    }
}

/// A client gets the cursor by being told to enter, at the point that the
/// session chose, after everything else that is said on the way.
pub proof fn whoever_gets_the_cursor_is_told(
    h: &mut Hub,
    to: u8,
    x: i32,
    y: i32,
    now_ms: u64,
    r: Vec<Effect>,
    k: int,
)
    requires
        call_ensures(Hub::apply_action, (h, Action::SwitchTo { to, x, y }, now_ms), r),
        is_client(old(h)@.clients, to, k),
    ensures
        final(h)@.active == Some(to),
        r@.len() >= 4,
        r@[r@.len() - 4] == (Effect::Queue {
            conn: old(h)@.clients[k].conn,
            item: Outbound::Tcp(Message::Enter { screen_id: to, x, y }),
        }),
        r@[r@.len() - 3] == Effect::GrabInput(true),
        r@[r@.len() - 2] == Effect::IsolateInput(true),
        r@[r@.len() - 1] == Effect::ShowCursor(false),
{
    a_switch_says_goodbye_and_then_hello(h@, to, x, y, now_ms, k);
}

/// The calls of the server are steps of its state.
pub proof fn each_hub_call_is_a_step(
    h: &mut Hub,
    action: Action,
    actions: Vec<Action>,
    order: UserAction,
    msg: Message,
    now: u64,
    now_ms: u64,
    r: Vec<Effect>,
)
    ensures
        call_ensures(Hub::apply_action, (h, action, now_ms), r) ==> (final(h)@, r@) == old(
            h,
        )@.applied(action, now_ms),
        call_ensures(Hub::apply_actions, (h, actions, now_ms), r) ==> (final(h)@, r@) == old(
            h,
        )@.applied_all(actions@, now_ms),
        call_ensures(Hub::handle_local_input, (h, msg, now, now_ms), r) ==> (final(h)@, r@) == old(
            h,
        )@.fed(msg, now, now_ms),
        call_ensures(Hub::handle_user_action, (h, &order, now_ms), r) ==> (final(h)@, r@) == old(
            h,
        )@.ordered(order, now_ms),
        call_ensures(Hub::check_active_beacon_staleness, (h, now_ms), r) ==> (final(h)@, r@)
            == old(h)@.watched(now_ms),
{
}

/// What comes from a client, and what becomes of its connection, are steps
/// of the server's state too.
pub proof fn each_client_event_is_a_step(
    h: &mut Hub,
    id: u8,
    conn: u64,
    gone: bool,
    from: Endpoint,
    seq: u32,
    newer: bool,
    msg: Message,
    now: u64,
    now_ms: u64,
    r: Vec<Effect>,
)
    ensures
        call_ensures(Hub::teardown, (h, conn, now_ms), r) ==> (final(h)@, r@) == old(h)@.torn_down(
            conn,
            now_ms,
        ),
        call_ensures(Hub::disconnect_client, (h, id, gone, now_ms), r) ==> (final(h)@, r@) == old(
            h,
        )@.disconnected(id, gone, now_ms),
        call_ensures(Hub::handle_client_message, (h, id, msg, now, now_ms), r) ==> (
            final(h)@,
            r@,
        ) == old(h)@.heeded(id, msg, now, now_ms),
        call_ensures(Hub::datagram, (h, id, from, seq, newer, &msg, now, now_ms), r) ==> (
            final(h)@,
            r@,
        ) == old(h)@.received(id, from, seq, newer, msg, now, now_ms),
{
}

/// So are what the operator changes and who is let in.
pub proof fn each_change_is_a_step(
    h: &mut Hub,
    e: &mut ActionEngine,
    policy: Policy,
    layout: Layout,
    name: &str,
    command: Command,
    control: Control,
    kind: KeyKind,
    key: u32,
    client: Client,
    ip: PeerIp,
    addr: String,
    info: ScreenInfo,
    admitted: bool,
    now: u64,
    now_ms: u64,
    r: Vec<Effect>,
)
    ensures
        call_ensures(Hub::apply_policy, (h, policy, now_ms), r) ==> (final(h)@, r@) == old(
            h,
        )@.governed(policy, now_ms),
        call_ensures(Hub::reload, (h, layout, now_ms), r) ==> (final(h)@, r@) == old(h)@.reloaded(
            layout@,
            now_ms,
        ),
        call_ensures(Hub::drop_stale_clients, (h, now_ms), r) ==> (final(h)@, r@) == old(
            h,
        )@.disconnected_all(old(h)@.stale(), false, now_ms),
        call_ensures(Hub::apply_client_command, (h, name, command, now_ms), r) ==> (
            final(h)@,
            r@,
        ) == old(h)@.commanded(name@, command, now_ms),
        call_ensures(Hub::register, (h, client, ip, addr, info, admitted), r) ==> (
            final(h)@,
            r@,
        ) == old(h)@.registered(client, ip, addr, info, admitted),
        call_ensures(apply_control, (h, e, control, now_ms), r) ==> (final(h)@, r@) == controlled(
            old(h)@,
            control,
            now_ms,
        ),
        call_ensures(apply_key, (h, e, kind, key, now, now_ms), r) ==> (final(h)@, r@) == keyed(
            old(h)@,
            old(e)@,
            kind,
            key,
            now,
            now_ms,
        ) && final(e)@ == old(e)@.keyed(kind, key, now),
{
}

/// A server starts with nobody registered and the cursor at nobody's, and
/// lets it go only to clients that are present.
pub proof fn a_server_starts_alone(session: Session, policy: Policy, h: Hub)
    requires
        call_ensures(Hub::new, (session, policy), h),
    ensures
        h@.clients.len() == 0,
        h@.active is None,
        h@.policy == policy,
        h@.session.guarded,
        h@.session.layout == session@.layout,
        h@.session.cursor == session@.cursor,
        forall|id: u8| !#[trigger] h@.session.present.contains(id),
        forall|id: u8|
            !(#[trigger] h@.addrs.contains_key(id)) && !h@.seqs.contains_key(id)
                && !h@.heard.contains_key(id) && !h@.ips.contains_key(id),
{
}

/// The list of clients follows the events.
pub proof fn each_event_is_listed(l: &mut Roster, evt: ServerEvent)
    requires
        call_ensures(Roster::on_event, (l, &evt), ()),
    ensures
        final(l)@ == after_event(old(l)@, evt),
{
}

// ---------------------------------------------------------------------
// Around them
// ---------------------------------------------------------------------

/// A version of the config that could be used is in use from then on; one
/// that could not is tried again.
pub proof fn a_usable_version_is_in_use(w: &mut Watch, stamp: Stamp, usable: bool)
    requires
        call_ensures(Watch::on_read, (w, stamp, usable), ()),
    ensures
        usable ==> final(w).in_use() == Some(stamp),
        !usable ==> final(w).in_use() == old(w).in_use(),
{
}

/// A logger keeps its level where it is given one that it does not know,
/// and its component once it has one.
pub proof fn a_logger_keeps_what_it_knows(
    log: &mut Logger,
    level: &str,
    program: &Option<String>,
    r: Result<(), String>,
)
    requires
        call_ensures(init, (log, level, program), r),
    ensures
        r is Err ==> final(log).limit_of() == old(log).limit_of() && final(log).component_of()
            == old(log).component_of(),
        r is Ok ==> final(log).component_of() is Some,
        old(log).component_of() is Some ==> final(log).component_of() == old(log).component_of(),
{
}

/// A size that a client reports goes to the first screen of its name, at
/// least one pixel each way, and is news where it differs. Nothing else in
/// the config changes.
pub proof fn a_reported_size_is_recorded(
    cfg: &mut Config,
    name: &str,
    width: u32,
    height: u32,
    r: bool,
    k: int,
)
    requires
        call_ensures(Config::record_reported_size, (cfg, name, width, height), r),
        0 <= k < old(cfg).screens@.len(),
        old(cfg).screens@[k].name@ == name@,
        forall|j: int| 0 <= j < k ==> (#[trigger] old(cfg).screens@[j]).name@ != name@,
    ensures
        final(cfg).screens@.len() == old(cfg).screens@.len(),
        final(cfg).screens@[k].width == if width > 0 { width } else { 1 },
        final(cfg).screens@[k].height == if height > 0 { height } else { 1 },
        final(cfg).screens@[k].name == old(cfg).screens@[k].name,
        final(cfg).screens@[k].x == old(cfg).screens@[k].x,
        final(cfg).screens@[k].y == old(cfg).screens@[k].y,
        forall|j: int|
            0 <= j < old(cfg).screens@.len() && j != k ==> #[trigger] final(cfg).screens@[j]
                == old(cfg).screens@[j],
        r <==> final(cfg).screens@[k].width != old(cfg).screens@[k].width
            || final(cfg).screens@[k].height != old(cfg).screens@[k].height,
        final(cfg).port == old(cfg).port,
        final(cfg).network == old(cfg).network,
{
    assert(first_named(old(cfg).screens@, name@, k));
}

/// A measured window tells how far the cursor went since the last report
/// and how many counts the device gave, on both axes together, and which
/// window it is. The next window starts where this one ended.
pub proof fn what_a_measured_window_tells(
    g: &mut GainTracker,
    x: i32,
    y: i32,
    r: Option<Window>,
    last: (i32, i32),
)
    requires
        call_ensures(GainTracker::on_beacon, (g, x, y), r),
        old(g)@.last == Some(last),
    ensures
        ({
            let (dx, dy) = (x - last.0, y - last.1);
            let (cx, cy) = old(g)@.rel;
            let went = (if dx < 0 { -dx } else { dx }) + (if dy < 0 { -dy } else { dy });
            let counts = (if cx < 0 { -cx } else { cx }) + (if cy < 0 { -cy } else { cy });
            &&& r is Some <==> counts >= 12 && 4 <= went <= 4 * counts
            &&& r matches Some(w) ==> w.travel == went && w.rel == counts && w.sample == old(
                g,
            )@.samples + 1
            &&& final(g)@.samples == old(g)@.samples + if r is Some { 1int } else { 0 }
            &&& final(g)@.last == Some((x, y))
            &&& final(g)@.rel == (0int, 0int)
        }),
{
    a_window_is_measured_when_it_is_motion(g@, x as int, y as int);
}

/// A newcomer is let in under the first screen of its name, or else under
/// one of its own, made right of the desktop. The server's own name is
/// nobody else's.
pub proof fn who_gets_which_screen(
    s: &mut Session,
    name: &str,
    info: ScreenInfo,
    r: Option<(u8, bool)>,
)
    requires
        call_ensures(Session::admit_client, (s, name, info), r),
    ensures
        r is None <==> own_name(old(s)@.layout, name@),
        r is None ==> final(s)@ == old(s)@,
        r matches Some((id, made)) ==> {
            &&& !made ==> final(s)@ == old(s)@ && named_screen(old(s)@.layout, name@) is Some
                && named_screen(old(s)@.layout, name@)->0.id == id
            &&& made ==> named_screen(old(s)@.layout, name@) is None && with_newcomer(
                old(s)@,
                final(s)@,
                id,
                name@,
                info,
            )
        },
{
}

/// A client's new size goes to its screen, which stays where it is; nothing
/// else of the session changes.
pub proof fn a_client_tells_its_size(s: &mut Session, id: u8, info: ScreenInfo)
    requires
        call_ensures(Session::update_screen_info, (s, id, info), ()),
    ensures
        final(s)@.layout == resized(old(s)@.layout, id, info),
        final(s)@.cursor == old(s)@.cursor,
        final(s)@.present == old(s)@.present,
        final(s)@.guests == old(s)@.guests,
        final(s)@.locked == old(s)@.locked,
{
}

/// A removed client takes the cursor home where it had it, and its screen
/// is gone from the desktop; every other one stays.
pub proof fn a_removed_client(s: &mut Session, id: u8, r: Action, e: Screen)
    requires
        call_ensures(Session::on_client_removed, (s, id), r),
    ensures
        old(s)@.cursor.mode == Mode::Remote(id) ==> r is SwitchToLocal
            && final(s)@.cursor.mode is Local,
        old(s)@.cursor.mode != Mode::Remote(id) ==> r is Nothing && final(s)@.cursor == old(
            s,
        )@.cursor,
        final(s)@.layout.contains(e) <==> old(s)@.layout.contains(e) && e.id != id,
        !final(s)@.present.contains(id),
{
    let st = if s@.cursor.mode == Mode::Remote(id) {
        homecoming(s@).0.parted(id)
    } else {
        s@.parted(id)
    };
    a_removed_screen_is_gone(st, id, e);
}

} // verus!
