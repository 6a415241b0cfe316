//! Control messages from the app layer, and the local keyboard.
use vstd::prelude::*;
use vstd::string::*;

use crate::actions::{safe_bindings, ActionEngine, BindSection, Chords, KeyFate};
use crate::layout::Layout;
use crate::protocol::{Command, KeyKind, Message};
use crate::server::hub::{Effect, Hub, HubState};
use crate::server::policy::Policy;
use crate::session::bounded_layout;
use crate::Mode;

verus! {

/// Control messages from the app layer (never travel over the wire).
#[derive(Debug)]
pub enum Control {
    /// The config changed on disk: adopt this new desktop layout and
    /// these shortcut bindings now.
    Reload(Layout, BindSection),
    /// The network policy changed: adopt it now. Any *connected* client
    /// whose machine id is in the new `revoked_ids` is disconnected on
    /// the spot.
    SetPolicy(Policy),
    /// Send an operational command to one connected client, looked up by
    /// its screen name.
    ClientCommand { name: String, command: Command },
}

/// The server after a control message.
pub open spec fn controlled(h: HubState, c: Control, now_ms: u64) -> (HubState, Seq<Effect>) {
    match c {
        Control::Reload(layout, _) => h.reloaded(layout@, now_ms),
        Control::SetPolicy(policy) => h.governed(policy, now_ms),
        Control::ClientCommand { name, command } => h.commanded(name@, command, now_ms),
    }
}

/// Apply an app-layer control message.
pub fn apply_control(
    hub: &mut Hub,
    engine: &mut ActionEngine,
    control: Control,
    now_ms: u64,
) -> (r: Vec<Effect>)
    requires
        old(hub).wf(),
        control matches Control::Reload(layout, _) ==> bounded_layout(layout@),
    ensures
        final(hub).wf(),
        final(hub)@ == controlled(old(hub)@, control, now_ms).0,
        r@ == controlled(old(hub)@, control, now_ms).1,
        final(engine)@ == match control {
            Control::Reload(_, bindings) => (Chords {
                enabled: bindings.enabled,
                bindings: safe_bindings(bindings.bindings@),
                pending: None,
                ..old(engine)@
            }),
            _ => old(engine)@,
        },
{
    match control {
        Control::ClientCommand { name, command } => hub.apply_client_command(
            name.as_str(),
            command,
            now_ms,
        ),
        Control::SetPolicy(policy) => hub.apply_policy(policy, now_ms),
        Control::Reload(layout, bindings) => {
            engine.set_config(bindings);
            hub.reload(layout, now_ms)
        },
    }
}

/// The server after a local key, with what the engine makes of it: a
/// command is carried out, a consumed key goes nowhere, and any other is
/// local input.
pub open spec fn keyed(
    h: HubState,
    c: Chords,
    kind: KeyKind,
    key: u32,
    now: u64,
    now_ms: u64,
) -> (HubState, Seq<Effect>) {
    match c.fate(kind, key, h.session.cursor.mode is Local) {
        KeyFate::Fire(action) => h.ordered(action, now_ms),
        KeyFate::Consume => (h, Seq::empty()),
        KeyFate::Forward => h.fed(Message::Key { kind, key }, now, now_ms),
    }
}

/// One local key: the engine sees it first, and the session gets what the
/// engine leaves. `now` is in nanoseconds on the clock that the engine and
/// the session share, `now_ms` on the server's.
pub fn apply_key(
    hub: &mut Hub,
    engine: &mut ActionEngine,
    kind: KeyKind,
    key: u32,
    now: u64,
    now_ms: u64,
) -> (r: Vec<Effect>)
    requires
        old(hub).wf(),
    ensures
        final(hub).wf(),
        final(hub)@ == keyed(old(hub)@, old(engine)@, kind, key, now, now_ms).0,
        r@ == keyed(old(hub)@, old(engine)@, kind, key, now, now_ms).1,
        final(engine)@ == old(engine)@.keyed(kind, key, now),
{
    let at_home: bool = match hub.session().mode() {
        Mode::Local => true,
        Mode::Remote(_) => false,
    };
    match engine.on_key_at(kind, key, at_home, now) {
        KeyFate::Fire(action) => hub.handle_user_action(&action, now_ms),
        KeyFate::Consume => Vec::new(),
        KeyFate::Forward => hub.handle_local_input(Message::Key { kind, key }, now, now_ms),
    }
}

} // verus!
