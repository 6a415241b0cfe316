//! The platform hook a client calls to affect the local machine.
use vstd::prelude::*;

use crate::protocol::{KeyKind, ScreenInfo};

verus! {

/// The platform hook a client calls to affect the local machine. The
/// server controls this machine, so every call here makes the local
/// machine do what the server asked.
pub trait Injector: Send {
    /// The client's screen shape.
    fn screen_info(&mut self) -> ScreenInfo;

    /// Move the local cursor to local screen pixels.
    fn move_cursor(&mut self, x: i32, y: i32);

    /// Apply relative cursor motion.
    fn move_rel(&mut self, dx: i32, dy: i32);

    /// Whether this backend places the cursor absolutely for motion,
    /// rather than forwarding relative input for the system to transform.
    /// Default: relative.
    fn absolute_motion(&self) -> (r: bool)
        default_ensures
            !r,
    {
        false
    }

    /// The cursor's real position in local screen pixels.
    fn cursor_position(&mut self) -> (i32, i32);

    fn button(&mut self, button: u8, pressed: bool);

    fn wheel(&mut self, dx: i32, dy: i32);

    /// Press, release or repeat a key, by its canonical HID usage id.
    fn key(&mut self, kind: KeyKind, key: u32);

    /// Control has entered this machine.
    fn enter(&mut self);

    /// Control has left this machine.
    fn leave(&mut self);

    /// Called once per steering tick while this machine is controlled.
    fn steer_heartbeat(&mut self) {
    }

    /// Force-restore local input after a stall.
    fn emergency_release(&mut self) {
    }

    /// Whether the machine resumed from sleep since the session started.
    /// Default: never.
    fn system_resumed(&mut self) -> (r: bool)
        default_ensures
            !r,
            &*final(self) == &*old(self),
    {
        false
    }

    /// Whether the machine shows a desktop that cannot receive injected
    /// input right now. Default: never.
    fn secure_desktop_active(&mut self) -> (r: bool)
        default_ensures
            !r,
            &*final(self) == &*old(self),
    {
        false
    }
}

} // verus!
