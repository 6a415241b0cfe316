//! The platform hook the server calls to control the *local* machine.
use vstd::prelude::*;

verus! {

/// The platform hook the server calls to control the *local* machine.
pub trait Engine: Send {
    /// Warp the local cursor to a local-screen position.
    fn warp_local(&mut self, x: i32, y: i32);

    /// Take (or release) exclusive ownership of the local keyboard and
    /// pointer while the cursor is on a client screen. A best-effort
    /// call: platforms that cannot grab simply do nothing.
    fn grab_input(&mut self, grabbed: bool);

    /// Isolate (or release) the physical input devices from the local
    /// desktop entirely while the cursor is on a client. Best-effort:
    /// platforms without kernel device isolation do nothing.
    fn isolate_input(&mut self, _isolated: bool) {
    }

    /// Hide/show the local cursor while away / at home.
    fn show_local_cursor(&mut self, visible: bool);

    /// Publish the keyboard chords the capture layer must intercept at
    /// the OS level. Each pair is `(mods, key)`: `key` is the chord's
    /// canonical HID usage, `mods` a 4-bit mask (bit 0 ctrl, bit 1 alt,
    /// bit 2 shift, bit 3 meta). Replaces the previous set. Best-effort.
    fn set_bound_chords(&mut self, _chords: Vec<(u8, u32)>) {
    }
}

} // verus!
