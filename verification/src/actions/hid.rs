//! HID usages the engine distinguishes: the eight modifiers plus the keys
//! the default chords bind.
use vstd::prelude::*;

verus! {

pub const SCROLL_LOCK: u32 = 0x47;

pub const PAUSE: u32 = 0x48;

pub const CTRL_L: u32 = 0xE0;

pub const CTRL_R: u32 = 0xE4;

pub const SHIFT_L: u32 = 0xE1;

pub const SHIFT_R: u32 = 0xE5;

pub const ALT_L: u32 = 0xE2;

pub const ALT_R: u32 = 0xE6;

pub const META_L: u32 = 0xE3;

pub const META_R: u32 = 0xE7;

/// The usage of a modifier key: the eight keys from left control to right
/// meta.
pub open spec fn modifier(key: u32) -> bool {
    0xE0 <= key <= 0xE7
}

/// Is this usage one of the modifier keys?
pub fn is_modifier(key: u32) -> (r: bool)
    ensures
        r == modifier(key),
{
    key == CTRL_L || key == CTRL_R || key == SHIFT_L || key == SHIFT_R || key == ALT_L || key
        == ALT_R || key == META_L || key == META_R
}

} // verus!
