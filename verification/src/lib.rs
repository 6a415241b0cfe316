//! Keyboard and mouse sharing across machines on one virtual desktop.
//!
//! One machine (the server) owns the keyboard and mouse; the others
//! (clients) are placed around it on a 2-D plane. The library holds the
//! rules of that desktop as verified code:
//!
//! * [`layout`], [`snap`], [`issues`]: the screens on the plane, the ray
//!   cast that picks the destination of a crossing, and what is cleaned up
//!   or warned about in an arrangement;
//! * [`session`] (with [`walls`] and [`clock`]): the cursor model and the
//!   decisions that move control from one screen to another;
//!   [`session_laws`] states what those decisions guarantee;
//! * [`actions`]: shortcuts, as chords of canonical key codes;
//! * [`motion`]: the commanded cursor position, and the measurements of
//!   how the real cursor follows;
//! * [`server`]: who may connect, which clients are registered, and what
//!   a session's actions mean for them;
//! * [`client`]: what a controlled machine does with what it is told;
//! * [`config`], [`args`], [`log`], [`guard`], [`places`], [`trust`],
//!   [`machine_id`], [`client_state`]: the rules around the two programs.
//!
//! What the library promises stands beside the rules, as proved laws over
//! plain coordinates, times and texts: [`layout_laws`], [`crossing_laws`],
//! [`desktop_laws`] and [`snap_laws`] of the desktop, `laws` modules of the
//! shortcuts, the client, the server and the config, [`text_laws`] and
//! [`program_laws`] of the rest; [`call_laws`] and [`result_laws`] say what
//! single calls do and give.
//!
//! The library does no I/O: callers hand it messages, file contents and
//! times, and carry out what it answers. Where a function needs the time,
//! a variant that ends in `_at` takes it as an argument.
#![allow(unused_imports)]

pub mod actions;
pub mod args;
pub mod call_laws;
pub mod client;
pub mod client_state;
pub mod clipboard;
pub mod clock;
pub mod config;
pub mod crossing_laws;
pub mod desktop_laws;
pub mod guard;
pub mod issues;
pub mod layout;
pub mod layout_laws;
pub mod log;
pub mod machine_id;
pub mod motion;
pub mod places;
pub mod program_laws;
pub mod protocol;
pub mod result_laws;
pub mod server;
pub mod session;
pub mod session_laws;
pub mod snap;
pub mod snap_laws;
pub mod text;
pub mod text_laws;
pub mod trust;
pub mod walls;

pub use layout::{Direction, Layout};

use vstd::prelude::*;

verus! {

/// Where the cursor currently is.
#[derive(Debug, Clone, Copy, PartialEq, Eq, Structural)]
pub enum Mode {
    /// On the local (server) screen.
    Local,
    /// On a remote client screen with the given id.
    Remote(u8),
}

} // verus!
