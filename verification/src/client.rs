//! The client side: the machine that a server controls.
//!
//! The server steers the cursor by a closed loop: every received motion
//! frame advances a commanded position, and the motion loop places the
//! real cursor on the command each tick (or corrects toward it). There is
//! no replay queue, so no backlog can ever form. Everything that touches
//! the machine is the caller's part: the library says what to do, in
//! which order.

pub mod connect;
pub mod dispatch;
pub mod events;
pub mod injector;
pub mod laws;
pub mod pace;
pub mod retry;
pub mod steering;

pub use crate::clipboard::Clipboard;
pub use injector::Injector;
