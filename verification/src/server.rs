//! The server side: who may connect, which clients are registered, and
//! what a session's actions mean for them.

pub mod admission_laws;
pub mod control;
pub mod engine;
pub mod hello;
pub mod history;
pub mod hub;
pub mod hub_laws;
pub mod laws;
pub mod link;
pub mod liveness;
pub mod net;
pub mod occupancy;
pub mod orders;
pub mod policy;
pub mod roster;

pub use control::Control;
pub use engine::Engine;
pub use hub::{Hub, ServerEvent};
pub use liveness::{Liveness, EXIT_RESTART};
pub use policy::Policy;
