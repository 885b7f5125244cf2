use vstd::prelude::*;

pub mod wire;
pub mod frame;
pub mod events;
pub mod messages;
pub mod channel;
pub mod reliable;
pub mod session;
pub mod server;
pub mod client;

pub use events::{PingEvent, PingPongCounter, PongEvent};

verus! {

/// Port the server listens on unless configured otherwise.
pub const SERVER_PORT: u16 = 5000;

} // verus!
