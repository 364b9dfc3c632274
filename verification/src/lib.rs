//! Forwarding of gamepads and other input devices to a server that replays them.

use vstd::prelude::*;

pub mod ack;
pub mod client;
pub mod clock;
pub mod codes;
pub mod device;
pub mod digits;
pub mod exchange;
pub mod forward;
pub mod frame;
pub mod history;
pub mod keys;
pub mod path;
pub mod protocol;
pub mod reconnect;
pub mod server;
pub mod service;
pub mod stream;
pub mod surroundings;
pub mod table;
pub mod text;
pub mod transport;
pub mod trust;
pub mod udp;
pub mod wire;

pub use crate::protocol::ALPN;

verus! {

/// Returns this crate's display name.
pub fn name() -> (r: &'static str)
    ensures
        r@ == "joycast"@,
{
    "joycast"
}

} // verus!
