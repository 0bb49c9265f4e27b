//! The verified core of a bidirectional, event-oriented messaging layer
//! over websockets: the packet protocol and its codecs, the client and
//! server state machines, per-scope event registries, namespaces with
//! rooms, and broadcast target resolution. Transport, timers and task
//! plumbing live with the caller; everything here carries contracts.

pub mod atomic_enum;
pub mod broadcast;
pub mod client;
pub mod codec;
pub mod connection;
pub mod error;
pub mod idset;
pub mod namespace;
pub mod packet;
pub mod paths;
pub mod registry;
pub mod server;
pub mod stdspecs;

use vstd::prelude::*;

verus! {

/// Clamps a raw outbound-channel capacity into the supported range.
///
/// The raw value is derived from the websocket buffer budget by the caller;
/// whatever it is, the queue depth stays between 64 and 16384 slots.
pub fn clamp_channel_capacity(raw: usize) -> (capacity: usize)
    ensures
        capacity == if raw < 64 {
            64usize
        } else if raw > 16384 {
            16384usize
        } else {
            raw
        },
{
    if raw < 64 {
        64
    } else if raw > 16384 {
        16384
    } else {
        raw
    }
}

} // verus!
