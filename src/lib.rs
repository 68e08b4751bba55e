//! Verified core of a small distributed data plane: address negotiation and
//! channel discovery between peers, a shared channel registry, typed
//! consumption queues with fan-out, and a router from channel ids to sinks.

use vstd::prelude::*;

pub mod channels;
pub mod codec;
pub mod message;
pub mod discovery;
pub mod wire;
pub mod queues;
pub mod router;

verus! {

/// The name of a data channel.
pub type ChannelId = String;

} // verus!
