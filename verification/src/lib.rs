//! Signaling relay core: a registry of connected clients keyed by identifier,
//! the routing rules for the negotiation messages relayed between them, and
//! the frame type shared with the audio codec around it.

pub mod client_manager;
pub mod messaging;
pub mod laws;
pub mod router;

use vstd::prelude::*;

verus! {

/// A compressed audio frame as produced by the codec.
pub struct OpusFrame(pub Vec<u8>);

} // verus!
