use vstd::prelude::*;

verus! {

/// The single terminal failure of a negotiation: the first fault met.
#[derive(Debug, Clone, Copy, PartialEq, Eq, Structural)]
pub enum SignalingError {
    /// A frame could not be written to the signaling stream (or was refused
    /// before any byte was written: empty, too large, or after closing).
    TransportWrite,
    /// The signaling stream failed while reading.
    TransportRead,
    /// A received payload is not a well-formed descriptor or candidate.
    Codec,
    /// The media transport rejected a descriptor or candidate, or failed.
    MediaTransport,
    /// The responder's channel-open rendezvous was abandoned before delivery.
    HandoffAborted,
}

} // verus!
