//! Signaling for a peer-to-peer real-time connection: length-prefixed
//! framing over a reliable stream, a pull queue of discovered candidates, a
//! one-shot rendezvous for the remote data channel, and the initiator and
//! responder negotiations as state machines that never deadlock on one
//! bidirectional stream.

pub mod channel;
pub mod discovery;
pub mod error;
pub mod handoff;
pub mod negotiation;
