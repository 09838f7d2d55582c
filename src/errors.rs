use vstd::prelude::*;

verus! {

/// Failures of a single link or send.
#[derive(Clone, Copy, Debug, PartialEq, Eq, Structural)]
pub enum NetworkError {
    Unreachable,
    Timeout,
    HandshakeFailed,
    TransportClosed,
    ResourceExhausted,
}

/// Failures found in an inbound message.
#[derive(Clone, Copy, Debug, PartialEq, Eq, Structural)]
pub enum ProtocolError {
    MalformedMessage,
    InvalidSignature,
    UnknownTransaction,
}

/// Failures of greedy routing.
#[derive(Clone, Copy, Debug, PartialEq, Eq, Structural)]
pub enum RoutingError {
    NoCandidatePeers,
    MaxHopsExceeded,
}

/// Failures of the transaction store.
#[derive(Clone, Copy, Debug, PartialEq, Eq, Structural)]
pub enum StateError {
    AlreadyExists,
    NotFound,
}

} // verus!
