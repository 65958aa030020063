//! Error taxonomy of the client.
use vstd::prelude::*;

verus! {

/// Failure to open a connection.
#[derive(PartialEq, Eq, Structural, Clone, Copy, Debug)]
pub enum ConnectError {
    Timeout,
    Refused,
    HandshakeMismatch,
}

/// A peer that broke the protocol; fatal to its connection.
#[derive(PartialEq, Eq, Structural, Clone, Copy, Debug)]
pub enum ProtocolError {
    CorruptFrame,
    UnexpectedOpcode,
}

/// Failure of one request.
#[derive(PartialEq, Eq, Structural, Clone, Copy, Debug)]
pub enum RequestError {
    TimedOut,
    ConnectionLost,
    Unavailable,
    ReadTimeout,
    WriteTimeout,
    PoolTimeout,
    StreamsExhausted,
}

} // verus!
