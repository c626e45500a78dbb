//! The error type shared by every fallible operation of the library.
use vstd::prelude::*;

verus! {

/// Makes `std::io::Error` usable as a field: it is carried, never inspected.
#[verifier::external_type_specification]
#[verifier::external_body]
pub struct ExIoError(std::io::Error);

/// Everything that can go wrong while pairing with a peer and moving data.
#[derive(Debug)]
pub enum DropWireError {
    InvalidCodePhrase(String),
    Crypto(String),
    Network(String),
    Protocol(String),
    Io(std::io::Error),
    Cancelled,
    PeerDisconnected,
    HashMismatch,
    Timeout,
}

/// A protocol error carrying `msg`.
pub fn protocol_error(msg: &str) -> (e: DropWireError)
    ensures
        e matches DropWireError::Protocol(m) && m@ == msg@,
{
    DropWireError::Protocol(msg.to_string())
}

/// A crypto error carrying `msg`.
pub fn crypto_error(msg: &str) -> (e: DropWireError)
    ensures
        e matches DropWireError::Crypto(m) && m@ == msg@,
{
    DropWireError::Crypto(msg.to_string())
}

/// A network error carrying `msg`.
pub fn network_error(msg: &str) -> (e: DropWireError)
    ensures
        e matches DropWireError::Network(m) && m@ == msg@,
{
    DropWireError::Network(msg.to_string())
}

} // verus!
