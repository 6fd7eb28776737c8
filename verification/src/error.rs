//! Error taxonomy of the exchange engine.

use vstd::prelude::*;

verus! {

/// Transport error classes the engine distinguishes.
#[derive(Debug, Clone, Copy, PartialEq, Eq, Structural)]
pub enum IoKind {
    WouldBlock,
    BrokenPipe,
    WriteZero,
    UnexpectedEof,
    Other,
}

/// Codec parse failure classes.
#[derive(Debug, Clone, Copy, PartialEq, Eq, Structural)]
pub enum ParseError {
    /// The response head is malformed or has too many header fields.
    Header,
    /// A chunked-encoding size line or chunk framing is malformed.
    Chunk,
}

/// Terminal and programming errors of one exchange.
#[derive(Debug, Clone, Copy, PartialEq, Eq, Structural)]
pub enum Error {
    /// The serialized request header exceeds the header buffer capacity,
    /// which is carried along.
    RequestTooLarge(usize),
    /// A staging buffer cannot hold the required bytes.
    BufferExceeded,
    /// `prepare` was called after the end of the body was latched.
    FurtherInputNotAllowed,
    /// The handle's inner state was already consumed.
    Unusable,
    /// A transport error surfaced directly or through the codec.
    Io(IoKind),
    /// The peer's response violates the protocol.
    Protocol(ParseError),
}

} // verus!
