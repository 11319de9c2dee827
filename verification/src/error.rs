//! The failures that the library reports.

use vstd::prelude::*;

verus! {

/// Why a frame, a package or a request to the correlator was refused.
#[derive(Debug, Clone, Copy, PartialEq, Eq, Structural)]
pub enum ProtocolFault {
    /// Fewer bytes than the layout asks for.
    Truncated,
    /// The event type byte is neither initial nor response.
    BadEventType,
    /// The name is empty.
    EmptyName,
    /// A name or namespace is longer than 255 bytes.
    TextTooLong,
    /// A name or namespace is not UTF-8.
    InvalidText,
    /// The payload is longer than the connection allows.
    PayloadTooLarge,
    /// A response that refers to no event.
    ZeroReference,
    /// A package whose length does not fit its prefix.
    PackageTooLarge,
    /// A reply slot for this id is already waiting.
    DuplicateId,
    /// The connection holds as many reply slots as it may.
    TooManyPending,
    /// The connection has issued every id it has.
    IdsExhausted,
    /// The connection has issued no event with this id.
    UnknownId,
}

/// Why a payload could not be taken apart.
#[derive(Debug, Clone, Copy, PartialEq, Eq, Structural)]
pub enum SerializationFault {
    /// The blob ends before the payload does.
    Truncated,
    /// The format id names no serializer.
    UnknownFormat,
}

/// The kinds of failure.
#[derive(Debug, Clone, Copy, PartialEq, Eq, Structural)]
pub enum Error {
    /// The transport failed.
    Io,
    /// A frame could not be parsed, or a limit was exceeded.
    Protocol(ProtocolFault),
    /// A payload could not be encoded or decoded.
    Serialization(SerializationFault),
    /// The handshake or the authentication of a package failed.
    Crypto,
    /// No reply came before the deadline.
    Timeout,
    /// No handler is registered for the event.
    UnknownEvent,
    /// A handler returned a failure.
    HandlerFailure,
    /// The connection is shutting down.
    Closed,
}

impl Error {
    /// Whether this failure ends the connection: transport, protocol and
    /// crypto failures do, the others concern one caller only.
    pub open spec fn fatal(self) -> bool {
        self is Io || self is Protocol || self is Crypto
    }

    /// Whether this failure ends the connection.
    pub fn is_fatal(&self) -> (r: bool)
        ensures
            r == self.fatal(),
    {
        match self {
            Error::Io => true,
            Error::Protocol(_) => true,
            Error::Crypto => true,
            _ => false,
        }
    }
}

} // verus!
