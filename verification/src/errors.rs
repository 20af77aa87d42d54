//! The error type shared by every layer of the client.

use crate::handshake::errors::HandshakeError;
use vstd::prelude::*;

verus! {

/// The transport's own failure type, carried through unchanged.
#[verifier::external_type_specification]
#[verifier::external_body]
pub struct ExIoError(std::io::Error);

/// Everything that can go wrong while talking to an RTMP server.
#[derive(Debug)]
pub enum Error {
    /// The transport failed to read, write, connect or disconnect.
    Io(std::io::Error),
    /// A payload ended before the field being read was complete; `needed`
    /// is the size of that field.
    Incomplete { needed: usize },
    /// The handshake failed.
    Handshake(HandshakeError),
    /// A message header carried a type id that names no message type.
    InvalidMessageTypeId(u8),
    /// A chunk stream opened with a header that inherits from a chunk that
    /// never came.
    NoPriorChunk { chunk_stream_id: u32, format: u8 },
    /// A message began on a chunk stream while another was still incomplete
    /// there.
    MessageInProgress { chunk_stream_id: u32, format: u8 },
    /// A message names a chunk stream id outside 2 ..= 65599.
    InvalidChunkStreamId(u32),
    /// The peer announced a chunk size outside 1 ..= 2^31 - 1.
    InvalidChunkSize(u32),
    /// A peer bandwidth message carried a limit type other than 0, 1 or 2.
    InvalidLimitType(u8),
    /// A user control message carried an event type this client does not know.
    UnknownUserControlEvent(u16),
    /// A message arrived whose type this client does not handle.
    UnhandledMessageType(u8),
    /// A string on the wire was not UTF-8.
    InvalidUtf8,
    /// A string is too long for the 16-bit length that precedes it.
    StringTooLong,
    /// A message is too long for the 24-bit length in its header.
    MessageTooLong,
    /// An AMF value could not be decoded.
    AmfDecode,
    /// An AMF value could not be encoded.
    AmfEncode,
    /// A command did not start with a string or had no numeric transaction id.
    InvalidCommand,
    /// A response named a transaction that is not pending.
    UnknownTransaction(u32),
    /// The 32-bit transaction counter is used up.
    TransactionIdsExhausted,
    /// A message named a shared object that is not registered.
    UnknownSharedObject,
    /// The server called a procedure this client does not offer.
    UnsupportedCommand,
    /// The connection URL could not be parsed or names no host.
    InvalidUrl,
    /// The connection URL's scheme is not `rtmp`.
    UnsupportedScheme,
    /// An operation needs connection arguments, and none are recorded.
    NotConnected,
}

impl Error {
    /// Whether the session is over once this error has come up. It goes on
    /// after an unknown user control event, after a message of a type that
    /// the client does not handle, and after an answer to a transaction
    /// that is not pending: each came in a message that was read whole, and
    /// is set aside.
    pub open spec fn spec_ends_session(&self) -> bool {
        !(self is UnknownUserControlEvent || self is UnhandledMessageType
            || self is UnknownTransaction)
    }

    /// Tells whether the session is over once this error has come up.
    pub fn ends_session(&self) -> (r: bool)
        ensures
            r == self.spec_ends_session(),
    {
        match self {
            Error::UnknownUserControlEvent(_) => false,
            Error::UnhandledMessageType(_) => false,
            Error::UnknownTransaction(_) => false,
            _ => true,
        }
    }
}

} // verus!
