//! Errors of decoding, encoding and of the session.
use vstd::prelude::*;

verus! {

/// A malformed or unsupported piece of the wire format.
#[derive(Debug, Clone, PartialEq, Eq)]
pub enum DecodeError {
    /// A length field or a slice is too short or too long.
    InvalidLength(String),
    /// A fixed marker byte does not have its expected value.
    InvalidData(String),
    /// A field holds a value that the protocol does not define here.
    InvalidField(String),
}

impl DecodeError {
    /// An `InvalidLength` error with an empty message.
    pub fn invalid_length() -> (e: DecodeError)
        ensures
            e matches DecodeError::InvalidLength(m) && m@.len() == 0,
    {
        DecodeError::InvalidLength(String::new())
    }

    /// An `InvalidData` error with an empty message.
    pub fn invalid_data() -> (e: DecodeError)
        ensures
            e matches DecodeError::InvalidData(m) && m@.len() == 0,
    {
        DecodeError::InvalidData(String::new())
    }

    /// An `InvalidField` error with an empty message.
    pub fn invalid_field() -> (e: DecodeError)
        ensures
            e matches DecodeError::InvalidField(m) && m@.len() == 0,
    {
        DecodeError::InvalidField(String::new())
    }
}

} // verus!

verus! {

/// Why a session step failed.
#[derive(Debug)]
pub enum SessionError {
    /// The received bytes do not decode.
    DecodeError(DecodeError),
    /// The server asked for something that this client does not do.
    Unimplemented,
    /// Reading from the transport failed.
    TransportRead,
    /// Writing to the transport failed.
    TransportWrite,
    /// The transport reached its end in the middle of a packet.
    ServerClosedTransportConnection,
    /// A packet header announced a type other than a server response.
    InvalidPacketType { got: u8 },
    /// A packet header announced a length shorter than the header itself.
    PartialRead,
    /// An error of a collaborator, as text.
    MappedError(String),
    /// A requested packet size lies outside what the buffer accepts.
    InvalidPacketSize { requested: usize },
    /// The token stream ended before its final `DONE` token.
    UnexpectedEndOfStream {
        head: usize,
        tail: usize,
        eof: bool,
        peek: Option<u8>,
        hexdump: Vec<u8>,
    },
}

impl SessionError {
    /// The error for a failed transport read.
    pub fn transport_read_error() -> (e: SessionError)
        ensures
            e is TransportRead,
    {
        SessionError::TransportRead
    }

    /// The error for a failed transport write.
    pub fn transport_write_error() -> (e: SessionError)
        ensures
            e is TransportWrite,
    {
        SessionError::TransportWrite
    }

    /// Wraps a decoding error.
    pub fn from_decode(e: DecodeError) -> (r: SessionError)
        ensures
            r == SessionError::DecodeError(e),
    {
        SessionError::DecodeError(e)
    }
}

} // verus!

verus! {

/// Why a message could not be encoded.
#[derive(Debug)]
pub enum EncodeError {
    /// The message needs more room than the buffer gives.
    BufferTooSmall { required: usize, available: usize },
    /// A field holds a value that cannot be encoded.
    InvalidField,
    /// A row was pushed while the previous one was not sent.
    PreviousRowNotFlushed,
}

} // verus!
