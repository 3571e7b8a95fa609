//! What can go wrong on a socket.
use crate::message::ZmqMessage;
use vstd::prelude::*;

verus! {

/// The kind of an I/O failure.
#[derive(Debug, Copy, Clone, PartialEq, Eq, Structural)]
pub enum IoErrorKind {
    BrokenPipe,
    ConnectionAborted,
    TimedOut,
    Other,
}

/// A frame that cannot be read or written.
#[derive(Debug, Copy, Clone)]
pub enum CodecError {
    /// A command that is not part of the protocol.
    Command(&'static str),
    /// Octets that do not follow the grammar.
    Decode(&'static str),
    /// The stream below failed.
    Io(IoErrorKind),
}

#[derive(Debug)]
pub enum ZmqError {
    Codec(CodecError),
    Socket(&'static str),
    /// A send queue is full.
    BufferFull(&'static str),
    /// A message that could not be sent, handed back.
    ReturnToSender { reason: &'static str, message: ZmqMessage },
    NoMessage,
}

} // verus!
