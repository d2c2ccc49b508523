//! Error taxonomy of the wire layer. Every error is recoverable: the message
//! at fault is dropped and the connection stays open.

use vstd::prelude::*;

verus! {

/// Errors of the first-generation message codecs (handshake and transaction
/// broadcast), whose decoders check the payload length themselves.
#[derive(Debug, PartialEq, Eq, Structural, Clone, Copy)]
pub enum ProtocolMessageError {
    /// The payload length falls outside the kind's accepted range; carries the
    /// offending length.
    InvalidMessageLength(usize),
    /// A fixed-width integer field could not be reconstructed from its span.
    InvalidMessageField,
    /// The header advertises a different message kind than the one decoded.
    InvalidMessageType(u8),
}

/// Errors of the header-framed message codecs and of the TLV layer, which
/// checks the advertised payload length before handing bytes to a decoder.
#[derive(Debug, PartialEq, Eq, Structural, Clone, Copy)]
pub enum MessageError {
    /// The payload length falls outside the kind's accepted range; carries the
    /// offending length.
    InvalidPayloadLength(usize),
    /// A fixed-width integer field could not be reconstructed from its span.
    InvalidPayloadField,
    /// The header advertises a different message kind than the one decoded.
    InvalidMessageType(u8),
}

} // verus!
