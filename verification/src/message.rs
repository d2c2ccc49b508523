//! The common shape of the header-framed message kinds, and the TLV layer
//! that frames a payload behind a three-byte header and validates the
//! advertised length against the kind's accepted range before decoding.

use vstd::prelude::*;
use std::ops::Range;
use crate::errors::MessageError;
use crate::header::Header;

verus! {

/// A fixed-schema message kind: a one-byte identifier, an accepted payload
/// length range, a decoder total over in-range payloads, and an encoder
/// producing exactly the bytes the decoder accepts. Every kind framed this
/// way is of a fixed size, so decoding is the exact inverse of encoding.
pub trait Message: Sized {
    /// The kind's fixed type identifier.
    spec fn spec_id() -> u8;

    /// Smallest accepted payload length, inclusive.
    spec fn spec_min() -> usize;

    /// Largest accepted payload length, inclusive.
    spec fn spec_max() -> usize;

    /// Well-formed instances: those whose encoding lies in the accepted range.
    spec fn wf(self) -> bool;

    /// The canonical payload encoding of this instance.
    spec fn spec_bytes(self) -> Seq<u8>;

    /// A well-formed instance encodes to an in-range payload, and the range
    /// itself stays clear of the machine limits the TLV layer relies on.
    proof fn lemma_wf_bytes(self)
        requires
            self.wf(),
        ensures
            Self::spec_min() <= self.spec_bytes().len() <= Self::spec_max(),
            Self::spec_max() < 0x1_0000,
    ;

    fn id() -> (r: u8)
        ensures
            r == Self::spec_id(),
    ;

    /// The accepted payload length range, lower bound inclusive, upper bound
    /// exclusive.
    fn size_range() -> (r: Range<usize>)
        ensures
            r.start == Self::spec_min(),
            r.end == Self::spec_max() + 1,
    ;

    /// Decodes an in-range payload: the one instance that encodes back to
    /// exactly these bytes. Totality over the range is the caller's to
    /// establish; the TLV layer checks it for wire input.
    fn decode(bytes: &[u8]) -> (r: Self)
        requires
            Self::spec_min() <= bytes@.len() <= Self::spec_max(),
        ensures
            r.wf(),
            r.spec_bytes() == bytes@,
    ;

    /// Length in bytes of this instance's payload encoding.
    fn size(&self) -> (r: usize)
        requires
            self.wf(),
        ensures
            r == self.spec_bytes().len(),
    ;

    /// Appends this instance's payload encoding to `out`.
    fn write_payload(&self, out: &mut Vec<u8>)
        requires
            self.wf(),
        ensures
            final(out)@ == old(out)@ + self.spec_bytes(),
    ;

    /// Writes this instance's payload encoding over a buffer already sized
    /// to hold exactly it.
    fn to_bytes(self, bytes: &mut Vec<u8>)
        requires
            self.wf(),
            old(bytes)@.len() == self.spec_bytes().len(),
        ensures
            final(bytes)@ == self.spec_bytes(),
    ;
}

/// The full framing of a message: its header followed by its payload.
pub open spec fn spec_full_bytes<M: Message>(m: M) -> Seq<u8> {
    Header {
        message_type: M::spec_id(),
        message_length: m.spec_bytes().len() as u16,
    }.spec_bytes() + m.spec_bytes()
}

/// The error TLV decoding reports for kind `M` on a (header, payload) pair:
/// a wrong type identifier, an advertised length that does not match the
/// payload, or a length outside the kind's accepted range. `None` when the
/// pair decodes.
pub open spec fn spec_tlv_error<M: Message>(header: Header, s: Seq<u8>) -> Option<MessageError> {
    if header.message_type != M::spec_id() {
        Some(MessageError::InvalidMessageType(header.message_type))
    } else if s.len() != header.message_length {
        Some(MessageError::InvalidPayloadLength(s.len() as usize))
    } else if !(M::spec_min() <= s.len() <= M::spec_max()) {
        Some(MessageError::InvalidPayloadLength(s.len() as usize))
    } else {
        None
    }
}

/// Type-length-value framing: validates a header against a message kind and
/// its payload, or frames a message behind its header.
pub struct Tlv;

impl Tlv {
    /// Decodes a payload advertised by `header` as a message of kind `M`,
    /// rejecting a wrong type identifier, an advertised length that does not
    /// match the payload, and a length outside the kind's accepted range.
    pub fn from_bytes<M: Message>(header: &Header, bytes: &[u8]) -> (r: Result<M, MessageError>)
        ensures
            spec_tlv_error::<M>(*header, bytes@) matches Some(e) ==> r == Err::<M, MessageError>(
                e,
            ),
            spec_tlv_error::<M>(*header, bytes@) is None ==> (r matches Ok(m) && m.wf()
                && m.spec_bytes() == bytes@),
    {
        if header.message_type != M::id() {
            return Err(MessageError::InvalidMessageType(header.message_type));
        }
        if bytes.len() != header.message_length as usize {
            return Err(MessageError::InvalidPayloadLength(bytes.len()));
        }
        let range = M::size_range();
        if !(range.start <= bytes.len() && bytes.len() < range.end) {
            return Err(MessageError::InvalidPayloadLength(bytes.len()));
        }
        Ok(M::decode(bytes))
    }

    /// Frames a message: the three-byte header followed by the payload.
    pub fn into_bytes<M: Message>(message: M) -> (r: Vec<u8>)
        requires
            message.wf(),
        ensures
            r@ == spec_full_bytes(message),
    {
        proof {
            message.lemma_wf_bytes();
        }
        let mut out: Vec<u8> = Vec::new();
        let length = message.size();
        let header = Header { message_type: M::id(), message_length: length as u16 };
        header.write_bytes(&mut out);
        message.write_payload(&mut out);
        out
    }
}

/// TLV round trip: a well-formed message of any kind, framed behind its own
/// header, is accepted by TLV decoding, and the instance given back encodes
/// to the very same payload.
pub proof fn lemma_tlv_round_trip<M: Message>(m: M)
    requires
        m.wf(),
    ensures
        spec_tlv_error::<M>(
            Header { message_type: M::spec_id(), message_length: m.spec_bytes().len() as u16 },
            m.spec_bytes(),
        ) is None,
{
    m.lemma_wf_bytes();
}

} // verus!
