//! Request for the milestone at a given index: a payload of exactly four
//! bytes holding the index big-endian.

use vstd::prelude::*;
use std::ops::Range;
use crate::bytes::{be_bytes, be_val, lemma_be_bytes_len, lemma_be_val_be_bytes, lemma_be_val_bound, pow256, push_be, read_be};
use crate::errors::MessageError;
use crate::header::Header;
use crate::message::{spec_full_bytes, spec_tlv_error, Message, Tlv};

verus! {

/// Payload length: one four-byte big-endian milestone index.
const CONSTANT_SIZE: usize = 4;

#[derive(Debug, Clone, Copy, PartialEq, Eq, Structural)]
pub struct MilestoneRequest {
    /// Index of the requested milestone.
    pub index: u32,
}

impl MilestoneRequest {
    /// The kind's fixed type identifier.
    pub const ID: u8 = 0x03;

    /// The instance read from the first four bytes of a payload.
    pub open spec fn spec_decode(s: Seq<u8>) -> MilestoneRequest {
        MilestoneRequest { index: be_val(s.subrange(0, 4)) as u32 }
    }

    pub fn new(index: u32) -> (r: Self)
        ensures
            r == (MilestoneRequest { index }),
    {
        Self { index }
    }

    /// Decodes a payload, rejecting any length other than four with the
    /// offending length.
    pub fn from_bytes(bytes: &[u8]) -> (r: Result<Self, MessageError>)
        ensures
            bytes@.len() == Self::spec_min() ==> r == Ok::<Self, MessageError>(
                Self::spec_decode(bytes@),
            ),
            bytes@.len() != Self::spec_min() ==> r == Err::<Self, MessageError>(
                MessageError::InvalidPayloadLength(bytes@.len() as usize),
            ),
    {
        if bytes.len() != CONSTANT_SIZE {
            return Err(MessageError::InvalidPayloadLength(bytes.len()));
        }
        Ok(Self::decode(bytes))
    }

    /// Frames this request behind its header.
    pub fn into_full_bytes(self) -> (r: Vec<u8>)
        ensures
            r@ == spec_full_bytes(self),
    {
        Tlv::into_bytes(self)
    }

    /// Decodes a header-framed request, validating type and length.
    pub fn from_full_bytes(header: &Header, bytes: &[u8]) -> (r: Result<Self, MessageError>)
        ensures
            spec_tlv_error::<Self>(*header, bytes@) matches Some(e) ==> r == Err::<
                Self,
                MessageError,
            >(e),
            spec_tlv_error::<Self>(*header, bytes@) is None ==> r == Ok::<Self, MessageError>(
                Self::spec_decode(bytes@),
            ),
    {
        let r = Tlv::from_bytes::<Self>(header, bytes);
        proof {
            if let Ok(m) = r {
                lemma_milestone_request_round_trip(m);
            }
        }
        r
    }
}

/// Round trip: decoding the encoding of any milestone request gives the
/// request back.
pub proof fn lemma_milestone_request_round_trip(m: MilestoneRequest)
    ensures
        MilestoneRequest::spec_decode(m.spec_bytes()) == m,
{
    lemma_be_bytes_len(m.index as int, 4);
    reveal_with_fuel(pow256, 5);
    lemma_be_val_be_bytes(m.index as int, 4);
    assert(m.spec_bytes().subrange(0, 4) =~= m.spec_bytes());
}

impl Message for MilestoneRequest {
    open spec fn spec_id() -> u8 {
        0x03
    }

    open spec fn spec_min() -> usize {
        4
    }

    open spec fn spec_max() -> usize {
        4
    }

    open spec fn wf(self) -> bool {
        true
    }

    open spec fn spec_bytes(self) -> Seq<u8> {
        be_bytes(self.index as int, 4)
    }

    proof fn lemma_wf_bytes(self) {
        lemma_be_bytes_len(self.index as int, 4);
    }

    fn id() -> (r: u8) {
        Self::ID
    }

    fn size_range() -> (r: Range<usize>) {
        CONSTANT_SIZE..(CONSTANT_SIZE + 1)
    }

    fn decode(bytes: &[u8]) -> (r: Self)
        ensures
            r == Self::spec_decode(bytes@),
    {
        let index = read_be(bytes, 0, 4);
        proof {
            lemma_be_val_bound(bytes@.subrange(0, 4));
            reveal_with_fuel(pow256, 5);
            let m = MilestoneRequest { index: (index as u32) };
            lemma_milestone_request_round_trip(m);
            assert(bytes@.subrange(0, 4) =~= bytes@);
            crate::bytes::lemma_be_bytes_be_val(bytes@);
        }
        MilestoneRequest { index: index as u32 }
    }

    fn size(&self) -> (r: usize) {
        proof {
            lemma_be_bytes_len(self.index as int, 4);
        }
        CONSTANT_SIZE
    }

    fn write_payload(&self, out: &mut Vec<u8>) {
        proof {
            reveal_with_fuel(pow256, 5);
        }
        push_be(out, self.index as u64, 4);
    }

    fn to_bytes(self, bytes: &mut Vec<u8>) {
        bytes.clear();
        self.write_payload(bytes);
        proof {
            assert(bytes@ =~= self.spec_bytes());
        }
    }
}

} // verus!
