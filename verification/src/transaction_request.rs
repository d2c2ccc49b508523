//! Request for the transaction with a given hash: a payload of exactly 49
//! bytes holding the hash verbatim.

use vstd::prelude::*;
use std::ops::Range;
use crate::bytes::{push_slice, slice_to_vec, zero_vec};
use crate::errors::MessageError;
use crate::header::Header;
use crate::message::{spec_full_bytes, spec_tlv_error, Message, Tlv};

verus! {

/// Payload length: one 49-byte transaction hash.
const CONSTANT_SIZE: usize = 49;

#[derive(Debug, Clone)]
pub struct TransactionRequest {
    /// Hash of the requested transaction, 49 bytes.
    pub hash: Vec<u8>,
}

impl TransactionRequest {
    /// The kind's fixed type identifier.
    pub const ID: u8 = 0x05;

    /// Copies a 49-byte hash into a new request.
    pub fn new(hash: &[u8]) -> (r: Self)
        requires
            hash@.len() == 49,
        ensures
            r.hash@ == hash@,
            r.wf(),
    {
        let r = Self { hash: slice_to_vec(hash, 0, CONSTANT_SIZE) };
        proof {
            assert(hash@.subrange(0, 49) =~= hash@);
        }
        r
    }

    /// Reads a request from the first 49 bytes of a payload.
    pub fn from_bytes(bytes: &[u8]) -> (r: Self)
        requires
            bytes@.len() >= 49,
        ensures
            r.hash@ == bytes@.subrange(0, 49),
            r.wf(),
    {
        Self { hash: slice_to_vec(bytes, 0, CONSTANT_SIZE) }
    }

    /// Frames this request behind its header.
    pub fn into_full_bytes(self) -> (r: Vec<u8>)
        requires
            self.wf(),
        ensures
            r@ == spec_full_bytes(self),
    {
        Tlv::into_bytes(self)
    }

    /// Decodes a header-framed request, validating type and length.
    pub fn from_full_bytes(header: &Header, bytes: &[u8]) -> (r: Result<Self, MessageError>)
        ensures
            spec_tlv_error::<Self>(*header, bytes@) matches Some(e) ==> r == Err::<
                Self,
                MessageError,
            >(e),
            spec_tlv_error::<Self>(*header, bytes@) is None ==> (r matches Ok(m) && m.wf()
                && m.hash@ == bytes@),
    {
        Tlv::from_bytes::<Self>(header, bytes)
    }
}

impl Default for TransactionRequest {
    /// The request whose hash is 49 zero bytes.
    fn default() -> (r: Self)
        ensures
            r.hash@ == Seq::new(49, |i: int| 0u8),
            r.wf(),
    {
        Self { hash: zero_vec(CONSTANT_SIZE) }
    }
}

/// Round trip: the payload encoding of a request is its hash verbatim, so
/// reading a request back from that encoding recovers the hash.
pub proof fn lemma_transaction_request_round_trip(m: TransactionRequest)
    requires
        m.wf(),
    ensures
        m.spec_bytes().subrange(0, 49) == m.hash@,
{
    assert(m.spec_bytes().subrange(0, 49) =~= m.hash@);
}

impl Message for TransactionRequest {
    open spec fn spec_id() -> u8 {
        0x05
    }

    open spec fn spec_min() -> usize {
        49
    }

    open spec fn spec_max() -> usize {
        49
    }

    open spec fn wf(self) -> bool {
        self.hash@.len() == 49
    }

    open spec fn spec_bytes(self) -> Seq<u8> {
        self.hash@
    }

    proof fn lemma_wf_bytes(self) {
    }

    fn id() -> (r: u8) {
        Self::ID
    }

    fn size_range() -> (r: Range<usize>) {
        CONSTANT_SIZE..(CONSTANT_SIZE + 1)
    }

    fn decode(bytes: &[u8]) -> (r: Self) {
        let r = Self::from_bytes(bytes);
        proof {
            assert(bytes@.subrange(0, 49) =~= bytes@);
        }
        r
    }

    fn size(&self) -> (r: usize) {
        CONSTANT_SIZE
    }

    fn write_payload(&self, out: &mut Vec<u8>) {
        push_slice(out, self.hash.as_slice());
    }

    fn to_bytes(self, bytes: &mut Vec<u8>) {
        bytes.clear();
        self.write_payload(bytes);
        proof {
            assert(bytes@ =~= self.spec_bytes());
        }
    }
}


} // verus!
