//! Broadcast of a transaction: a variable-size payload of 292 to 1604 raw
//! bytes, opaque to this layer beyond length validation.

use vstd::prelude::*;
use std::ops::Range;
use crate::bytes::{push_slice, slice_to_vec};
use crate::errors::ProtocolMessageError;
use crate::header::Header;

verus! {

const TRANSACTION_BROADCAST_ID: u8 = 0x04;

const VARIABLE_MIN_SIZE: usize = 292;

const VARIABLE_MAX_SIZE: usize = 1604;

#[derive(Debug, Clone)]
pub struct TransactionBroadcast {
    transaction: Vec<u8>,
}

impl View for TransactionBroadcast {
    type V = Seq<u8>;

    /// A broadcast is its raw transaction bytes.
    closed spec fn view(&self) -> Seq<u8> {
        self.transaction@
    }
}

impl TransactionBroadcast {
    /// The kind's fixed type identifier.
    pub open spec fn spec_id() -> u8 {
        0x04
    }

    /// Smallest accepted payload length, inclusive.
    pub open spec fn spec_min() -> usize {
        292
    }

    /// Largest accepted payload length, inclusive.
    pub open spec fn spec_max() -> usize {
        1604
    }

    /// Well-formed broadcasts: those whose payload lies in the accepted range.
    pub open spec fn wf(self) -> bool {
        Self::spec_min() <= self@.len() <= Self::spec_max()
    }

    pub fn new(transaction: &[u8]) -> (r: Self)
        ensures
            r@ == transaction@,
    {
        let r = Self { transaction: slice_to_vec(transaction, 0, transaction.len()) };
        proof {
            assert(transaction@.subrange(0, transaction@.len() as int) =~= transaction@);
        }
        r
    }

    /// The raw transaction bytes.
    pub fn transaction(&self) -> (r: &Vec<u8>)
        ensures
            r@ == self@,
    {
        &self.transaction
    }

    /// The kind's fixed type identifier.
    pub fn id() -> (r: u8)
        ensures
            r == Self::spec_id(),
    {
        TRANSACTION_BROADCAST_ID
    }

    /// The accepted payload length range, lower bound inclusive, upper bound
    /// exclusive.
    pub fn size_range() -> (r: Range<usize>)
        ensures
            r.start == Self::spec_min(),
            r.end == Self::spec_max() + 1,
    {
        VARIABLE_MIN_SIZE..(VARIABLE_MAX_SIZE + 1)
    }

    /// Decodes a payload: the bytes taken verbatim when their number lies in
    /// the accepted range, and a length error carrying the offending length
    /// otherwise.
    pub fn from_bytes(bytes: &[u8]) -> (r: Result<Self, ProtocolMessageError>)
        ensures
            Self::spec_min() <= bytes@.len() <= Self::spec_max() ==> (r matches Ok(m) && m@
                == bytes@),
            !(Self::spec_min() <= bytes@.len() <= Self::spec_max()) ==> r == Err::<
                Self,
                ProtocolMessageError,
            >(ProtocolMessageError::InvalidMessageLength(bytes@.len() as usize)),
    {
        if !(VARIABLE_MIN_SIZE <= bytes.len() && bytes.len() <= VARIABLE_MAX_SIZE) {
            return Err(ProtocolMessageError::InvalidMessageLength(bytes.len()));
        }
        let r = Self { transaction: slice_to_vec(bytes, 0, bytes.len()) };
        proof {
            assert(bytes@.subrange(0, bytes@.len() as int) =~= bytes@);
        }
        Ok(r)
    }

    /// The payload encoding: the transaction bytes, unchanged.
    pub fn into_bytes(self) -> (r: Vec<u8>)
        ensures
            r@ == self@,
    {
        self.transaction
    }

    /// Frames this broadcast behind its header.
    pub fn into_full_bytes(self) -> (r: Vec<u8>)
        requires
            self.wf(),
        ensures
            r@ == (Header {
                message_type: Self::spec_id(),
                message_length: self@.len() as u16,
            }).spec_bytes() + self@,
    {
        let mut out: Vec<u8> = Vec::new();
        let header = Header {
            message_type: TRANSACTION_BROADCAST_ID,
            message_length: self.transaction.len() as u16,
        };
        header.write_bytes(&mut out);
        push_slice(&mut out, self.transaction.as_slice());
        out
    }

    /// Decodes a header-framed broadcast: rejects a header advertising a
    /// different kind, then decodes the payload by length.
    pub fn from_full_bytes(header: &Header, bytes: &[u8]) -> (r: Result<
        Self,
        ProtocolMessageError,
    >)
        ensures
            header.message_type != Self::spec_id() ==> r == Err::<
                Self,
                ProtocolMessageError,
            >(ProtocolMessageError::InvalidMessageType(header.message_type)),
            header.message_type == Self::spec_id() && Self::spec_min() <= bytes@.len()
                <= Self::spec_max() ==> (r matches Ok(m) && m@ == bytes@),
            header.message_type == Self::spec_id() && !(Self::spec_min() <= bytes@.len()
                <= Self::spec_max()) ==> r == Err::<Self, ProtocolMessageError>(
                ProtocolMessageError::InvalidMessageLength(bytes@.len() as usize),
            ),
    {
        if header.message_type != TRANSACTION_BROADCAST_ID {
            return Err(ProtocolMessageError::InvalidMessageType(header.message_type));
        }
        Self::from_bytes(bytes)
    }
}

} // verus!
