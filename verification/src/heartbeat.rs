//! Heartbeat carrying a peer's solid and snapshot milestone indexes: a payload
//! of exactly eight bytes, two four-byte big-endian indexes. Received
//! heartbeats are decoded for validation and not forwarded anywhere.

use vstd::prelude::*;
use std::ops::Range;
use crate::bytes::{
    be_bytes, be_val, lemma_be_bytes_be_val, lemma_be_bytes_len, lemma_be_val_be_bytes,
    lemma_be_val_bound, pow256, push_be, read_be,
};
use crate::errors::MessageError;
use crate::header::Header;
use crate::message::{spec_full_bytes, spec_tlv_error, Message, Tlv};

verus! {

/// Payload length: two four-byte big-endian milestone indexes.
const CONSTANT_SIZE: usize = 8;

#[derive(Debug, Clone, Copy, PartialEq, Eq, Structural)]
pub struct Heartbeat {
    /// Index of the last milestone the peer considers solid.
    pub solid_milestone_index: u32,
    /// Index of the milestone the peer's snapshot starts at.
    pub snapshot_milestone_index: u32,
}

impl Heartbeat {
    /// The kind's fixed type identifier.
    pub const ID: u8 = 0x06;

    /// The instance read from an eight-byte payload.
    pub open spec fn spec_decode(s: Seq<u8>) -> Heartbeat {
        Heartbeat {
            solid_milestone_index: be_val(s.subrange(0, 4)) as u32,
            snapshot_milestone_index: be_val(s.subrange(4, 8)) as u32,
        }
    }

    pub fn new(solid_milestone_index: u32, snapshot_milestone_index: u32) -> (r: Self)
        ensures
            r == (Heartbeat { solid_milestone_index, snapshot_milestone_index }),
    {
        Self { solid_milestone_index, snapshot_milestone_index }
    }

    /// Frames this heartbeat behind its header.
    pub fn into_full_bytes(self) -> (r: Vec<u8>)
        ensures
            r@ == spec_full_bytes(self),
    {
        Tlv::into_bytes(self)
    }

    /// Decodes a header-framed heartbeat, validating type and length.
    pub fn from_full_bytes(header: &Header, bytes: &[u8]) -> (r: Result<Self, MessageError>)
        ensures
            spec_tlv_error::<Self>(*header, bytes@) matches Some(e) ==> r == Err::<
                Self,
                MessageError,
            >(e),
            spec_tlv_error::<Self>(*header, bytes@) is None ==> r == Ok::<Self, MessageError>(
                Self::spec_decode(bytes@),
            ),
    {
        let r = Tlv::from_bytes::<Self>(header, bytes);
        proof {
            if let Ok(m) = r {
                lemma_heartbeat_round_trip(m);
            }
        }
        r
    }
}

/// Round trip: decoding the encoding of any heartbeat gives the heartbeat
/// back.
pub proof fn lemma_heartbeat_round_trip(m: Heartbeat)
    ensures
        Heartbeat::spec_decode(m.spec_bytes()) == m,
{
    let a = be_bytes(m.solid_milestone_index as int, 4);
    let b = be_bytes(m.snapshot_milestone_index as int, 4);
    lemma_be_bytes_len(m.solid_milestone_index as int, 4);
    lemma_be_bytes_len(m.snapshot_milestone_index as int, 4);
    reveal_with_fuel(pow256, 5);
    lemma_be_val_be_bytes(m.solid_milestone_index as int, 4);
    lemma_be_val_be_bytes(m.snapshot_milestone_index as int, 4);
    assert((a + b).subrange(0, 4) =~= a);
    assert((a + b).subrange(4, 8) =~= b);
}

impl Message for Heartbeat {
    open spec fn spec_id() -> u8 {
        0x06
    }

    open spec fn spec_min() -> usize {
        8
    }

    open spec fn spec_max() -> usize {
        8
    }

    open spec fn wf(self) -> bool {
        true
    }

    open spec fn spec_bytes(self) -> Seq<u8> {
        be_bytes(self.solid_milestone_index as int, 4) + be_bytes(
            self.snapshot_milestone_index as int,
            4,
        )
    }

    proof fn lemma_wf_bytes(self) {
        lemma_be_bytes_len(self.solid_milestone_index as int, 4);
        lemma_be_bytes_len(self.snapshot_milestone_index as int, 4);
    }

    fn id() -> (r: u8) {
        Self::ID
    }

    fn size_range() -> (r: Range<usize>) {
        CONSTANT_SIZE..(CONSTANT_SIZE + 1)
    }

    fn decode(bytes: &[u8]) -> (r: Self)
        ensures
            r == Self::spec_decode(bytes@),
    {
        let solid = read_be(bytes, 0, 4);
        let snapshot = read_be(bytes, 4, 4);
        proof {
            lemma_be_val_bound(bytes@.subrange(0, 4));
            lemma_be_val_bound(bytes@.subrange(4, 8));
            reveal_with_fuel(pow256, 5);
        }
        let r = Heartbeat {
            solid_milestone_index: solid as u32,
            snapshot_milestone_index: snapshot as u32,
        };
        proof {
            lemma_be_bytes_be_val(bytes@.subrange(0, 4));
            lemma_be_bytes_be_val(bytes@.subrange(4, 8));
            assert(r.spec_bytes() =~= bytes@);
        }
        r
    }

    fn size(&self) -> (r: usize) {
        proof {
            self.lemma_wf_bytes();
        }
        CONSTANT_SIZE
    }

    fn write_payload(&self, out: &mut Vec<u8>) {
        proof {
            reveal_with_fuel(pow256, 5);
        }
        push_be(out, self.solid_milestone_index as u64, 4);
        push_be(out, self.snapshot_milestone_index as u64, 4);
        proof {
            assert(out@ =~= old(out)@ + self.spec_bytes());
        }
    }

    fn to_bytes(self, bytes: &mut Vec<u8>) {
        bytes.clear();
        self.write_payload(bytes);
        proof {
            assert(bytes@ =~= self.spec_bytes());
        }
    }
}

} // verus!
