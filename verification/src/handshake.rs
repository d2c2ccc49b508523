//! The handshake exchanged once per connection: port, timestamp, coordinator
//! identity, minimum weight magnitude, and a supported-version bitmask of up
//! to 32 bytes, zero-padded to its full width on decode. The payload is 60
//! bytes of fixed fields followed by 1 to 32 bytes of version data, so its
//! accepted length range is 61 to 92 bytes inclusive.

use vstd::prelude::*;
use std::ops::Range;
use crate::bytes::{
    be_bytes, be_val, lemma_be_bytes_len, lemma_be_val_be_bytes, lemma_be_val_bound, pow256,
    push_be, push_slice, slice_to_vec,
};
use crate::errors::ProtocolMessageError;
use crate::header::Header;

verus! {

const HANDSHAKE_ID: u8 = 0x01;

const PORT_SIZE: usize = 2;

const TIMESTAMP_SIZE: usize = 8;

const COORDINATOR_SIZE: usize = 49;

const CONSTANT_SIZE: usize = 60;

const VARIABLE_MAX_SIZE: usize = 32;

/// The abstract value of a handshake: its fields with byte strings as
/// mathematical sequences.
#[verifier::ext_equal]
pub struct HandshakeView {
    pub port: u16,
    pub timestamp: u64,
    pub coordinator: Seq<u8>,
    pub minimum_weight_magnitude: u8,
    pub supported_messages: Seq<u8>,
}

impl HandshakeView {
    /// Well-formed handshakes: a 49-byte coordinator identity and a version
    /// bitmask at its full 32-byte width.
    pub open spec fn wf(self) -> bool {
        self.coordinator.len() == 49 && self.supported_messages.len() == 32
    }

    /// The canonical payload encoding: fields in wire order, the bitmask at
    /// full width.
    pub open spec fn spec_bytes(self) -> Seq<u8> {
        be_bytes(self.port as int, 2) + be_bytes(self.timestamp as int, 8) + self.coordinator
            + seq![self.minimum_weight_magnitude] + self.supported_messages
    }
}

#[derive(Debug, Clone)]
pub struct Handshake {
    port: u16,
    timestamp: u64,
    coordinator: Vec<u8>,
    minimum_weight_magnitude: u8,
    supported_messages: Vec<u8>,
}

impl View for Handshake {
    type V = HandshakeView;

    closed spec fn view(&self) -> HandshakeView {
        HandshakeView {
            port: self.port,
            timestamp: self.timestamp,
            coordinator: self.coordinator@,
            minimum_weight_magnitude: self.minimum_weight_magnitude,
            supported_messages: self.supported_messages@,
        }
    }
}

impl Handshake {
    /// The kind's fixed type identifier.
    pub open spec fn spec_id() -> u8 {
        0x01
    }

    /// Smallest accepted payload length, inclusive: the fixed fields plus one
    /// byte of version data.
    pub open spec fn spec_min() -> usize {
        61
    }

    /// Largest accepted payload length, inclusive: the fixed fields plus the
    /// full 32-byte version bitmask.
    pub open spec fn spec_max() -> usize {
        92
    }

    /// The handshake read from an in-range payload: fixed fields at their
    /// offsets, the remainder as version data zero-padded to 32 bytes.
    pub open spec fn spec_decode(s: Seq<u8>) -> HandshakeView {
        HandshakeView {
            port: be_val(s.subrange(0, 2)) as u16,
            timestamp: be_val(s.subrange(2, 10)) as u64,
            coordinator: s.subrange(10, 59),
            minimum_weight_magnitude: s[59],
            supported_messages: s.subrange(60, s.len() as int) + Seq::new(
                (92 - s.len()) as nat,
                |i: int| 0u8,
            ),
        }
    }

    pub fn new(
        port: u16,
        timestamp: u64,
        coordinator: &[u8],
        minimum_weight_magnitude: u8,
        supported_messages: &[u8],
    ) -> (r: Self)
        requires
            coordinator@.len() == 49,
            supported_messages@.len() == 32,
        ensures
            r@ == (HandshakeView {
                port,
                timestamp,
                coordinator: coordinator@,
                minimum_weight_magnitude,
                supported_messages: supported_messages@,
            }),
            r@.wf(),
    {
        let r = Self {
            port,
            timestamp,
            coordinator: slice_to_vec(coordinator, 0, coordinator.len()),
            minimum_weight_magnitude,
            supported_messages: slice_to_vec(supported_messages, 0, supported_messages.len()),
        };
        proof {
            assert(coordinator@.subrange(0, coordinator@.len() as int) =~= coordinator@);
            assert(supported_messages@.subrange(0, supported_messages@.len() as int)
                =~= supported_messages@);
            assert(r@ =~= HandshakeView {
                port,
                timestamp,
                coordinator: coordinator@,
                minimum_weight_magnitude,
                supported_messages: supported_messages@,
            });
        }
        r
    }

    pub fn port(&self) -> (r: u16)
        ensures
            r == self@.port,
    {
        self.port
    }

    pub fn timestamp(&self) -> (r: u64)
        ensures
            r == self@.timestamp,
    {
        self.timestamp
    }

    pub fn coordinator(&self) -> (r: &Vec<u8>)
        ensures
            r@ == self@.coordinator,
    {
        &self.coordinator
    }

    pub fn minimum_weight_magnitude(&self) -> (r: u8)
        ensures
            r == self@.minimum_weight_magnitude,
    {
        self.minimum_weight_magnitude
    }

    pub fn supported_messages(&self) -> (r: &Vec<u8>)
        ensures
            r@ == self@.supported_messages,
    {
        &self.supported_messages
    }

    /// The kind's fixed type identifier.
    pub fn id() -> (r: u8)
        ensures
            r == Self::spec_id(),
    {
        HANDSHAKE_ID
    }

    /// The accepted payload length range, lower bound inclusive, upper bound
    /// exclusive.
    pub fn size_range() -> (r: Range<usize>)
        ensures
            r.start == Self::spec_min(),
            r.end == Self::spec_max() + 1,
    {
        (CONSTANT_SIZE + 1)..(CONSTANT_SIZE + VARIABLE_MAX_SIZE + 1)
    }

    /// Decodes a payload: the handshake it holds when its length lies in the
    /// accepted range, and a length error carrying the offending length
    /// otherwise.
    pub fn from_bytes(bytes: &[u8]) -> (r: Result<Self, ProtocolMessageError>)
        ensures
            Self::spec_min() <= bytes@.len() <= Self::spec_max() ==> (r matches Ok(m) && m@
                == Self::spec_decode(bytes@) && m@.wf()),
            !(Self::spec_min() <= bytes@.len() <= Self::spec_max()) ==> r == Err::<
                Self,
                ProtocolMessageError,
            >(ProtocolMessageError::InvalidMessageLength(bytes@.len() as usize)),
    {
        let len = bytes.len();
        if !(CONSTANT_SIZE + 1 <= len && len <= CONSTANT_SIZE + VARIABLE_MAX_SIZE) {
            return Err(ProtocolMessageError::InvalidMessageLength(len));
        }
        let port_val = read_port(bytes);
        let timestamp = read_timestamp(bytes);
        let coordinator = slice_to_vec(bytes, 10, 59);
        let minimum_weight_magnitude = bytes[59];
        let mut supported_messages = slice_to_vec(bytes, 60, len);
        proof {
            assert(supported_messages@ =~= bytes@.subrange(60, bytes@.len() as int) + Seq::new(
                0,
                |i: int| 0u8,
            ));
        }
        while supported_messages.len() < VARIABLE_MAX_SIZE
            invariant
                61 <= bytes@.len() <= 92,
                bytes@.len() - 60 <= supported_messages@.len() <= 32,
                supported_messages@ == bytes@.subrange(60, bytes@.len() as int) + Seq::new(
                    (supported_messages@.len() - (bytes@.len() - 60)) as nat,
                    |i: int| 0u8,
                ),
            decreases VARIABLE_MAX_SIZE - supported_messages@.len(),
        {
            supported_messages.push(0);
            proof {
                assert(supported_messages@ =~= bytes@.subrange(60, bytes@.len() as int) + Seq::new(
                    (supported_messages@.len() - (bytes@.len() - 60)) as nat,
                    |i: int| 0u8,
                ));
            }
        }
        let r = Self {
            port: port_val,
            timestamp,
            coordinator,
            minimum_weight_magnitude,
            supported_messages,
        };
        proof {
            assert(r@ =~= Self::spec_decode(bytes@));
        }
        Ok(r)
    }

    /// The payload encoding: fields in wire order, the bitmask as stored.
    pub fn into_bytes(self) -> (r: Vec<u8>)
        ensures
            r@ == self@.spec_bytes(),
    {
        let mut out: Vec<u8> = Vec::new();
        proof {
            reveal_with_fuel(pow256, 9);
        }
        push_be(&mut out, self.port as u64, 2);
        push_be(&mut out, self.timestamp, 8);
        push_slice(&mut out, self.coordinator.as_slice());
        out.push(self.minimum_weight_magnitude);
        push_slice(&mut out, self.supported_messages.as_slice());
        proof {
            assert(out@ =~= self@.spec_bytes());
        }
        out
    }

    /// Frames this handshake behind its header.
    pub fn into_full_bytes(self) -> (r: Vec<u8>)
        requires
            self@.wf(),
        ensures
            r@ == (Header {
                message_type: Self::spec_id(),
                message_length: self@.spec_bytes().len() as u16,
            }).spec_bytes() + self@.spec_bytes(),
    {
        proof {
            lemma_be_bytes_len(self@.port as int, 2);
            lemma_be_bytes_len(self@.timestamp as int, 8);
        }
        let header = Header {
            message_type: HANDSHAKE_ID,
            message_length: (CONSTANT_SIZE + VARIABLE_MAX_SIZE) as u16,
        };
        let mut out: Vec<u8> = Vec::new();
        header.write_bytes(&mut out);
        let payload = self.into_bytes();
        push_slice(&mut out, payload.as_slice());
        out
    }

    /// Decodes a header-framed handshake: rejects a header advertising a
    /// different kind, then decodes the payload by length.
    pub fn from_full_bytes(header: &Header, bytes: &[u8]) -> (r: Result<
        Self,
        ProtocolMessageError,
    >)
        ensures
            header.message_type != Self::spec_id() ==> r == Err::<Self, ProtocolMessageError>(
                ProtocolMessageError::InvalidMessageType(header.message_type),
            ),
            header.message_type == Self::spec_id() && Self::spec_min() <= bytes@.len()
                <= Self::spec_max() ==> (r matches Ok(m) && m@ == Self::spec_decode(bytes@)
                && m@.wf()),
            header.message_type == Self::spec_id() && !(Self::spec_min() <= bytes@.len()
                <= Self::spec_max()) ==> r == Err::<Self, ProtocolMessageError>(
                ProtocolMessageError::InvalidMessageLength(bytes@.len() as usize),
            ),
    {
        if header.message_type != HANDSHAKE_ID {
            return Err(ProtocolMessageError::InvalidMessageType(header.message_type));
        }
        Self::from_bytes(bytes)
    }
}

/// Reads the two-byte big-endian port at the start of a handshake payload.
fn read_port(bytes: &[u8]) -> (r: u16)
    requires
        bytes@.len() >= 10,
    ensures
        r == be_val(bytes@.subrange(0, 2)),
{
    let v = crate::bytes::read_be(bytes, 0, 2);
    proof {
        lemma_be_val_bound(bytes@.subrange(0, 2));
        reveal_with_fuel(pow256, 3);
    }
    v as u16
}

/// Reads the eight-byte big-endian timestamp of a handshake payload.
fn read_timestamp(bytes: &[u8]) -> (r: u64)
    requires
        bytes@.len() >= 10,
    ensures
        r == be_val(bytes@.subrange(2, 10)),
{
    crate::bytes::read_be(bytes, 2, 8)
}

/// Round trip: decoding the payload encoding of any well-formed handshake
/// gives the handshake back, field for field.
pub proof fn lemma_handshake_round_trip(v: HandshakeView)
    requires
        v.wf(),
    ensures
        Handshake::spec_decode(v.spec_bytes()) == v,
{
    let s = v.spec_bytes();
    lemma_be_bytes_len(v.port as int, 2);
    lemma_be_bytes_len(v.timestamp as int, 8);
    reveal_with_fuel(pow256, 9);
    lemma_be_val_be_bytes(v.port as int, 2);
    lemma_be_val_be_bytes(v.timestamp as int, 8);
    assert(s.subrange(0, 2) =~= be_bytes(v.port as int, 2));
    assert(s.subrange(2, 10) =~= be_bytes(v.timestamp as int, 8));
    assert(s.subrange(10, 59) =~= v.coordinator);
    assert(s[59] == v.minimum_weight_magnitude);
    assert(s.subrange(60, s.len() as int) =~= v.supported_messages);
    assert(s.subrange(60, s.len() as int) + Seq::new((92 - s.len()) as nat, |i: int| 0u8)
        =~= v.supported_messages);
    assert(Handshake::spec_decode(s) =~= v);
}

} // verus!
