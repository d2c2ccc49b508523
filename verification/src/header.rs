//! The three-byte header that prefixes every message on the wire: one byte of
//! message type, two bytes of big-endian payload length. Any three bytes form
//! a syntactically valid header; whether the type is known and the length fits
//! that type's accepted range is the caller's business.

use vstd::prelude::*;
use crate::bytes::{
    be_bytes, be_val, lemma_be_bytes_be_val, lemma_be_bytes_len, lemma_be_val_be_bytes,
    lemma_be_val_bound, pow256, push_be, read_be,
};

verus! {

/// Number of bytes of an encoded header.
pub const HEADER_SIZE: usize = 3;

#[derive(Debug, PartialEq, Eq, Structural, Clone, Copy)]
pub struct Header {
    /// Identifier of the message kind the following payload belongs to.
    pub message_type: u8,
    /// Number of payload bytes that follow this header.
    pub message_length: u16,
}

impl Header {
    /// The header read from three bytes.
    pub open spec fn spec_decode(s: Seq<u8>) -> Header
        recommends
            s.len() == 3,
    {
        Header { message_type: s[0], message_length: be_val(s.subrange(1, 3)) as u16 }
    }

    /// The three-byte encoding of this header.
    pub open spec fn spec_bytes(self) -> Seq<u8> {
        seq![self.message_type] + be_bytes(self.message_length as int, 2)
    }

    /// Decodes a header from exactly three bytes. Total: any three bytes are
    /// a syntactically valid header.
    pub fn from_bytes(bytes: &[u8]) -> (r: Header)
        requires
            bytes@.len() == 3,
        ensures
            r == Header::spec_decode(bytes@),
    {
        let message_type = bytes[0];
        let length = read_be(bytes, 1, 2);
        proof {
            lemma_be_val_bound(bytes@.subrange(1, 3));
            reveal_with_fuel(pow256, 3);
        }
        Header { message_type, message_length: length as u16 }
    }

    /// Appends the three-byte encoding of this header to `out`.
    pub fn write_bytes(&self, out: &mut Vec<u8>)
        ensures
            final(out)@ == old(out)@ + self.spec_bytes(),
    {
        out.push(self.message_type);
        proof {
            reveal_with_fuel(pow256, 3);
        }
        push_be(out, self.message_length as u64, 2);
        proof {
            assert(out@ =~= old(out)@ + self.spec_bytes());
        }
    }
}

/// Header round trip, value to bytes to value: decoding the encoding of any
/// header, over all 256 message types and all 16-bit lengths, gives the
/// header back.
pub proof fn lemma_header_round_trip(h: Header)
    ensures
        Header::spec_decode(h.spec_bytes()) == h,
{
    let s = h.spec_bytes();
    lemma_be_bytes_len(h.message_length as int, 2);
    reveal_with_fuel(pow256, 3);
    lemma_be_val_be_bytes(h.message_length as int, 2);
    assert(s.subrange(1, 3) =~= be_bytes(h.message_length as int, 2));
}

/// Header round trip, bytes to value to bytes: re-encoding the header read
/// from any three bytes gives the same three bytes back.
pub proof fn lemma_header_bytes_round_trip(s: Seq<u8>)
    requires
        s.len() == 3,
    ensures
        Header::spec_decode(s).spec_bytes() == s,
{
    let h = Header::spec_decode(s);
    let t = s.subrange(1, 3);
    lemma_be_val_bound(t);
    reveal_with_fuel(pow256, 3);
    lemma_be_bytes_be_val(t);
    assert(h.spec_bytes() =~= s);
}

} // verus!
