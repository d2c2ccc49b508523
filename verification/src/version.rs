//! Protocol version negotiation over bitmask-encoded version sets: bit `b` of
//! byte `i` stands for version `i*8 + b + 1`. The scan walks every byte index
//! both masks share, and the version taken from the last index with any
//! overlap wins - not necessarily the highest overlapping version; this
//! mirrors the wire-compatible behaviour. When no index overlaps, the scan
//! fails, reporting the highest version implied by the remote mask's last
//! byte.

use vstd::prelude::*;
use vstd::math::min;

verus! {

/// The single locally supported version, as a mask byte: version 2.
const VERSION_STING: u8 = 1 << 1;

/// Index plus one of the highest bit set among the low n bits of b; 0 when
/// none of them is set.
pub open spec fn highest_bit_upto(b: u8, n: nat) -> int
    decreases n,
{
    if n == 0 {
        0
    } else if ((b >> ((n - 1) as u8)) & 1) == 1 {
        n as int
    } else {
        highest_bit_upto(b, (n - 1) as nat)
    }
}

/// One-based position of the highest set bit of b; 0 when b is 0.
pub open spec fn spec_highest_bit(b: u8) -> int {
    highest_bit_upto(b, 8)
}

pub proof fn lemma_highest_bit_upto_bound(b: u8, n: nat)
    ensures
        0 <= highest_bit_upto(b, n) <= n,
    decreases n,
{
    if n > 0 {
        lemma_highest_bit_upto_bound(b, (n - 1) as nat);
    }
}

/// The version the scan settles on over byte indices [0, n): the version
/// derived from the last index whose bytes overlap, or 0 when none does.
pub open spec fn spec_last_overlap(own: Seq<u8>, remote: Seq<u8>, n: nat) -> int
    decreases n,
{
    if n == 0 {
        0
    } else {
        let b = (remote[n - 1] & own[n - 1]) as u8;
        if b != 0 {
            spec_highest_bit(b) + 8 * (n - 1)
        } else {
            spec_last_overlap(own, remote, (n - 1) as nat)
        }
    }
}

pub proof fn lemma_last_overlap_bound(own: Seq<u8>, remote: Seq<u8>, n: nat)
    ensures
        0 <= spec_last_overlap(own, remote, n) <= 8 * n,
    decreases n,
{
    if n > 0 {
        lemma_last_overlap_bound(own, remote, (n - 1) as nat);
        lemma_highest_bit_upto_bound((remote[n - 1] & own[n - 1]) as u8, 8);
    }
}

/// The scan result never shrinks as more byte indices are considered.
pub proof fn lemma_last_overlap_mono(own: Seq<u8>, remote: Seq<u8>, m: nat, n: nat)
    requires
        m <= n,
    ensures
        spec_last_overlap(own, remote, m) <= spec_last_overlap(own, remote, n),
    decreases n,
{
    if m < n {
        lemma_last_overlap_mono(own, remote, m, (n - 1) as nat);
        lemma_last_overlap_bound(own, remote, (n - 1) as nat);
        lemma_highest_bit_upto_bound((remote[n - 1] & own[n - 1]) as u8, 8);
    }
}

/// What negotiating `own` against `remote` yields: the version from the last
/// overlapping byte index among those both masks cover, or, when no index
/// overlaps, a failure carrying the highest version implied by the remote
/// mask's last byte.
pub open spec fn spec_common_version(own: Seq<u8>, remote: Seq<u8>) -> Result<int, int>
    recommends
        remote.len() >= 1,
{
    let v = spec_last_overlap(own, remote, min(own.len() as int, remote.len() as int) as nat);
    if v != 0 {
        Ok(v)
    } else {
        Err(spec_highest_bit(remote.last()) + 8 * (remote.len() - 1))
    }
}

/// One-based position of the highest set bit of b; 0 when b is 0.
fn highest_bit(b: u8) -> (r: u8)
    ensures
        r == spec_highest_bit(b),
        r <= 8,
{
    let mut highest: u8 = 0;
    let mut j: u8 = 0;
    while j < 8
        invariant
            j <= 8,
            highest <= j,
            highest == highest_bit_upto(b, j as nat),
        decreases 8 - j,
    {
        if ((b >> j) & 1) == 1 {
            highest = j + 1;
        }
        j = j + 1;
    }
    highest
}

/// Scans two version masks and returns the negotiated version, or the remote
/// peer's highest advertised version when nothing overlaps. Masks wider than
/// the 32 bytes the handshake wire format allows are excluded, as is an empty
/// remote mask and the one corner where the scanned version would not fit a
/// byte (version 256).
pub fn common_supported_version(own_supported_versions: &[u8], supported_versions: &[u8]) -> (r:
    Result<u8, u8>)
    requires
        1 <= supported_versions@.len() <= 32,
        spec_common_version(own_supported_versions@, supported_versions@) matches Ok(v) ==> v
            <= 255,
        spec_common_version(own_supported_versions@, supported_versions@) matches Err(e) ==> e
            <= 255,
    ensures
        spec_common_version(own_supported_versions@, supported_versions@) matches Ok(v) ==> r
            == Ok::<u8, u8>(v as u8),
        spec_common_version(own_supported_versions@, supported_versions@) matches Err(e) ==> r
            == Err::<u8, u8>(e as u8),
{
    let ghost own = own_supported_versions@;
    let ghost remote = supported_versions@;
    let n = if own_supported_versions.len() < supported_versions.len() {
        own_supported_versions.len()
    } else {
        supported_versions.len()
    };
    let ghost scan = spec_last_overlap(own, remote, n as nat);
    let mut highest_supported_version: u8 = 0;
    let mut i: usize = 0;
    while i < n
        invariant
            i <= n,
            n == min(own.len() as int, remote.len() as int),
            n <= own_supported_versions@.len(),
            n <= supported_versions@.len(),
            n <= 32,
            own == own_supported_versions@,
            remote == supported_versions@,
            scan == spec_last_overlap(own, remote, n as nat),
            scan != 0 ==> scan <= 255,
            highest_supported_version == spec_last_overlap(own, remote, i as nat),
        decreases n - i,
    {
        let supported: u8 = supported_versions[i] & own_supported_versions[i];
        if supported != 0 {
            let highest = highest_bit(supported);
            proof {
                lemma_highest_bit_upto_bound(supported, 8);
                lemma_last_overlap_mono(own, remote, (i + 1) as nat, n as nat);
                assert(spec_last_overlap(own, remote, (i + 1) as nat) == spec_highest_bit(supported)
                    + 8 * i);
            }
            highest_supported_version = highest + (i as u8) * 8;
        }
        i = i + 1;
    }
    if highest_supported_version == 0 {
        let last_versions_byte: u8 = supported_versions[supported_versions.len() - 1];
        let highest = highest_bit(last_versions_byte);
        return Err(highest + ((supported_versions.len() - 1) as u8) * 8);
    }
    Ok(highest_supported_version)
}

/// Whether a bitmask advertises support for version v: bit (v-1)%8 of byte
/// (v-1)/8 is set, versions being numbered from 1.
pub open spec fn spec_mask_supports(mask: Seq<u8>, v: int) -> bool {
    1 <= v && (v - 1) / 8 < mask.len() && ((mask[(v - 1) / 8] >> (((v - 1) % 8) as u8)) & 1) == 1
}

/// A byte's highest set bit is set in both operands of the AND that
/// produced it.
proof fn lemma_and_bit_set(a: u8, b: u8, j: u8)
    by (bit_vector)
    requires
        j < 8,
        (((a & b) >> j) & 1) == 1,
    ensures
        ((a >> j) & 1) == 1,
        ((b >> j) & 1) == 1,
{
}

/// A nonzero byte has a highest set bit.
proof fn lemma_highest_bit_pos(b: u8)
    requires
        b != 0,
    ensures
        spec_highest_bit(b) >= 1,
{
    reveal_with_fuel(highest_bit_upto, 9);
    if spec_highest_bit(b) == 0 {
        assert(b == 0) by (bit_vector)
            requires
                ((b >> 7u8) & 1) != 1,
                ((b >> 6u8) & 1) != 1,
                ((b >> 5u8) & 1) != 1,
                ((b >> 4u8) & 1) != 1,
                ((b >> 3u8) & 1) != 1,
                ((b >> 2u8) & 1) != 1,
                ((b >> 1u8) & 1) != 1,
                ((b >> 0u8) & 1) != 1,
        ;
    }
}

/// When the highest-bit position is not zero, the bit it names is set.
proof fn lemma_highest_bit_is_set(b: u8, n: nat)
    requires
        highest_bit_upto(b, n) >= 1,
        n <= 8,
    ensures
        ((b >> ((highest_bit_upto(b, n) - 1) as u8)) & 1) == 1,
    decreases n,
{
    if n > 0 && ((b >> ((n - 1) as u8)) & 1) != 1 {
        lemma_highest_bit_is_set(b, (n - 1) as nat);
    }
}

/// The version the scan settles on is supported by both masks wherever the
/// scan finds an overlap.
proof fn lemma_last_overlap_supported(own: Seq<u8>, remote: Seq<u8>, n: nat)
    requires
        n <= own.len(),
        n <= remote.len(),
        spec_last_overlap(own, remote, n) != 0,
    ensures
        spec_mask_supports(own, spec_last_overlap(own, remote, n)),
        spec_mask_supports(remote, spec_last_overlap(own, remote, n)),
    decreases n,
{
    let v = spec_last_overlap(own, remote, n);
    let b = (remote[n - 1] & own[n - 1]) as u8;
    if b != 0 {
        let i = n - 1;
        let hb = spec_highest_bit(b);
        lemma_highest_bit_upto_bound(b, 8);
        lemma_highest_bit_pos(b);
        assert(hb >= 1 && v == hb + 8 * i);
        lemma_highest_bit_is_set(b, 8);
        lemma_and_bit_set(remote[i], own[i], (hb - 1) as u8);
        assert((v - 1) / 8 == i && (v - 1) % 8 == hb - 1) by (nonlinear_arith)
            requires
                v == hb + 8 * i,
                1 <= hb <= 8,
                0 <= i,
        ;
    } else {
        lemma_last_overlap_supported(own, remote, (n - 1) as nat);
    }
}

/// Soundness of negotiation: a version the scan reports as common really is
/// advertised by both the local and the remote mask.
pub proof fn lemma_negotiated_version_supported(own: Seq<u8>, remote: Seq<u8>, v: int)
    requires
        remote.len() >= 1,
        spec_common_version(own, remote) == Ok::<int, int>(v),
    ensures
        spec_mask_supports(own, v),
        spec_mask_supports(remote, v),
{
    let n = min(own.len() as int, remote.len() as int) as nat;
    lemma_last_overlap_supported(own, remote, n);
}

/// The node's own version mask: a single byte supporting version 2 only.
pub open spec fn spec_supported_versions() -> Seq<u8> {
    seq![2u8]
}

/// Negotiates the remote peer's advertised mask against the node's own.
pub fn supported_version(supported_versions: &[u8]) -> (r: Result<u8, u8>)
    requires
        1 <= supported_versions@.len() <= 32,
        spec_common_version(spec_supported_versions(), supported_versions@) matches Ok(v) ==> v
            <= 255,
        spec_common_version(spec_supported_versions(), supported_versions@) matches Err(e) ==> e
            <= 255,
    ensures
        spec_common_version(spec_supported_versions(), supported_versions@) matches Ok(v) ==> r
            == Ok::<u8, u8>(v as u8),
        spec_common_version(spec_supported_versions(), supported_versions@) matches Err(e) ==> r
            == Err::<u8, u8>(e as u8),
{
    let mut own: Vec<u8> = Vec::new();
    own.push(VERSION_STING);
    proof {
        assert(VERSION_STING == 2) by (bit_vector);
        assert(own@ =~= spec_supported_versions());
    }
    common_supported_version(own.as_slice(), supported_versions)
}

} // verus!
