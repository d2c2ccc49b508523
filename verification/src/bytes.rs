//! Big-endian byte encodings of unsigned integers: the spec-level value of a
//! byte string, the spec-level encoding of an integer, executable readers and
//! writers proved against them, and the round-trip lemmas the message codecs
//! are built on.

use vstd::prelude::*;
use vstd::arithmetic::div_mod::lemma_fundamental_div_mod;

verus! {

/// The integer value of a big-endian byte string.
pub open spec fn be_val(s: Seq<u8>) -> int
    decreases s.len(),
{
    if s.len() == 0 {
        0
    } else {
        be_val(s.drop_last()) * 256 + s.last()
    }
}

/// 256 raised to the n-th power: the number of values of an n-byte string.
pub open spec fn pow256(n: nat) -> int
    decreases n,
{
    if n == 0 {
        1
    } else {
        256 * pow256((n - 1) as nat)
    }
}

/// The n-byte big-endian encoding of x (x taken modulo 256^n).
pub open spec fn be_bytes(x: int, n: nat) -> Seq<u8>
    decreases n,
{
    if n == 0 {
        Seq::<u8>::empty()
    } else {
        be_bytes(x / 256, (n - 1) as nat).push((x % 256) as u8)
    }
}

pub proof fn lemma_pow256_pos(n: nat)
    ensures
        pow256(n) >= 1,
    decreases n,
{
    if n > 0 {
        lemma_pow256_pos((n - 1) as nat);
    }
}

pub proof fn lemma_pow256_increases(m: nat, n: nat)
    requires
        m <= n,
    ensures
        pow256(m) <= pow256(n),
    decreases n,
{
    if m < n {
        lemma_pow256_increases(m, (n - 1) as nat);
        lemma_pow256_pos((n - 1) as nat);
    }
}

/// An n-byte string holds a value in [0, 256^n).
pub proof fn lemma_be_val_bound(s: Seq<u8>)
    ensures
        0 <= be_val(s) < pow256(s.len()),
    decreases s.len(),
{
    if s.len() > 0 {
        lemma_be_val_bound(s.drop_last());
    }
}

pub proof fn lemma_be_bytes_len(x: int, n: nat)
    ensures
        be_bytes(x, n).len() == n,
    decreases n,
{
    if n > 0 {
        lemma_be_bytes_len(x / 256, (n - 1) as nat);
    }
}

/// Decoding inverts encoding: the value of the n-byte encoding of x is x.
pub proof fn lemma_be_val_be_bytes(x: int, n: nat)
    requires
        0 <= x < pow256(n),
    ensures
        be_val(be_bytes(x, n)) == x,
    decreases n,
{
    if n > 0 {
        let q = x / 256;
        let r = x % 256;
        lemma_fundamental_div_mod(x, 256);
        lemma_pow256_pos((n - 1) as nat);
        assert(q < pow256((n - 1) as nat)) by (nonlinear_arith)
            requires
                x < 256 * pow256((n - 1) as nat),
                0 <= x,
                q == x / 256,
        ;
        lemma_be_val_be_bytes(q, (n - 1) as nat);
        lemma_be_bytes_len(q, (n - 1) as nat);
        let t = be_bytes(q, (n - 1) as nat);
        assert(t.push((r) as u8).drop_last() =~= t);
    }
}

/// Encoding inverts decoding: the encoding of the value of s, at the length
/// of s, is s itself.
pub proof fn lemma_be_bytes_be_val(s: Seq<u8>)
    ensures
        be_bytes(be_val(s), s.len()) == s,
    decreases s.len(),
{
    if s.len() > 0 {
        let d = s.drop_last();
        let v = be_val(s);
        lemma_be_val_bound(d);
        assert(v == be_val(d) * 256 + s.last());
        assert(v / 256 == be_val(d) && v % 256 == s.last()) by (nonlinear_arith)
            requires
                v == be_val(d) * 256 + s.last(),
                0 <= s.last() < 256,
                0 <= be_val(d),
        ;
        lemma_be_bytes_be_val(d);
        assert(be_bytes(v, s.len()) =~= s);
    }
}

/// Reads the n-byte big-endian integer at `offset` in `bytes`.
pub fn read_be(bytes: &[u8], offset: usize, n: usize) -> (r: u64)
    requires
        n <= 8,
        offset + n <= bytes@.len(),
    ensures
        r == be_val(bytes@.subrange(offset as int, offset + n)),
{
    let total: usize = bytes.len();
    let mut acc: u64 = 0;
    let mut i: usize = 0;
    proof {
        assert(bytes@.subrange(offset as int, offset as int) =~= Seq::<u8>::empty());
    }
    while i < n
        invariant
            i <= n,
            n <= 8,
            total == bytes@.len(),
            offset + n <= bytes@.len(),
            acc == be_val(bytes@.subrange(offset as int, offset + i)),
            acc < pow256(i as nat),
        decreases n - i,
    {
        let b = bytes[offset + i];
        proof {
            let cur = bytes@.subrange(offset as int, offset + i);
            let next = bytes@.subrange(offset as int, offset + i + 1);
            assert(next.drop_last() =~= cur);
            assert(next.last() == bytes@[offset + i]);
            lemma_pow256_increases((i + 1) as nat, 8);
            assert(pow256(8) == 0x1_0000_0000_0000_0000) by {
                reveal_with_fuel(pow256, 9);
            }
        }
        acc = acc * 256 + (b as u64);
        i = i + 1;
    }
    acc
}

/// Appends the n-byte big-endian encoding of x to `out`.
pub fn push_be(out: &mut Vec<u8>, x: u64, n: usize)
    requires
        n <= 8,
        x < pow256(n as nat),
    ensures
        final(out)@ == old(out)@ + be_bytes(x as int, n as nat),
    decreases n,
{
    if n == 0 {
        proof {
            assert(out@ =~= out@ + be_bytes(x as int, 0));
        }
        return;
    }
    let q = x / 256;
    let r = (x % 256) as u8;
    proof {
        lemma_pow256_pos((n - 1) as nat);
        assert(q < pow256((n - 1) as nat)) by (nonlinear_arith)
            requires
                x < 256 * pow256((n - 1) as nat),
                q == x as int / 256,
                0 <= x,
        ;
    }
    push_be(out, q, n - 1);
    out.push(r);
    proof {
        assert(out@ =~= old(out)@ + be_bytes(x as int, n as nat));
    }
}

/// Appends all of `src` to `out`.
pub fn push_slice(out: &mut Vec<u8>, src: &[u8])
    ensures
        final(out)@ == old(out)@ + src@,
{
    let mut i: usize = 0;
    proof {
        assert(out@ =~= old(out)@ + src@.subrange(0, 0));
    }
    while i < src.len()
        invariant
            i <= src@.len(),
            out@ == old(out)@ + src@.subrange(0, i as int),
        decreases src@.len() - i,
    {
        let b = src[i];
        out.push(b);
        proof {
            assert(old(out)@ + src@.subrange(0, i + 1) =~= (old(out)@ + src@.subrange(
                0,
                i as int,
            )).push(src@[i as int]));
        }
        i = i + 1;
    }
    proof {
        assert(src@.subrange(0, src@.len() as int) =~= src@);
    }
}

/// A vector of n zero bytes.
pub fn zero_vec(n: usize) -> (r: Vec<u8>)
    ensures
        r@ == Seq::new(n as nat, |i: int| 0u8),
{
    let mut out: Vec<u8> = Vec::new();
    let mut i: usize = 0;
    while i < n
        invariant
            i <= n,
            out@ == Seq::new(i as nat, |j: int| 0u8),
        decreases n - i,
    {
        out.push(0);
        proof {
            assert(out@ =~= Seq::new((i + 1) as nat, |j: int| 0u8));
        }
        i = i + 1;
    }
    out
}

/// Copies the bytes of `src` in [from, to) into a fresh vector.
pub fn slice_to_vec(src: &[u8], from: usize, to: usize) -> (r: Vec<u8>)
    requires
        from <= to,
        to <= src@.len(),
    ensures
        r@ == src@.subrange(from as int, to as int),
{
    let mut out: Vec<u8> = Vec::new();
    let mut i: usize = from;
    proof {
        assert(out@ =~= src@.subrange(from as int, from as int));
    }
    while i < to
        invariant
            from <= i <= to,
            to <= src@.len(),
            out@ == src@.subrange(from as int, i as int),
        decreases to - i,
    {
        let b = src[i];
        out.push(b);
        proof {
            assert(src@.subrange(from as int, i + 1) =~= src@.subrange(from as int, i as int).push(
                src@[i as int],
            ));
        }
        i = i + 1;
    }
    out
}

} // verus!
