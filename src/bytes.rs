//! Integers on the wire: big-endian for the packet headers, little-endian for
//! the relay framing.

use vstd::prelude::*;

verus! {

/// Two big-endian bytes of a 16-bit value.
pub open spec fn be16(v: u16) -> Seq<u8> {
    seq![(v / 256) as u8, (v % 256) as u8]
}

/// Four big-endian bytes of a 32-bit value.
pub open spec fn be32(v: u32) -> Seq<u8> {
    seq![(v / 0x100_0000) as u8, (v / 0x1_0000 % 256) as u8, (v / 256 % 256) as u8, (v % 256) as u8]
}

/// Two little-endian bytes of a 16-bit value.
pub open spec fn le16(v: u16) -> Seq<u8> {
    seq![(v % 256) as u8, (v / 256) as u8]
}

/// The big-endian 16-bit value at offset `i`.
pub open spec fn get_be16(s: Seq<u8>, i: int) -> u16 {
    (s[i] as nat * 256 + s[i + 1] as nat) as u16
}

/// The big-endian 32-bit value at offset `i`.
pub open spec fn get_be32(s: Seq<u8>, i: int) -> u32 {
    (s[i] as nat * 0x100_0000 + s[i + 1] as nat * 0x1_0000 + s[i + 2] as nat * 256
        + s[i + 3] as nat) as u32
}

/// The little-endian 16-bit value at offset `i`.
pub open spec fn get_le16(s: Seq<u8>, i: int) -> u16 {
    (s[i] as nat + s[i + 1] as nat * 256) as u16
}

pub proof fn lemma_be16_round_trip(v: u16)
    ensures
        get_be16(be16(v), 0) == v,
        be16(v).len() == 2,
{
}

pub proof fn lemma_be32_round_trip(v: u32)
    ensures
        get_be32(be32(v), 0) == v,
        be32(v).len() == 4,
{
}

pub proof fn lemma_le16_round_trip(v: u16)
    ensures
        get_le16(le16(v), 0) == v,
        le16(v).len() == 2,
{
}

/// Appends the big-endian bytes of `x`.
pub fn push_be16(out: &mut Vec<u8>, x: u16)
    ensures
        final(out)@ == old(out)@ + be16(x),
{
    assert((x >> 8) as u8 == (x / 256) as u8 && (x & 0xff) as u8 == (x % 256) as u8) by (bit_vector);
    out.push((x >> 8) as u8);
    out.push((x & 0xff) as u8);
    assert(final(out)@ =~= old(out)@ + be16(x));
}

/// Appends the big-endian bytes of `x`.
pub fn push_be32(out: &mut Vec<u8>, x: u32)
    ensures
        final(out)@ == old(out)@ + be32(x),
{
    assert((x >> 24) as u8 == (x / 0x100_0000) as u8 && (x >> 16) as u8 == (x / 0x1_0000 % 256) as u8
        && (x >> 8) as u8 == (x / 256 % 256) as u8 && (x & 0xff) as u8 == (x % 256) as u8)
        by (bit_vector);
    out.push((x >> 24) as u8);
    out.push((x >> 16) as u8);
    out.push((x >> 8) as u8);
    out.push((x & 0xff) as u8);
    assert(final(out)@ =~= old(out)@ + be32(x));
}

/// Appends the little-endian bytes of `x`.
pub fn push_le16(out: &mut Vec<u8>, x: u16)
    ensures
        final(out)@ == old(out)@ + le16(x),
{
    assert((x >> 8) as u8 == (x / 256) as u8 && (x & 0xff) as u8 == (x % 256) as u8) by (bit_vector);
    out.push((x & 0xff) as u8);
    out.push((x >> 8) as u8);
    assert(final(out)@ =~= old(out)@ + le16(x));
}

/// Appends `bytes`.
pub fn push_all(out: &mut Vec<u8>, bytes: &[u8])
    ensures
        final(out)@ == old(out)@ + bytes@,
{
    let ghost start = out@;
    let mut i: usize = 0;
    while i < bytes.len()
        invariant
            i <= bytes.len(),
            out@ == start + bytes@.subrange(0, i as int),
        decreases bytes.len() - i,
    {
        out.push(bytes[i]);
        assert(bytes@.subrange(0, i + 1) =~= bytes@.subrange(0, i as int).push(bytes[i as int]));
        i = i + 1;
    }
    assert(bytes@.subrange(0, i as int) =~= bytes@);
}

/// The big-endian 16-bit value at offset `i`.
pub fn read_be16(b: &[u8], i: usize) -> (r: u16)
    requires
        i + 2 <= b@.len(),
    ensures
        r == get_be16(b@, i as int),
{
    (b[i] as u16) * 256 + b[i + 1] as u16
}

/// The big-endian 32-bit value at offset `i`.
pub fn read_be32(b: &[u8], i: usize) -> (r: u32)
    requires
        i + 4 <= b@.len(),
    ensures
        r == get_be32(b@, i as int),
{
    (b[i] as u32) * 0x100_0000 + (b[i + 1] as u32) * 0x1_0000 + (b[i + 2] as u32) * 256
        + b[i + 3] as u32
}

/// The little-endian 16-bit value at offset `i`.
pub fn read_le16(b: &[u8], i: usize) -> (r: u16)
    requires
        i + 2 <= b@.len(),
    ensures
        r == get_le16(b@, i as int),
{
    b[i] as u16 + (b[i + 1] as u16) * 256
}

/// The `N` bytes of `b` from offset `at`.
pub fn take_array<const N: usize>(b: &[u8], at: usize) -> (r: [u8; N])
    requires
        at + N <= b@.len(),
    ensures
        r@ == b@.subrange(at as int, at + N),
{
    let n = b.len();
    let mut r: [u8; N] = [0u8; N];
    let mut i: usize = 0;
    while i < N
        invariant
            i <= N,
            at + N <= n,
            n == b@.len(),
            r@.len() == N,
            forall|j: int| 0 <= j < i ==> r@[j] == b@[at + j],
        decreases N - i,
    {
        r[i] = b[at + i];
        i = i + 1;
    }
    assert(r@ =~= b@.subrange(at as int, at + N));
    r
}

} // verus!
