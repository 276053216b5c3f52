//! The Internet checksum (RFC 1071) as a streaming accumulator.

use vstd::prelude::*;
use crate::bytes::be16;
use vstd::arithmetic::div_mod::{lemma_fundamental_div_mod, lemma_mod_multiples_vanish, lemma_small_mod};

verus! {

/// What the byte at offset `i` of a stream adds to the sum of its 16-bit
/// big-endian words: bytes at even offsets are high bytes.
pub open spec fn byte_weight(i: int, b: u8) -> nat {
    if i % 2 == 0 {
        (b as nat) * 256
    } else {
        b as nat
    }
}

/// Sum of the big-endian 16-bit words of `b`; an odd trailing byte is the
/// high byte of a word whose low byte is zero.
pub open spec fn word_sum(b: Seq<u8>) -> nat
    decreases b.len(),
{
    if b.len() == 0 {
        0
    } else {
        word_sum(b.drop_last()) + byte_weight(b.len() - 1, b.last())
    }
}

/// The sum folded into 16 bits with end-around carries: the one's-complement
/// sum. It is zero only for a zero sum and congruent to `s` modulo 0xffff.
pub open spec fn ones_fold(s: nat) -> nat {
    if s == 0 {
        0
    } else {
        ((s - 1) % 65535 + 1) as nat
    }
}

/// The Internet checksum of a byte stream: its one's-complement sum, inverted.
pub open spec fn internet_checksum(b: Seq<u8>) -> u16 {
    (0xffff - ones_fold(word_sum(b))) as u16
}

/// Streams at most this long can be fed to one accumulator.
pub const MAX_FED: usize = 0xffff_ffff;

/// Streaming accumulator of the Internet checksum.
pub struct Checksum {
    odd_byte: Option<u8>,
    sum: u64,
    fed: Ghost<Seq<u8>>,
}

impl View for Checksum {
    type V = Seq<u8>;

    /// The bytes fed so far.
    closed spec fn view(&self) -> Seq<u8> {
        self.fed@
    }
}

pub proof fn lemma_word_sum_bound(b: Seq<u8>)
    ensures
        word_sum(b) <= 65280 * b.len(),
    decreases b.len(),
{
    if b.len() > 0 {
        lemma_word_sum_bound(b.drop_last());
    }
}

/// Appending after a stream of even length adds the words of the appended part.
pub proof fn lemma_word_sum_concat(a: Seq<u8>, b: Seq<u8>)
    requires
        a.len() % 2 == 0,
    ensures
        word_sum(a + b) == word_sum(a) + word_sum(b),
    decreases b.len(),
{
    if b.len() == 0 {
        assert(a + b =~= a);
    } else {
        lemma_word_sum_concat(a, b.drop_last());
        assert((a + b).drop_last() =~= a + b.drop_last());
    }
}

pub proof fn lemma_word_sum_be16(v: u16)
    ensures
        word_sum(be16(v)) == v as nat,
{
    let s = be16(v);
    assert(s.drop_last().drop_last() =~= Seq::<u8>::empty());
    assert(word_sum(s.drop_last().drop_last()) == 0);
    assert(s.drop_last().last() == s[0]);
    assert(word_sum(s.drop_last()) == (v / 256) as nat * 256);
    assert(s.last() == s[1]);
}

/// Folding once more keeps the one's-complement sum.
proof fn lemma_fold_step(s: nat)
    requires
        s >= 65536,
    ensures
        ones_fold(s % 65536 + s / 65536) == ones_fold(s),
        s % 65536 + s / 65536 < s,
{
    let q = s / 65536;
    let r = s % 65536;
    lemma_fundamental_div_mod(s as int, 65536);
    let t = q + r;
    assert(q >= 1);
    assert(s - 1 == 65535 * q + (t - 1));
    lemma_mod_multiples_vanish(q as int, t - 1, 65535);
}

proof fn lemma_fold_small(s: nat)
    requires
        s <= 0xffff,
    ensures
        ones_fold(s) == s,
{
    if s > 0 {
        lemma_small_mod((s - 1) as nat, 65535);
    }
}

/// Adding the inverted one's-complement sum of `s` to `s` gives the
/// one's-complement sum 0xffff.
pub proof fn lemma_fold_complement(s: nat)
    ensures
        ones_fold(s) <= 0xffff,
        ones_fold((s + (0xffff - ones_fold(s))) as nat) == 0xffff,
{
    if s == 0 {
        lemma_small_mod(65534, 65535);
    } else {
        let q = (s - 1) / 65535;
        let r = (s - 1) % 65535;
        lemma_fundamental_div_mod(s - 1, 65535);
        let t = s + 0xffff - (r + 1);
        assert(t - 1 == 65535 * q + 65534);
        lemma_mod_multiples_vanish(q, 65534, 65535);
        lemma_small_mod(65534, 65535);
    }
}

/// Storing the inverted one's-complement sum of a stream in a zeroed 16-bit
/// field at an even offset makes the stream's one's-complement sum 0xffff.
pub proof fn lemma_checksum_field(a: Seq<u8>, b: Seq<u8>)
    requires
        a.len() % 2 == 0,
    ensures
        ({
            let c = (0xffff - ones_fold(word_sum(a + be16(0) + b))) as u16;
            ones_fold(word_sum(a + be16(c) + b)) == 0xffff
        }),
{
    let s = word_sum(a + be16(0) + b);
    lemma_fold_complement(s);
    let c = (0xffff - ones_fold(s)) as u16;
    lemma_word_sum_concat(a, be16(0));
    lemma_word_sum_concat(a + be16(0), b);
    lemma_word_sum_concat(a, be16(c));
    lemma_word_sum_concat(a + be16(c), b);
    lemma_word_sum_be16(0);
    lemma_word_sum_be16(c);
}

/// The IPv6 pseudo-header that transport checksums cover: source, destination,
/// a zero byte, the next-header number and the upper-layer length.
pub open spec fn pseudo_header(source: Seq<u8>, destination: Seq<u8>, next: u8, length: u16) -> Seq<u8> {
    source + destination + seq![0u8, next] + be16(length)
}

/// A transport segment whose stored checksum covers the pseudo-header: its
/// one's-complement sum, checksum field included, is 0xffff.
pub open spec fn checksum_holds(source: Seq<u8>, destination: Seq<u8>, next: u8, segment: Seq<u8>) -> bool {
    &&& segment.len() <= 0xffff
    &&& ones_fold(word_sum(pseudo_header(source, destination, next, segment.len() as u16) + segment)) == 0xffff
}

/// Checksum of a transport segment made of `head` and `data`, over the
/// pseudo-header of `source` and `destination`.
pub fn checksum_ipv6(source: &[u8; 16], destination: &[u8; 16], next: u8, head: &[u8], data: &[u8]) -> (r: u16)
    requires
        head@.len() + data@.len() <= 0xffff,
    ensures
        r == internet_checksum(
            pseudo_header(source@, destination@, next, (head@.len() + data@.len()) as u16) + head@ + data@,
        ),
{
    let length = (head.len() + data.len()) as u16;
    let mut c = Checksum::new();
    c.feed_ref(source);
    c.feed_ref(destination);
    c.feed(0);
    c.feed(next);
    assert((length >> 8) as u8 == (length / 256) as u8 && (length & 0xff) as u8 == (length % 256) as u8) by (bit_vector);
    c.feed((length >> 8) as u8);
    c.feed((length & 0xff) as u8);
    c.feed_ref(head);
    c.feed_ref(data);
    assert(c@ =~= pseudo_header(source@, destination@, next, length) + head@ + data@);
    c.finish()
}

/// Whether `segment` carries a checksum that covers the pseudo-header of
/// `source` and `destination`.
pub fn verify_ipv6(source: &[u8; 16], destination: &[u8; 16], next: u8, segment: &[u8]) -> (r: bool)
    ensures
        r == checksum_holds(source@, destination@, next, segment@),
{
    if segment.len() > 0xffff {
        return false;
    }
    let empty: [u8; 0] = [];
    let c = checksum_ipv6(source, destination, next, segment, &empty);
    proof {
        let all = pseudo_header(source@, destination@, next, segment@.len() as u16) + segment@;
        assert(all + empty@ =~= all);
        lemma_word_sum_bound(all);
    }
    c == 0
}

impl Checksum {
    pub closed spec fn wf(&self) -> bool {
        &&& self.fed@.len() <= MAX_FED
        &&& self.odd_byte.is_some() == (self.fed@.len() % 2 == 1)
        &&& self.sum as nat + match self.odd_byte {
            Some(y) => (y as nat) * 256,
            None => 0,
        } == word_sum(self.fed@)
    }

    /// An accumulator that has been fed nothing.
    pub fn new() -> (r: Self)
        ensures
            r.wf(),
            r@ == Seq::<u8>::empty(),
    {
        Checksum { odd_byte: None, sum: 0, fed: Ghost(Seq::empty()) }
    }

    /// Feeds one byte.
    pub fn feed(&mut self, x: u8)
        requires
            old(self).wf(),
            old(self)@.len() < MAX_FED,
        ensures
            final(self).wf(),
            final(self)@ == old(self)@.push(x),
    {
        let ghost before = self.fed@;
        proof {
            lemma_word_sum_bound(before);
            assert(before.push(x).drop_last() =~= before);
        }
        match self.odd_byte {
            Some(y) => {
                self.sum = self.sum + ((y as u64) * 256 + x as u64);
                self.odd_byte = None;
            },
            None => {
                self.odd_byte = Some(x);
            },
        }
        self.fed = Ghost(before.push(x));
    }

    /// Feeds a run of bytes, in order.
    pub fn feed_ref(&mut self, bytes: &[u8])
        requires
            old(self).wf(),
            old(self)@.len() + bytes@.len() <= MAX_FED,
        ensures
            final(self).wf(),
            final(self)@ == old(self)@ + bytes@,
    {
        let ghost start = self@;
        let mut i: usize = 0;
        while i < bytes.len()
            invariant
                i <= bytes.len(),
                self.wf(),
                start.len() + bytes@.len() <= MAX_FED,
                self@ == start + bytes@.subrange(0, i as int),
            decreases bytes.len() - i,
        {
            self.feed(bytes[i]);
            assert(bytes@.subrange(0, i + 1) =~= bytes@.subrange(0, i as int).push(bytes[i as int]));
            i = i + 1;
        }
        assert(bytes@.subrange(0, i as int) =~= bytes@);
    }

    /// The checksum of the bytes fed so far.
    pub fn finish(&mut self) -> (r: u16)
        requires
            old(self).wf(),
        ensures
            *final(self) == *old(self),
            r == internet_checksum(old(self)@),
    {
        proof {
            lemma_word_sum_bound(self.fed@);
        }
        let pending: u64 = match self.odd_byte {
            Some(y) => (y as u64) * 256,
            None => 0,
        };
        let mut s: u64 = self.sum + pending;
        let ghost total: nat = s as nat;
        while s > 0xffff
            invariant
                ones_fold(s as nat) == ones_fold(total),
            decreases s,
        {
            assert((s & 0xffff) == s % 65536 && (s >> 16) == s / 65536) by (bit_vector);
            proof {
                lemma_fold_step(s as nat);
            }
            s = (s & 0xffff) + (s >> 16);
        }
        proof {
            lemma_fold_small(s as nat);
        }
        (0xffff - s) as u16
    }
}

} // verus!
