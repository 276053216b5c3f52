//! TCP options: their wire forms, a parser that walks them, and an encoder
//! that pads the block to a multiple of four bytes.

use vstd::prelude::*;
use crate::bytes::{be16, be32, get_be16, get_be32, push_be16, push_be32, read_be16, read_be32, lemma_be16_round_trip, lemma_be32_round_trip};

verus! {

/// Room for options in a TCP header: a data offset of at most 15 words.
pub const MAX_OPTIONS_LEN: usize = 40;

/// `n` rounded up to a multiple of four.
pub open spec fn round_up4(n: int) -> int {
    (n + 3) / 4 * 4
}

/// `s` followed by zeros up to a multiple of four bytes.
pub open spec fn pad4(s: Seq<u8>) -> Seq<u8> {
    s + Seq::new((round_up4(s.len() as int) - s.len()) as nat, |i: int| 0u8)
}

/// The edges carried by a selective acknowledgement, one to four 32-bit values.
#[derive(Clone, Copy, Debug, PartialEq, Eq, Structural)]
pub enum SACK {
    N1(u32),
    N2(u32, u32),
    N3(u32, u32, u32),
    N4(u32, u32, u32, u32),
}

#[derive(Clone, Copy, Debug, PartialEq, Eq, Structural)]
pub enum OptionData {
    NoOperation,
    MaximumSegmentSize(u16),
    SelectiveAcknowledgementPermitted,
    SelectiveAcknowledgement(SACK),
    Timestamp { time: u32, echo: u32 },
    WindowScale(u8),
}

#[derive(Debug)]
pub enum FromRawError {
    BadChecksum,
    Truncated,
    BadOption,
}

/// The raw bytes of an options block.
#[derive(Clone, Debug)]
pub struct Options(pub Vec<u8>);

/// The values of a selective acknowledgement, big-endian, one after the other.
pub open spec fn sack_wire(s: SACK) -> Seq<u8> {
    match s {
        SACK::N1(a) => be32(a),
        SACK::N2(a, b) => be32(a) + be32(b),
        SACK::N3(a, b, c) => be32(a) + be32(b) + be32(c),
        SACK::N4(a, b, c, d) => be32(a) + be32(b) + be32(c) + be32(d),
    }
}

/// The wire form of one option.
pub open spec fn option_wire(o: OptionData) -> Seq<u8> {
    match o {
        OptionData::NoOperation => seq![1u8],
        OptionData::MaximumSegmentSize(s) => seq![2u8, 4u8] + be16(s),
        OptionData::SelectiveAcknowledgementPermitted => seq![4u8, 2u8],
        OptionData::SelectiveAcknowledgement(s) => seq![5u8, (2 + sack_wire(s).len()) as u8]
            + sack_wire(s),
        OptionData::Timestamp { time, echo } => seq![8u8, 10u8] + be32(time) + be32(echo),
        OptionData::WindowScale(s) => seq![3u8, 3u8, s],
    }
}

/// The wire forms of a list of options, one after the other.
pub open spec fn options_wire(l: Seq<OptionData>) -> Seq<u8>
    decreases l.len(),
{
    if l.len() == 0 {
        Seq::empty()
    } else {
        option_wire(l[0]) + options_wire(l.subrange(1, l.len() as int))
    }
}

/// How many bytes the option that `s` starts with spans, by its kind byte
/// (and, for a selective acknowledgement, its length byte).
pub open spec fn option_span(s: Seq<u8>) -> Result<int, FromRawError> {
    let k = s[0];
    if k == 1 {
        Ok(1)
    } else if k == 2 {
        Ok(4)
    } else if k == 3 {
        Ok(3)
    } else if k == 4 {
        Ok(2)
    } else if k == 8 {
        Ok(10)
    } else if k == 5 {
        if s.len() < 2 {
            Err(FromRawError::Truncated)
        } else if s[1] == 6 || s[1] == 10 || s[1] == 14 || s[1] == 18 {
            Ok(s[1] as int)
        } else {
            Err(FromRawError::BadOption)
        }
    } else {
        Err(FromRawError::BadOption)
    }
}

/// The split of `s` at its first option: `None` at the end of the block (no
/// byte left, or a zero byte), else the option's bytes and what follows.
pub open spec fn spec_next_option(s: Seq<u8>) -> Result<Option<(Seq<u8>, Seq<u8>)>, FromRawError> {
    if s.len() == 0 || s[0] == 0 {
        Ok(None)
    } else {
        match option_span(s) {
            Err(e) => Err(e),
            Ok(n) => if n > s.len() {
                Err(FromRawError::Truncated)
            } else {
                Ok(Some((s.subrange(0, n), s.subrange(n, s.len() as int))))
            },
        }
    }
}

/// The option whose bytes are `r`, as split off by `spec_next_option`.
pub open spec fn decode_option(r: Seq<u8>) -> OptionData {
    let k = r[0];
    if k == 1 {
        OptionData::NoOperation
    } else if k == 2 {
        OptionData::MaximumSegmentSize(get_be16(r, 2))
    } else if k == 3 {
        OptionData::WindowScale(r[2])
    } else if k == 4 {
        OptionData::SelectiveAcknowledgementPermitted
    } else if k == 8 {
        OptionData::Timestamp { time: get_be32(r, 2), echo: get_be32(r, 6) }
    } else if r.len() == 6 {
        OptionData::SelectiveAcknowledgement(SACK::N1(get_be32(r, 2)))
    } else if r.len() == 10 {
        OptionData::SelectiveAcknowledgement(SACK::N2(get_be32(r, 2), get_be32(r, 6)))
    } else if r.len() == 14 {
        OptionData::SelectiveAcknowledgement(SACK::N3(get_be32(r, 2), get_be32(r, 6), get_be32(r, 10)))
    } else {
        OptionData::SelectiveAcknowledgement(
            SACK::N4(get_be32(r, 2), get_be32(r, 6), get_be32(r, 10), get_be32(r, 14)),
        )
    }
}

/// The options of a block, read up to its end or its first zero byte.
pub open spec fn parse_options(s: Seq<u8>) -> Result<Seq<OptionData>, FromRawError>
    decreases s.len(),
{
    match spec_next_option(s) {
        Err(e) => Err(e),
        Ok(None) => Ok(Seq::empty()),
        Ok(Some((r, rest))) => if rest.len() < s.len() {
            match parse_options(rest) {
                Err(e) => Err(e),
                Ok(l) => Ok(seq![decode_option(r)] + l),
            }
        } else {
            Err(FromRawError::BadOption)
        },
    }
}

/// Zeros, `n` of them.
pub open spec fn zeros(n: nat) -> Seq<u8> {
    Seq::new(n, |i: int| 0u8)
}

/// The parser reads back each option that `option_wire` writes.
#[verifier::rlimit(40)]
pub proof fn lemma_option_round_trip(o: OptionData, rest: Seq<u8>)
    ensures
        spec_next_option(option_wire(o) + rest) == Ok::<Option<(Seq<u8>, Seq<u8>)>, FromRawError>(
            Some((option_wire(o), rest)),
        ),
        decode_option(option_wire(o)) == o,
        option_wire(o).len() > 0,
{
    let w = option_wire(o);
    let s = w + rest;
    assert(s.subrange(0, w.len() as int) =~= w);
    assert(s.subrange(w.len() as int, s.len() as int) =~= rest);
    match o {
        OptionData::MaximumSegmentSize(v) => {
            lemma_be16_round_trip(v);
            assert(w.subrange(2, 4) =~= be16(v));
        },
        OptionData::Timestamp { time, echo } => {
            lemma_be32_round_trip(time);
            lemma_be32_round_trip(echo);
            assert(w.subrange(2, 6) =~= be32(time));
            assert(w.subrange(6, 10) =~= be32(echo));
        },
        OptionData::SelectiveAcknowledgement(k) => {
            match k {
                SACK::N1(a) => {
                    lemma_be32_round_trip(a);
                    assert(w.subrange(2, 6) =~= be32(a));
                },
                SACK::N2(a, b) => {
                    lemma_be32_round_trip(a);
                    lemma_be32_round_trip(b);
                    assert(w.subrange(2, 6) =~= be32(a));
                    assert(w.subrange(6, 10) =~= be32(b));
                },
                SACK::N3(a, b, c) => {
                    lemma_be32_round_trip(a);
                    lemma_be32_round_trip(b);
                    lemma_be32_round_trip(c);
                    assert(w.subrange(2, 6) =~= be32(a));
                    assert(w.subrange(6, 10) =~= be32(b));
                    assert(w.subrange(10, 14) =~= be32(c));
                },
                SACK::N4(a, b, c, d) => {
                    lemma_be32_round_trip(a);
                    lemma_be32_round_trip(b);
                    lemma_be32_round_trip(c);
                    lemma_be32_round_trip(d);
                    assert(w.subrange(2, 6) =~= be32(a));
                    assert(w.subrange(6, 10) =~= be32(b));
                    assert(w.subrange(10, 14) =~= be32(c));
                    assert(w.subrange(14, 18) =~= be32(d));
                },
            }
        },
        _ => {},
    }
}

/// Walking the wire form of a list of options, followed by any zero
/// padding, gives back the list.
pub proof fn lemma_options_round_trip(l: Seq<OptionData>, padding: nat)
    ensures
        parse_options(options_wire(l) + zeros(padding)) == Ok::<Seq<OptionData>, FromRawError>(l),
    decreases l.len(),
{
    let s = options_wire(l) + zeros(padding);
    if l.len() == 0 {
        assert(s =~= zeros(padding));
        assert(l =~= Seq::<OptionData>::empty());
    } else {
        let tail = l.subrange(1, l.len() as int);
        let rest = options_wire(tail) + zeros(padding);
        assert(s =~= option_wire(l[0]) + rest);
        lemma_option_round_trip(l[0], rest);
        lemma_options_round_trip(tail, padding);
        assert(seq![l[0]] + tail =~= l);
    }
}

/// The block that `Options::new` builds walks back to the options it was built from.
pub proof fn lemma_options_block_round_trip(l: Seq<OptionData>)
    ensures
        parse_options(pad4(options_wire(l))) == Ok::<Seq<OptionData>, FromRawError>(l),
{
    let w = options_wire(l);
    lemma_options_round_trip(l, (round_up4(w.len() as int) - w.len()) as nat);
}

impl View for Options {
    type V = Seq<u8>;

    open spec fn view(&self) -> Seq<u8> {
        self.0@
    }
}

/// Walks the options of a block.
pub struct OptionsIter {
    data: Vec<u8>,
    pos: usize,
}

impl View for OptionsIter {
    type V = Seq<u8>;

    /// What is left to walk.
    closed spec fn view(&self) -> Seq<u8> {
        self.data@.subrange(self.pos as int, self.data@.len() as int)
    }
}

impl OptionsIter {
    pub closed spec fn wf(&self) -> bool {
        &&& self.pos <= self.data@.len()
        &&& self.data@.len() <= usize::MAX
    }

    /// The next option; `None` once the block has ended.
    pub fn next(&mut self) -> (r: Result<Option<OptionData>, FromRawError>)
        requires
            old(self).wf(),
        ensures
            final(self).wf(),
            match spec_next_option(old(self)@) {
                Err(e) => r == Err::<Option<OptionData>, FromRawError>(e) && final(self)@ == old(self)@,
                Ok(None) => r == Ok::<Option<OptionData>, FromRawError>(None) && final(self)@ == old(self)@,
                Ok(Some((o, rest))) => r == Ok::<Option<OptionData>, FromRawError>(Some(decode_option(o)))
                    && final(self)@ == rest,
            },
    {
        let rest = self.data.as_slice().split_at(self.pos).1;
        match Options::next_option(rest) {
            Err(e) => Err(e),
            Ok(None) => Ok(None),
            Ok(Some((o, _))) => {
                assert(o@[0] == rest@[0]);
                assert(o@.len() >= 2 ==> o@[1] == rest@[1]);
                let d = decode(o);
                self.pos = self.pos + o.len();
                assert(self@ =~= old(self)@.subrange(o@.len() as int, old(self)@.len() as int));
                Ok(Some(d))
            },
        }
    }
}

/// The option whose bytes `r` were split off by `Options::next_option`.
fn decode(r: &[u8]) -> (o: OptionData)
    requires
        r@.len() > 0,
        option_span(r@) == Ok::<int, FromRawError>(r@.len() as int),
    ensures
        o == decode_option(r@),
{
    let k = r[0];
    if k == 1 {
        OptionData::NoOperation
    } else if k == 2 {
        OptionData::MaximumSegmentSize(read_be16(r, 2))
    } else if k == 3 {
        OptionData::WindowScale(r[2])
    } else if k == 4 {
        OptionData::SelectiveAcknowledgementPermitted
    } else if k == 8 {
        OptionData::Timestamp { time: read_be32(r, 2), echo: read_be32(r, 6) }
    } else if r.len() == 6 {
        OptionData::SelectiveAcknowledgement(SACK::N1(read_be32(r, 2)))
    } else if r.len() == 10 {
        OptionData::SelectiveAcknowledgement(SACK::N2(read_be32(r, 2), read_be32(r, 6)))
    } else if r.len() == 14 {
        OptionData::SelectiveAcknowledgement(SACK::N3(read_be32(r, 2), read_be32(r, 6), read_be32(r, 10)))
    } else {
        OptionData::SelectiveAcknowledgement(
            SACK::N4(read_be32(r, 2), read_be32(r, 6), read_be32(r, 10), read_be32(r, 14)),
        )
    }
}

/// Appends the wire form of one option.
fn push_option(out: &mut Vec<u8>, o: OptionData)
    ensures
        final(out)@ == old(out)@ + option_wire(o),
{
    match o {
        OptionData::NoOperation => {
            out.push(1);
        },
        OptionData::MaximumSegmentSize(s) => {
            out.push(2);
            out.push(4);
            push_be16(out, s);
        },
        OptionData::SelectiveAcknowledgementPermitted => {
            out.push(4);
            out.push(2);
        },
        OptionData::SelectiveAcknowledgement(s) => {
            out.push(5);
            match s {
                SACK::N1(a) => {
                    out.push(6);
                    push_be32(out, a);
                },
                SACK::N2(a, b) => {
                    out.push(10);
                    push_be32(out, a);
                    push_be32(out, b);
                },
                SACK::N3(a, b, c) => {
                    out.push(14);
                    push_be32(out, a);
                    push_be32(out, b);
                    push_be32(out, c);
                },
                SACK::N4(a, b, c, d) => {
                    out.push(18);
                    push_be32(out, a);
                    push_be32(out, b);
                    push_be32(out, c);
                    push_be32(out, d);
                },
            }
        },
        OptionData::Timestamp { time, echo } => {
            out.push(8);
            out.push(10);
            push_be32(out, time);
            push_be32(out, echo);
        },
        OptionData::WindowScale(s) => {
            out.push(3);
            out.push(3);
            out.push(s);
        },
    }
    assert(final(out)@ =~= old(out)@ + option_wire(o));
}

proof fn lemma_pad_count(n: nat)
    ensures
        n + (4 - n % 4) % 4 == round_up4(n as int),
        (4 - n % 4) % 4 <= 3,
{
}

/// Appends zeros up to a multiple of four bytes.
fn pad_to_words(buf: &mut Vec<u8>)
    requires
        old(buf)@.len() + 3 <= usize::MAX,
    ensures
        final(buf)@ == pad4(old(buf)@),
{
    let ghost unpadded = buf@;
    proof {
        lemma_pad_count(unpadded.len());
    }
    let pad = (4 - buf.len() % 4) % 4;
    let mut k: usize = 0;
    while k < pad
        invariant
            k <= pad,
            pad == (4 - unpadded.len() % 4) % 4,
            buf@ == unpadded + zeros(k as nat),
        decreases pad - k,
    {
        buf.push(0);
        k = k + 1;
        assert(buf@ =~= unpadded + zeros(k as nat));
    }
    assert(zeros(k as nat) =~= Seq::new((round_up4(unpadded.len() as int) - unpadded.len()) as nat, |i: int| 0u8));
}

impl Options {
    /// An empty block.
    pub fn none() -> (r: Self)
        ensures
            r@ == Seq::<u8>::empty(),
    {
        Options(Vec::new())
    }

    /// The block that carries `options` in order, zero-padded to a multiple
    /// of four bytes; `Err` where it would not fit in a TCP header.
    pub fn new(options: &[OptionData]) -> (r: Result<Self, ()>)
        ensures
            match r {
                Ok(o) => options_wire(options@).len() <= 40 && o@ == pad4(options_wire(options@)),
                Err(()) => options_wire(options@).len() > 40,
            },
    {
        let mut buf: Vec<u8> = Vec::new();
        let mut i: usize = 0;
        assert(options@.subrange(0, options@.len() as int) =~= options@);
        assert(buf@ + options_wire(options@) =~= options_wire(options@));
        while i < options.len()
            invariant
                i <= options@.len(),
                buf@.len() <= 40,
                options_wire(options@) == buf@ + options_wire(options@.subrange(i as int, options@.len() as int)),
            decreases options@.len() - i,
        {
            let ghost tail = options@.subrange(i as int, options@.len() as int);
            assert(tail.subrange(1, tail.len() as int) =~= options@.subrange(i + 1, options@.len() as int));
            push_option(&mut buf, options[i]);
            i = i + 1;
            if buf.len() > MAX_OPTIONS_LEN {
                return Err(());
            }
        }
        assert(options@.subrange(i as int, options@.len() as int) =~= Seq::<OptionData>::empty());
        assert(buf@ + Seq::<u8>::empty() =~= buf@);
        pad_to_words(&mut buf);
        Ok(Options(buf))
    }

    /// Walks the options of this block.
    pub fn iter(&self) -> (r: OptionsIter)
        ensures
            r.wf(),
            r@ == self@,
    {
        let it = OptionsIter { data: self.0.clone(), pos: 0 };
        let _n = it.data.len();
        assert(it@ =~= self@);
        it
    }

    /// Length of the block on the wire, padding included.
    pub fn byte_len(&self) -> (r: usize)
        requires
            self@.len() + 3 <= usize::MAX,
        ensures
            r == round_up4(self@.len() as int),
    {
        (self.0.len() + 3) / 4 * 4
    }

    /// The block with its padding, as it goes on the wire.
    pub fn padded(&self) -> (r: Vec<u8>)
        requires
            self@.len() + 3 <= usize::MAX,
        ensures
            r@ == pad4(self@),
    {
        let mut buf = self.0.clone();
        pad_to_words(&mut buf);
        buf
    }

    /// Splits off the first option of `data`; `None` at the end of the block
    /// (no byte left, or a zero byte).
    pub fn next_option(data: &[u8]) -> (r: Result<Option<(&[u8], &[u8])>, FromRawError>)
        ensures
            match (r, spec_next_option(data@)) {
                (Ok(Some((o, rest))), Ok(Some((so, srest)))) => o@ == so && rest@ == srest,
                (Ok(None), Ok(None)) => true,
                (Err(FromRawError::BadOption), Err(FromRawError::BadOption)) => true,
                (Err(FromRawError::Truncated), Err(FromRawError::Truncated)) => true,
                _ => false,
            },
    {
        if data.len() == 0 || data[0] == 0 {
            return Ok(None);
        }
        let k = data[0];
        let n: usize = if k == 1 {
            1
        } else if k == 2 {
            4
        } else if k == 3 {
            3
        } else if k == 4 {
            2
        } else if k == 8 {
            10
        } else if k == 5 {
            if data.len() < 2 {
                return Err(FromRawError::Truncated);
            } else if data[1] == 6 || data[1] == 10 || data[1] == 14 || data[1] == 18 {
                data[1] as usize
            } else {
                return Err(FromRawError::BadOption);
            }
        } else {
            return Err(FromRawError::BadOption);
        };
        if n > data.len() {
            return Err(FromRawError::Truncated);
        }
        Ok(Some(data.split_at(n)))
    }
}

} // verus!
