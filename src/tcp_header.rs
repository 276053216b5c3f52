//! The TCP header (RFC 793): the fixed 20 bytes, the flags, and the checksum
//! over the IPv6 pseudo-header, options and payload.

use vstd::prelude::*;
use crate::bytes::{be16, be32, get_be16, get_be32, push_all, push_be16, push_be32, read_be16, read_be32, lemma_be16_round_trip, lemma_be32_round_trip};
use crate::checksum::{checksum_ipv6, verify_ipv6, checksum_holds, internet_checksum, pseudo_header, lemma_checksum_field};
use crate::ip::NEXT_TCP;
use crate::tcp_options::{Options, FromRawError, pad4, round_up4};

verus! {

/// Length of the TCP header without options.
pub const TCP_HEADER_LEN: usize = 20;

/// The six flag bits of byte 13 of a TCP header (and the two reserved bits above them).
#[derive(Clone, Copy, Debug, PartialEq, Eq, Structural)]
pub struct Flags(pub u8);

#[derive(Clone, Copy, Debug, PartialEq, Eq, Structural)]
pub struct TcpHeader {
    pub source: u16,
    pub destination: u16,
    pub sequence_num: u32,
    pub acknowledge_num: u32,
    /// Byte 12: the data offset in its high nibble.
    pub data_offset: u8,
    pub flags: Flags,
    pub window: u16,
    pub checksum: u16,
    pub urgent_pointer: u16,
}

#[derive(Debug)]
pub enum ChecksumError {
    DataTooLarge,
}

impl Flags {
    pub const URGENT: u8 = 0x20;
    pub const ACKNOWLEDGE: u8 = 0x10;
    pub const PUSH: u8 = 0x08;
    pub const RESET: u8 = 0x04;
    pub const SYNCHRONIZE: u8 = 0x02;
    pub const FINISH: u8 = 0x01;

    /// Whether the bit `mask` is set.
    pub open spec fn has(self, mask: u8) -> bool {
        self.0 & mask != 0
    }

    /// The flags with the bit `mask` set or cleared.
    pub open spec fn with(self, mask: u8, enable: bool) -> Flags {
        if enable {
            Flags(self.0 | mask)
        } else {
            Flags(self.0 & !mask)
        }
    }

    /// No flag set.
    pub fn new() -> (r: Self)
        ensures
            r.0 == 0,
    {
        Flags(0)
    }

    pub fn urgent(&self) -> (r: bool)
        ensures
            r == self.has(Self::URGENT),
    {
        self.0 & Self::URGENT != 0
    }

    pub fn set_urgent(&mut self, enable: bool) -> (r: Self)
        ensures
            *final(self) == old(self).with(Self::URGENT, enable),
            r == *final(self),
    {
        self.set(Self::URGENT, enable)
    }

    pub fn acknowledge(&self) -> (r: bool)
        ensures
            r == self.has(Self::ACKNOWLEDGE),
    {
        self.0 & Self::ACKNOWLEDGE != 0
    }

    pub fn set_acknowledge(&mut self, enable: bool) -> (r: Self)
        ensures
            *final(self) == old(self).with(Self::ACKNOWLEDGE, enable),
            r == *final(self),
    {
        self.set(Self::ACKNOWLEDGE, enable)
    }

    pub fn push(&self) -> (r: bool)
        ensures
            r == self.has(Self::PUSH),
    {
        self.0 & Self::PUSH != 0
    }

    pub fn set_push(&mut self, enable: bool) -> (r: Self)
        ensures
            *final(self) == old(self).with(Self::PUSH, enable),
            r == *final(self),
    {
        self.set(Self::PUSH, enable)
    }

    pub fn reset(&self) -> (r: bool)
        ensures
            r == self.has(Self::RESET),
    {
        self.0 & Self::RESET != 0
    }

    pub fn set_reset(&mut self, enable: bool) -> (r: Self)
        ensures
            *final(self) == old(self).with(Self::RESET, enable),
            r == *final(self),
    {
        self.set(Self::RESET, enable)
    }

    pub fn synchronize(&self) -> (r: bool)
        ensures
            r == self.has(Self::SYNCHRONIZE),
    {
        self.0 & Self::SYNCHRONIZE != 0
    }

    pub fn set_synchronize(&mut self, enable: bool) -> (r: Self)
        ensures
            *final(self) == old(self).with(Self::SYNCHRONIZE, enable),
            r == *final(self),
    {
        self.set(Self::SYNCHRONIZE, enable)
    }

    pub fn finish(&self) -> (r: bool)
        ensures
            r == self.has(Self::FINISH),
    {
        self.0 & Self::FINISH != 0
    }

    pub fn set_finish(&mut self, enable: bool) -> (r: Self)
        ensures
            *final(self) == old(self).with(Self::FINISH, enable),
            r == *final(self),
    {
        self.set(Self::FINISH, enable)
    }

    fn set(&mut self, mask: u8, enable: bool) -> (r: Self)
        ensures
            *final(self) == old(self).with(mask, enable),
            r == *final(self),
    {
        if enable {
            self.0 = self.0 | mask;
        } else {
            self.0 = self.0 & !mask;
        }
        *self
    }
}

/// The header that `bytes` (at least 20 of them) start with.
pub open spec fn parse_tcp_header(bytes: Seq<u8>) -> TcpHeader {
    TcpHeader {
        source: get_be16(bytes, 0),
        destination: get_be16(bytes, 2),
        sequence_num: get_be32(bytes, 4),
        acknowledge_num: get_be32(bytes, 8),
        data_offset: bytes[12],
        flags: Flags(bytes[13]),
        window: get_be16(bytes, 14),
        checksum: get_be16(bytes, 16),
        urgent_pointer: get_be16(bytes, 18),
    }
}

/// Byte 12 of a header whose options block takes `options_len` bytes on the wire.
pub open spec fn offset_byte(options_len: int) -> u8 {
    ((20 + round_up4(options_len)) / 4 * 16) as u8
}

/// The header that `TcpHeader::new` builds: ports, numbers, flags and window
/// as given, data offset from the padded options, urgent pointer zero, and
/// the checksum of the whole segment.
pub open spec fn spec_tcp_header(
    source: Seq<u8>,
    source_port: u16,
    destination: Seq<u8>,
    destination_port: u16,
    sequence_num: u32,
    acknowledge_num: u32,
    flags: Flags,
    window: u16,
    options: Seq<u8>,
    data: Seq<u8>,
) -> TcpHeader {
    let zeroed = TcpHeader {
        source: source_port,
        destination: destination_port,
        sequence_num,
        acknowledge_num,
        data_offset: offset_byte(options.len() as int),
        flags,
        window,
        checksum: 0,
        urgent_pointer: 0,
    };
    TcpHeader {
        checksum: internet_checksum(
            pseudo_header(source, destination, 6, (20 + round_up4(options.len() as int) + data.len()) as u16)
                + zeroed.wire() + pad4(options) + data,
        ),
        ..zeroed
    }
}

/// What `TcpHeader::from_raw_ipv6` makes of a segment: the header, the
/// options block and the payload, or why it is refused.
pub open spec fn spec_decode_tcp(data: Seq<u8>, source: Seq<u8>, destination: Seq<u8>) -> Result<
    (TcpHeader, Seq<u8>, Seq<u8>),
    FromRawError,
> {
    if data.len() < 20 || (data[12] / 16) * 4 < 20 || (data[12] / 16) * 4 > data.len() {
        Err(FromRawError::Truncated)
    } else if !checksum_holds(source, destination, 6, data) {
        Err(FromRawError::BadChecksum)
    } else {
        let end = (data[12] / 16) * 4;
        Ok((parse_tcp_header(data), data.subrange(20, end as int), data.subrange(end as int, data.len() as int)))
    }
}

/// The data offset of a header built over an options block counts the
/// block with its padding, which is a whole number of words.
pub proof fn lemma_options_padding(options: Seq<u8>)
    requires
        options.len() <= 40,
    ensures
        pad4(options).len() % 4 == 0,
        pad4(options).len() == round_up4(options.len() as int),
        (offset_byte(options.len() as int) / 16) * 4 == 20 + pad4(options).len(),
{
}

/// A segment built by `TcpHeader::new` carries a checksum that holds: its
/// one's-complement sum over the pseudo-header, checksum field included, is
/// 0xffff.
pub proof fn lemma_tcp_checksum_holds(
    source: [u8; 16],
    source_port: u16,
    destination: [u8; 16],
    destination_port: u16,
    sequence_num: u32,
    acknowledge_num: u32,
    flags: Flags,
    window: u16,
    options: Seq<u8>,
    data: Seq<u8>,
)
    requires
        options.len() <= 40,
        20 + round_up4(options.len() as int) + data.len() <= 0xffff,
    ensures
        checksum_holds(
            source@,
            destination@,
            6,
            spec_tcp_header(
                source@,
                source_port,
                destination@,
                destination_port,
                sequence_num,
                acknowledge_num,
                flags,
                window,
                options,
                data,
            ).wire() + pad4(options) + data,
        ),
{
    let h = spec_tcp_header(
        source@,
        source_port,
        destination@,
        destination_port,
        sequence_num,
        acknowledge_num,
        flags,
        window,
        options,
        data,
    );
    let zeroed = TcpHeader { checksum: 0, ..h };
    let length = (20 + round_up4(options.len() as int) + data.len()) as u16;
    let p = pseudo_header(source@, destination@, 6, length);
    let a = p + be16(source_port) + be16(destination_port) + be32(sequence_num) + be32(acknowledge_num)
        + seq![h.data_offset, flags.0] + be16(window);
    let b = be16(0) + pad4(options) + data;
    assert(p + zeroed.wire() + pad4(options) + data =~= a + be16(0) + b);
    lemma_checksum_field(a, b);
    assert(p + (h.wire() + pad4(options) + data) =~= a + be16(h.checksum) + b);
}

/// The header that `wire` writes is the one that `parse_tcp_header` reads.
pub proof fn lemma_parse_tcp_header(h: TcpHeader, rest: Seq<u8>)
    ensures
        parse_tcp_header(h.wire() + rest) == h,
{
    let s = h.wire() + rest;
    lemma_be16_round_trip(h.source);
    lemma_be16_round_trip(h.destination);
    lemma_be32_round_trip(h.sequence_num);
    lemma_be32_round_trip(h.acknowledge_num);
    lemma_be16_round_trip(h.window);
    lemma_be16_round_trip(h.checksum);
    lemma_be16_round_trip(h.urgent_pointer);
    assert(s.subrange(0, 2) =~= be16(h.source));
    assert(s.subrange(2, 4) =~= be16(h.destination));
    assert(s.subrange(4, 8) =~= be32(h.sequence_num));
    assert(s.subrange(8, 12) =~= be32(h.acknowledge_num));
    assert(s.subrange(14, 16) =~= be16(h.window));
    assert(s.subrange(16, 18) =~= be16(h.checksum));
    assert(s.subrange(18, 20) =~= be16(h.urgent_pointer));
}

/// Decoding a segment that `TcpHeader::new` describes gives back its header,
/// with the ports, numbers, flags and window it was built with, its options
/// block with padding, and its payload.
#[verifier::rlimit(40)]
pub proof fn lemma_tcp_round_trip(
    source: [u8; 16],
    source_port: u16,
    destination: [u8; 16],
    destination_port: u16,
    sequence_num: u32,
    acknowledge_num: u32,
    flags: Flags,
    window: u16,
    options: Seq<u8>,
    data: Seq<u8>,
)
    requires
        options.len() <= 40,
        20 + round_up4(options.len() as int) + data.len() <= 0xffff,
    ensures
        ({
            let h = spec_tcp_header(
                source@,
                source_port,
                destination@,
                destination_port,
                sequence_num,
                acknowledge_num,
                flags,
                window,
                options,
                data,
            );
            &&& spec_decode_tcp(h.wire() + pad4(options) + data, source@, destination@) == Ok::<
                (TcpHeader, Seq<u8>, Seq<u8>),
                FromRawError,
            >((h, pad4(options), data))
            &&& h.source == source_port
            &&& h.destination == destination_port
            &&& h.sequence_num == sequence_num
            &&& h.acknowledge_num == acknowledge_num
            &&& h.flags == flags
            &&& h.window == window
        }),
{
    let h = spec_tcp_header(
        source@,
        source_port,
        destination@,
        destination_port,
        sequence_num,
        acknowledge_num,
        flags,
        window,
        options,
        data,
    );
    let seg = h.wire() + pad4(options) + data;
    lemma_options_padding(options);
    lemma_tcp_checksum_holds(
        source,
        source_port,
        destination,
        destination_port,
        sequence_num,
        acknowledge_num,
        flags,
        window,
        options,
        data,
    );
    lemma_parse_tcp_header(h, pad4(options) + data);
    assert(seg =~= h.wire() + (pad4(options) + data));
    assert(seg[12] == h.data_offset);
    let end = 20 + pad4(options).len();
    assert(seg.subrange(20, end as int) =~= pad4(options));
    assert(seg.subrange(end as int, seg.len() as int) =~= data);
}

impl TcpHeader {
    /// The 20 bytes of the header on the wire.
    pub open spec fn wire(self) -> Seq<u8> {
        be16(self.source) + be16(self.destination) + be32(self.sequence_num) + be32(self.acknowledge_num)
            + seq![self.data_offset, self.flags.0] + be16(self.window) + be16(self.checksum)
            + be16(self.urgent_pointer)
    }

    /// Splits a segment into its header, its options block and its payload;
    /// the data offset must fit the segment and the checksum must hold.
    pub fn from_raw_ipv6(data: &[u8], source: [u8; 16], destination: [u8; 16]) -> (r: Result<(Self, Options, &[u8]), FromRawError>)
        ensures
            match (r, spec_decode_tcp(data@, source@, destination@)) {
                (Ok((h, o, rest)), Ok((sh, so, srest))) => h == sh && o@ == so && rest@ == srest,
                (Err(FromRawError::Truncated), Err(FromRawError::Truncated)) => true,
                (Err(FromRawError::BadChecksum), Err(FromRawError::BadChecksum)) => true,
                _ => false,
            },
    {
        if data.len() < TCP_HEADER_LEN {
            return Err(FromRawError::Truncated);
        }
        let end = (data[12] / 16) as usize * 4;
        if end < TCP_HEADER_LEN || end > data.len() {
            return Err(FromRawError::Truncated);
        }
        if !verify_ipv6(&source, &destination, NEXT_TCP, data) {
            return Err(FromRawError::BadChecksum);
        }
        let h = TcpHeader {
            source: read_be16(data, 0),
            destination: read_be16(data, 2),
            sequence_num: read_be32(data, 4),
            acknowledge_num: read_be32(data, 8),
            data_offset: data[12],
            flags: Flags(data[13]),
            window: read_be16(data, 14),
            checksum: read_be16(data, 16),
            urgent_pointer: read_be16(data, 18),
        };
        let mut options: Vec<u8> = Vec::new();
        push_all(&mut options, &data[TCP_HEADER_LEN..end]);
        let rest = &data[end..data.len()];
        Ok((h, Options(options), rest))
    }

    /// The header of a segment that carries `options` and `data` from
    /// `source` to `destination`, with its checksum.
    pub fn new(
        source: ([u8; 16], u16),
        destination: ([u8; 16], u16),
        sequence_num: u32,
        acknowledge_num: u32,
        flags: Flags,
        window: u16,
        options: &Options,
        data: &[u8],
    ) -> (r: Self)
        requires
            options@.len() <= 40,
            20 + round_up4(options@.len() as int) + data@.len() <= 0xffff,
        ensures
            r == spec_tcp_header(
                source.0@,
                source.1,
                destination.0@,
                destination.1,
                sequence_num,
                acknowledge_num,
                flags,
                window,
                options@,
                data@,
            ),
    {
        let padded = options.padded();
        let data_offset = ((TCP_HEADER_LEN + padded.len()) / 4 * 16) as u8;
        let mut h = TcpHeader {
            source: source.1,
            destination: destination.1,
            sequence_num,
            acknowledge_num,
            data_offset,
            flags,
            window,
            checksum: 0,
            urgent_pointer: 0,
        };
        let mut head = h.to_bytes();
        let ghost zeroed = head@;
        let mut i: usize = 0;
        while i < padded.len()
            invariant
                i <= padded@.len(),
                padded@.len() <= 40,
                head@ == zeroed + padded@.subrange(0, i as int),
            decreases padded@.len() - i,
        {
            head.push(padded[i]);
            assert(padded@.subrange(0, i + 1) =~= padded@.subrange(0, i as int).push(padded@[i as int]));
            i = i + 1;
        }
        assert(padded@.subrange(0, i as int) =~= padded@);
        h.checksum = checksum_ipv6(&source.0, &destination.0, NEXT_TCP, head.as_slice(), data);
        assert(padded@.len() == round_up4(options@.len() as int));
        assert(h.data_offset == offset_byte(options@.len() as int));
        assert(zeroed == (TcpHeader { checksum: 0, ..h }).wire());
        assert(head@ == zeroed + pad4(options@));
        let ghost p = pseudo_header(source.0@, destination.0@, 6, (head@.len() + data@.len()) as u16);
        assert(p + head@ + data@ =~= p + zeroed + pad4(options@) + data@);
        h
    }

    pub fn source(&self) -> (r: u16)
        ensures
            r == self.source,
    {
        self.source
    }

    pub fn destination(&self) -> (r: u16)
        ensures
            r == self.destination,
    {
        self.destination
    }

    pub fn sequence_num(&self) -> (r: u32)
        ensures
            r == self.sequence_num,
    {
        self.sequence_num
    }

    pub fn acknowledge_num(&self) -> (r: u32)
        ensures
            r == self.acknowledge_num,
    {
        self.acknowledge_num
    }

    /// Length of the header, options included, in 32-bit words.
    pub fn data_offset(&self) -> (r: u8)
        ensures
            r == self.data_offset / 16,
    {
        self.data_offset / 16
    }

    pub fn window(&self) -> (r: u16)
        ensures
            r == self.window,
    {
        self.window
    }

    pub fn checksum(&self) -> (r: u16)
        ensures
            r == self.checksum,
    {
        self.checksum
    }

    pub fn urgent_pointer(&self) -> (r: u16)
        ensures
            r == self.urgent_pointer,
    {
        self.urgent_pointer
    }

    /// Length of a segment with this header (options included) that carries `data`.
    pub fn length(&self, data: &[u8]) -> (r: Result<u16, ()>)
        ensures
            match r {
                Ok(l) => l == (self.data_offset / 16) * 4 + data@.len(),
                Err(()) => (self.data_offset / 16) * 4 + data@.len() > 0xffff,
            },
    {
        let h = (self.data_offset / 16) as usize * 4;
        if data.len() > 0xffff - h {
            Err(())
        } else {
            Ok((h + data.len()) as u16)
        }
    }

    /// Length of the header on the wire, without options.
    pub fn byte_len(&self) -> (r: usize)
        ensures
            r == 20,
            r == self.wire().len(),
    {
        TCP_HEADER_LEN
    }

    /// The 20 bytes of the header as they go on the wire.
    pub fn to_bytes(&self) -> (r: Vec<u8>)
        ensures
            r@ == self.wire(),
    {
        let mut out: Vec<u8> = Vec::new();
        push_be16(&mut out, self.source);
        push_be16(&mut out, self.destination);
        push_be32(&mut out, self.sequence_num);
        push_be32(&mut out, self.acknowledge_num);
        out.push(self.data_offset);
        out.push(self.flags.0);
        push_be16(&mut out, self.window);
        push_be16(&mut out, self.checksum);
        push_be16(&mut out, self.urgent_pointer);
        assert(out@ =~= self.wire());
        out
    }
}

} // verus!
