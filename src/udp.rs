//! The 8-byte UDP header, with its checksum over the IPv6 pseudo-header.

use vstd::prelude::*;
use crate::bytes::{be16, get_be16, push_all, push_be16, read_be16, lemma_be16_round_trip};
use crate::checksum::{checksum_ipv6, verify_ipv6, checksum_holds, internet_checksum, pseudo_header, lemma_checksum_field};
use crate::ip::{IPv6Header, Ipv6Endpoint, ipv6_wire, NEXT_UDP};

verus! {

/// Length of the UDP header.
pub const UDP_HEADER_LEN: usize = 8;

#[derive(Clone, Copy, Debug)]
pub struct UDPHeader {
    pub source_port: u16,
    pub destination_port: u16,
    pub length: u16,
    pub checksum: u16,
}

#[derive(Debug)]
pub enum FromRawError {
    BadChecksum,
    Truncated,
}

#[derive(Debug)]
pub enum ChecksumError {
    DataTooLarge,
}

/// The checksum of a UDP datagram with the given ports and payload.
pub open spec fn udp_checksum(source: Seq<u8>, destination: Seq<u8>, source_port: u16, destination_port: u16, data: Seq<u8>) -> u16 {
    let length = (8 + data.len()) as u16;
    internet_checksum(
        pseudo_header(source, destination, 17, length)
            + (UDPHeader { source_port, destination_port, length, checksum: 0 }).wire() + data,
    )
}

/// The header that `bytes` (at least 8 of them) start with.
pub open spec fn parse_udp_header(bytes: Seq<u8>) -> UDPHeader {
    UDPHeader {
        source_port: get_be16(bytes, 0),
        destination_port: get_be16(bytes, 2),
        length: get_be16(bytes, 4),
        checksum: get_be16(bytes, 6),
    }
}

/// What `UDPHeader::from_raw_ipv6` makes of a datagram: the header and what
/// follows it, or why it is refused.
pub open spec fn spec_decode_udp(data: Seq<u8>, source: Seq<u8>, destination: Seq<u8>) -> Result<(UDPHeader, Seq<u8>), FromRawError> {
    if data.len() < 8 || get_be16(data, 4) < 8 || get_be16(data, 4) > data.len() {
        Err(FromRawError::Truncated)
    } else if !checksum_holds(source, destination, 17, data.subrange(0, get_be16(data, 4) as int)) {
        Err(FromRawError::BadChecksum)
    } else {
        Ok((parse_udp_header(data), data.subrange(8, data.len() as int)))
    }
}

/// The IPv6 packet that carries one UDP datagram.
pub open spec fn udp_packet(source: Seq<u8>, source_port: u16, destination: Seq<u8>, destination_port: u16, data: Seq<u8>) -> Seq<u8> {
    let length = (8 + data.len()) as u16;
    ipv6_wire(length, 17, 255, source, destination) + (UDPHeader {
        source_port,
        destination_port,
        length,
        checksum: udp_checksum(source, destination, source_port, destination_port, data),
    }).wire() + data
}

/// The payload length of such a packet counts exactly the bytes that follow
/// its IPv6 header.
pub proof fn lemma_udp_packet_length(source: Seq<u8>, source_port: u16, destination: Seq<u8>, destination_port: u16, data: Seq<u8>)
    requires
        source.len() == 16,
        destination.len() == 16,
        8 + data.len() <= 0xffff,
    ensures
        ({
            let p = udp_packet(source, source_port, destination, destination_port, data);
            &&& p.len() >= 40
            &&& get_be16(p, 4) == p.len() - 40
        }),
{
    let p = udp_packet(source, source_port, destination, destination_port, data);
    let l = (8 + data.len()) as u16;
    lemma_be16_round_trip(l);
    assert(p.subrange(4, 6) =~= be16(l));
}

/// Builds the IPv6 packet that carries `data` from `source` to `destination`.
pub fn build_udp_packet(source: Ipv6Endpoint, destination: Ipv6Endpoint, data: &[u8]) -> (r: Result<Vec<u8>, ChecksumError>)
    ensures
        match r {
            Ok(p) => 8 + data@.len() <= 0xffff && p@ == udp_packet(source.ip@, source.port, destination.ip@, destination.port, data@),
            Err(ChecksumError::DataTooLarge) => 8 + data@.len() > 0xffff,
        },
{
    let udp = UDPHeader::new_ipv6(source, destination, data)?;
    let ip = IPv6Header::new(udp.length, NEXT_UDP, 255, source.ip, destination.ip);
    let mut out = ip.to_bytes();
    let head = udp.to_bytes();
    push_all(&mut out, head.as_slice());
    push_all(&mut out, data);
    Ok(out)
}

/// A datagram that `UDPHeader::new_ipv6` describes carries a checksum that
/// holds: its one's-complement sum over the pseudo-header, checksum field
/// included, is 0xffff.
pub proof fn lemma_udp_checksum_holds(source: [u8; 16], destination: [u8; 16], source_port: u16, destination_port: u16, data: Seq<u8>)
    requires
        8 + data.len() <= 0xffff,
    ensures
        checksum_holds(
            source@,
            destination@,
            17,
            (UDPHeader {
                source_port,
                destination_port,
                length: (8 + data.len()) as u16,
                checksum: udp_checksum(source@, destination@, source_port, destination_port, data),
            }).wire() + data,
        ),
{
    let length = (8 + data.len()) as u16;
    let p = pseudo_header(source@, destination@, 17, length);
    let a = p + be16(source_port) + be16(destination_port) + be16(length);
    let zeroed = UDPHeader { source_port, destination_port, length, checksum: 0 };
    assert(p + zeroed.wire() + data =~= a + be16(0) + data);
    lemma_checksum_field(a, data);
    let c = udp_checksum(source@, destination@, source_port, destination_port, data);
    let h = UDPHeader { checksum: c, ..zeroed };
    assert(p + (h.wire() + data) =~= a + be16(c) + data);
}

impl UDPHeader {
    /// The 8 bytes of the header on the wire.
    pub open spec fn wire(self) -> Seq<u8> {
        be16(self.source_port) + be16(self.destination_port) + be16(self.length) + be16(self.checksum)
    }

    /// The header of the datagram that carries `data` from `source` to
    /// `destination`, with its checksum.
    pub fn new_ipv6(source: Ipv6Endpoint, destination: Ipv6Endpoint, data: &[u8]) -> (r: Result<Self, ChecksumError>)
        ensures
            match r {
                Ok(h) => {
                    &&& 8 + data@.len() <= 0xffff
                    &&& h.source_port == source.port
                    &&& h.destination_port == destination.port
                    &&& h.length == 8 + data@.len()
                    &&& h.checksum == udp_checksum(source.ip@, destination.ip@, source.port, destination.port, data@)
                },
                Err(ChecksumError::DataTooLarge) => 8 + data@.len() > 0xffff,
            },
    {
        if data.len() > 0xffff - UDP_HEADER_LEN {
            return Err(ChecksumError::DataTooLarge);
        }
        let mut h = UDPHeader {
            source_port: source.port,
            destination_port: destination.port,
            length: (UDP_HEADER_LEN + data.len()) as u16,
            checksum: 0,
        };
        let head = h.to_bytes();
        h.checksum = checksum_ipv6(&source.ip, &destination.ip, NEXT_UDP, head.as_slice(), data);
        Ok(h)
    }

    /// Splits a datagram into its header and what follows the header; the
    /// length field must fit the datagram and the checksum must hold.
    pub fn from_raw_ipv6(data: &[u8], source: [u8; 16], destination: [u8; 16]) -> (r: Result<(Self, &[u8]), FromRawError>)
        ensures
            match (r, spec_decode_udp(data@, source@, destination@)) {
                (Ok((h, rest)), Ok((sh, srest))) => h == sh && rest@ == srest && 8 <= h.length <= data@.len(),
                (Err(FromRawError::Truncated), Err(FromRawError::Truncated)) => true,
                (Err(FromRawError::BadChecksum), Err(FromRawError::BadChecksum)) => true,
                _ => false,
            },
    {
        if data.len() < UDP_HEADER_LEN {
            return Err(FromRawError::Truncated);
        }
        let length = read_be16(data, 4);
        if length < 8 || length as usize > data.len() {
            return Err(FromRawError::Truncated);
        }
        let datagram = &data[0..length as usize];
        if !verify_ipv6(&source, &destination, NEXT_UDP, datagram) {
            return Err(FromRawError::BadChecksum);
        }
        let h = UDPHeader {
            source_port: read_be16(data, 0),
            destination_port: read_be16(data, 2),
            length,
            checksum: read_be16(data, 6),
        };
        let (_, rest) = data.split_at(UDP_HEADER_LEN);
        Ok((h, rest))
    }

    pub fn source_port(&self) -> (r: u16)
        ensures
            r == self.source_port,
    {
        self.source_port
    }

    pub fn destination_port(&self) -> (r: u16)
        ensures
            r == self.destination_port,
    {
        self.destination_port
    }

    pub fn checksum(&self) -> (r: u16)
        ensures
            r == self.checksum,
    {
        self.checksum
    }

    /// Length of the payload that the length field announces.
    pub fn data_length(&self) -> (r: u16)
        requires
            self.length >= 8,
        ensures
            r == self.length - 8,
    {
        self.length - 8
    }

    /// Total length of a datagram (header and data) that carries `data`.
    pub fn length(&self, data: &[u8]) -> (r: Result<u16, ()>)
        ensures
            match r {
                Ok(l) => l == 8 + data@.len(),
                Err(()) => 8 + data@.len() > 0xffff,
            },
    {
        if data.len() > 0xffff - UDP_HEADER_LEN {
            Err(())
        } else {
            Ok((UDP_HEADER_LEN + data.len()) as u16)
        }
    }

    /// Length of the header on the wire.
    pub fn byte_len(&self) -> (r: usize)
        ensures
            r == 8,
            r == self.wire().len(),
    {
        UDP_HEADER_LEN
    }

    /// The header as it goes on the wire.
    pub fn to_bytes(&self) -> (r: Vec<u8>)
        ensures
            r@ == self.wire(),
    {
        let mut out: Vec<u8> = Vec::new();
        push_be16(&mut out, self.source_port);
        push_be16(&mut out, self.destination_port);
        push_be16(&mut out, self.length);
        push_be16(&mut out, self.checksum);
        assert(out@ =~= self.wire());
        out
    }
}

} // verus!
