//! The fixed 40-byte IPv6 header, and the addresses the tunnel deals in.

use vstd::prelude::*;
use crate::bytes::{be16, get_be16, push_all, push_be16, read_be16, take_array};

verus! {

/// An IPv6 address and a port.
#[derive(Clone, Copy, Debug)]
pub struct Ipv6Endpoint {
    pub ip: [u8; 16],
    pub port: u16,
}

/// An IPv4 address and a port.
#[derive(Clone, Copy, Debug)]
pub struct Ipv4Endpoint {
    pub ip: [u8; 4],
    pub port: u16,
}

/// Next-header number of TCP.
pub const NEXT_TCP: u8 = 6;

/// Next-header number of UDP.
pub const NEXT_UDP: u8 = 17;

/// Next-header number of ICMPv6.
pub const NEXT_ICMPV6: u8 = 58;

/// Length of the IPv6 header.
pub const IPV6_HEADER_LEN: usize = 40;

/// The 40 bytes of a header with version 6, traffic class and flow label
/// zero, and the given fields.
pub open spec fn ipv6_wire(payload_length: u16, next_header: u8, hop_limit: u8, source: Seq<u8>, destination: Seq<u8>) -> Seq<u8> {
    seq![0x60u8, 0, 0, 0] + be16(payload_length) + seq![next_header, hop_limit] + source + destination
}

#[derive(Clone, Copy, Debug)]
pub struct IPv6Header {
    pub head: [u8; 4],
    pub payload_length: u16,
    pub next_header: u8,
    pub hop_limit: u8,
    pub source_address: [u8; 16],
    pub destination_address: [u8; 16],
}

#[derive(Debug)]
pub enum FromRawError {
    BadSize,
    BadVersion(u8),
}

impl IPv6Header {
    /// The 40 bytes of the header on the wire.
    pub open spec fn wire(self) -> Seq<u8> {
        self.head@ + be16(self.payload_length) + seq![self.next_header, self.hop_limit]
            + self.source_address@ + self.destination_address@
    }

    pub open spec fn spec_version(self) -> u8 {
        (self.head[0] / 16) as u8
    }

    pub open spec fn spec_payload_length(self) -> u16 {
        self.payload_length
    }

    pub open spec fn spec_source(self) -> Seq<u8> {
        self.source_address@
    }

    pub open spec fn spec_destination(self) -> Seq<u8> {
        self.destination_address@
    }

    /// Version 6, traffic class and flow label zero.
    pub open spec fn is_plain(self) -> bool {
        self.head@ == seq![0x60u8, 0, 0, 0]
    }

    pub fn new(
        payload_length: u16,
        next_header: u8,
        hop_limit: u8,
        source_address: [u8; 16],
        destination_address: [u8; 16],
    ) -> (r: Self)
        ensures
            r.is_plain(),
            r.wire() == ipv6_wire(payload_length, next_header, hop_limit, source_address@, destination_address@),
            r.payload_length == payload_length,
            r.next_header == next_header,
            r.hop_limit == hop_limit,
            r.source_address == source_address,
            r.destination_address == destination_address,
    {
        let r = IPv6Header {
            head: [0x60, 0, 0, 0],
            payload_length,
            next_header,
            hop_limit,
            source_address,
            destination_address,
        };
        assert(r.head@ =~= seq![0x60u8, 0, 0, 0]);
        r
    }

    /// Splits `raw` into the header and what follows it.
    pub fn from_raw(raw: &[u8]) -> (r: Result<(Self, &[u8]), FromRawError>)
        ensures
            match r {
                Ok((h, rest)) => {
                    &&& raw@.len() >= 40
                    &&& raw@[0] / 16 == 6
                    &&& h.wire() == raw@.subrange(0, 40)
                    &&& h.payload_length == get_be16(raw@, 4)
                    &&& h.next_header == raw@[6]
                    &&& h.source_address@ == raw@.subrange(8, 24)
                    &&& h.destination_address@ == raw@.subrange(24, 40)
                    &&& rest@ == raw@.subrange(40, raw@.len() as int)
                },
                Err(FromRawError::BadSize) => raw@.len() < 40,
                Err(FromRawError::BadVersion(v)) => raw@.len() >= 40 && v == raw@[0] / 16 && v != 6,
            },
    {
        if raw.len() < IPV6_HEADER_LEN {
            return Err(FromRawError::BadSize);
        }
        let version = raw[0] / 16;
        if version != 6 {
            return Err(FromRawError::BadVersion(version));
        }
        let h = IPv6Header {
            head: take_array::<4>(raw, 0),
            payload_length: read_be16(raw, 4),
            next_header: raw[6],
            hop_limit: raw[7],
            source_address: take_array::<16>(raw, 8),
            destination_address: take_array::<16>(raw, 24),
        };
        let (_, rest) = raw.split_at(IPV6_HEADER_LEN);
        proof {
            assert(be16(h.payload_length) =~= raw@.subrange(4, 6));
            assert(h.wire() =~= raw@.subrange(0, 40));
        }
        Ok((h, rest))
    }

    pub fn version(&self) -> (r: u8)
        ensures
            r == self.spec_version(),
    {
        self.head[0] / 16
    }

    pub fn payload_length(&self) -> (r: u16)
        ensures
            r == self.payload_length,
    {
        self.payload_length
    }

    pub fn source_address(&self) -> (r: [u8; 16])
        ensures
            r == self.source_address,
    {
        self.source_address
    }

    pub fn set_source_address(&mut self, address: [u8; 16]) -> (r: &mut Self)
        ensures
            *r == (IPv6Header { source_address: address, ..*old(self) }),
            *final(self) == *final(r),
    {
        self.source_address = address;
        self
    }

    pub fn destination_address(&self) -> (r: [u8; 16])
        ensures
            r == self.destination_address,
    {
        self.destination_address
    }

    pub fn set_destination_address(&mut self, address: [u8; 16]) -> (r: &mut Self)
        ensures
            *r == (IPv6Header { destination_address: address, ..*old(self) }),
            *final(self) == *final(r),
    {
        self.destination_address = address;
        self
    }

    pub fn set_next_header(&mut self, header: u8) -> (r: &mut Self)
        ensures
            *r == (IPv6Header { next_header: header, ..*old(self) }),
            *final(self) == *final(r),
    {
        self.next_header = header;
        self
    }

    pub fn set_hop_limit(&mut self, limit: u8) -> (r: &mut Self)
        ensures
            *r == (IPv6Header { hop_limit: limit, ..*old(self) }),
            *final(self) == *final(r),
    {
        self.hop_limit = limit;
        self
    }

    pub fn set_payload_length(&mut self, length: u16) -> (r: &mut Self)
        ensures
            *r == (IPv6Header { payload_length: length, ..*old(self) }),
            *final(self) == *final(r),
    {
        self.payload_length = length;
        self
    }

    /// Length of the header on the wire.
    pub fn byte_len(&self) -> (r: usize)
        ensures
            r == 40,
            r == self.wire().len(),
    {
        40
    }

    /// The header as it goes on the wire.
    pub fn to_bytes(&self) -> (r: Vec<u8>)
        ensures
            r@ == self.wire(),
            r@.len() == 40,
    {
        let mut out: Vec<u8> = Vec::new();
        push_all(&mut out, &self.head);
        push_be16(&mut out, self.payload_length);
        out.push(self.next_header);
        out.push(self.hop_limit);
        push_all(&mut out, &self.source_address);
        push_all(&mut out, &self.destination_address);
        assert(out@ =~= self.wire());
        out
    }
}

impl Default for IPv6Header {
    fn default() -> (r: Self)
        ensures
            r.is_plain(),
            r.payload_length == 0,
            r.next_header == 0,
            r.hop_limit == 0,
            r.source_address@ == Seq::new(16, |i: int| 0u8),
            r.destination_address@ == Seq::new(16, |i: int| 0u8),
    {
        let r = IPv6Header::new(0, 0, 0, [0u8; 16], [0u8; 16]);
        assert(r.source_address@ =~= Seq::new(16, |i: int| 0u8));
        assert(r.destination_address@ =~= Seq::new(16, |i: int| 0u8));
        r
    }
}

} // verus!
