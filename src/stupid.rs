//! The relay protocol: an 11-byte little-endian header
//! `{type, remote IPv4, remote port, local port, data length}` followed by
//! `data length` bytes of payload.

use vstd::prelude::*;
use crate::bytes::{le16, get_le16, push_all, push_le16, read_le16, take_array, lemma_le16_round_trip};
use crate::ip::Ipv4Endpoint;

verus! {

/// Length of the relay header.
pub const STUPID_HEADER_LEN: usize = 11;

/// The largest payload of one relay message: header and payload fit in 65535 bytes.
pub const MAX_PAYLOAD: usize = 65524;

/// The kinds of relay message; their numbers are part of the wire protocol.
#[derive(Clone, Copy, Debug, PartialEq, Eq, Structural)]
pub enum StupidType {
    TCP,
    UDP,
    TcpConnect,
    TcpFinish,
}

/// A type byte that names no kind of message.
#[derive(Debug)]
pub struct InvalidType;

#[derive(Debug)]
pub enum FromRawError {
    Truncated,
}

#[derive(Clone, Copy, Debug)]
pub struct StupidDataHeader {
    pub ty: u8,
    pub remote_ip: [u8; 4],
    pub remote_port: u16,
    pub local_port: u16,
    pub data_length: u16,
}

/// The number of a kind of message on the wire.
pub open spec fn type_code(t: StupidType) -> u8 {
    match t {
        StupidType::TCP => 0,
        StupidType::UDP => 1,
        StupidType::TcpConnect => 2,
        StupidType::TcpFinish => 3,
    }
}

/// The kind of message that a type byte names.
pub open spec fn spec_type_of(n: u8) -> Result<StupidType, InvalidType> {
    if n == 0 {
        Ok(StupidType::TCP)
    } else if n == 1 {
        Ok(StupidType::UDP)
    } else if n == 2 {
        Ok(StupidType::TcpConnect)
    } else if n == 3 {
        Ok(StupidType::TcpFinish)
    } else {
        Err(InvalidType)
    }
}

impl From<StupidType> for u8 {
    fn from(t: StupidType) -> (r: u8)
        ensures
            r == type_code(t),
    {
        match t {
            StupidType::TCP => 0,
            StupidType::UDP => 1,
            StupidType::TcpConnect => 2,
            StupidType::TcpFinish => 3,
        }
    }
}

impl vstd::std_specs::convert::FromSpecImpl<StupidType> for u8 {
    open spec fn obeys_from_spec() -> bool {
        true
    }

    open spec fn from_spec(t: StupidType) -> u8 {
        type_code(t)
    }
}

impl StupidType {
    /// The kind of message that the type byte `n` names.
    pub fn try_from(n: u8) -> (r: Result<Self, InvalidType>)
        ensures
            match (r, spec_type_of(n)) {
                (Ok(t), Ok(st)) => t == st,
                (Err(_), Err(_)) => true,
                _ => false,
            },
    {
        if n == 0 {
            Ok(StupidType::TCP)
        } else if n == 1 {
            Ok(StupidType::UDP)
        } else if n == 2 {
            Ok(StupidType::TcpConnect)
        } else if n == 3 {
            Ok(StupidType::TcpFinish)
        } else {
            Err(InvalidType)
        }
    }
}

/// The header of a message of kind `ty` between `remote` and the client's `local` port.
pub open spec fn spec_header(ty: StupidType, remote: Ipv4Endpoint, local: u16, data_length: u16) -> StupidDataHeader {
    StupidDataHeader {
        ty: type_code(ty),
        remote_ip: remote.ip,
        remote_port: remote.port,
        local_port: local,
        data_length,
    }
}

/// The bytes of a whole message of kind `ty` between `remote_ip`:`remote_port`
/// and the client's `local` port: header, then payload.
pub open spec fn spec_message(ty: StupidType, remote_ip: Seq<u8>, remote_port: u16, local: u16, data: Seq<u8>) -> Seq<u8> {
    seq![type_code(ty)] + remote_ip + le16(remote_port) + le16(local) + le16(data.len() as u16) + data
}

/// A message framed for any kind, remote endpoint, local port and payload
/// that fits decodes back to them, with nothing trailing.
pub proof fn lemma_message_round_trip(ty: StupidType, remote_ip: [u8; 4], remote_port: u16, local: u16, data: Seq<u8>)
    requires
        data.len() <= MAX_PAYLOAD,
    ensures
        ({
            let m = spec_message(ty, remote_ip@, remote_port, local, data);
            &&& m.len() >= 11
            &&& get_le16(m, 9) == data.len()
            &&& m.len() == 11 + get_le16(m, 9)
            &&& spec_type_of(m[0]) == Ok::<StupidType, InvalidType>(ty)
            &&& m.subrange(1, 5) == remote_ip@
            &&& get_le16(m, 5) == remote_port
            &&& get_le16(m, 7) == local
            &&& m.subrange(11, 11 + get_le16(m, 9)) == data
            &&& m.subrange(11 + get_le16(m, 9), m.len() as int) == Seq::<u8>::empty()
        }),
{
    let m = spec_message(ty, remote_ip@, remote_port, local, data);
    lemma_le16_round_trip(remote_port);
    lemma_le16_round_trip(local);
    lemma_le16_round_trip(data.len() as u16);
    assert(m.subrange(1, 5) =~= remote_ip@);
    assert(m.subrange(5, 7) =~= le16(remote_port));
    assert(m.subrange(7, 9) =~= le16(local));
    assert(m.subrange(9, 11) =~= le16(data.len() as u16));
    assert(m.subrange(11, 11 + data.len() as int) =~= data);
    assert(m.subrange(11 + data.len() as int, m.len() as int) =~= Seq::<u8>::empty());
}

impl StupidDataHeader {
    /// The 11 bytes of the header on the wire.
    pub open spec fn wire(self) -> Seq<u8> {
        seq![self.ty] + self.remote_ip@ + le16(self.remote_port) + le16(self.local_port) + le16(self.data_length)
    }

    /// Splits a buffer into the header of its first message, the payload,
    /// and what follows.
    pub fn from_raw(data: &[u8]) -> (r: Result<(Self, &[u8], &[u8]), FromRawError>)
        ensures
            match r {
                Ok((h, d, e)) => {
                    &&& data@.len() >= 11
                    &&& data@.len() >= 11 + h.data_length
                    &&& h.wire() == data@.subrange(0, 11)
                    &&& h.ty == data@[0]
                    &&& h.remote_ip@ == data@.subrange(1, 5)
                    &&& h.remote_port == get_le16(data@, 5)
                    &&& h.local_port == get_le16(data@, 7)
                    &&& h.data_length == get_le16(data@, 9)
                    &&& d@ == data@.subrange(11, 11 + h.data_length)
                    &&& e@ == data@.subrange(11 + h.data_length, data@.len() as int)
                },
                Err(FromRawError::Truncated) => data@.len() < 11 || data@.len() < 11 + get_le16(data@, 9),
            },
    {
        if data.len() < STUPID_HEADER_LEN {
            return Err(FromRawError::Truncated);
        }
        let data_length = read_le16(data, 9);
        if data.len() - STUPID_HEADER_LEN < data_length as usize {
            return Err(FromRawError::Truncated);
        }
        let h = StupidDataHeader {
            ty: data[0],
            remote_ip: take_array::<4>(data, 1),
            remote_port: read_le16(data, 5),
            local_port: read_le16(data, 7),
            data_length,
        };
        let end = STUPID_HEADER_LEN + data_length as usize;
        let d = &data[STUPID_HEADER_LEN..end];
        let e = &data[end..data.len()];
        assert(h.wire() =~= data@.subrange(0, 11));
        Ok((h, d, e))
    }

    pub fn new(ty: StupidType, remote: Ipv4Endpoint, local: u16, data_length: u16) -> (r: Self)
        ensures
            r == spec_header(ty, remote, local, data_length),
    {
        StupidDataHeader {
            ty: ty.into(),
            remote_ip: remote.ip,
            remote_port: remote.port,
            local_port: local,
            data_length,
        }
    }

    pub fn remote(&self) -> (r: Ipv4Endpoint)
        ensures
            r.ip == self.remote_ip,
            r.port == self.remote_port,
    {
        Ipv4Endpoint { ip: self.remote_ip, port: self.remote_port }
    }

    pub fn local(&self) -> (r: u16)
        ensures
            r == self.local_port,
    {
        self.local_port
    }

    pub fn ty(&self) -> (r: Result<StupidType, InvalidType>)
        ensures
            match (r, spec_type_of(self.ty)) {
                (Ok(t), Ok(st)) => t == st,
                (Err(_), Err(_)) => true,
                _ => false,
            },
    {
        StupidType::try_from(self.ty)
    }

    pub fn data_length(&self) -> (r: u16)
        ensures
            r == self.data_length,
    {
        self.data_length
    }

    /// Length of the header on the wire.
    pub fn byte_len(&self) -> (r: usize)
        ensures
            r == 11,
            r == self.wire().len(),
    {
        STUPID_HEADER_LEN
    }

    /// The header as it goes on the wire.
    pub fn to_bytes(&self) -> (r: Vec<u8>)
        ensures
            r@ == self.wire(),
    {
        let mut out: Vec<u8> = Vec::new();
        out.push(self.ty);
        push_all(&mut out, &self.remote_ip);
        push_le16(&mut out, self.remote_port);
        push_le16(&mut out, self.local_port);
        push_le16(&mut out, self.data_length);
        assert(out@ =~= self.wire());
        out
    }
}

/// The whole message of kind `ty` that carries `data`; `Err` where the
/// payload is longer than one message can carry.
pub fn message(ty: StupidType, remote: Ipv4Endpoint, local: u16, data: &[u8]) -> (r: Result<Vec<u8>, ()>)
    ensures
        match r {
            Ok(m) => data@.len() <= MAX_PAYLOAD && m@ == spec_message(ty, remote.ip@, remote.port, local, data@),
            Err(()) => data@.len() > MAX_PAYLOAD,
        },
{
    if data.len() > MAX_PAYLOAD {
        return Err(());
    }
    let h = StupidDataHeader::new(ty, remote, local, data.len() as u16);
    let mut out = h.to_bytes();
    push_all(&mut out, data);
    assert(out@ =~= spec_message(ty, remote.ip@, remote.port, local, data@));
    Ok(out)
}

} // verus!
