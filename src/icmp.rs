//! The fixed part of an ICMPv6 header (RFC 4443).

use vstd::prelude::*;
use crate::bytes::{be16, get_be16, read_be16};

verus! {

#[derive(Clone, Copy, Debug)]
pub struct ICMPv6Header {
    pub ty: u8,
    pub code: u8,
    pub checksum: u16,
}

#[derive(Debug)]
pub enum RawHeaderError {
    Truncated,
}

impl ICMPv6Header {
    /// The 4 bytes of the header on the wire.
    pub open spec fn wire(self) -> Seq<u8> {
        seq![self.ty, self.code] + be16(self.checksum)
    }

    /// Splits a message into its header and what follows the header.
    pub fn from_raw(data: &[u8]) -> (r: Result<(Self, &[u8]), RawHeaderError>)
        ensures
            match r {
                Ok((h, rest)) => {
                    &&& data@.len() >= 4
                    &&& h.ty == data@[0]
                    &&& h.code == data@[1]
                    &&& h.checksum == get_be16(data@, 2)
                    &&& rest@ == data@.subrange(4, data@.len() as int)
                },
                Err(RawHeaderError::Truncated) => data@.len() < 4,
            },
    {
        if data.len() < 4 {
            return Err(RawHeaderError::Truncated);
        }
        let h = ICMPv6Header { ty: data[0], code: data[1], checksum: read_be16(data, 2) };
        let (_, rest) = data.split_at(4);
        Ok((h, rest))
    }
}

} // verus!
