//! The request that asks the kernel for a TUN interface: its name and flags.

use vstd::prelude::*;

verus! {

/// Room for an interface name, its terminating zero included.
pub const NAME_SIZE: usize = 16;

/// Flag for a TUN (layer 3) interface.
pub const FLAG_TUN: u16 = 0x0001;

/// Flag that leaves the packet-information header out of each frame.
pub const FLAG_NO_PI: u16 = 0x1000;

/// An interface request: the name, zero-padded, and the interface flags.
#[derive(Clone, Copy, Debug)]
pub struct IfReq {
    pub name: [u8; 16],
    pub flags: u16,
}

#[derive(Debug)]
pub enum NewIfReqError {
    NameTooLong,
}

impl IfReq {
    /// The request for a TUN interface called `name`, with or without the
    /// packet-information header.
    pub fn new_tun(name: &[u8], no_packet_info: bool) -> (r: Result<Self, NewIfReqError>)
        ensures
            match r {
                Ok(req) => {
                    &&& name@.len() < 16
                    &&& req.name@ == name@ + Seq::new((16 - name@.len()) as nat, |i: int| 0u8)
                    &&& req.flags == if no_packet_info { 0x1001u16 } else { FLAG_TUN }
                },
                Err(NewIfReqError::NameTooLong) => name@.len() >= 16,
            },
    {
        if name.len() >= NAME_SIZE {
            return Err(NewIfReqError::NameTooLong);
        }
        let mut n: [u8; 16] = [0u8; 16];
        let mut i: usize = 0;
        while i < name.len()
            invariant
                i <= name@.len() < 16,
                n@.len() == 16,
                forall|j: int| 0 <= j < i ==> n@[j] == name@[j],
                forall|j: int| i <= j < 16 ==> n@[j] == 0u8,
            decreases name@.len() - i,
        {
            n[i] = name[i];
            i = i + 1;
        }
        assert(n@ =~= name@ + Seq::new((16 - name@.len()) as nat, |i: int| 0u8));
        let flags = if no_packet_info { FLAG_TUN | FLAG_NO_PI } else { FLAG_TUN };
        assert(FLAG_TUN | FLAG_NO_PI == 0x1001u16) by (bit_vector);
        Ok(IfReq { name: n, flags })
    }
}

} // verus!
