//! The client-side TCP responder: it answers the host kernel's segments for
//! one connection and carries the relay's data back to it.

use vstd::prelude::*;
use crate::bytes::{be16, get_be16, push_all, lemma_be16_round_trip};
use vstd::arithmetic::div_mod::lemma_add_mod_noop_right;
use crate::ip::{IPv6Header, ipv6_wire, NEXT_TCP};
use crate::tcp_header::{Flags, TcpHeader, spec_tcp_header};
use crate::tcp_options::Options;

verus! {

/// `a + n` on 32-bit sequence numbers, which wrap.
pub open spec fn seq_add(a: u32, n: int) -> u32 {
    ((a + n) % 0x1_0000_0000) as u32
}

/// The IPv6 packet that carries one TCP segment without options.
#[verifier::opaque]
pub open spec fn tcp_packet(
    source: Seq<u8>,
    source_port: u16,
    destination: Seq<u8>,
    destination_port: u16,
    sequence_num: u32,
    acknowledge_num: u32,
    flags: Flags,
    window: u16,
    hop_limit: u8,
    data: Seq<u8>,
) -> Seq<u8> {
    ipv6_wire((20 + data.len()) as u16, 6, hop_limit, source, destination) + spec_tcp_header(
        source,
        source_port,
        destination,
        destination_port,
        sequence_num,
        acknowledge_num,
        flags,
        window,
        Seq::empty(),
        data,
    ).wire() + data
}

/// The payload length of such a packet counts exactly the bytes that follow
/// its IPv6 header.
pub proof fn lemma_tcp_packet_length(
    source: Seq<u8>,
    source_port: u16,
    destination: Seq<u8>,
    destination_port: u16,
    sequence_num: u32,
    acknowledge_num: u32,
    flags: Flags,
    window: u16,
    hop_limit: u8,
    data: Seq<u8>,
)
    requires
        source.len() == 16,
        destination.len() == 16,
        20 + data.len() <= 0xffff,
    ensures
        ({
            let p = tcp_packet(source, source_port, destination, destination_port, sequence_num, acknowledge_num, flags, window, hop_limit, data);
            &&& p.len() >= 40
            &&& get_be16(p, 4) == p.len() - 40
        }),
{
    reveal(tcp_packet);
    let p = tcp_packet(source, source_port, destination, destination_port, sequence_num, acknowledge_num, flags, window, hop_limit, data);
    let l = (20 + data.len()) as u16;
    lemma_be16_round_trip(l);
    assert(p.subrange(4, 6) =~= be16(l));
}

/// Builds the IPv6 packet that carries one TCP segment without options.
pub fn build_tcp_packet(
    source: ([u8; 16], u16),
    destination: ([u8; 16], u16),
    sequence_num: u32,
    acknowledge_num: u32,
    flags: Flags,
    window: u16,
    hop_limit: u8,
    data: &[u8],
) -> (r: Vec<u8>)
    requires
        20 + data@.len() <= 0xffff,
    ensures
        r@ == tcp_packet(
            source.0@,
            source.1,
            destination.0@,
            destination.1,
            sequence_num,
            acknowledge_num,
            flags,
            window,
            hop_limit,
            data@,
        ),
{
    let none = Options::none();
    let tcp = TcpHeader::new(source, destination, sequence_num, acknowledge_num, flags, window, &none, data);
    let ip = IPv6Header::new((20 + data.len()) as u16, NEXT_TCP, hop_limit, source.0, destination.0);
    let mut out = ip.to_bytes();
    let head = tcp.to_bytes();
    push_all(&mut out, head.as_slice());
    push_all(&mut out, data);
    proof {
        reveal(tcp_packet);
    }
    out
}

/// The SYN-ACK header that answers the SYN `packet` from `source` to `destination`.
pub fn accept_ipv6(
    packet: &TcpHeader,
    source: [u8; 16],
    destination: [u8; 16],
    sequence_num: u32,
    window: u16,
    options: &Options,
) -> (r: TcpHeader)
    requires
        options@.len() <= 40,
    ensures
        r == spec_tcp_header(
            destination@,
            packet.destination,
            source@,
            packet.source,
            sequence_num,
            seq_add(packet.sequence_num, 1),
            Flags(0x12),
            window,
            options@,
            Seq::empty(),
        ),
{
    let mut flags = Flags::new();
    flags.set_acknowledge(true);
    flags.set_synchronize(true);
    assert((0u8 | 0x10u8) | 0x02u8 == 0x12u8) by (bit_vector);
    let empty: [u8; 0] = [];
    TcpHeader::new(
        (destination, packet.destination),
        (source, packet.source),
        sequence_num,
        packet.sequence_num.wrapping_add(1),
        flags,
        window,
        options,
        &empty,
    )
}

/// One TCP connection as the client terminates it.
#[derive(Clone, Copy, Debug)]
pub struct Tcp6Connection {
    pub local_ip: [u8; 16],
    pub local_port: u16,
    pub remote_ip: [u8; 16],
    pub remote_port: u16,
    /// Next sequence number to send.
    pub sequence_num: u32,
    /// Next sequence number expected from the peer: the cumulative acknowledgement.
    pub acknowledge_num: u32,
    /// Whether this side has sent its FIN.
    pub closed: bool,
}

/// What a received segment calls for.
#[derive(Debug)]
pub enum Response {
    /// An acknowledgement to write back.
    Acknowledge(Vec<u8>),
    /// The FIN-ACK that answers the peer's FIN.
    Finish(Vec<u8>),
    /// The FIN-ACK that answers the peer's FIN after this side had closed.
    Finished(Vec<u8>),
    /// Nothing to write.
    Nothing,
}

/// A connection as the contracts see it.
pub struct ConnModel {
    pub local_ip: Seq<u8>,
    pub local_port: u16,
    pub remote_ip: Seq<u8>,
    pub remote_port: u16,
    pub sequence_num: u32,
    pub acknowledge_num: u32,
    pub closed: bool,
}

impl View for Tcp6Connection {
    type V = ConnModel;

    open spec fn view(&self) -> ConnModel {
        ConnModel {
            local_ip: self.local_ip@,
            local_port: self.local_port,
            remote_ip: self.remote_ip@,
            remote_port: self.remote_port,
            sequence_num: self.sequence_num,
            acknowledge_num: self.acknowledge_num,
            closed: self.closed,
        }
    }
}

/// The connection that a SYN from `remote_ip` to `local_ip` creates, with
/// `sequence_num` as the initial sequence number (already spent on the SYN-ACK).
pub open spec fn spec_accept(local_ip: Seq<u8>, remote_ip: Seq<u8>, tcp: TcpHeader, sequence_num: u32) -> ConnModel {
    ConnModel {
        local_ip,
        local_port: tcp.destination,
        remote_ip,
        remote_port: tcp.source,
        sequence_num: seq_add(sequence_num, 1),
        acknowledge_num: seq_add(tcp.sequence_num, 1),
        closed: false,
    }
}

/// The SYN-ACK that answers a SYN.
pub open spec fn spec_syn_ack(local_ip: Seq<u8>, remote_ip: Seq<u8>, tcp: TcpHeader, sequence_num: u32) -> Seq<u8> {
    ConnModel { sequence_num, ..spec_accept(local_ip, remote_ip, tcp, sequence_num) }.packet(Flags(0x12), 255, Seq::empty())
}

/// The connection after a segment with `len` bytes of payload, and a FIN or not.
pub open spec fn spec_receive(c: ConnModel, fin: bool, len: nat) -> ConnModel {
    let ack = seq_add(c.acknowledge_num, len + if fin { 1int } else { 0int });
    if fin {
        ConnModel { acknowledge_num: ack, sequence_num: seq_add(c.sequence_num, 1), closed: true, ..c }
    } else {
        ConnModel { acknowledge_num: ack, ..c }
    }
}

/// The packet that answers a segment with `len` bytes of payload, and a FIN
/// or not: none where it has neither.
pub open spec fn spec_reply(c: ConnModel, fin: bool, len: nat) -> Option<Seq<u8>> {
    if !fin && len == 0 {
        None
    } else {
        let acked = ConnModel { acknowledge_num: spec_receive(c, fin, len).acknowledge_num, ..c };
        Some(acked.packet(if fin { Flags(0x11) } else { Flags(0x10) }, 255, Seq::empty()))
    }
}

/// The connection after it has sent `len` bytes of payload.
pub open spec fn spec_send(c: ConnModel, len: nat) -> ConnModel {
    ConnModel { sequence_num: seq_add(c.sequence_num, len as int), ..c }
}

/// The connection after it has sent `len` bytes of payload and its FIN.
pub open spec fn spec_close(c: ConnModel, len: nat) -> ConnModel {
    ConnModel { sequence_num: seq_add(c.sequence_num, len + 1int), closed: true, ..c }
}

pub proof fn lemma_seq_add_twice(a: u32, x: int, y: int)
    requires
        x >= 0,
        y >= 0,
    ensures
        seq_add(seq_add(a, x), y) == seq_add(a, x + y),
{
    lemma_add_mod_noop_right(y, a + x, 0x1_0000_0000);
}

/// A segment as the responder takes it in: whether it carries a FIN, and
/// the length of its payload.
pub type Segment = (bool, nat);

/// The connection after segments `segs`, in order.
pub open spec fn receive_all(c: ConnModel, segs: Seq<Segment>) -> ConnModel
    decreases segs.len(),
{
    if segs.len() == 0 {
        c
    } else {
        spec_receive(receive_all(c, segs.drop_last()), segs.last().0, segs.last().1)
    }
}

/// Total payload of `segs`.
pub open spec fn payload_total(segs: Seq<Segment>) -> nat
    decreases segs.len(),
{
    if segs.len() == 0 {
        0
    } else {
        payload_total(segs.drop_last()) + segs.last().1
    }
}

/// How many of `segs` carry a FIN.
pub open spec fn fin_count(segs: Seq<Segment>) -> nat
    decreases segs.len(),
{
    if segs.len() == 0 {
        0
    } else {
        fin_count(segs.drop_last()) + if segs.last().0 { 1nat } else { 0nat }
    }
}

/// The connection after sending payloads of lengths `lens`, in order.
pub open spec fn send_all(c: ConnModel, lens: Seq<nat>) -> ConnModel
    decreases lens.len(),
{
    if lens.len() == 0 {
        c
    } else {
        spec_send(send_all(c, lens.drop_last()), lens.last())
    }
}

/// Sum of `lens`.
pub open spec fn total(lens: Seq<nat>) -> nat
    decreases lens.len(),
{
    if lens.len() == 0 {
        0
    } else {
        total(lens.drop_last()) + lens.last()
    }
}

/// After a SYN and any segments that follow it, the acknowledgement number
/// is the peer's initial sequence number plus one, plus every payload byte,
/// plus one for each FIN (modulo 2^32).
pub proof fn lemma_ack_counts_everything(
    local_ip: Seq<u8>,
    remote_ip: Seq<u8>,
    syn: TcpHeader,
    sequence_num: u32,
    segs: Seq<Segment>,
)
    ensures
        receive_all(spec_accept(local_ip, remote_ip, syn, sequence_num), segs).acknowledge_num == seq_add(
            syn.sequence_num,
            1int + payload_total(segs) + fin_count(segs),
        ),
    decreases segs.len(),
{
    if segs.len() > 0 {
        lemma_ack_counts_everything(local_ip, remote_ip, syn, sequence_num, segs.drop_last());
        let f: int = if segs.last().0 { 1 } else { 0 };
        lemma_seq_add_twice(
            syn.sequence_num,
            1int + payload_total(segs.drop_last()) + fin_count(segs.drop_last()),
            segs.last().1 + f,
        );
    }
}

/// After a SYN, a segment with payload and no FIN, and any payloads sent
/// from the relay, the sequence number is the initial one plus one (the
/// SYN), plus every byte sent (modulo 2^32).
pub proof fn lemma_seq_counts_sent(
    local_ip: Seq<u8>,
    remote_ip: Seq<u8>,
    syn: TcpHeader,
    sequence_num: u32,
    received: nat,
    sent: Seq<nat>,
)
    ensures
        send_all(spec_receive(spec_accept(local_ip, remote_ip, syn, sequence_num), false, received), sent).sequence_num
            == seq_add(sequence_num, 1int + total(sent)),
    decreases sent.len(),
{
    if sent.len() > 0 {
        lemma_seq_counts_sent(local_ip, remote_ip, syn, sequence_num, received, sent.drop_last());
        lemma_seq_add_twice(sequence_num, 1int + total(sent.drop_last()), sent.last() as int);
    }
}

impl ConnModel {
    /// The packet this connection sends with its current numbers.
    pub open spec fn packet(self, flags: Flags, hop_limit: u8, data: Seq<u8>) -> Seq<u8> {
        tcp_packet(
            self.local_ip,
            self.local_port,
            self.remote_ip,
            self.remote_port,
            self.sequence_num,
            self.acknowledge_num,
            flags,
            0xffff,
            hop_limit,
            data,
        )
    }
}

impl Tcp6Connection {
    fn emit(&self, flags: Flags, hop_limit: u8, data: &[u8]) -> (r: Vec<u8>)
        requires
            20 + data@.len() <= 0xffff,
        ensures
            r@ == self@.packet(flags, hop_limit, data@),
    {
        build_tcp_packet(
            (self.local_ip, self.local_port),
            (self.remote_ip, self.remote_port),
            self.sequence_num,
            self.acknowledge_num,
            flags,
            0xffff,
            hop_limit,
            data,
        )
    }

    /// Creates a connection from a received SYN, and the SYN-ACK that answers it.
    pub fn new(ip: &IPv6Header, tcp: &TcpHeader, options: &Options, sequence_num: u32) -> (r: (Self, Vec<u8>))
        requires
            tcp.flags.has(Flags::SYNCHRONIZE),
        ensures
            r.0@ == spec_accept(ip.destination_address@, ip.source_address@, *tcp, sequence_num),
            r.1@ == spec_syn_ack(ip.destination_address@, ip.source_address@, *tcp, sequence_num),
    {
        let mut c = Tcp6Connection {
            local_ip: ip.destination_address(),
            local_port: tcp.destination(),
            remote_ip: ip.source_address(),
            remote_port: tcp.source(),
            sequence_num,
            acknowledge_num: tcp.sequence_num().wrapping_add(1),
            closed: false,
        };
        let mut flags = Flags::new();
        flags.set_acknowledge(true);
        flags.set_synchronize(true);
        assert((0u8 | 0x10u8) | 0x02u8 == 0x12u8) by (bit_vector);
        let empty: [u8; 0] = [];
        let out = c.emit(flags, 255, &empty);
        assert(empty@ =~= Seq::<u8>::empty());
        c.sequence_num = c.sequence_num.wrapping_add(1);
        (c, out)
    }

    /// Takes in a segment of the peer: acknowledges its payload and its FIN.
    #[verifier::rlimit(80)]
    pub fn receive(&mut self, tcp: &TcpHeader, data: &[u8]) -> (r: Result<Response, ()>)
        ensures
            final(self)@ == spec_receive(old(self)@, tcp.flags.has(Flags::FINISH), data@.len()),
            ({
                let fin = tcp.flags.has(Flags::FINISH);
                match (r, spec_reply(old(self)@, fin, data@.len())) {
                    (Ok(Response::Nothing), None) => true,
                    (Ok(Response::Acknowledge(b)), Some(p)) => !fin && b@ == p,
                    (Ok(Response::Finish(b)), Some(p)) => fin && !old(self).closed && b@ == p,
                    (Ok(Response::Finished(b)), Some(p)) => fin && old(self).closed && b@ == p,
                    _ => false,
                }
            }),
    {
        let len = (data.len() as u64 % 0x1_0000_0000) as u32;
        self.acknowledge_num = self.acknowledge_num.wrapping_add(len);
        let fin = tcp.flags.finish();
        if fin {
            self.acknowledge_num = self.acknowledge_num.wrapping_add(1);
        } else if data.len() == 0 {
            return Ok(Response::Nothing);
        }
        let mut flags = Flags::new();
        flags.set_acknowledge(true);
        flags.set_finish(fin);
        assert((0u8 | 0x10u8) | 0x01u8 == 0x11u8 && (0u8 | 0x10u8) & !0x01u8 == 0x10u8) by (bit_vector);
        let empty: [u8; 0] = [];
        let out = self.emit(flags, 255, &empty);
        assert(empty@ =~= Seq::<u8>::empty());
        if fin {
            self.sequence_num = self.sequence_num.wrapping_add(1);
            if self.closed {
                Ok(Response::Finished(out))
            } else {
                self.closed = true;
                Ok(Response::Finish(out))
            }
        } else {
            Ok(Response::Acknowledge(out))
        }
    }

    /// The segment that carries `data` to the peer; `Err` where it would not
    /// fit in one packet.
    pub fn send(&mut self, data: &[u8]) -> (r: Result<Vec<u8>, ()>)
        ensures
            match r {
                Ok(b) => 20 + data@.len() <= 0xffff && b@ == old(self)@.packet(Flags(0x10), 64, data@)
                    && final(self)@ == spec_send(old(self)@, data@.len()),
                Err(()) => 20 + data@.len() > 0xffff && final(self)@ == old(self)@,
            },
    {
        if data.len() > 0xffff - 20 {
            return Err(());
        }
        let mut flags = Flags::new();
        flags.set_acknowledge(true);
        assert(0u8 | 0x10u8 == 0x10u8) by (bit_vector);
        let out = self.emit(flags, 64, data);
        self.sequence_num = self.sequence_num.wrapping_add(data.len() as u32);
        Ok(out)
    }

    /// The segment that carries `data` and this side's FIN to the peer; `Err`
    /// where it would not fit in one packet.
    pub fn close(&mut self, data: &[u8]) -> (r: Result<Vec<u8>, ()>)
        ensures
            match r {
                Ok(b) => 20 + data@.len() <= 0xffff && b@ == old(self)@.packet(Flags(0x11), 64, data@)
                    && final(self)@ == spec_close(old(self)@, data@.len()),
                Err(()) => 20 + data@.len() > 0xffff && final(self)@ == old(self)@,
            },
    {
        if data.len() > 0xffff - 20 {
            return Err(());
        }
        let mut flags = Flags::new();
        flags.set_acknowledge(true);
        flags.set_finish(true);
        assert((0u8 | 0x10u8) | 0x01u8 == 0x11u8) by (bit_vector);
        let out = self.emit(flags, 64, data);
        self.sequence_num = self.sequence_num.wrapping_add(data.len() as u32).wrapping_add(1);
        self.closed = true;
        Ok(out)
    }
}

} // verus!
