//! The client's dispatcher, without its I/O: it turns frames read from the
//! TUN device and messages read from the relay into packets for the TUN
//! device and messages for the relay, and keeps the TCP connections it
//! terminates, keyed by the client-local port.

use vstd::prelude::*;
use std::collections::HashMap;
use crate::bytes::{get_be16, get_le16, le16, take_array, lemma_le16_round_trip};
use crate::ip::{IPv6Header, Ipv4Endpoint, Ipv6Endpoint, NEXT_TCP, NEXT_UDP};
use crate::stupid::{StupidDataHeader, StupidType, message, spec_message, spec_type_of, MAX_PAYLOAD};
use crate::tcp_connection::{
    ConnModel, Response, Tcp6Connection, build_tcp_packet, seq_add, spec_accept, spec_close, spec_receive, spec_reply, spec_send,
    spec_syn_ack, tcp_packet,
};
use crate::tcp_header::{Flags, TcpHeader, spec_decode_tcp};
use crate::udp::{UDPHeader, build_udp_packet, spec_decode_udp, udp_packet};

verus! {

broadcast use vstd::std_specs::hash::group_hash_axioms;

/// Something the dispatcher hands to the outside.
#[derive(Debug)]
pub enum Output {
    /// A packet to write to the TUN device.
    Tun(Vec<u8>),
    /// A framed message to write to the relay.
    Relay(Vec<u8>),
}

/// An output as the contracts see it.
pub enum Emit {
    Tun(Seq<u8>),
    Relay(Seq<u8>),
}

impl View for Output {
    type V = Emit;

    open spec fn view(&self) -> Emit {
        match self {
            Output::Tun(b) => Emit::Tun(b@),
            Output::Relay(b) => Emit::Relay(b@),
        }
    }
}

/// The outputs of `v`, as the contracts see them.
pub open spec fn emits(v: Seq<Output>) -> Seq<Emit> {
    v.map_values(|o: Output| o@)
}

/// The client's state as the contracts see it.
pub struct ClientModel {
    pub local_address: Seq<u8>,
    pub init_seq_n: u32,
    pub init_seq_n_offt: u32,
    pub conns: Map<u16, ConnModel>,
}

/// The client's state: its address on the TUN device, the initial sequence
/// number of the next connection and the stride between them, and the
/// connections it terminates.
pub struct ClientState {
    pub local_address: [u8; 16],
    pub init_seq_n: u32,
    pub init_seq_n_offt: u32,
    pub tcp_connections: HashMap<u16, Tcp6Connection>,
}

impl View for ClientState {
    type V = ClientModel;

    open spec fn view(&self) -> ClientModel {
        ClientModel {
            local_address: self.local_address@,
            init_seq_n: self.init_seq_n,
            init_seq_n_offt: self.init_seq_n_offt,
            conns: self.tcp_connections@.map_values(|c: Tcp6Connection| c@),
        }
    }
}

/// The relay message of kind `ty` that carries `data`, where it fits in one.
pub open spec fn relay(ty: StupidType, remote_ip: Seq<u8>, remote_port: u16, local: u16, data: Seq<u8>) -> Seq<Emit> {
    if data.len() <= MAX_PAYLOAD {
        seq![Emit::Relay(spec_message(ty, remote_ip, remote_port, local, data))]
    } else {
        Seq::empty()
    }
}

/// What a TCP segment from `source` to `destination` does.
pub open spec fn spec_tcp_step(m: ClientModel, source: Seq<u8>, destination: Seq<u8>, payload: Seq<u8>) -> (ClientModel, Seq<Emit>) {
    match spec_decode_tcp(payload, source, destination) {
        Err(_) => (m, Seq::empty()),
        Ok((tcp, _options, data)) => {
            let key = tcp.source;
            let ip4 = destination.subrange(12, 16);
            if m.conns.contains_key(key) {
                let c = m.conns[key];
                if tcp.flags.has(Flags::RESET) {
                    (ClientModel { conns: m.conns.remove(key), ..m }, Seq::empty())
                } else {
                    let fin = tcp.flags.has(Flags::FINISH);
                    let reply = match spec_reply(c, fin, data.len()) {
                        Some(p) => seq![Emit::Tun(p)],
                        None => Seq::empty(),
                    };
                    let forward = if data.len() > 0 {
                        relay(StupidType::TCP, ip4, tcp.destination, key, data)
                    } else {
                        Seq::empty()
                    };
                    if fin {
                        (
                            ClientModel { conns: m.conns.remove(key), ..m },
                            reply + forward + relay(StupidType::TcpFinish, ip4, tcp.destination, key, Seq::empty()),
                        )
                    } else {
                        (ClientModel { conns: m.conns.insert(key, spec_receive(c, false, data.len())), ..m }, reply + forward)
                    }
                }
            } else if tcp.flags.has(Flags::SYNCHRONIZE) {
                (
                    ClientModel {
                        conns: m.conns.insert(key, spec_accept(destination, source, tcp, m.init_seq_n)),
                        init_seq_n: seq_add(m.init_seq_n, m.init_seq_n_offt as int),
                        ..m
                    },
                    relay(StupidType::TcpConnect, ip4, tcp.destination, key, Seq::empty())
                        + seq![Emit::Tun(spec_syn_ack(destination, source, tcp, m.init_seq_n))],
                )
            } else {
                (
                    m,
                    seq![
                        Emit::Tun(
                            tcp_packet(destination, tcp.destination, source, tcp.source, 0, 0, Flags(0x04), 0, 255, Seq::empty()),
                        ),
                    ],
                )
            }
        },
    }
}

/// What a UDP datagram from `source` to `destination` sends to the relay.
pub open spec fn spec_udp_step(source: Seq<u8>, destination: Seq<u8>, payload: Seq<u8>) -> Seq<Emit> {
    match spec_decode_udp(payload, source, destination) {
        Err(_) => Seq::empty(),
        Ok((h, rest)) => relay(
            StupidType::UDP,
            destination.subrange(12, 16),
            h.destination_port,
            h.source_port,
            rest.subrange(0, h.length - 8),
        ),
    }
}

/// What one IPv6 packet does, by its next header: TCP and UDP are handled,
/// the rest is dropped.
pub open spec fn spec_packet_step(m: ClientModel, next_header: u8, source: Seq<u8>, destination: Seq<u8>, payload: Seq<u8>) -> (ClientModel, Seq<Emit>) {
    if next_header == 6 {
        spec_tcp_step(m, source, destination, payload)
    } else if next_header == 17 {
        (m, spec_udp_step(source, destination, payload))
    } else {
        (m, Seq::empty())
    }
}

/// What a frame read from the TUN device does: it is walked as a chain of
/// IPv6 packets, each trimmed to its payload length, up to its end or to the
/// first packet that does not decode.
pub open spec fn spec_handle_frame(m: ClientModel, frame: Seq<u8>) -> (ClientModel, Seq<Emit>)
    decreases frame.len(),
{
    if frame.len() < 40 || frame[0] / 16 != 6 || 40 + get_be16(frame, 4) > frame.len() {
        (m, Seq::empty())
    } else {
        let end = 40 + get_be16(frame, 4);
        let (m1, e1) = spec_packet_step(m, frame[6], frame.subrange(8, 24), frame.subrange(24, 40), frame.subrange(40, end));
        let (m2, e2) = spec_handle_frame(m1, frame.subrange(end, frame.len() as int));
        (m2, e1 + e2)
    }
}

/// The packets of `v`, as the contracts see them.
pub open spec fn packets(v: Seq<Vec<u8>>) -> Seq<Seq<u8>> {
    v.map_values(|p: Vec<u8>| p@)
}

/// What one whole relay message does: the packet it makes for the TUN
/// device, if any. UDP is turned into a datagram from the remote endpoint
/// (inside the local prefix) to the local port; TCP data and TCP finish go
/// through the connection of the local port, where there is one. Other
/// kinds do nothing.
pub open spec fn spec_stupid_step(m: ClientModel, msg: Seq<u8>) -> (ClientModel, Option<Seq<u8>>) {
    let remote_port = get_le16(msg, 5);
    let local = get_le16(msg, 7);
    let data = msg.subrange(11, msg.len() as int);
    match spec_type_of(msg[0]) {
        Ok(StupidType::UDP) => if 8 + data.len() <= 0xffff {
            (m, Some(udp_packet(m.local_address.subrange(0, 12) + msg.subrange(1, 5), remote_port, m.local_address, local, data)))
        } else {
            (m, None)
        },
        Ok(StupidType::TCP) => if m.conns.contains_key(local) && 20 + data.len() <= 0xffff {
            (
                ClientModel { conns: m.conns.insert(local, spec_send(m.conns[local], data.len())), ..m },
                Some(m.conns[local].packet(Flags(0x10), 64, data)),
            )
        } else {
            (m, None)
        },
        Ok(StupidType::TcpFinish) => if m.conns.contains_key(local) && 20 + data.len() <= 0xffff {
            (
                ClientModel { conns: m.conns.insert(local, spec_close(m.conns[local], data.len())), ..m },
                Some(m.conns[local].packet(Flags(0x11), 64, data)),
            )
        } else {
            (m, None)
        },
        _ => (m, None),
    }
}

/// What the relay stream `buf` does: its whole messages are handled in
/// order; the packets they make, and how many bytes they take. A message
/// that is not whole yet is left for later.
pub open spec fn spec_handle_stream(m: ClientModel, buf: Seq<u8>) -> (ClientModel, Seq<Seq<u8>>, int)
    decreases buf.len(),
{
    if buf.len() < 11 || buf.len() < 11 + get_le16(buf, 9) {
        (m, Seq::empty(), 0)
    } else {
        let end = 11 + get_le16(buf, 9);
        let (m1, p) = spec_stupid_step(m, buf.subrange(0, end));
        let (m2, ps, n) = spec_handle_stream(m1, buf.subrange(end, buf.len() as int));
        let first = match p {
            Some(q) => seq![q],
            None => Seq::empty(),
        };
        (m2, first + ps, end + n)
    }
}

/// Appends one output.
fn put(out: &mut Vec<Output>, o: Output)
    ensures
        emits(final(out)@) == emits(old(out)@).push(o@),
{
    out.push(o);
    assert(emits(final(out)@) =~= emits(old(out)@).push(o@));
}

/// Appends the relay message of kind `ty` that carries `data`, where it fits in one.
fn put_relay(out: &mut Vec<Output>, ty: StupidType, remote: Ipv4Endpoint, local: u16, data: &[u8])
    ensures
        emits(final(out)@) == emits(old(out)@) + relay(ty, remote.ip@, remote.port, local, data@),
{
    match message(ty, remote, local, data) {
        Ok(m) => {
            put(out, Output::Relay(m));
        },
        Err(()) => {
            assert(emits(old(out)@) + Seq::<Emit>::empty() =~= emits(old(out)@));
        },
    }
}

/// Sends the payload of a UDP datagram that `header` introduces to the relay.
fn handle_udp(header: &IPv6Header, payload: &[u8], out: &mut Vec<Output>)
    ensures
        emits(final(out)@) == emits(old(out)@) + spec_udp_step(header.source_address@, header.destination_address@, payload@),
{
    let dst = header.destination_address();
    match UDPHeader::from_raw_ipv6(payload, header.source_address(), dst) {
        Err(_) => {
            assert(emits(old(out)@) + Seq::<Emit>::empty() =~= emits(old(out)@));
        },
        Ok((h, rest)) => {
            let n = h.data_length() as usize;
            let data = &rest[0..n];
            let remote = Ipv4Endpoint { ip: take_array::<4>(&dst, 12), port: h.destination_port() };
            put_relay(out, StupidType::UDP, remote, h.source_port(), data);
        },
    }
}

impl ClientState {
    /// A client with no connection.
    pub fn new(local_address: [u8; 16], init_seq_n: u32, init_seq_n_offt: u32) -> (r: Self)
        ensures
            r@.local_address == local_address@,
            r@.init_seq_n == init_seq_n,
            r@.init_seq_n_offt == init_seq_n_offt,
            r@.conns == Map::<u16, ConnModel>::empty(),
    {
        let r = ClientState { local_address, init_seq_n, init_seq_n_offt, tcp_connections: HashMap::new() };
        assert(r@.conns =~= Map::<u16, ConnModel>::empty());
        r
    }

    /// Handles a frame read from the TUN device, and returns what goes to the
    /// TUN device and to the relay, in order.
    #[verifier::rlimit(40)]
    pub fn handle_tun(&mut self, frame: &[u8]) -> (r: Vec<Output>)
        ensures
            ({
                let (m, e) = spec_handle_frame(old(self)@, frame@);
                final(self)@ == m && emits(r@) == e
            }),
    {
        let mut out: Vec<Output> = Vec::new();
        let mut buf = frame;
        assert(emits(out@) =~= Seq::<Emit>::empty());
        loop
            invariant
                ({
                    let (m, e) = spec_handle_frame(old(self)@, frame@);
                    let (m2, e2) = spec_handle_frame(self@, buf@);
                    m == m2 && e == emits(out@) + e2
                }),
            ensures
                ({
                    let (m, e) = spec_handle_frame(old(self)@, frame@);
                    self@ == m && emits(out@) == e
                }),
            decreases buf@.len(),
        {
            let ghost m1 = self@;
            let ghost out1 = emits(out@);
            let (header, extra) = match IPv6Header::from_raw(buf) {
                Ok(p) => p,
                Err(_) => {
                    assert(out1 + Seq::<Emit>::empty() =~= out1);
                    break;
                },
            };
            let len = header.payload_length() as usize;
            if len > extra.len() {
                assert(out1 + Seq::<Emit>::empty() =~= out1);
                break;
            }
            let payload = &extra[0..len];
            if header.next_header == NEXT_TCP {
                self.handle_tcp(&header, payload, &mut out);
            } else if header.next_header == NEXT_UDP {
                handle_udp(&header, payload, &mut out);
            } else {
                assert(emits(out@) =~= out1 + Seq::<Emit>::empty());
            }
            let next = &extra[len..extra.len()];
            proof {
                let end = 40 + get_be16(buf@, 4);
                assert(payload@ =~= buf@.subrange(40, end));
                assert(next@ =~= buf@.subrange(end, buf@.len() as int));
                let (ms, es) = spec_packet_step(m1, buf@[6], buf@.subrange(8, 24), buf@.subrange(24, 40), buf@.subrange(40, end));
                assert(self@ == ms && emits(out@) == out1 + es);
                let (m2, e2) = spec_handle_frame(self@, next@);
                assert(out1 + (es + e2) =~= emits(out@) + e2);
            }
            buf = next;
        }
        out
    }

    /// Handles the whole messages at the start of the relay stream `buf`, in
    /// order, and returns the packets for the TUN device and how many bytes
    /// of `buf` they took.
    pub fn handle_stupid(&mut self, buf: &[u8]) -> (r: (Vec<Vec<u8>>, usize))
        ensures
            ({
                let (m, ps, n) = spec_handle_stream(old(self)@, buf@);
                final(self)@ == m && packets(r.0@) == ps && r.1 == n
            }),
    {
        let mut out: Vec<Vec<u8>> = Vec::new();
        let mut rest = buf;
        let mut used: usize = 0;
        let total = buf.len();
        assert(packets(out@) =~= Seq::<Seq<u8>>::empty());
        assert(buf@.subrange(0, buf@.len() as int) =~= buf@);
        loop
            invariant
                used + rest@.len() == buf@.len(),
                total == buf@.len(),
                rest@ == buf@.subrange(used as int, buf@.len() as int),
                ({
                    let (m, ps, n) = spec_handle_stream(old(self)@, buf@);
                    let (m2, ps2, n2) = spec_handle_stream(self@, rest@);
                    m == m2 && ps == packets(out@) + ps2 && n == used + n2
                }),
            ensures
                ({
                    let (m, ps, n) = spec_handle_stream(old(self)@, buf@);
                    self@ == m && ps == packets(out@) && n == used
                }),
            decreases rest@.len(),
        {
            let ghost m1 = self@;
            let ghost out1 = packets(out@);
            let (h, data, next) = match StupidDataHeader::from_raw(rest) {
                Ok(p) => p,
                Err(_) => {
                    assert(out1 + Seq::<Seq<u8>>::empty() =~= out1);
                    break;
                },
            };
            let ghost msg = rest@.subrange(0, 11 + h.data_length);
            assert(h.wire() + data@ =~= msg);
            let p = self.handle_message(&h, data);
            match p {
                Some(q) => {
                    out.push(q);
                    assert(packets(out@) =~= out1.push(q@));
                },
                None => {},
            }
            proof {
                let (ms, sp) = spec_stupid_step(m1, msg);
                let first = match sp {
                    Some(q) => seq![q],
                    None => Seq::<Seq<u8>>::empty(),
                };
                assert(packets(out@) =~= out1 + first);
                let (m2, ps2, n2) = spec_handle_stream(self@, next@);
                assert(out1 + (first + ps2) =~= packets(out@) + ps2);
                assert(next@ =~= buf@.subrange(used + 11 + h.data_length, buf@.len() as int));
            }
            used = used + 11 + h.data_length as usize;
            rest = next;
        }
        (out, used)
    }

    /// Handles one relay message.
    fn handle_message(&mut self, h: &StupidDataHeader, data: &[u8]) -> (r: Option<Vec<u8>>)
        requires
            h.data_length == data@.len(),
        ensures
            ({
                let msg = h.wire() + data@;
                let (m, p) = spec_stupid_step(old(self)@, msg);
                final(self)@ == m && match (r, p) {
                    (Some(a), Some(b)) => a@ == b,
                    (None, None) => true,
                    _ => false,
                }
            }),
    {
        let ghost msg = h.wire() + data@;
        proof {
            lemma_le16_round_trip(h.remote_port);
            lemma_le16_round_trip(h.local_port);
            lemma_le16_round_trip(h.data_length);
            assert(msg[0] == h.ty);
            assert(msg.subrange(1, 5) =~= h.remote_ip@);
            assert(msg.subrange(5, 7) =~= le16(h.remote_port));
            assert(msg.subrange(7, 9) =~= le16(h.local_port));
            assert(get_le16(msg, 5) == get_le16(le16(h.remote_port), 0));
            assert(get_le16(msg, 7) == get_le16(le16(h.local_port), 0));
            assert(msg.subrange(11, msg.len() as int) =~= data@);
        }
        match h.ty() {
            Ok(StupidType::UDP) => {
                let la = self.local_address;
                let r = h.remote_ip;
                let source: [u8; 16] = [la[0], la[1], la[2], la[3], la[4], la[5], la[6], la[7], la[8], la[9], la[10], la[11], r[0], r[1], r[2], r[3]];
                assert(source@ =~= la@.subrange(0, 12) + r@);
                match build_udp_packet(
                    Ipv6Endpoint { ip: source, port: h.remote_port },
                    Ipv6Endpoint { ip: la, port: h.local_port },
                    data,
                ) {
                    Ok(p) => Some(p),
                    Err(_) => None,
                }
            },
            Ok(StupidType::TCP) => {
                let ghost m0 = self@;
                match self.tcp_connections.remove(&h.local_port) {
                    Some(mut c) => {
                        let sent = c.send(data);
                        self.tcp_connections.insert(h.local_port, c);
                        match sent {
                            Ok(p) => {
                                assert(self@.conns =~= m0.conns.insert(h.local_port, c@));
                                Some(p)
                            },
                            Err(()) => {
                                assert(self@.conns =~= m0.conns);
                                None
                            },
                        }
                    },
                    None => {
                        assert(self@.conns =~= m0.conns);
                        None
                    },
                }
            },
            Ok(StupidType::TcpFinish) => {
                let ghost m0 = self@;
                match self.tcp_connections.remove(&h.local_port) {
                    Some(mut c) => {
                        let sent = c.close(data);
                        self.tcp_connections.insert(h.local_port, c);
                        match sent {
                            Ok(p) => {
                                assert(self@.conns =~= m0.conns.insert(h.local_port, c@));
                                Some(p)
                            },
                            Err(()) => {
                                assert(self@.conns =~= m0.conns);
                                None
                            },
                        }
                    },
                    None => {
                        assert(self@.conns =~= m0.conns);
                        None
                    },
                }
            },
            _ => None,
        }
    }

    /// Handles a TCP segment that `header` introduces.
    fn handle_tcp(&mut self, header: &IPv6Header, payload: &[u8], out: &mut Vec<Output>)
        ensures
            ({
                let (m, e) = spec_tcp_step(old(self)@, header.source_address@, header.destination_address@, payload@);
                final(self)@ == m && emits(final(out)@) == emits(old(out)@) + e
            }),
    {
        let src = header.source_address();
        let dst = header.destination_address();
        let ghost m0 = self@;
        match TcpHeader::from_raw_ipv6(payload, src, dst) {
            Err(_) => {
                assert(emits(old(out)@) + Seq::<Emit>::empty() =~= emits(old(out)@));
            },
            Ok((tcp, options, data)) => {
                let key = tcp.source();
                let remote = Ipv4Endpoint { ip: take_array::<4>(&dst, 12), port: tcp.destination() };
                let empty: [u8; 0] = [];
                assert(empty@ =~= Seq::<u8>::empty());
                match self.tcp_connections.remove(&key) {
                    Some(mut c) => {
                        assert(m0.conns.contains_key(key) && m0.conns[key] == c@);
                        assert(self@.conns =~= m0.conns.remove(key));
                        if tcp.flags.reset() {
                            assert(emits(old(out)@) + Seq::<Emit>::empty() =~= emits(old(out)@));
                            return;
                        }
                        let fin = tcp.flags.finish();
                        let ghost before = emits(out@);
                        match c.receive(&tcp, data) {
                            Ok(Response::Acknowledge(b)) => put(out, Output::Tun(b)),
                            Ok(Response::Finish(b)) => put(out, Output::Tun(b)),
                            Ok(Response::Finished(b)) => put(out, Output::Tun(b)),
                            _ => {},
                        }
                        let ghost after_reply = emits(out@);
                        if data.len() > 0 {
                            put_relay(out, StupidType::TCP, remote, key, data);
                        }
                        if fin {
                            put_relay(out, StupidType::TcpFinish, remote, key, &empty);
                        } else {
                            self.tcp_connections.insert(key, c);
                            assert(self@.conns =~= m0.conns.insert(key, c@));
                        }
                        proof {
                            let (m, e) = spec_tcp_step(m0, src@, dst@, payload@);
                            let reply = match spec_reply(m0.conns[key], fin, data@.len()) {
                                Some(p) => seq![Emit::Tun(p)],
                                None => Seq::<Emit>::empty(),
                            };
                            assert(after_reply =~= before + reply);
                            assert(emits(out@) =~= before + e);
                            assert(self@ == m);
                        }
                    },
                    None => {
                        assert(!m0.conns.contains_key(key));
                        assert(self@.conns =~= m0.conns);
                        if tcp.flags.synchronize() {
                            put_relay(out, StupidType::TcpConnect, remote, key, &empty);
                            let (c, syn_ack) = Tcp6Connection::new(header, &tcp, &options, self.init_seq_n);
                            self.init_seq_n = self.init_seq_n.wrapping_add(self.init_seq_n_offt);
                            self.tcp_connections.insert(key, c);
                            assert(self@.conns =~= m0.conns.insert(key, c@));
                            put(out, Output::Tun(syn_ack));
                            proof {
                                let (m, e) = spec_tcp_step(m0, src@, dst@, payload@);
                                assert(emits(out@) =~= emits(old(out)@) + e);
                                assert(self@ == m);
                            }
                        } else {
                            let mut flags = Flags::new();
                            flags.set_reset(true);
                            assert(0u8 | 0x04u8 == 0x04u8) by (bit_vector);
                            let rst = build_tcp_packet((dst, tcp.destination()), (src, tcp.source()), 0, 0, flags, 0, 255, &empty);
                            put(out, Output::Tun(rst));
                            proof {
                                let (m, e) = spec_tcp_step(m0, src@, dst@, payload@);
                                assert(emits(out@) =~= emits(old(out)@) + e);
                                assert(self@ == m);
                            }
                        }
                    },
                }
            },
        }
    }
}

} // verus!
