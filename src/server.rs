//! The server's dispatcher, without its I/O: it decides what each relay
//! message asks of the real IPv4 sockets, which it tracks by the
//! client-local port, and frames what those sockets read for the relay.

use vstd::prelude::*;
use std::collections::HashSet;
use crate::bytes::{get_le16, le16, lemma_le16_round_trip};
use crate::ip::Ipv4Endpoint;
use crate::stupid::{StupidDataHeader, StupidType, message, spec_message, spec_type_of, MAX_PAYLOAD};

verus! {

broadcast use vstd::std_specs::hash::group_hash_axioms;

/// What a relay message asks of the sockets.
#[derive(Debug)]
pub enum ServerAction {
    /// Send `data` on the UDP socket of `local`.
    UdpSend { local: u16, data: Vec<u8> },
    /// Bind a UDP socket, connect it to `remote`, send `data` on it and keep
    /// it for `local`.
    UdpOpen { remote: Ipv4Endpoint, local: u16, data: Vec<u8> },
    /// Connect a TCP stream to `remote`, write `data` to it and keep it for `local`.
    TcpOpen { remote: Ipv4Endpoint, local: u16, data: Vec<u8> },
    /// Write `data` to the TCP stream of `local`.
    TcpWrite { local: u16, data: Vec<u8> },
    /// Drop the TCP stream of `local`.
    TcpClose { local: u16 },
}

/// An action as the contracts see it.
pub enum ActionModel {
    UdpSend { local: u16, data: Seq<u8> },
    UdpOpen { remote_ip: Seq<u8>, remote_port: u16, local: u16, data: Seq<u8> },
    TcpOpen { remote_ip: Seq<u8>, remote_port: u16, local: u16, data: Seq<u8> },
    TcpWrite { local: u16, data: Seq<u8> },
    TcpClose { local: u16 },
}

impl View for ServerAction {
    type V = ActionModel;

    open spec fn view(&self) -> ActionModel {
        match self {
            ServerAction::UdpSend { local, data } => ActionModel::UdpSend { local: *local, data: data@ },
            ServerAction::UdpOpen { remote, local, data } => ActionModel::UdpOpen {
                remote_ip: remote.ip@,
                remote_port: remote.port,
                local: *local,
                data: data@,
            },
            ServerAction::TcpOpen { remote, local, data } => ActionModel::TcpOpen {
                remote_ip: remote.ip@,
                remote_port: remote.port,
                local: *local,
                data: data@,
            },
            ServerAction::TcpWrite { local, data } => ActionModel::TcpWrite { local: *local, data: data@ },
            ServerAction::TcpClose { local } => ActionModel::TcpClose { local: *local },
        }
    }
}

/// The actions of `v`, as the contracts see them.
pub open spec fn actions(v: Seq<ServerAction>) -> Seq<ActionModel> {
    v.map_values(|a: ServerAction| a@)
}

/// The server's sockets as the contracts see them: the client-local ports
/// that have a UDP socket, and those that have a TCP stream.
pub struct ServerModel {
    pub udp: Set<u16>,
    pub tcp: Set<u16>,
}

/// Which client-local ports have a socket.
pub struct ServerState {
    pub udp_ports: HashSet<u16>,
    pub tcp_ports: HashSet<u16>,
}

impl View for ServerState {
    type V = ServerModel;

    open spec fn view(&self) -> ServerModel {
        ServerModel { udp: self.udp_ports@, tcp: self.tcp_ports@ }
    }
}

/// What one whole relay message asks: UDP data goes to the port's socket,
/// which is opened first where there is none; a TCP connect opens a stream;
/// TCP data goes to the port's stream and TCP finish drops it, where there
/// is one. A message of no known kind asks nothing.
pub open spec fn spec_server_step(m: ServerModel, msg: Seq<u8>) -> (ServerModel, Option<ActionModel>) {
    let remote_ip = msg.subrange(1, 5);
    let remote_port = get_le16(msg, 5);
    let local = get_le16(msg, 7);
    let data = msg.subrange(11, msg.len() as int);
    match spec_type_of(msg[0]) {
        Ok(StupidType::UDP) => if m.udp.contains(local) {
            (m, Some(ActionModel::UdpSend { local, data }))
        } else {
            (ServerModel { udp: m.udp.insert(local), ..m }, Some(ActionModel::UdpOpen { remote_ip, remote_port, local, data }))
        },
        Ok(StupidType::TcpConnect) => (
            ServerModel { tcp: m.tcp.insert(local), ..m },
            Some(ActionModel::TcpOpen { remote_ip, remote_port, local, data }),
        ),
        Ok(StupidType::TCP) => if m.tcp.contains(local) {
            (m, Some(ActionModel::TcpWrite { local, data }))
        } else {
            (m, None)
        },
        Ok(StupidType::TcpFinish) => if m.tcp.contains(local) {
            (ServerModel { tcp: m.tcp.remove(local), ..m }, Some(ActionModel::TcpClose { local }))
        } else {
            (m, None)
        },
        Err(_) => (m, None),
    }
}

/// What the relay stream `buf` asks: its whole messages in order, and how
/// many bytes they take. A message that is not whole yet is left for later.
pub open spec fn spec_server_stream(m: ServerModel, buf: Seq<u8>) -> (ServerModel, Seq<ActionModel>, int)
    decreases buf.len(),
{
    if buf.len() < 11 || buf.len() < 11 + get_le16(buf, 9) {
        (m, Seq::empty(), 0)
    } else {
        let end = 11 + get_le16(buf, 9);
        let (m1, a) = spec_server_step(m, buf.subrange(0, end));
        let (m2, rest, n) = spec_server_stream(m1, buf.subrange(end, buf.len() as int));
        let first = match a {
            Some(x) => seq![x],
            None => Seq::empty(),
        };
        (m2, first + rest, end + n)
    }
}

/// The message that carries what a TCP stream read back to the client: its
/// data, or a TCP finish where the read was empty (the peer closed).
pub fn tcp_read_message(peer: Ipv4Endpoint, local: u16, data: &[u8]) -> (r: Result<Vec<u8>, ()>)
    ensures
        match r {
            Ok(m) => data@.len() <= MAX_PAYLOAD && m@ == if data@.len() > 0 {
                spec_message(StupidType::TCP, peer.ip@, peer.port, local, data@)
            } else {
                spec_message(StupidType::TcpFinish, peer.ip@, peer.port, local, Seq::empty())
            },
            Err(()) => data@.len() > MAX_PAYLOAD,
        },
{
    if data.len() > 0 {
        message(StupidType::TCP, peer, local, data)
    } else {
        message(StupidType::TcpFinish, peer, local, data)
    }
}

impl ServerState {
    /// No socket yet.
    pub fn new() -> (r: Self)
        ensures
            r@.udp == Set::<u16>::empty(),
            r@.tcp == Set::<u16>::empty(),
    {
        ServerState { udp_ports: HashSet::new(), tcp_ports: HashSet::new() }
    }

    /// Decides what the whole messages at the start of the relay stream
    /// `buf` ask, in order, and how many bytes of `buf` they took.
    pub fn handle_relay(&mut self, buf: &[u8]) -> (r: (Vec<ServerAction>, usize))
        ensures
            ({
                let (m, a, n) = spec_server_stream(old(self)@, buf@);
                final(self)@ == m && actions(r.0@) == a && r.1 == n
            }),
    {
        let mut out: Vec<ServerAction> = Vec::new();
        let mut rest = buf;
        let mut used: usize = 0;
        let total = buf.len();
        assert(actions(out@) =~= Seq::<ActionModel>::empty());
        assert(buf@.subrange(0, buf@.len() as int) =~= buf@);
        loop
            invariant
                used + rest@.len() == buf@.len(),
                total == buf@.len(),
                rest@ == buf@.subrange(used as int, buf@.len() as int),
                ({
                    let (m, a, n) = spec_server_stream(old(self)@, buf@);
                    let (m2, a2, n2) = spec_server_stream(self@, rest@);
                    m == m2 && a == actions(out@) + a2 && n == used + n2
                }),
            ensures
                ({
                    let (m, a, n) = spec_server_stream(old(self)@, buf@);
                    self@ == m && a == actions(out@) && n == used
                }),
            decreases rest@.len(),
        {
            let ghost m1 = self@;
            let ghost out1 = actions(out@);
            let (h, data, next) = match StupidDataHeader::from_raw(rest) {
                Ok(p) => p,
                Err(_) => {
                    assert(out1 + Seq::<ActionModel>::empty() =~= out1);
                    break;
                },
            };
            let ghost msg = rest@.subrange(0, 11 + h.data_length);
            assert(h.wire() + data@ =~= msg);
            let a = self.decide(&h, data);
            match a {
                Some(x) => {
                    out.push(x);
                    assert(actions(out@) =~= out1.push(x@));
                },
                None => {},
            }
            proof {
                let (ms, sa) = spec_server_step(m1, msg);
                let first = match sa {
                    Some(x) => seq![x],
                    None => Seq::<ActionModel>::empty(),
                };
                assert(actions(out@) =~= out1 + first);
                let (m2, a2, n2) = spec_server_stream(self@, next@);
                assert(out1 + (first + a2) =~= actions(out@) + a2);
                assert(next@ =~= buf@.subrange(used + 11 + h.data_length, buf@.len() as int));
            }
            used = used + 11 + h.data_length as usize;
            rest = next;
        }
        (out, used)
    }

    /// Decides what one relay message asks.
    fn decide(&mut self, h: &StupidDataHeader, data: &[u8]) -> (r: Option<ServerAction>)
        requires
            h.data_length == data@.len(),
        ensures
            ({
                let (m, a) = spec_server_step(old(self)@, h.wire() + data@);
                final(self)@ == m && match (r, a) {
                    (Some(x), Some(y)) => x@ == y,
                    (None, None) => true,
                    _ => false,
                }
            }),
    {
        let ghost msg = h.wire() + data@;
        proof {
            lemma_le16_round_trip(h.remote_port);
            lemma_le16_round_trip(h.local_port);
            assert(msg[0] == h.ty);
            assert(msg.subrange(1, 5) =~= h.remote_ip@);
            assert(msg.subrange(5, 7) =~= le16(h.remote_port));
            assert(msg.subrange(7, 9) =~= le16(h.local_port));
            assert(get_le16(msg, 5) == get_le16(le16(h.remote_port), 0));
            assert(get_le16(msg, 7) == get_le16(le16(h.local_port), 0));
            assert(msg.subrange(11, msg.len() as int) =~= data@);
        }
        let local = h.local();
        let mut payload: Vec<u8> = Vec::new();
        crate::bytes::push_all(&mut payload, data);
        assert(payload@ =~= data@);
        match h.ty() {
            Ok(StupidType::UDP) => {
                if self.udp_ports.contains(&local) {
                    Some(ServerAction::UdpSend { local, data: payload })
                } else {
                    self.udp_ports.insert(local);
                    Some(ServerAction::UdpOpen { remote: h.remote(), local, data: payload })
                }
            },
            Ok(StupidType::TcpConnect) => {
                self.tcp_ports.insert(local);
                Some(ServerAction::TcpOpen { remote: h.remote(), local, data: payload })
            },
            Ok(StupidType::TCP) => {
                if self.tcp_ports.contains(&local) {
                    Some(ServerAction::TcpWrite { local, data: payload })
                } else {
                    None
                }
            },
            Ok(StupidType::TcpFinish) => {
                if self.tcp_ports.contains(&local) {
                    self.tcp_ports.remove(&local);
                    Some(ServerAction::TcpClose { local })
                } else {
                    None
                }
            },
            Err(_) => None,
        }
    }
}

} // verus!
