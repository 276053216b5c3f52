use stupid_tunnel::client::{ClientState, Output};
use stupid_tunnel::ip::{IPv6Header, Ipv4Endpoint, Ipv6Endpoint};
use stupid_tunnel::server::{tcp_read_message, ServerAction, ServerState};
use stupid_tunnel::stupid::{self, StupidDataHeader, StupidType};
use stupid_tunnel::tcp_connection::{build_tcp_packet, Response, Tcp6Connection};
use stupid_tunnel::tcp_header::{Flags, TcpHeader};
use stupid_tunnel::tcp_options::Options;
use stupid_tunnel::udp::{build_udp_packet, UDPHeader};

fn local_address() -> [u8; 16] {
    [0xab, 0xcd, 0xef, 0x00, 0, 0, 0, 0, 0, 0, 0, 0, 0, 0, 0x10, 0x01]
}

fn tunnelled(v4: [u8; 4]) -> [u8; 16] {
    let mut a = local_address();
    a[12..].copy_from_slice(&v4);
    a
}

fn client() -> ClientState {
    ClientState::new(local_address(), 2930232, 239020923)
}

fn relay_of(o: &Output) -> &[u8] {
    match o {
        Output::Relay(m) => m,
        Output::Tun(_) => panic!("expected a relay message"),
    }
}

fn tun_of(o: &Output) -> &[u8] {
    match o {
        Output::Tun(p) => p,
        Output::Relay(_) => panic!("expected a TUN packet"),
    }
}

/// Decodes an IPv6/TCP packet, checking its checksum on the way.
fn tcp_of(p: &[u8]) -> (IPv6Header, TcpHeader, Vec<u8>) {
    let (ip, rest) = IPv6Header::from_raw(p).unwrap();
    assert_eq!(ip.payload_length() as usize, rest.len());
    let (t, _, data) = TcpHeader::from_raw_ipv6(rest, ip.source_address(), ip.destination_address()).unwrap();
    (ip, t, data.to_vec())
}

fn segment(seq: u32, ack: u32, flags: u8, data: &[u8]) -> Vec<u8> {
    build_tcp_packet((local_address(), 9000), (tunnelled([5, 6, 7, 8]), 80), seq, ack, Flags(flags), 0xffff, 64, data)
}

/// Handshake of the TCP scenarios; returns the client and the SYN-ACK's sequence number.
fn handshake() -> (ClientState, u32) {
    let mut c = client();
    let out = c.handle_tun(&segment(1000, 0, 0x02, &[]));
    assert_eq!(out.len(), 2);
    let (h, _, _) = StupidDataHeader::from_raw(relay_of(&out[0])).unwrap();
    assert_eq!(h.ty().unwrap(), StupidType::TcpConnect);
    let (ip, t, data) = tcp_of(tun_of(&out[1]));
    assert_eq!(ip.source_address(), tunnelled([5, 6, 7, 8]));
    assert_eq!(ip.destination_address(), local_address());
    assert_eq!(t.flags, Flags(0x12));
    assert_eq!(t.acknowledge_num(), 1001);
    assert!(data.is_empty());
    (c, t.sequence_num())
}

#[test]
fn udp_upstream() {
    let mut c = client();
    let p = build_udp_packet(
        Ipv6Endpoint { ip: local_address(), port: 4000 },
        Ipv6Endpoint { ip: tunnelled([1, 2, 3, 4]), port: 53 },
        b"Q",
    )
    .unwrap();
    let out = c.handle_tun(&p);
    assert_eq!(out.len(), 1);
    let m = relay_of(&out[0]);
    let (h, data, trailing) = StupidDataHeader::from_raw(m).unwrap();
    assert_eq!(h.ty, 1);
    assert_eq!(h.remote().ip, [1, 2, 3, 4]);
    assert_eq!(h.remote().port, 53);
    assert_eq!(h.local(), 4000);
    assert_eq!(h.data_length(), 1);
    assert_eq!(data, b"Q");
    assert!(trailing.is_empty());

    let mut s = ServerState::new();
    let (actions, used) = s.handle_relay(m);
    assert_eq!(used, m.len());
    assert_eq!(actions.len(), 1);
    match &actions[0] {
        ServerAction::UdpOpen { remote, local, data } => {
            assert_eq!(remote.ip, [1, 2, 3, 4]);
            assert_eq!(remote.port, 53);
            assert_eq!(*local, 4000);
            assert_eq!(data, b"Q");
        },
        other => panic!("unexpected {:?}", other),
    }
    let (again, _) = s.handle_relay(m);
    assert!(matches!(&again[0], ServerAction::UdpSend { local: 4000, .. }));
}

#[test]
fn udp_return_path() {
    let mut c = client();
    let m = stupid::message(StupidType::UDP, Ipv4Endpoint { ip: [1, 2, 3, 4], port: 53 }, 4000, b"A").unwrap();
    let (packets, used) = c.handle_stupid(&m);
    assert_eq!(used, m.len());
    assert_eq!(packets.len(), 1);
    let (ip, rest) = IPv6Header::from_raw(&packets[0]).unwrap();
    assert_eq!(ip.next_header, 17);
    assert_eq!(ip.source_address(), tunnelled([1, 2, 3, 4]));
    assert_eq!(ip.destination_address(), local_address());
    assert_eq!(ip.payload_length() as usize, rest.len());
    let (u, data) = UDPHeader::from_raw_ipv6(rest, ip.source_address(), ip.destination_address()).unwrap();
    assert_eq!(u.source_port(), 53);
    assert_eq!(u.destination_port(), 4000);
    assert_eq!(data, b"A");
}

#[test]
fn tcp_handshake() {
    let mut c = client();
    let out = c.handle_tun(&segment(1000, 0, 0x02, &[]));
    assert_eq!(out.len(), 2);
    let (h, data, _) = StupidDataHeader::from_raw(relay_of(&out[0])).unwrap();
    assert_eq!(h.ty().unwrap(), StupidType::TcpConnect);
    assert_eq!(h.remote().ip, [5, 6, 7, 8]);
    assert_eq!(h.remote().port, 80);
    assert_eq!(h.local(), 9000);
    assert!(data.is_empty());
    let (_, t, _) = tcp_of(tun_of(&out[1]));
    assert_eq!(t.acknowledge_num(), 1001);
    assert_eq!(t.sequence_num(), 2930232);
    assert_eq!(t.source(), 80);
    assert_eq!(t.destination(), 9000);
    let conn = c.tcp_connections.get(&9000).unwrap();
    assert_eq!(conn.sequence_num, 2930233);
    assert_eq!(c.init_seq_n, 2930232u32.wrapping_add(239020923));
}

#[test]
fn tcp_data_upstream() {
    let (mut c, s) = handshake();
    let out = c.handle_tun(&segment(1001, s + 1, 0x10, b"GET /"));
    assert_eq!(out.len(), 2);
    let (_, t, data) = tcp_of(tun_of(&out[0]));
    assert_eq!(t.acknowledge_num(), 1006);
    assert_eq!(t.sequence_num(), s + 1);
    assert_eq!(t.flags, Flags(0x10));
    assert!(data.is_empty());
    let (h, d, _) = StupidDataHeader::from_raw(relay_of(&out[1])).unwrap();
    assert_eq!(h.ty().unwrap(), StupidType::TCP);
    assert_eq!(h.local(), 9000);
    assert_eq!(d, b"GET /");
}

#[test]
fn tcp_data_downstream() {
    let (mut c, s) = handshake();
    c.handle_tun(&segment(1001, s + 1, 0x10, b"GET /"));
    let m = stupid::message(StupidType::TCP, Ipv4Endpoint { ip: [5, 6, 7, 8], port: 80 }, 9000, b"200 OK").unwrap();
    let (packets, _) = c.handle_stupid(&m);
    assert_eq!(packets.len(), 1);
    let (_, t, data) = tcp_of(&packets[0]);
    assert_eq!(t.sequence_num(), s + 1);
    assert_eq!(t.acknowledge_num(), 1006);
    assert_eq!(t.flags, Flags(0x10));
    assert_eq!(data, b"200 OK");
    assert_eq!(c.tcp_connections.get(&9000).unwrap().sequence_num, s + 7);
}

#[test]
fn tcp_teardown_by_peer() {
    let (mut c, s) = handshake();
    c.handle_tun(&segment(1001, s + 1, 0x10, b"GET /"));
    let out = c.handle_tun(&segment(1006, s + 1, 0x11, &[]));
    assert_eq!(out.len(), 2);
    let (_, t, data) = tcp_of(tun_of(&out[0]));
    assert_eq!(t.flags, Flags(0x11));
    assert_eq!(t.acknowledge_num(), 1007);
    assert!(data.is_empty());
    let (h, _, _) = StupidDataHeader::from_raw(relay_of(&out[1])).unwrap();
    assert_eq!(h.ty().unwrap(), StupidType::TcpFinish);
    assert_eq!(h.local(), 9000);
    assert!(c.tcp_connections.get(&9000).is_none());
}

#[test]
fn segment_to_unknown_port_is_reset() {
    let mut c = client();
    let out = c.handle_tun(&segment(5, 6, 0x10, b"hi"));
    assert_eq!(out.len(), 1);
    let (ip, t, _) = tcp_of(tun_of(&out[0]));
    assert_eq!(ip.hop_limit, 255);
    assert_eq!(ip.destination_address(), local_address());
    assert!(t.flags.reset());
    assert_eq!(t.sequence_num(), 0);
    assert_eq!(t.acknowledge_num(), 0);
    assert_eq!(t.destination(), 9000);
    assert!(c.tcp_connections.is_empty());
}

#[test]
fn reset_drops_connection_silently() {
    let (mut c, _) = handshake();
    let out = c.handle_tun(&segment(1001, 0, 0x04, &[]));
    assert!(out.is_empty());
    assert!(c.tcp_connections.is_empty());
}

#[test]
fn bare_ack_is_not_answered() {
    let (mut c, s) = handshake();
    let out = c.handle_tun(&segment(1001, s + 1, 0x10, &[]));
    assert!(out.is_empty());
}

#[test]
fn chained_packets_in_one_frame() {
    let mut c = client();
    let mut frame = build_udp_packet(
        Ipv6Endpoint { ip: local_address(), port: 4000 },
        Ipv6Endpoint { ip: tunnelled([1, 2, 3, 4]), port: 53 },
        b"one",
    )
    .unwrap();
    frame.extend(
        build_udp_packet(
            Ipv6Endpoint { ip: local_address(), port: 4001 },
            Ipv6Endpoint { ip: tunnelled([1, 2, 3, 5]), port: 54 },
            b"two",
        )
        .unwrap(),
    );
    let out = c.handle_tun(&frame);
    assert_eq!(out.len(), 2);
    let (_, d1, _) = StupidDataHeader::from_raw(relay_of(&out[0])).unwrap();
    let (h2, d2, _) = StupidDataHeader::from_raw(relay_of(&out[1])).unwrap();
    assert_eq!(d1, b"one");
    assert_eq!(d2, b"two");
    assert_eq!(h2.local(), 4001);
}

#[test]
fn corrupted_packet_is_dropped() {
    let mut c = client();
    let mut p = build_udp_packet(
        Ipv6Endpoint { ip: local_address(), port: 4000 },
        Ipv6Endpoint { ip: tunnelled([1, 2, 3, 4]), port: 53 },
        b"Q",
    )
    .unwrap();
    let last = p.len() - 1;
    p[last] ^= 0xff;
    assert!(c.handle_tun(&p).is_empty());
    assert!(c.handle_tun(&p[..30]).is_empty());
}

#[test]
fn partial_relay_message_waits() {
    let mut c = client();
    let m = stupid::message(StupidType::UDP, Ipv4Endpoint { ip: [1, 2, 3, 4], port: 53 }, 4000, b"AB").unwrap();
    let mut buf = m.clone();
    buf.extend_from_slice(&m[..5]);
    let (packets, used) = c.handle_stupid(&buf);
    assert_eq!(packets.len(), 1);
    assert_eq!(used, m.len());
}

#[test]
fn responder_counts() {
    let syn = TcpHeader::new((local_address(), 9000), (tunnelled([5, 6, 7, 8]), 80), 1000, 0, Flags(0x02), 0xffff, &Options::none(), &[]);
    let ip = IPv6Header::new(20, 6, 64, local_address(), tunnelled([5, 6, 7, 8]));
    let (mut conn, _) = Tcp6Connection::new(&ip, &syn, &Options::none(), 77);
    assert_eq!(conn.acknowledge_num, 1001);
    assert_eq!(conn.sequence_num, 78);
    let data_seg = TcpHeader { flags: Flags(0x10), ..syn };
    assert!(matches!(conn.receive(&data_seg, b"abc").unwrap(), Response::Acknowledge(_)));
    assert_eq!(conn.acknowledge_num, 1004);
    conn.send(b"12345").unwrap();
    conn.send(b"6").unwrap();
    assert_eq!(conn.sequence_num, 78 + 6);
    let fin_seg = TcpHeader { flags: Flags(0x11), ..syn };
    assert!(matches!(conn.receive(&fin_seg, b"z").unwrap(), Response::Finish(_)));
    assert_eq!(conn.acknowledge_num, 1006);
    assert_eq!(conn.sequence_num, 85);
    assert!(matches!(conn.receive(&fin_seg, &[]).unwrap(), Response::Finished(_)));
    assert_eq!(conn.acknowledge_num, 1007);
}

#[test]
fn close_sends_fin_with_data() {
    let syn = TcpHeader::new((local_address(), 9000), (tunnelled([5, 6, 7, 8]), 80), 1000, 0, Flags(0x02), 0xffff, &Options::none(), &[]);
    let ip = IPv6Header::new(20, 6, 64, local_address(), tunnelled([5, 6, 7, 8]));
    let (mut conn, _) = Tcp6Connection::new(&ip, &syn, &Options::none(), 10);
    let p = conn.close(b"bye").unwrap();
    let (ip2, t, data) = tcp_of(&p);
    assert_eq!(ip2.hop_limit, 64);
    assert_eq!(t.flags, Flags(0x11));
    assert_eq!(t.sequence_num(), 11);
    assert_eq!(data, b"bye");
    assert_eq!(conn.sequence_num, 15);
    assert!(conn.closed);
    assert!(conn.send(&vec![0u8; 65516]).is_err());
}

#[test]
fn server_tcp_actions() {
    let mut s = ServerState::new();
    let remote = Ipv4Endpoint { ip: [5, 6, 7, 8], port: 80 };
    let mut buf = stupid::message(StupidType::TCP, remote, 9000, b"early").unwrap();
    buf.extend(stupid::message(StupidType::TcpConnect, remote, 9000, &[]).unwrap());
    buf.extend(stupid::message(StupidType::TCP, remote, 9000, b"GET /").unwrap());
    buf.extend(stupid::message(StupidType::TcpFinish, remote, 9000, &[]).unwrap());
    let mut bad = stupid::message(StupidType::TCP, remote, 9000, &[]).unwrap();
    bad[0] = 7;
    buf.extend(bad);
    let (actions, used) = s.handle_relay(&buf);
    assert_eq!(used, buf.len());
    assert_eq!(actions.len(), 3);
    assert!(matches!(&actions[0], ServerAction::TcpOpen { local: 9000, .. }));
    match &actions[1] {
        ServerAction::TcpWrite { local, data } => {
            assert_eq!(*local, 9000);
            assert_eq!(data, b"GET /");
        },
        other => panic!("unexpected {:?}", other),
    }
    assert!(matches!(&actions[2], ServerAction::TcpClose { local: 9000 }));
}

#[test]
fn server_frames_reads() {
    let peer = Ipv4Endpoint { ip: [5, 6, 7, 8], port: 80 };
    let m = tcp_read_message(peer, 9000, b"200 OK").unwrap();
    let (h, d, _) = StupidDataHeader::from_raw(&m).unwrap();
    assert_eq!(h.ty().unwrap(), StupidType::TCP);
    assert_eq!(d, b"200 OK");
    let f = tcp_read_message(peer, 9000, &[]).unwrap();
    let (h, d, _) = StupidDataHeader::from_raw(&f).unwrap();
    assert_eq!(h.ty().unwrap(), StupidType::TcpFinish);
    assert_eq!(h.local(), 9000);
    assert!(d.is_empty());
}
