use stupid_tunnel::checksum::Checksum;
use stupid_tunnel::icmp::{ICMPv6Header, RawHeaderError};
use stupid_tunnel::ifreq::{IfReq, NewIfReqError};
use stupid_tunnel::ip::{self, IPv6Header, Ipv4Endpoint, Ipv6Endpoint};
use stupid_tunnel::stupid::{self, StupidDataHeader, StupidType};
use stupid_tunnel::tcp_connection::{accept_ipv6, build_tcp_packet};
use stupid_tunnel::tcp_header::{Flags, TcpHeader};
use stupid_tunnel::tcp_options::{self, OptionData, Options, SACK};
use stupid_tunnel::udp::{self, build_udp_packet, UDPHeader};

fn localhost() -> [u8; 16] {
    let mut a = [0u8; 16];
    a[15] = 1;
    a
}

fn unspecified() -> [u8; 16] {
    [0u8; 16]
}

/// One's-complement sum, finished, of pseudo-header and segment: zero when
/// the segment's checksum holds.
fn recompute(src: &[u8; 16], dst: &[u8; 16], next: u8, segment: &[u8]) -> u16 {
    let mut c = Checksum::new();
    c.feed_ref(src);
    c.feed_ref(dst);
    c.feed(0);
    c.feed(next);
    c.feed((segment.len() >> 8) as u8);
    c.feed(segment.len() as u8);
    c.feed_ref(segment);
    c.finish()
}

#[test]
fn header_checksum() {
    let src = localhost();
    let dst = unspecified();
    let tcp = TcpHeader::new((src, 232), (dst, 244), 58, 23, Flags(23), 22, &Options(vec![1, 1, 2, 4, 5, 24]), b"gutentag");
    assert_eq!(tcp.checksum(), 55718);
}

#[test]
fn udp_checksum() {
    let src = localhost();
    let dst = unspecified();
    let udp = UDPHeader::new_ipv6(Ipv6Endpoint { ip: src, port: 232 }, Ipv6Endpoint { ip: dst, port: 244 }, b"gutentag").unwrap();
    assert_eq!(udp.checksum(), 21051);
}

#[test]
fn checksum_pairs_odd_bytes_across_feeds() {
    let mut a = Checksum::new();
    a.feed_ref(&[0x12, 0x34, 0x56]);
    a.feed_ref(&[0x78]);
    let mut b = Checksum::new();
    b.feed_ref(&[0x12, 0x34, 0x56, 0x78]);
    assert_eq!(a.finish(), b.finish());
    assert_eq!(b.finish(), !(0x1234u16 + 0x5678));
}

#[test]
fn checksum_pads_trailing_odd_byte() {
    let mut c = Checksum::new();
    c.feed_ref(&[0x01, 0x02, 0x03]);
    assert_eq!(c.finish(), !(0x0102u16 + 0x0300));
}

#[test]
fn checksum_folds_carries() {
    let mut c = Checksum::new();
    c.feed_ref(&[0xff, 0xff, 0xff, 0xff, 0x00, 0x03]);
    // 0xffff + 0xffff + 3 = 0x20001, folded 0x0003, inverted.
    assert_eq!(c.finish(), 0xfffc);
}

#[test]
fn checksum_of_nothing() {
    let mut c = Checksum::new();
    assert_eq!(c.finish(), 0xffff);
}

#[test]
fn udp_checksum_recomputes_to_zero() {
    let src = localhost();
    let dst = unspecified();
    let data = b"gutentag";
    let h = UDPHeader::new_ipv6(Ipv6Endpoint { ip: src, port: 232 }, Ipv6Endpoint { ip: dst, port: 244 }, data).unwrap();
    let mut seg = h.to_bytes();
    seg.extend_from_slice(data);
    assert_eq!(recompute(&src, &dst, 17, &seg), 0);
}

#[test]
fn tcp_checksum_recomputes_to_zero() {
    let src = localhost();
    let dst = unspecified();
    let options = Options::new(&[OptionData::MaximumSegmentSize(1460), OptionData::WindowScale(7)]).unwrap();
    let data = b"odd";
    let h = TcpHeader::new((src, 1), (dst, 2), 7, 9, Flags(0x18), 512, &options, data);
    let mut seg = h.to_bytes();
    seg.extend_from_slice(&options.padded());
    seg.extend_from_slice(data);
    assert_eq!(recompute(&src, &dst, 6, &seg), 0);
}

#[test]
fn tcp_round_trip() {
    let src = localhost();
    let dst = [7u8; 16];
    let list = [
        OptionData::MaximumSegmentSize(1400),
        OptionData::SelectiveAcknowledgementPermitted,
        OptionData::Timestamp { time: 0x01020304, echo: 0x0a0b0c0d },
        OptionData::NoOperation,
        OptionData::WindowScale(7),
    ];
    let options = Options::new(&list).unwrap();
    let data = b"payload";
    let h = TcpHeader::new((src, 4321), (dst, 80), 0xdeadbeef, 0x01020304, Flags(0x12), 0xffff, &options, data);
    let mut seg = h.to_bytes();
    seg.extend_from_slice(&options.padded());
    seg.extend_from_slice(data);
    let (d, o, rest) = TcpHeader::from_raw_ipv6(&seg, src, dst).unwrap();
    assert_eq!(d, h);
    assert_eq!(d.source(), 4321);
    assert_eq!(d.destination(), 80);
    assert_eq!(d.sequence_num(), 0xdeadbeef);
    assert_eq!(d.acknowledge_num(), 0x01020304);
    assert_eq!(d.flags, Flags(0x12));
    assert_eq!(d.window(), 0xffff);
    assert_eq!(d.urgent_pointer(), 0);
    assert_eq!(o.0, options.0);
    assert_eq!(rest, &data[..]);
    let mut it = o.iter();
    for expected in list.iter() {
        assert_eq!(it.next().unwrap(), Some(*expected));
    }
    assert_eq!(it.next().unwrap(), None);
}

#[test]
fn sack_round_trip() {
    let list = [OptionData::SelectiveAcknowledgement(SACK::N2(5, 9))];
    let o = Options::new(&list).unwrap();
    assert_eq!(o.0, vec![5, 10, 0, 0, 0, 5, 0, 0, 0, 9, 0, 0]);
    let mut it = o.iter();
    assert_eq!(it.next().unwrap(), Some(list[0]));
    assert_eq!(it.next().unwrap(), None);
}

#[test]
fn options_are_padded_to_words() {
    let o = Options::new(&[OptionData::MaximumSegmentSize(1460), OptionData::WindowScale(7)]).unwrap();
    assert_eq!(o.0, vec![2, 4, 0x05, 0xb4, 3, 3, 7, 0]);
    assert_eq!(o.byte_len(), 8);
    let h = TcpHeader::new((localhost(), 1), (unspecified(), 2), 0, 0, Flags::new(), 0, &o, &[]);
    assert_eq!(h.data_offset() as usize * 4, 20 + o.0.len());
    assert_eq!(h.length(&[1, 2, 3]), Ok(31));
    assert_eq!(h.byte_len(), 20);
    let none = TcpHeader::new((localhost(), 1), (unspecified(), 2), 0, 0, Flags::new(), 0, &Options::none(), &[]);
    assert_eq!(none.data_offset(), 5);
}

#[test]
fn options_too_long() {
    let list = [OptionData::Timestamp { time: 1, echo: 2 }; 5];
    assert!(Options::new(&list).is_err());
}

#[test]
fn option_errors() {
    assert!(matches!(Options::next_option(&[9, 1]), Err(tcp_options::FromRawError::BadOption)));
    assert!(matches!(Options::next_option(&[2, 4, 1]), Err(tcp_options::FromRawError::Truncated)));
    assert!(matches!(Options::next_option(&[5, 7, 0, 0, 0, 0, 0]), Err(tcp_options::FromRawError::BadOption)));
    assert!(matches!(Options::next_option(&[0, 1]), Ok(None)));
    assert!(matches!(Options::next_option(&[]), Ok(None)));
    let mut it = Options(vec![1, 42]).iter();
    assert_eq!(it.next().unwrap(), Some(OptionData::NoOperation));
    assert!(matches!(it.next(), Err(tcp_options::FromRawError::BadOption)));
}

#[test]
fn tcp_decode_errors() {
    let src = localhost();
    let dst = unspecified();
    assert!(matches!(TcpHeader::from_raw_ipv6(&[0u8; 19], src, dst), Err(tcp_options::FromRawError::Truncated)));
    let h = TcpHeader::new((src, 1), (dst, 2), 3, 4, Flags(0x10), 5, &Options::none(), b"x");
    let mut seg = h.to_bytes();
    seg.push(b'x');
    assert!(TcpHeader::from_raw_ipv6(&seg, src, dst).is_ok());
    let mut bad = seg.clone();
    bad[20] = b'y';
    assert!(matches!(TcpHeader::from_raw_ipv6(&bad, src, dst), Err(tcp_options::FromRawError::BadChecksum)));
    let mut long = seg.clone();
    long[12] = 0x60;
    assert!(matches!(TcpHeader::from_raw_ipv6(&long, src, dst), Err(tcp_options::FromRawError::Truncated)));
}

#[test]
fn udp_decode() {
    let src = localhost();
    let dst = unspecified();
    let data = b"hello";
    let h = UDPHeader::new_ipv6(Ipv6Endpoint { ip: src, port: 1000 }, Ipv6Endpoint { ip: dst, port: 53 }, data).unwrap();
    assert_eq!(h.length, 13);
    assert_eq!(h.data_length(), 5);
    assert_eq!(h.length(data), Ok(13));
    assert_eq!(h.byte_len(), 8);
    let mut seg = h.to_bytes();
    seg.extend_from_slice(data);
    let (d, rest) = UDPHeader::from_raw_ipv6(&seg, src, dst).unwrap();
    assert_eq!(d.source_port(), 1000);
    assert_eq!(d.destination_port(), 53);
    assert_eq!(rest, &data[..]);
    assert!(matches!(UDPHeader::from_raw_ipv6(&seg[..7], src, dst), Err(udp::FromRawError::Truncated)));
    assert!(matches!(UDPHeader::from_raw_ipv6(&seg[..12], src, dst), Err(udp::FromRawError::Truncated)));
    assert!(matches!(UDPHeader::from_raw_ipv6(&seg, src, [1u8; 16]), Err(udp::FromRawError::BadChecksum)));
}

#[test]
fn udp_too_large() {
    let data = vec![0u8; 65528];
    let e = Ipv6Endpoint { ip: localhost(), port: 1 };
    assert!(matches!(UDPHeader::new_ipv6(e, e, &data), Err(udp::ChecksumError::DataTooLarge)));
    assert!(build_udp_packet(e, e, &data).is_err());
}

#[test]
fn ipv6_header_codec() {
    let src = localhost();
    let dst = [9u8; 16];
    let h = IPv6Header::new(300, 17, 64, src, dst);
    let mut bytes = h.to_bytes();
    assert_eq!(bytes.len(), 40);
    assert_eq!(&bytes[..8], &[0x60, 0, 0, 0, 1, 44, 17, 64]);
    bytes.extend_from_slice(b"tail");
    let (d, rest) = IPv6Header::from_raw(&bytes).unwrap();
    assert_eq!(d.version(), 6);
    assert_eq!(d.payload_length(), 300);
    assert_eq!(d.next_header, 17);
    assert_eq!(d.hop_limit, 64);
    assert_eq!(d.source_address(), src);
    assert_eq!(d.destination_address(), dst);
    assert_eq!(d.byte_len(), 40);
    assert_eq!(rest, b"tail");
    assert!(matches!(IPv6Header::from_raw(&bytes[..39]), Err(ip::FromRawError::BadSize)));
    bytes[0] = 0x45;
    assert!(matches!(IPv6Header::from_raw(&bytes), Err(ip::FromRawError::BadVersion(4))));
}

#[test]
fn ipv6_header_setters() {
    let h = *IPv6Header::default()
        .set_hop_limit(64)
        .set_next_header(6)
        .set_payload_length(20)
        .set_source_address(localhost())
        .set_destination_address([3u8; 16]);
    assert_eq!(h.hop_limit, 64);
    assert_eq!(h.next_header, 6);
    assert_eq!(h.payload_length(), 20);
    assert_eq!(h.source_address(), localhost());
    assert_eq!(h.destination_address(), [3u8; 16]);
    assert_eq!(h.version(), 6);
}

#[test]
fn flags_bits() {
    let mut f = Flags::new();
    assert_eq!(f.set_acknowledge(true), Flags(0x10));
    assert_eq!(f.set_synchronize(true), Flags(0x12));
    assert!(f.acknowledge() && f.synchronize() && !f.finish());
    assert_eq!(f.set_synchronize(false), Flags(0x10));
    f.set_finish(true);
    f.set_reset(true);
    f.set_push(true);
    f.set_urgent(true);
    assert_eq!(f, Flags(0x3d));
    assert!(f.urgent() && f.push() && f.reset() && f.finish());
}

#[test]
fn relay_round_trip() {
    let remote = Ipv4Endpoint { ip: [1, 2, 3, 4], port: 53 };
    let m = stupid::message(StupidType::UDP, remote, 4000, b"Q").unwrap();
    assert_eq!(m, vec![1, 1, 2, 3, 4, 53, 0, 0xa0, 0x0f, 1, 0, b'Q']);
    let (h, data, trailing) = StupidDataHeader::from_raw(&m).unwrap();
    assert_eq!(h.ty().unwrap(), StupidType::UDP);
    assert_eq!(h.remote().ip, [1, 2, 3, 4]);
    assert_eq!(h.remote().port, 53);
    assert_eq!(h.local(), 4000);
    assert_eq!(h.data_length(), 1);
    assert_eq!(h.byte_len(), 11);
    assert_eq!(data, b"Q");
    assert!(trailing.is_empty());
}

#[test]
fn relay_largest_payload() {
    let remote = Ipv4Endpoint { ip: [9, 9, 9, 9], port: 1 };
    let payload = vec![7u8; 65524];
    let m = stupid::message(StupidType::TCP, remote, 2, &payload).unwrap();
    assert_eq!(m.len(), 65535);
    let (h, data, trailing) = StupidDataHeader::from_raw(&m).unwrap();
    assert_eq!(h.data_length(), 65524);
    assert_eq!(data.len(), 65524);
    assert!(trailing.is_empty());
    let too_big = vec![7u8; 65525];
    assert!(stupid::message(StupidType::TCP, remote, 2, &too_big).is_err());
}

#[test]
fn relay_truncated_and_trailing() {
    let remote = Ipv4Endpoint { ip: [1, 1, 1, 1], port: 7 };
    let mut m = stupid::message(StupidType::TCP, remote, 9, b"abc").unwrap();
    assert!(matches!(StupidDataHeader::from_raw(&m[..10]), Err(stupid::FromRawError::Truncated)));
    assert!(matches!(StupidDataHeader::from_raw(&m[..13]), Err(stupid::FromRawError::Truncated)));
    m.extend_from_slice(b"next");
    let (_, data, trailing) = StupidDataHeader::from_raw(&m).unwrap();
    assert_eq!(data, b"abc");
    assert_eq!(trailing, b"next");
}

#[test]
fn relay_types() {
    assert_eq!(u8::from(StupidType::TCP), 0);
    assert_eq!(u8::from(StupidType::UDP), 1);
    assert_eq!(u8::from(StupidType::TcpConnect), 2);
    assert_eq!(u8::from(StupidType::TcpFinish), 3);
    assert_eq!(StupidType::try_from(3).unwrap(), StupidType::TcpFinish);
    assert!(StupidType::try_from(4).is_err());
    let h = StupidDataHeader::new(StupidType::TcpConnect, Ipv4Endpoint { ip: [5, 6, 7, 8], port: 80 }, 9000, 0);
    assert_eq!(h.to_bytes(), vec![2, 5, 6, 7, 8, 80, 0, 0x28, 0x23, 0, 0]);
    let bad = StupidDataHeader { ty: 9, ..h };
    assert!(bad.ty().is_err());
}

#[test]
fn icmp_header() {
    let (h, rest) = ICMPv6Header::from_raw(&[128, 0, 0x12, 0x34, 9]).unwrap();
    assert_eq!(h.ty, 128);
    assert_eq!(h.code, 0);
    assert_eq!(h.checksum, 0x1234);
    assert_eq!(rest, &[9]);
    assert!(matches!(ICMPv6Header::from_raw(&[1, 2, 3]), Err(RawHeaderError::Truncated)));
}

#[test]
fn ifreq_for_tun() {
    let r = IfReq::new_tun(b"stupid_tunnel", true).unwrap();
    assert_eq!(&r.name[..13], b"stupid_tunnel");
    assert_eq!(&r.name[13..], &[0, 0, 0]);
    assert_eq!(r.flags, 0x1001);
    assert_eq!(IfReq::new_tun(b"tun0", false).unwrap().flags, 0x0001);
    assert!(matches!(IfReq::new_tun(b"sixteen_chars_xx", true), Err(NewIfReqError::NameTooLong)));
}

#[test]
fn accept_answers_syn() {
    let src = [4u8; 16];
    let dst = localhost();
    let syn = TcpHeader::new((src, 5555), (dst, 80), 41, 0, Flags(0x02), 100, &Options::none(), &[]);
    let opts = Options::new(&[OptionData::MaximumSegmentSize(1400)]).unwrap();
    let r = accept_ipv6(&syn, src, dst, 900, 0xffff, &opts);
    assert_eq!(r.source(), 80);
    assert_eq!(r.destination(), 5555);
    assert_eq!(r.sequence_num(), 900);
    assert_eq!(r.acknowledge_num(), 42);
    assert_eq!(r.flags, Flags(0x12));
    assert_eq!(r.data_offset(), 6);
    let mut seg = r.to_bytes();
    seg.extend_from_slice(&opts.padded());
    assert!(TcpHeader::from_raw_ipv6(&seg, dst, src).is_ok());
}

#[test]
fn rst_packet_shape() {
    let p = build_tcp_packet((localhost(), 80), ([2u8; 16], 9000), 0, 0, Flags(0x04), 0, 255, &[]);
    let (ip, rest) = IPv6Header::from_raw(&p).unwrap();
    assert_eq!(ip.hop_limit, 255);
    assert_eq!(ip.payload_length(), 20);
    let (t, _, data) = TcpHeader::from_raw_ipv6(rest, ip.source_address(), ip.destination_address()).unwrap();
    assert!(t.flags.reset());
    assert_eq!(t.sequence_num(), 0);
    assert_eq!(t.acknowledge_num(), 0);
    assert!(data.is_empty());
}
