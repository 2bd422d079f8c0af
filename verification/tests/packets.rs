use tor_vpn::addr::Ipv4Addr;
use tor_vpn::checksum::{finish_checksum, ip_checksum};
use tor_vpn::packet::{
    ack_flag, build_ipv4_packet, classify_packet, fin_flag, parse_ipv4, parse_tcp, parse_udp,
    psh_flag, rst_flag, syn_flag, total_length_covers_header, TransportInfo,
};
use tor_vpn::segment::{build_tcp_ip_packet, calc_tcp_checksum};

const A: Ipv4Addr = Ipv4Addr { a: 1, b: 2, c: 3, d: 4 };
const B: Ipv4Addr = Ipv4Addr { a: 5, b: 6, c: 7, d: 8 };

#[test]
fn checksum_of_a_known_header() {
    let header = [
        0x45u8, 0x00, 0x00, 0x73, 0x00, 0x00, 0x40, 0x00, 0x40, 0x11, 0x00, 0x00, 0xc0, 0xa8, 0x00,
        0x01, 0xc0, 0xa8, 0x00, 0xc7,
    ];
    assert_eq!(ip_checksum(&header), 0xb861);
}

#[test]
fn checksum_edges() {
    assert_eq!(ip_checksum(&[]), 0xffff);
    assert_eq!(ip_checksum(&[0xab]), !0xab00);
    assert_eq!(finish_checksum(0), 0xffff);
    assert_eq!(finish_checksum(0xffff), 0);
    assert_eq!(finish_checksum(0x1_0000), !1);
    assert_eq!(finish_checksum(0xffff_ffff), 0);
    assert_eq!(finish_checksum(0x1_fffe), 0);
}

#[test]
fn built_ipv4_packet() {
    let src = Ipv4Addr::new(192, 168, 0, 1);
    let dst = Ipv4Addr::new(192, 168, 0, 199);
    let payload = vec![7u8; 95];
    let pkt = build_ipv4_packet(&payload, src, dst, 17, 64, 0);
    assert_eq!(
        &pkt[..20],
        &[
            0x45u8, 0x00, 0x00, 0x73, 0x00, 0x00, 0x40, 0x00, 0x40, 0x11, 0xb8, 0x61, 0xc0, 0xa8,
            0x00, 0x01, 0xc0, 0xa8, 0x00, 0xc7,
        ]
    );
    assert_eq!(&pkt[20..], &payload[..]);
    assert_eq!(ip_checksum(&pkt[..20]), 0);
    let (header, len) = parse_ipv4(&pkt).unwrap();
    assert_eq!(len, 20);
    assert_eq!(header.src_ip, src);
    assert_eq!(header.dst_ip, dst);
    assert_eq!(header.protocol, 17);
    assert_eq!(header.ttl, 64);
    assert_eq!(header.flags_fragment, 0x4000);
    assert_eq!(header.total_length, 115);
    assert_eq!(header.header_checksum, 0xb861);
}

#[test]
fn total_length_keeps_the_low_bits() {
    let payload = vec![0u8; 65520];
    let pkt = build_ipv4_packet(&payload, A, B, 6, 1, 0x1234);
    assert_eq!(pkt.len(), 65540);
    let (header, _) = parse_ipv4(&pkt).unwrap();
    assert_eq!(header.total_length, 4);
    assert_eq!(header.identification, 0x1234);
    assert!(!total_length_covers_header(&pkt));
}

#[test]
fn built_tcp_packet() {
    let pkt = build_tcp_ip_packet(1, 2, 0x18, A, B, 80, 40000, b"abc");
    assert_eq!(
        pkt,
        vec![
            0x45u8, 0x00, 0x00, 0x2b, 0x00, 0x00, 0x00, 0x00, 0x40, 0x06, 0x6a, 0xba, 0x01, 0x02,
            0x03, 0x04, 0x05, 0x06, 0x07, 0x08, 0x00, 0x50, 0x9c, 0x40, 0x00, 0x00, 0x00, 0x01,
            0x00, 0x00, 0x00, 0x02, 0x50, 0x18, 0xff, 0xff, 0x3e, 0xc0, 0x00, 0x00, 0x61, 0x62,
            0x63,
        ]
    );
    assert_eq!(calc_tcp_checksum(&pkt, A, B), 0x3ec0);
    assert!(total_length_covers_header(&pkt));
    let info = classify_packet(&pkt).unwrap();
    assert_eq!(info.ip_header.src_ip, A);
    assert_eq!(info.ip_header.dst_ip, B);
    assert_eq!(info.payload, b"abc".to_vec());
    match info.transport {
        TransportInfo::Tcp(tcp) => {
            assert_eq!(tcp.src_port, 80);
            assert_eq!(tcp.dst_port, 40000);
            assert_eq!(tcp.sequence_number, 1);
            assert_eq!(tcp.acknowledgment_number, 2);
            assert_eq!(tcp.data_offset_reserved_flags, 0x5018);
            assert_eq!(tcp.window_size, 65535);
            assert_eq!(tcp.checksum, 0x3ec0);
            assert_eq!(tcp.urgent_pointer, 0);
        }
        _ => panic!("not TCP"),
    }
}

#[test]
fn tcp_checksum_of_short_segments() {
    let header = [0u8; 20];
    // Nothing but the pseudo header.
    assert_eq!(calc_tcp_checksum(&header, A, B), !(0x0102 + 0x0304 + 0x0506 + 0x0708 + 6));
    // The checksum field does not count.
    let mut pkt = vec![0u8; 38];
    let clear = calc_tcp_checksum(&pkt, A, B);
    pkt[36] = 0xde;
    pkt[37] = 0xad;
    assert_eq!(calc_tcp_checksum(&pkt, A, B), clear);
    pkt[35] = 1;
    assert_eq!(calc_tcp_checksum(&pkt, A, B), clear - 1);
}

#[test]
fn ipv4_header_edges() {
    let mut data = vec![0u8; 24];
    data[0] = 0x46;
    assert_eq!(parse_ipv4(&data).unwrap().1, 24);
    assert!(parse_ipv4(&data[..23]).is_none());
    data[0] = 0x44;
    assert!(parse_ipv4(&data).is_none());
    data[0] = 0x45;
    assert!(parse_ipv4(&data[..19]).is_none());
    assert!(parse_ipv4(&data[..20]).is_some());
    // The version is not looked at.
    data[0] = 0x65;
    assert_eq!(parse_ipv4(&data).unwrap().0.version_ihl, 0x65);
}

#[test]
fn tcp_header_edges() {
    let mut data = vec![0u8; 24];
    data[12] = 0x60;
    assert_eq!(parse_tcp(&data).unwrap().1, 24);
    assert!(parse_tcp(&data[..23]).is_none());
    data[12] = 0x40;
    assert!(parse_tcp(&data).is_none());
    data[12] = 0x5f;
    assert_eq!(parse_tcp(&data[..20]).unwrap().1, 20);
    assert!(parse_tcp(&data[..19]).is_none());
}

#[test]
fn udp_header_edges() {
    let data = [0x12u8, 0x34, 0x56, 0x78, 0x9a, 0xbc, 0xde, 0xf0, 0xff];
    let (udp, len) = parse_udp(&data).unwrap();
    assert_eq!(len, 8);
    assert_eq!(udp.src_port, 0x1234);
    assert_eq!(udp.dst_port, 0x5678);
    assert_eq!(udp.length, 0x9abc);
    assert_eq!(udp.checksum, 0xdef0);
    assert!(parse_udp(&data[..7]).is_none());
}

#[test]
fn classify_stops_at_the_total_length() {
    let mut pkt = build_tcp_ip_packet(1, 2, 0x18, A, B, 80, 40000, b"abc");
    pkt.push(0xee);
    assert_eq!(classify_packet(&pkt).unwrap().payload, b"abc".to_vec());
    // A packet that was cut off ends with the data.
    assert_eq!(classify_packet(&pkt[..42]).unwrap().payload, b"ab".to_vec());
    // A cut TCP header is not a packet.
    assert!(classify_packet(&pkt[..39]).is_none());
    assert!(classify_packet(&pkt[..10]).is_none());
}

#[test]
fn classify_other_protocols() {
    let pkt = build_ipv4_packet(&[8, 0, 1], A, B, 1, 64, 9);
    let info = classify_packet(&pkt).unwrap();
    assert_eq!(info.transport, TransportInfo::Other { protocol: 1 });
    assert_eq!(info.payload, vec![8, 0, 1]);
    let udp = build_ipv4_packet(&[0, 53, 0, 99, 0, 10, 1, 2, 3, 4], A, B, 17, 64, 9);
    let info = classify_packet(&udp).unwrap();
    assert!(matches!(info.transport, TransportInfo::Udp(h) if h.src_port == 53 && h.dst_port == 99));
    assert_eq!(info.payload, vec![3, 4]);
    assert!(classify_packet(&udp[..27]).is_none());
}

#[test]
fn flags() {
    assert!(syn_flag(0x5002) && !syn_flag(0x5010));
    assert!(ack_flag(0x5010) && !ack_flag(0x5002));
    assert!(rst_flag(0x0004) && !rst_flag(0x00fb));
    assert!(fin_flag(0x0001) && !fin_flag(0xfffe));
    assert!(psh_flag(0x0008) && !psh_flag(0x0010));
}
