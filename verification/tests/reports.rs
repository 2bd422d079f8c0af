use tor_vpn::addr::Ipv4Addr;
use tor_vpn::flow::FlowKey;
use tor_vpn::packet::build_ipv4_packet;
use tor_vpn::segment::build_tcp_ip_packet;
use tor_vpn::tor_tun::packet::{IpHeader, TcpHeader, UdpHeader};
use tor_vpn::tor_tun::tun::{process_packet, Endpoints, PacketReport};

const A: Ipv4Addr = Ipv4Addr { a: 1, b: 2, c: 3, d: 4 };
const B: Ipv4Addr = Ipv4Addr { a: 5, b: 6, c: 7, d: 8 };

#[test]
fn ip_headers() {
    let pkt = build_tcp_ip_packet(1, 2, 0x18, A, B, 80, 40000, b"abc");
    let ip = IpHeader::parse(&pkt).unwrap();
    assert_eq!(
        ip,
        IpHeader {
            version: 4,
            ihl: 20,
            total_length: 43,
            protocol: 6,
            source: A,
            destination: B
        }
    );
    assert_eq!(IpHeader::parse(&pkt[..19]), None);
    let mut odd = pkt.clone();
    odd[0] = 0x65;
    assert_eq!(IpHeader::parse(&odd), None);
    odd[0] = 0x4f;
    assert_eq!(IpHeader::parse(&odd), None);
    // A length under 20 bytes is taken as it is.
    odd[0] = 0x40;
    assert_eq!(IpHeader::parse(&odd).unwrap().ihl, 0);
}

#[test]
fn transport_headers() {
    let pkt = build_tcp_ip_packet(1, 2, 0x18, A, B, 80, 40000, b"abc");
    assert_eq!(
        TcpHeader::parse(&pkt, 20),
        Some(TcpHeader { source_port: 80, dest_port: 40000, flags: 0x18, data_offset: 20 })
    );
    assert_eq!(TcpHeader::parse(&pkt, 24), None);
    let mut long = pkt.clone();
    long[32] = 0x60;
    assert_eq!(TcpHeader::parse(&long, 20), None);
    assert_eq!(
        UdpHeader::parse(&pkt, 20),
        Some(UdpHeader { source_port: 80, dest_port: 40000, length: 0 })
    );
    assert_eq!(UdpHeader::parse(&pkt, 36), None);
    assert!(UdpHeader::parse(&pkt, 35).is_some());
}

#[test]
fn packet_reports() {
    let mut warned = false;
    let between =
        Endpoints { source: A, source_port: 80, destination: B, dest_port: 40000 };
    let tcp = build_tcp_ip_packet(1, 2, 0x18, A, B, 80, 40000, b"abc");
    assert_eq!(process_packet(&tcp, &mut warned), PacketReport::Tcp { between });
    assert_eq!(process_packet(&tcp[..39], &mut warned), PacketReport::Silent);
    assert_eq!(process_packet(&tcp[..3], &mut warned), PacketReport::NoIpHeader);
    let icmp = build_ipv4_packet(&[8], A, B, 1, 64, 0);
    assert_eq!(process_packet(&icmp, &mut warned), PacketReport::Other { protocol: 1 });
    assert!(!warned);
    let udp = build_ipv4_packet(&[0, 80, 0x9c, 0x40, 0, 8, 0, 0], A, B, 17, 64, 0);
    assert_eq!(process_packet(&udp[..27], &mut warned), PacketReport::Silent);
    assert!(!warned);
    assert_eq!(process_packet(&udp, &mut warned), PacketReport::UdpDropped { between });
    assert!(warned);
    assert_eq!(process_packet(&udp, &mut warned), PacketReport::Silent);
    assert!(warned);
}

#[test]
fn addresses_and_flow_keys() {
    assert_eq!(A.to_bits(), 0x01020304);
    assert_eq!(Ipv4Addr::from_bits(0x05060708), B);
    let key = FlowKey::from_parts(A, 0x1122, B, 0x3344);
    assert_eq!(key.src_ip, 0x01020304);
    assert_eq!(key.dst_ip, 0x05060708);
    assert_eq!(FlowKey::unpack(key.pack()), key);
    let back = FlowKey::from_parts(B, 0x3344, A, 0x1122);
    assert_ne!(key.pack(), back.pack());
}
