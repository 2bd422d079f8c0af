use tor_vpn::addr::Ipv4Addr;
use tor_vpn::packet::{build_ipv4_packet, classify_packet, parse_ipv4, TransportInfo};
use tor_vpn::udp::{
    build_udp_response, socket_step, Arrival, SocketEvent, SocketStep, UdpAction, UdpFlow,
    UdpForwarder, UDP_TIMEOUT,
};

const CLIENT: Ipv4Addr = Ipv4Addr { a: 10, b: 0, c: 0, d: 7 };
const SERVER: Ipv4Addr = Ipv4Addr { a: 8, b: 8, c: 8, d: 8 };
const TUN: Ipv4Addr = Ipv4Addr { a: 10, b: 0, c: 0, d: 1 };
const TOR: Ipv4Addr = Ipv4Addr { a: 10, b: 0, c: 0, d: 2 };

const FLOW: UdpFlow =
    UdpFlow { client_ip: CLIENT, client_port: 5000, dest_ip: SERVER, dest_port: 53 };

fn datagram(src: Ipv4Addr, dst: Ipv4Addr, payload: &[u8]) -> Vec<u8> {
    let mut body = vec![0x13, 0x88, 0, 53, 0, 8 + payload.len() as u8, 0, 0];
    body.extend_from_slice(payload);
    build_ipv4_packet(&body, src, dst, 17, 64, 1)
}

#[test]
fn a_flow_keeps_its_socket() {
    let mut f = UdpForwarder::new(3);
    assert_eq!(f.if_index(), 3);
    assert_eq!(f.entry_count(), 0);
    let (flow, payload) = match f.handle_packet(&datagram(CLIENT, SERVER, b"q"), TUN, TOR) {
        UdpAction::Open { flow, payload } => (flow, payload),
        other => panic!("{:?}", other),
    };
    assert_eq!(flow, FLOW);
    assert_eq!(payload, b"q".to_vec());
    match f.finish_forward(flow, payload, Some(61000), 5) {
        UdpAction::Send { nat_port, flow, payload } => {
            assert_eq!(nat_port, 61000);
            assert_eq!(flow, FLOW);
            assert_eq!(payload, b"q".to_vec());
        }
        other => panic!("{:?}", other),
    }
    assert_eq!(f.entry_count(), 1);
    match f.handle_packet(&datagram(CLIENT, SERVER, b"r"), TUN, TOR) {
        UdpAction::Send { nat_port, payload, .. } => {
            assert_eq!(nat_port, 61000);
            assert_eq!(payload, b"r".to_vec());
        }
        other => panic!("{:?}", other),
    }
    assert_eq!(f.find_nat(&FLOW), Some(61000));
    let other = UdpFlow { client_port: 5001, ..FLOW };
    assert_eq!(f.find_nat(&other), None);
    assert!(matches!(f.forward(other, vec![]), UdpAction::Open { .. }));
}

#[test]
fn a_failed_socket_drops_the_datagram() {
    let mut f = UdpForwarder::new(3);
    assert!(matches!(f.finish_forward(FLOW, vec![1], None, 0), UdpAction::Ignore));
    assert_eq!(f.entry_count(), 0);
}

#[test]
fn datagrams_that_are_left_alone() {
    let f = UdpForwarder::new(3);
    let loopback = Ipv4Addr::new(127, 9, 9, 9);
    for (src, dst) in [
        (loopback, SERVER),
        (CLIENT, loopback),
        (TUN, SERVER),
        (CLIENT, TUN),
        (TOR, SERVER),
    ] {
        assert!(matches!(
            f.handle_packet(&datagram(src, dst, b"x"), TUN, TOR),
            UdpAction::Ignore
        ));
    }
    let tcp = build_ipv4_packet(&[0x50; 20], CLIENT, SERVER, 6, 64, 0);
    assert!(matches!(f.handle_packet(&tcp, TUN, TOR), UdpAction::Ignore));
    assert!(matches!(f.handle_packet(&[], TUN, TOR), UdpAction::Ignore));
}

#[test]
fn the_response_goes_back_to_the_client() {
    let data = [1u8, 2, 3, 4, 5, 6, 7, 8, 9, 10];
    let pkt = build_udp_response(&FLOW, &data, 0xbeef);
    let info = classify_packet(&pkt).unwrap();
    assert_eq!(info.ip_header.src_ip, SERVER);
    assert_eq!(info.ip_header.dst_ip, CLIENT);
    assert_eq!(info.ip_header.identification, 0xbeef);
    match info.transport {
        TransportInfo::Udp(udp) => {
            assert_eq!(udp.src_port, 53);
            assert_eq!(udp.dst_port, 5000);
            assert_eq!(udp.length, 0x0506);
            assert_eq!(udp.checksum, 0);
        }
        _ => panic!("not UDP"),
    }
    assert_eq!(info.payload, vec![9, 10]);
    // Fewer than eight bytes stay as they are.
    let short = build_udp_response(&FLOW, &data[..7], 1);
    assert_eq!(&short[20..], &data[..7]);
    assert!(classify_packet(&short).is_none());
}

#[test]
fn responses_of_a_poll() {
    let mut f = UdpForwarder::new(3);
    let second = UdpFlow { client_port: 5001, ..FLOW };
    f.finish_forward(FLOW, vec![], Some(100), 0);
    f.finish_forward(second, vec![], Some(200), 1);
    let arrivals = vec![
        Arrival { nat_port: 200, data: vec![0; 9] },
        Arrival { nat_port: 100, data: vec![1; 8] },
        Arrival { nat_port: 300, data: vec![2; 8] },
    ];
    let mut live = f.live_ports(UDP_TIMEOUT);
    live.sort();
    assert_eq!(live, vec![100, 200]);
    let out = f.poll_responses(UDP_TIMEOUT, &arrivals);
    assert_eq!(out.len(), 2);
    let ports: Vec<u16> = out
        .iter()
        .map(|p| match classify_packet(p).unwrap().transport {
            TransportInfo::Udp(u) => u.dst_port,
            _ => panic!("not UDP"),
        })
        .collect();
    assert_eq!(ports, vec![5001, 5000]);
    assert_eq!(f.entry_count(), 2);
    // One nanosecond later the first entry is gone, with what came in for it.
    assert_eq!(f.live_ports(UDP_TIMEOUT + 1), vec![200]);
    let out = f.poll_responses(UDP_TIMEOUT + 1, &arrivals);
    assert_eq!(out.len(), 1);
    assert_eq!(f.entry_count(), 1);
    assert_eq!(f.find_nat(&FLOW), None);
    assert_eq!(f.find_nat(&second), Some(200));
}

#[test]
fn identifications_are_drawn() {
    let mut f = UdpForwarder::new(3);
    f.finish_forward(FLOW, vec![], Some(100), 0);
    let arrivals: Vec<Arrival> =
        (0..16).map(|_| Arrival { nat_port: 100, data: vec![0; 8] }).collect();
    let mut ids: Vec<u16> = f
        .poll_responses(1, &arrivals)
        .iter()
        .map(|p| parse_ipv4(p).unwrap().0.identification)
        .collect();
    ids.sort();
    ids.dedup();
    assert!(ids.len() > 1);
}

#[test]
fn cleanup_gives_up_what_is_as_old_as_the_timeout() {
    let mut f = UdpForwarder::new(3);
    f.finish_forward(FLOW, vec![], Some(100), 10);
    f.cleanup(UDP_TIMEOUT + 9);
    assert_eq!(f.entry_count(), 1);
    f.poll_responses(UDP_TIMEOUT + 10, &vec![]);
    assert_eq!(f.entry_count(), 1);
    f.cleanup(UDP_TIMEOUT + 10);
    assert_eq!(f.entry_count(), 0);
    // A clock that goes back makes nothing old.
    f.finish_forward(FLOW, vec![], Some(100), 10);
    f.cleanup(0);
    assert_eq!(f.entry_count(), 1);
}

#[test]
fn a_port_that_is_used_again_replaces_its_entry() {
    let mut f = UdpForwarder::new(3);
    let second = UdpFlow { dest_port: 54, ..FLOW };
    f.finish_forward(FLOW, vec![], Some(100), 0);
    f.finish_forward(second, vec![], Some(100), 0);
    assert_eq!(f.entry_count(), 1);
    assert_eq!(f.find_nat(&FLOW), None);
    assert_eq!(f.find_nat(&second), Some(100));
}

#[test]
fn emptying_a_socket() {
    assert_eq!(socket_step(SocketEvent::Peeked(12)), SocketStep::Receive(12));
    assert_eq!(socket_step(SocketEvent::PeekFailed), SocketStep::Leave);
    assert_eq!(socket_step(SocketEvent::ReceivedV4), SocketStep::Keep);
    assert_eq!(socket_step(SocketEvent::ReceivedOther), SocketStep::Skip);
    assert_eq!(socket_step(SocketEvent::ReceiveFailed), SocketStep::Leave);
}
