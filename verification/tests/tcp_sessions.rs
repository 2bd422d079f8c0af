use tor_vpn::addr::Ipv4Addr;
use tor_vpn::engine::{dispatch, end_round, Dispatch, Pause};
use tor_vpn::flow::FlowKey;
use tor_vpn::packet::{build_ipv4_packet, classify_packet, PacketInfo, TcpHeader, TransportInfo};
use tor_vpn::relay::{
    relay_start, relay_step, Relay, RelayAction, RelayEvent, RelayState,
};
use tor_vpn::segment::build_tcp_ip_packet;
use tor_vpn::session::{advance_seq, RelayStart};
use tor_vpn::tcp::TcpProxy;
use tor_vpn::udp::{UdpAction, UdpForwarder};

const CLIENT: Ipv4Addr = Ipv4Addr { a: 10, b: 0, c: 0, d: 7 };
const SERVER: Ipv4Addr = Ipv4Addr { a: 93, b: 184, c: 216, d: 34 };
const TUN: Ipv4Addr = Ipv4Addr { a: 10, b: 0, c: 0, d: 1 };
const TOR: Ipv4Addr = Ipv4Addr { a: 10, b: 0, c: 0, d: 2 };

const SYN: u8 = 0x02;
const ACK: u8 = 0x10;
const PSH: u8 = 0x08;
const FIN: u8 = 0x01;
const RST: u8 = 0x04;

fn proxy() -> TcpProxy {
    TcpProxy::new(7, "127.0.0.1".to_string(), 9050, TOR, TUN)
}

fn segment(seq: u32, flags: u8, payload: &[u8]) -> Vec<u8> {
    build_tcp_ip_packet(seq, 0, flags, CLIENT, SERVER, 4000, 443, payload)
}

fn tcp_of(packet: &[u8]) -> (PacketInfo, TcpHeader) {
    let info = classify_packet(packet).unwrap();
    match info.transport {
        TransportInfo::Tcp(tcp) => (info, tcp),
        _ => panic!("not TCP"),
    }
}

fn opened(p: &mut TcpProxy) -> (RelayStart, u32) {
    let start = p.handle_packet(&segment(100, SYN, b"")).unwrap();
    let out = p.process_responses();
    assert_eq!(out.packets.len(), 1);
    let (info, tcp) = tcp_of(&out.packets[0]);
    assert_eq!(info.ip_header.src_ip, SERVER);
    assert_eq!(info.ip_header.dst_ip, CLIENT);
    assert_eq!((tcp.src_port, tcp.dst_port), (443, 4000));
    assert_eq!(tcp.acknowledgment_number, 101);
    assert_eq!(tcp.data_offset_reserved_flags, 0x5012);
    assert!(out.closed.is_empty());
    (start, tcp.sequence_number)
}

#[test]
fn syn_opens_one_session() {
    let mut p = proxy();
    assert_eq!(p.session_count(), 0);
    let start = p.handle_packet(&segment(100, SYN, b"")).unwrap();
    assert_eq!(p.session_count(), 1);
    let key = FlowKey::from_parts(CLIENT, 4000, SERVER, 443);
    assert!(p.has_session(&key));
    assert_eq!(start.key, key);
    assert_eq!(start.target_ip, SERVER);
    assert_eq!(start.target_port, 443);
    assert_eq!(start.socks_host, "127.0.0.1");
    assert_eq!(start.socks_port, 9050);
    assert_eq!(start.if_index, 7);
    // The SYN again starts nothing.
    assert!(p.handle_packet(&segment(100, SYN, b"")).is_none());
    assert_eq!(p.session_count(), 1);
    // Another port is another flow.
    let other = build_tcp_ip_packet(5, 0, SYN, CLIENT, SERVER, 4001, 443, b"");
    assert!(p.handle_packet(&other).is_some());
    assert_eq!(p.session_count(), 2);
}

#[test]
fn initial_sequence_numbers_are_drawn() {
    let mut seen = Vec::new();
    for _ in 0..8 {
        let mut p = proxy();
        let (_start, isn) = opened(&mut p);
        seen.push(isn);
    }
    seen.sort();
    seen.dedup();
    assert!(seen.len() > 1);
}

#[test]
fn session_opens_at_a_given_number() {
    let mut p = proxy();
    let (info, tcp) = tcp_of(&segment(0xffff_ffff, SYN, b""));
    let key = FlowKey::from_parts(CLIENT, 4000, SERVER, 443);
    let _start = p.open_session(&key, &info, &tcp, 0x0102_0304);
    let out = p.process_responses();
    let expected = build_tcp_ip_packet(0x0102_0304, 0, SYN | ACK, SERVER, CLIENT, 443, 4000, b"");
    assert_eq!(out.packets, vec![expected]);
}

#[test]
fn packets_that_are_left_alone() {
    let mut p = proxy();
    let loopback = Ipv4Addr::new(127, 0, 0, 1);
    for (src, dst) in [
        (CLIENT, TUN),
        (TUN, SERVER),
        (loopback, SERVER),
        (CLIENT, loopback),
        (TOR, SERVER),
    ] {
        let syn = build_tcp_ip_packet(1, 0, SYN, src, dst, 1, 2, b"");
        assert!(p.handle_packet(&syn).is_none());
    }
    // Not TCP, not whole, and no session.
    assert!(p.handle_packet(&build_ipv4_packet(&[0; 8], CLIENT, SERVER, 17, 64, 0)).is_none());
    assert!(p.handle_packet(&[1, 2, 3]).is_none());
    assert!(p.handle_packet(&segment(1, ACK | PSH, b"data")).is_none());
    assert!(p.handle_packet(&segment(1, SYN | ACK, b"")).is_none());
    assert_eq!(p.session_count(), 0);
    assert!(p.process_responses().packets.is_empty());
}

#[test]
fn client_data_reaches_the_relay_in_order() {
    let mut p = proxy();
    let (start, _) = opened(&mut p);
    p.handle_packet(&segment(101, ACK | PSH, b"one"));
    p.handle_packet(&segment(104, ACK, b""));
    p.handle_packet(&segment(104, ACK | PSH, b"two"));
    let mut relay = Relay::new(start.ends);
    match relay.start() {
        RelayAction::Write { data, flush } => {
            assert_eq!(data, b"one".to_vec());
            assert!(flush);
        }
        other => panic!("{:?}", other),
    }
    match relay.advance(RelayEvent::Written { ok: true }) {
        RelayAction::Write { data, flush } => {
            assert_eq!(data, b"two".to_vec());
            assert!(flush);
        }
        other => panic!("{:?}", other),
    }
    assert!(matches!(relay.advance(RelayEvent::Written { ok: true }), RelayAction::Read));
}

#[test]
fn server_data_reaches_the_client_in_order() {
    let mut p = proxy();
    let (start, isn) = opened(&mut p);
    p.handle_packet(&segment(101, ACK | PSH, b"hello"));
    let mut relay = Relay::new(start.ends);
    assert!(matches!(relay.start(), RelayAction::Write { .. }));
    assert!(matches!(relay.advance(RelayEvent::Written { ok: true }), RelayAction::Read));
    assert!(matches!(
        relay.advance(RelayEvent::Received { bytes: b"abc".to_vec() }),
        RelayAction::Read
    ));
    assert!(matches!(
        relay.advance(RelayEvent::Received { bytes: b"de".to_vec() }),
        RelayAction::Read
    ));
    assert!(matches!(relay.advance(RelayEvent::ReadIdle), RelayAction::Read));

    let out = p.process_responses();
    let seq = isn.wrapping_add(1);
    let reply = |seq: u32, flags: u8, payload: &[u8]| {
        build_tcp_ip_packet(seq, 106, flags, SERVER, CLIENT, 443, 4000, payload)
    };
    assert_eq!(
        out.packets,
        vec![
            reply(seq, PSH | ACK, b"abc"),
            reply(seq.wrapping_add(3), PSH | ACK, b"de"),
            reply(seq.wrapping_add(5), ACK, b""),
        ]
    );
    // Nothing waits any longer.
    assert!(p.process_responses().packets.is_empty());
    // The next data goes on where the last ended.
    relay.advance(RelayEvent::Received { bytes: b"f".to_vec() });
    let out = p.process_responses();
    assert_eq!(out.packets[0], reply(seq.wrapping_add(5), PSH | ACK, b"f"));
    assert_eq!(out.packets[1], reply(seq.wrapping_add(6), ACK, b""));
}

#[test]
fn fin_is_answered_and_closes() {
    let mut p = proxy();
    let (start, isn) = opened(&mut p);
    p.handle_packet(&segment(101, ACK | PSH, b"bye"));
    p.handle_packet(&segment(104, FIN | ACK, b"ignored"));
    let out = p.process_responses();
    assert_eq!(
        out.packets,
        vec![build_tcp_ip_packet(
            isn.wrapping_add(1),
            104,
            FIN | ACK,
            SERVER,
            CLIENT,
            443,
            4000,
            b""
        )]
    );
    assert_eq!(out.closed.len(), 1);
    assert_eq!(out.closed[0].key, start.key);
    assert!(out.closed[0].session.closing());
    assert_eq!(p.session_count(), 0);
    // The relay is told to stop, and writes out what is left.
    let mut relay = Relay::new(start.ends);
    match relay.start() {
        RelayAction::Write { data, flush } => {
            assert_eq!(data, b"bye".to_vec());
            assert!(!flush);
        }
        other => panic!("{:?}", other),
    }
    assert!(matches!(relay.advance(RelayEvent::Written { ok: false }), RelayAction::Stop));
}

#[test]
fn rst_closes_without_an_answer() {
    let mut p = proxy();
    let (start, _) = opened(&mut p);
    p.handle_packet(&segment(101, RST | FIN, b""));
    assert_eq!(p.session_count(), 1);
    let out = p.process_responses();
    assert!(out.packets.is_empty());
    assert_eq!(out.closed.len(), 1);
    assert_eq!(p.session_count(), 0);
    let mut relay = Relay::new(start.ends);
    assert!(matches!(relay.start(), RelayAction::Stop));
}

#[test]
fn client_data_beyond_the_capacity_is_dropped() {
    let mut p = proxy();
    let (start, _) = opened(&mut p);
    for i in 0..300u32 {
        p.handle_packet(&segment(101 + i, ACK, &[i as u8]));
    }
    let mut relay = Relay::new(start.ends);
    let mut got = Vec::new();
    let mut action = relay.start();
    while let RelayAction::Write { data, .. } = action {
        got.push(data);
        action = relay.advance(RelayEvent::Written { ok: true });
    }
    assert_eq!(got.len(), 256);
    assert!(got.iter().enumerate().all(|(i, d)| *d == vec![i as u8]));
}

#[test]
fn relay_stops_when_the_session_is_gone() {
    let mut p = proxy();
    let (start, _) = opened(&mut p);
    let mut relay = Relay::new(start.ends);
    assert!(matches!(relay.start(), RelayAction::Read));
    drop(p);
    assert!(matches!(
        relay.advance(RelayEvent::Received { bytes: vec![1] }),
        RelayAction::Stop
    ));
}

#[test]
fn relay_steps() {
    assert_eq!(relay_start().0, RelayState::CheckingClose);
    let step = |s, e| {
        let (state, action) = relay_step(s, e);
        (state, format!("{:?}", action))
    };
    assert_eq!(
        step(RelayState::CheckingClose, RelayEvent::CloseChecked { signalled: true }).0,
        RelayState::Draining
    );
    assert_eq!(
        step(RelayState::CheckingClose, RelayEvent::CloseChecked { signalled: false }).0,
        RelayState::TakingData
    );
    assert_eq!(
        step(RelayState::Writing, RelayEvent::Written { ok: false }).0,
        RelayState::Stopped
    );
    assert_eq!(
        step(RelayState::Draining, RelayEvent::DataTaken { data: None }),
        (RelayState::Stopped, "Stop".to_string())
    );
    assert_eq!(
        step(RelayState::DrainWriting, RelayEvent::Written { ok: false }),
        (RelayState::Draining, "TakeData".to_string())
    );
    assert_eq!(
        step(RelayState::Reading, RelayEvent::Received { bytes: vec![] }).0,
        RelayState::Stopped
    );
    assert_eq!(step(RelayState::Reading, RelayEvent::ReadFailed).0, RelayState::Stopped);
    assert_eq!(step(RelayState::Reading, RelayEvent::ReadIdle).0, RelayState::CheckingClose);
    assert_eq!(
        step(RelayState::Handing, RelayEvent::Handed { ok: false }).0,
        RelayState::Stopped
    );
}

#[test]
fn sequence_numbers_wrap() {
    assert_eq!(advance_seq(0xffff_fffe, 5), 3);
    assert_eq!(advance_seq(7, 0), 7);
}

#[test]
fn dispatch_by_protocol() {
    let mut tcp = proxy();
    let udp = UdpForwarder::new(7);
    let d = dispatch(&mut tcp, &udp, &[0u8; 5], TUN, TOR);
    assert!(matches!(d, Dispatch::Dropped));
    let datagram =
        build_ipv4_packet(&[0, 9, 0, 53, 0, 9, 0, 0, 42], CLIENT, SERVER, 17, 64, 0);
    match dispatch(&mut tcp, &udp, &datagram, TUN, TOR) {
        Dispatch::Udp { action: UdpAction::Open { flow, payload } } => {
            assert_eq!(flow.client_ip, CLIENT);
            assert_eq!(flow.client_port, 9);
            assert_eq!(flow.dest_ip, SERVER);
            assert_eq!(flow.dest_port, 53);
            assert_eq!(payload, vec![42]);
        }
        _ => panic!("not forwarded"),
    }
    assert_eq!(tcp.session_count(), 0);
    assert!(matches!(
        dispatch(&mut tcp, &udp, &segment(1, SYN, b""), TUN, TOR),
        Dispatch::Tcp { relay: Some(_) }
    ));
    let icmp = build_ipv4_packet(&[8, 0], CLIENT, SERVER, 1, 64, 0);
    assert!(matches!(
        dispatch(&mut tcp, &udp, &icmp, TUN, TOR),
        Dispatch::Tcp { relay: None }
    ));
    assert_eq!(tcp.session_count(), 1);
}

#[test]
fn rounds() {
    let r = end_round(0);
    assert_eq!((r.tick, r.log, r.show, r.pause), (1, false, false, Pause::Sleep));
    let r = end_round(9);
    assert_eq!((r.tick, r.log, r.show, r.pause), (10, false, false, Pause::UntilInterrupt));
    let r = end_round(39);
    assert_eq!((r.log, r.show), (false, true));
    let r = end_round(199);
    assert_eq!((r.tick, r.log, r.show, r.pause), (200, true, true, Pause::UntilInterrupt));
}

#[test]
fn one_poll_takes_all_that_is_ready() {
    let mut p = proxy();
    let (start, _) = opened(&mut p);
    let mut relay = Relay::new(start.ends);
    assert!(matches!(relay.start(), RelayAction::Read));
    for i in 0..5u8 {
        relay.advance(RelayEvent::Received { bytes: vec![i] });
    }
    let out = p.process_responses();
    assert_eq!(out.packets.len(), 6);
    for i in 0..5u8 {
        assert_eq!(tcp_of(&out.packets[i as usize]).0.payload, vec![i]);
    }
}

#[test]
fn a_running_relay_is_stopped_by_its_own_session() {
    let mut p = proxy();
    let (start, _) = opened(&mut p);
    let other = build_tcp_ip_packet(5, 0, SYN, CLIENT, SERVER, 4001, 443, b"");
    let other_start = p.handle_packet(&other).unwrap();
    let mut relay = Relay::new(start.ends);
    let mut other_relay = Relay::new(other_start.ends);
    assert!(matches!(relay.start(), RelayAction::Read));
    assert!(matches!(other_relay.start(), RelayAction::Read));
    p.handle_packet(&segment(101, ACK, b"last"));
    p.handle_packet(&segment(105, FIN | ACK, b""));
    assert_eq!(p.process_responses().closed.len(), 1);
    match relay.advance(RelayEvent::ReadIdle) {
        RelayAction::Write { data, flush } => {
            assert_eq!(data, b"last".to_vec());
            assert!(!flush);
        }
        action => panic!("{:?}", action),
    }
    assert!(matches!(relay.advance(RelayEvent::Written { ok: true }), RelayAction::Stop));
    assert!(matches!(other_relay.advance(RelayEvent::ReadIdle), RelayAction::Read));
}
