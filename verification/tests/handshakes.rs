use tor_vpn::addr::Ipv4Addr;
use tor_vpn::socks5::{
    accepts_no_auth, build_connect_request, greeting_bytes, socks5_handshake, start_handshake,
    Handshake, HandshakeError, HandshakeStep, SocketTarget,
};
use tor_vpn::tor_tun::socks5::{
    answer_connect, answer_greeting, answer_request, destination, parse_socks5_addr, socks5_reply,
    target_text, AddressError, GreetingError, RequestError, SocksTarget,
};

const TARGET: SocketTarget =
    SocketTarget::V4 { ip: Ipv4Addr { a: 1, b: 2, c: 3, d: 4 }, port: 0x1234 };

/// Runs a handshake against what a server sends; gives what is left of it.
fn shake(target: &SocketTarget, mut stream: &[u8]) -> Result<Vec<u8>, HandshakeError> {
    let mut step = start_handshake();
    loop {
        match step {
            HandshakeStep::Exchange { state, read, .. } => {
                let (reply, rest) = stream.split_at(read);
                stream = rest;
                step = socks5_handshake(state, target, reply);
            }
            HandshakeStep::Done => return Ok(stream.to_vec()),
            HandshakeStep::Failed { error } => return Err(error),
        }
    }
}

#[test]
fn handshake_succeeds() {
    let v4 = [5, 0, 5, 0, 0, 1, 9, 9, 9, 9, 0, 80, 7, 8];
    assert_eq!(shake(&TARGET, &v4), Ok(vec![7, 8]));
    let mut v6 = vec![5, 0, 5, 0, 0, 4];
    v6.extend_from_slice(&[1; 18]);
    v6.push(3);
    assert_eq!(shake(&TARGET, &v6), Ok(vec![3]));
    let domain = [5, 0, 5, 0, 0, 3, 2, b'h', b'i', 0, 80];
    assert_eq!(shake(&TARGET, &domain), Ok(vec![]));
}

#[test]
fn handshake_fails() {
    assert_eq!(shake(&TARGET, &[5, 0xff]), Err(HandshakeError::NoAuthRejected));
    assert_eq!(shake(&TARGET, &[4, 0]), Err(HandshakeError::NoAuthRejected));
    assert_eq!(
        shake(&TARGET, &[5, 0, 5, 4, 0, 1]),
        Err(HandshakeError::ConnectFailed { code: 4 })
    );
    assert_eq!(
        shake(&TARGET, &[5, 0, 4, 0, 0, 1]),
        Err(HandshakeError::ConnectFailed { code: 0 })
    );
    assert_eq!(
        shake(&TARGET, &[5, 0, 5, 0, 0, 2]),
        Err(HandshakeError::UnknownAddressType { kind: 2 })
    );
}

#[test]
fn handshake_sends() {
    match start_handshake() {
        HandshakeStep::Exchange { state, send, read } => {
            assert_eq!(state, Handshake::Method);
            assert_eq!(send, vec![5, 1, 0]);
            assert_eq!(read, 2);
        }
        other => panic!("{:?}", other),
    }
    match socks5_handshake(Handshake::Method, &TARGET, &[5, 0]) {
        HandshakeStep::Exchange { state, send, read } => {
            assert_eq!(state, Handshake::Reply);
            assert_eq!(send, vec![5, 1, 0, 1, 1, 2, 3, 4, 0x12, 0x34]);
            assert_eq!(read, 4);
        }
        other => panic!("{:?}", other),
    }
    let v6 = SocketTarget::V6 { octets: [7; 16], port: 258 };
    let mut expected = vec![5, 1, 0, 4];
    expected.extend_from_slice(&[7; 16]);
    expected.extend_from_slice(&[1, 2]);
    assert_eq!(build_connect_request(&v6), expected);
}

#[test]
fn no_auth_is_two_bytes() {
    assert!(accepts_no_auth(&[5, 0]));
    assert!(!accepts_no_auth(&[5, 1]));
    assert!(!accepts_no_auth(&[4, 0]));
    assert!(!accepts_no_auth(&[5]));
    assert!(!accepts_no_auth(&[5, 0, 0]));
}

#[test]
fn greetings() {
    assert_eq!(answer_greeting(&[5, 1, 0]), Ok(vec![5, 0]));
    assert_eq!(answer_greeting(&greeting_bytes()), Ok(vec![5, 0]));
    assert_eq!(answer_greeting(&[5, 2, 0, 1, 9]), Ok(vec![5, 0]));
    assert_eq!(answer_greeting(&[5, 0, 0]), Ok(vec![5, 0]));
    assert_eq!(answer_greeting(&[5, 1]), Err(GreetingError::Invalid));
    assert_eq!(answer_greeting(&[4, 1, 0]), Err(GreetingError::Invalid));
    assert_eq!(answer_greeting(&[5, 2, 0]), Err(GreetingError::Truncated));
}

fn address_error(data: &[u8]) -> AddressError {
    match parse_socks5_addr(data) {
        Err(e) => e,
        Ok(t) => panic!("{:?}", t),
    }
}

#[test]
fn addresses() {
    match parse_socks5_addr(&[1, 9, 8, 7, 6, 0, 80, 99]) {
        Ok(SocksTarget::Ip(ip, port)) => {
            assert_eq!(ip, Ipv4Addr::new(9, 8, 7, 6));
            assert_eq!(port, 80);
        }
        other => panic!("{:?}", other),
    }
    let mut named = vec![3, 6];
    named.extend_from_slice("h\u{e9}.io".as_bytes());
    named.extend_from_slice(&[1, 187]);
    match parse_socks5_addr(&named) {
        Ok(SocksTarget::Domain(host, port)) => {
            assert_eq!(host, "h\u{e9}.io");
            assert_eq!(port, 443);
        }
        other => panic!("{:?}", other),
    }
    assert!(matches!(
        parse_socks5_addr(&[3, 0, 0, 1]),
        Ok(SocksTarget::Domain(host, 1)) if host.is_empty()
    ));
}

#[test]
fn address_errors() {
    assert_eq!(address_error(&[]), AddressError::Empty);
    assert_eq!(address_error(&[1, 9, 8, 7, 6, 0]), AddressError::TruncatedIpv4);
    assert_eq!(address_error(&[3]), AddressError::EmptyDomain);
    assert_eq!(address_error(&[3, 2, b'a', b'b', 0]), AddressError::TruncatedDomain);
    assert_eq!(address_error(&[3, 2, 0xff, 0xfe, 0, 1]), AddressError::DomainNotUtf8);
    assert_eq!(address_error(&[4, 0, 0, 0]), AddressError::Ipv6Unsupported);
    assert_eq!(address_error(&[9]), AddressError::UnknownType { kind: 9 });
}

#[test]
fn requests() {
    match answer_request(&build_connect_request(&TARGET)) {
        Ok(target) => {
            assert_eq!(target_text(&target), "1.2.3.4:4660");
            assert_eq!(destination(&target), ("1.2.3.4".to_string(), 4660));
        }
        Err(e) => panic!("{:?}", e),
    }
    let named = [5, 1, 0, 3, 2, b'o', b'k', 0, 80];
    match answer_request(&named) {
        Ok(target) => assert_eq!(target_text(&target), "ok:80"),
        Err(e) => panic!("{:?}", e),
    }
    let unsupported = vec![5, 7, 0, 1, 0, 0, 0, 0, 0, 0];
    for bad in [&[5u8, 2, 0, 1, 1, 1, 1, 1, 0, 80][..], &[4, 1, 0, 1, 1, 1, 1], &[5, 1, 0, 1, 1, 1]]
    {
        match answer_request(bad) {
            Err((e, reply)) => {
                assert_eq!(e, RequestError::UnsupportedCommand);
                assert_eq!(reply, unsupported);
            }
            Ok(t) => panic!("{:?}", t),
        }
    }
    let v6 = SocketTarget::V6 { octets: [7; 16], port: 258 };
    match answer_request(&build_connect_request(&v6)) {
        Err((e, reply)) => {
            assert_eq!(e, RequestError::BadAddress { error: AddressError::Ipv6Unsupported });
            assert_eq!(reply, vec![5, 8, 0, 1, 0, 0, 0, 0, 0, 0]);
        }
        Ok(t) => panic!("{:?}", t),
    }
}

#[test]
fn client_understands_the_server() {
    for (connected, expected) in
        [(true, Ok(vec![42])), (false, Err(HandshakeError::ConnectFailed { code: 4 }))]
    {
        let mut stream = answer_greeting(&greeting_bytes()).unwrap();
        stream.extend_from_slice(&answer_connect(connected));
        stream.push(42);
        assert_eq!(shake(&TARGET, &stream), expected);
    }
    assert_eq!(socks5_reply(1), vec![5, 1, 0, 1, 0, 0, 0, 0, 0, 0]);
}
