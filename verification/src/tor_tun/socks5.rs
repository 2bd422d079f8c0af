//! The server side of a SOCKS5 conversation. The caller reads, connects and
//! writes; each function here says what to make of what was read.
use vstd::prelude::*;
use vstd::slice::{slice_subrange, slice_to_vec};
use vstd::utf8::{decode_utf8, valid_utf8};

use crate::addr::Ipv4Addr;
use crate::bytes::{be16, lemma_be16_inverse, u16_from_be};
use crate::socks5::{
    connect_request, greeting, outcome, Handshake, HandshakeEnd, HandshakeError, SocketTarget,
    StepView,
};
use crate::text::{dotted, dotted_string, host_port, host_port_string};

verus! {

/// Where a client wants to be connected to.
#[derive(Debug)]
pub enum SocksTarget {
    Domain(String, u16),
    Ip(Ipv4Addr, u16),
}

/// What a `SocksTarget` says.
pub enum TargetView {
    Domain(Seq<char>, u16),
    Ip(Ipv4Addr, u16),
}

impl View for SocksTarget {
    type V = TargetView;

    open spec fn view(&self) -> TargetView {
        match *self {
            SocksTarget::Domain(host, port) => TargetView::Domain(host@, port),
            SocksTarget::Ip(ip, port) => TargetView::Ip(ip, port),
        }
    }
}

/// What is wrong with an address.
#[derive(Debug, Clone, Copy, PartialEq, Eq, Structural)]
pub enum AddressError {
    Empty,
    TruncatedIpv4,
    EmptyDomain,
    TruncatedDomain,
    DomainNotUtf8,
    Ipv6Unsupported,
    UnknownType { kind: u8 },
}

/// The target that an address field names: a type, an address and a port. What
/// follows the port is ignored.
pub open spec fn target_of(d: Seq<u8>) -> Result<TargetView, AddressError> {
    if d.len() == 0 {
        Err(AddressError::Empty)
    } else if d[0] == 1 {
        if d.len() < 7 {
            Err(AddressError::TruncatedIpv4)
        } else {
            Ok(
                TargetView::Ip(
                    Ipv4Addr { a: d[1], b: d[2], c: d[3], d: d[4] },
                    be16(d[5], d[6]),
                ),
            )
        }
    } else if d[0] == 3 {
        if d.len() < 2 {
            Err(AddressError::EmptyDomain)
        } else if d.len() < d[1] + 4 {
            Err(AddressError::TruncatedDomain)
        } else if !valid_utf8(d.subrange(2, d[1] + 2)) {
            Err(AddressError::DomainNotUtf8)
        } else {
            Ok(
                TargetView::Domain(
                    decode_utf8(d.subrange(2, d[1] + 2)),
                    be16(d[d[1] + 2], d[d[1] + 3]),
                ),
            )
        }
    } else if d[0] == 4 {
        Err(AddressError::Ipv6Unsupported)
    } else {
        Err(AddressError::UnknownType { kind: d[0] })
    }
}

/// Reads the target that an address field names.
pub fn parse_socks5_addr(data: &[u8]) -> (r: Result<SocksTarget, AddressError>)
    ensures
        match r {
            Ok(t) => target_of(data@) == Ok::<TargetView, AddressError>(t@),
            Err(e) => target_of(data@) == Err::<TargetView, AddressError>(e),
        },
{
    if data.len() == 0 {
        return Err(AddressError::Empty);
    }
    let atyp: u8 = data[0];
    if atyp == 1 {
        if data.len() < 7 {
            return Err(AddressError::TruncatedIpv4);
        }
        let ip = Ipv4Addr::new(data[1], data[2], data[3], data[4]);
        let port: u16 = u16_from_be(data[5], data[6]);
        Ok(SocksTarget::Ip(ip, port))
    } else if atyp == 3 {
        if data.len() < 2 {
            return Err(AddressError::EmptyDomain);
        }
        let len: usize = data[1] as usize;
        if data.len() < len + 4 {
            return Err(AddressError::TruncatedDomain);
        }
        let port: u16 = u16_from_be(data[len + 2], data[len + 3]);
        match String::from_utf8(slice_to_vec(slice_subrange(data, 2, len + 2))) {
            Ok(domain) => Ok(SocksTarget::Domain(domain, port)),
            Err(_) => Err(AddressError::DomainNotUtf8),
        }
    } else if atyp == 4 {
        Err(AddressError::Ipv6Unsupported)
    } else {
        Err(AddressError::UnknownType { kind: atyp })
    }
}

/// The host that a target names, as text.
pub open spec fn host_text(target: TargetView) -> Seq<char> {
    match target {
        TargetView::Domain(host, _) => host,
        TargetView::Ip(ip, _) => dotted(ip),
    }
}

/// The port that a target names.
pub open spec fn port_of(target: TargetView) -> u16 {
    match target {
        TargetView::Domain(_, port) => port,
        TargetView::Ip(_, port) => port,
    }
}

/// The host and the port that the Tor client connects to.
pub fn destination(target: &SocksTarget) -> (r: (String, u16))
    ensures
        r.0@ == host_text(target@),
        r.1 == port_of(target@),
{
    match target {
        SocksTarget::Domain(host, port) => (host.clone(), *port),
        SocksTarget::Ip(ip, port) => (dotted_string(*ip), *port),
    }
}

/// A target as text: the host, a colon and the port.
pub fn target_text(target: &SocksTarget) -> (r: String)
    ensures
        r@ == host_port(host_text(target@), port_of(target@)),
{
    let (host, port) = destination(target);
    host_port_string(host.as_str(), port)
}

/// A reply to CONNECT with the code `code` and no bound address.
pub open spec fn reply_of(code: u8) -> Seq<u8> {
    seq![5u8, code, 0u8, 1u8, 0u8, 0u8, 0u8, 0u8, 0u8, 0u8]
}

/// The reply to CONNECT with the code `code`, where 0 stands for success.
pub fn socks5_reply(code: u8) -> (r: Vec<u8>)
    ensures
        r@ == reply_of(code),
{
    let v: Vec<u8> = vec![5u8, code, 0u8, 1u8, 0u8, 0u8, 0u8, 0u8, 0u8, 0u8];
    assert(v@ =~= reply_of(code));
    v
}

/// What is wrong with a greeting.
#[derive(Debug, Clone, Copy, PartialEq, Eq, Structural)]
pub enum GreetingError {
    Invalid,
    Truncated,
}

/// What is wrong with a greeting, if anything is.
pub open spec fn greeting_error(d: Seq<u8>) -> Option<GreetingError> {
    if d.len() < 3 || d[0] != 5 {
        Some(GreetingError::Invalid)
    } else if d.len() < d[1] + 2 {
        Some(GreetingError::Truncated)
    } else {
        None
    }
}

/// What to write when `data` was read as a greeting: the choice of no
/// authentication, whatever methods the client offers. After an error the
/// connection is closed without a word.
pub fn answer_greeting(data: &[u8]) -> (r: Result<Vec<u8>, GreetingError>)
    ensures
        match r {
            Ok(reply) => greeting_error(data@) is None && reply@ == seq![5u8, 0u8],
            Err(e) => greeting_error(data@) == Some(e),
        },
{
    if data.len() < 3 || data[0] != 5 {
        return Err(GreetingError::Invalid);
    }
    if data.len() < data[1] as usize + 2 {
        return Err(GreetingError::Truncated);
    }
    let v: Vec<u8> = vec![5u8, 0u8];
    assert(v@ =~= seq![5u8, 0u8]);
    Ok(v)
}

/// What is wrong with a request.
#[derive(Debug, Clone, Copy, PartialEq, Eq, Structural)]
pub enum RequestError {
    UnsupportedCommand,
    BadAddress { error: AddressError },
}

/// The target that a request names.
pub open spec fn request_of(d: Seq<u8>) -> Result<TargetView, RequestError> {
    if d.len() < 7 || d[0] != 5 || d[1] != 1 {
        Err(RequestError::UnsupportedCommand)
    } else {
        match target_of(d.skip(3)) {
            Ok(t) => Ok(t),
            Err(error) => Err(RequestError::BadAddress { error }),
        }
    }
}

/// The code with which a request is refused.
pub open spec fn refusal_code(error: RequestError) -> u8 {
    match error {
        RequestError::UnsupportedCommand => 7,
        RequestError::BadAddress { .. } => 8,
    }
}

/// The target that a request names, or what is wrong and the reply to write before
/// the connection is closed.
pub fn answer_request(data: &[u8]) -> (r: Result<SocksTarget, (RequestError, Vec<u8>)>)
    ensures
        match r {
            Ok(t) => request_of(data@) == Ok::<TargetView, RequestError>(t@),
            Err((e, reply)) => request_of(data@) == Err::<TargetView, RequestError>(e) && reply@
                == reply_of(refusal_code(e)),
        },
{
    if data.len() < 7 || data[0] != 5 || data[1] != 1 {
        return Err((RequestError::UnsupportedCommand, socks5_reply(7)));
    }
    assert(data@.subrange(3, data@.len() as int) =~= data@.skip(3));
    match parse_socks5_addr(slice_subrange(data, 3, data.len())) {
        Ok(target) => Ok(target),
        Err(error) => Err((RequestError::BadAddress { error }, socks5_reply(8))),
    }
}

/// The code of the reply when Tor has connected to the target, or could not.
pub open spec fn connect_code(connected: bool) -> u8 {
    if connected {
        0
    } else {
        4
    }
}

/// What to write when Tor has connected to the target, or could not. After a
/// failure the connection is closed.
pub fn answer_connect(connected: bool) -> (r: Vec<u8>)
    ensures
        r@ == reply_of(connect_code(connected)),
        r@ == reply_of(if connected {
            0
        } else {
            4
        }),
{
    if connected {
        socks5_reply(0)
    } else {
        socks5_reply(4)
    }
}

/// The server accepts the greeting of the library's own client.
pub proof fn lemma_greeting_accepted()
    ensures
        greeting_error(greeting()) is None,
{
}

/// The server reads from the library's own request the IPv4 address and the port
/// that the client asked for, and refuses an IPv6 address.
pub proof fn lemma_request_understood(target: SocketTarget)
    ensures
        request_of(connect_request(target)) == (match target {
            SocketTarget::V4 { ip, port } => Ok::<TargetView, RequestError>(TargetView::Ip(ip, port)),
            SocketTarget::V6 { .. } => Err::<TargetView, RequestError>(
                RequestError::BadAddress { error: AddressError::Ipv6Unsupported },
            ),
        }),
{
    broadcast use lemma_be16_inverse;

    let d = connect_request(target);
    assert(forall|i: int| 0 <= i < d.len() - 3 ==> d.skip(3)[i] == d[i + 3]);
}

/// The library's own client understands the server: it is connected exactly when
/// the code of the reply is 0, loses nothing of what comes after the reply, and
/// otherwise learns the code.
pub proof fn lemma_reply_understood(target: SocketTarget, code: u8, rest: Seq<u8>)
    ensures
        outcome(
            StepView::Exchange { state: Handshake::Method, send: greeting(), read: 2 },
            target,
            seq![5u8, 0u8] + reply_of(code) + rest,
        ) == (if code == 0 {
            HandshakeEnd::Connected { rest }
        } else {
            HandshakeEnd::Failed { error: HandshakeError::ConnectFailed { code } }
        }),
{
    reveal_with_fuel(outcome, 5);
    let stream = seq![5u8, 0u8] + reply_of(code) + rest;
    assert(stream.take(2) =~= seq![5u8, 0u8]);
    assert(stream.skip(2) =~= reply_of(code) + rest);
    assert(stream.skip(2).take(4) =~= seq![5u8, code, 0u8, 1u8]);
    assert(stream.skip(2).skip(4).skip(6) =~= rest);
}

} // verus!
