//! Both sides of SOCKS5, said of bytes.
use vstd::prelude::*;
use vstd::utf8::{decode_utf8, valid_utf8};

use crate::addr::Ipv4Addr;
use crate::socks5::{
    connect_request, greeting, method_accepted, next_handshake, wanted, Handshake, HandshakeError,
    HandshakeStep, SocketTarget, StepView,
};
use crate::text::{decimal, host_port};
use crate::tor_tun::socks5::{
    connect_code, greeting_error, host_text, port_of, refusal_code, reply_of, request_of, target_of, AddressError,
    GreetingError, RequestError, SocksTarget, TargetView,
};

verus! {

/// The client greets with version 5, one method, no authentication.
pub proof fn law_greeting()
    ensures
        greeting().len() == 3,
        greeting()[0] == 5,
        greeting()[1] == 1,
        greeting()[2] == 0,
{
}

/// The request to connect: version 5, command 1, a zero, the type of the address, the
/// octets of the address in order, and the port with its high byte first.
pub proof fn law_connect_request(ip: Ipv4Addr, octets: [u8; 16], port: u16, i: int)
    requires
        0 <= i < 16,
    ensures
        ({
            let r = connect_request(SocketTarget::V4 { ip, port });
            &&& r.len() == 10
            &&& r[0] == 5 && r[1] == 1 && r[2] == 0 && r[3] == 1
            &&& r[4] == ip.a && r[5] == ip.b && r[6] == ip.c && r[7] == ip.d
            &&& 256 * r[8] + r[9] == port
        }),
        ({
            let r = connect_request(SocketTarget::V6 { octets, port });
            &&& r.len() == 22
            &&& r[0] == 5 && r[1] == 1 && r[2] == 0 && r[3] == 4
            &&& r[4 + i] == octets@[i]
            &&& 256 * r[20] + r[21] == port
        }),
{
}

/// A server accepts a client without authentication with the two bytes 5 and 0, and with
/// nothing else.
pub proof fn law_method_accepted(reply: Seq<u8>)
    ensures
        method_accepted(reply) <==> reply.len() == 2 && reply[0] == 5 && reply[1] == 0,
{
    assert(reply.len() == 2 && reply[0] == 5 && reply[1] == 0 ==> reply =~= seq![5u8, 0u8]);
}

/// What the client makes of the server's choice of a method: to 5 and 0 it answers with
/// its request, for the very target, and reads four bytes; all else it gives up on.
pub proof fn law_after_the_method(target: SocketTarget, a: u8, b: u8)
    ensures
        next_handshake(Handshake::Method, target, seq![a, b]) == (if a == 5 && b == 0 {
            StepView::Exchange {
                state: Handshake::Reply,
                send: connect_request(target),
                read: 4,
            }
        } else {
            StepView::Failed { error: HandshakeError::NoAuthRejected }
        }),
{
}

/// What the client makes of the first four bytes of the reply: of success it reads, and
/// sends nothing, as many bytes as the type of the bound address and the port take, six
/// for IPv4, eighteen for IPv6, and first the length for a domain; of any other code it
/// gives up with that code, and of an unknown type with that type.
pub proof fn law_after_the_reply(target: SocketTarget, a: u8, code: u8, c: u8, kind: u8)
    ensures
        ({
            let step = next_handshake(Handshake::Reply, target, seq![a, code, c, kind]);
            if a != 5 || code != 0 {
                step == (StepView::Failed { error: HandshakeError::ConnectFailed { code } })
            } else if kind == 1 || kind == 4 {
                &&& step matches StepView::Exchange { state, send, read }
                &&& state == Handshake::Bound
                &&& send.len() == 0
                &&& read == (if kind == 1 {
                    4int + 2
                } else {
                    16int + 2
                })
            } else if kind == 3 {
                &&& step matches StepView::Exchange { state, send, read }
                &&& state == Handshake::DomainLength
                &&& send.len() == 0
                &&& read == 1
            } else {
                step == (StepView::Failed { error: HandshakeError::UnknownAddressType { kind } })
            }
        }),
{
}

/// After the length of a domain the client reads the domain and the port, and after
/// those it is connected, whatever they are.
pub proof fn law_after_the_length(target: SocketTarget, len: u8, bound: Seq<u8>)
    ensures
        next_handshake(Handshake::DomainLength, target, seq![len]) matches StepView::Exchange {
            state,
            send,
            read,
        } && state == Handshake::Bound && send.len() == 0 && read == len + 2,
        next_handshake(Handshake::Bound, target, bound) is Done,
{
}

/// How many bytes the client asks for in each state, where that is fixed.
pub proof fn law_bytes_wanted()
    ensures
        wanted(Handshake::Method) == Some(2int),
        wanted(Handshake::Reply) == Some(4int),
        wanted(Handshake::DomainLength) == Some(1int),
        wanted(Handshake::Bound) is None,
{
}

/// The server reads a domain of at most 255 bytes of UTF-8, and the port after it, from
/// the field made of 3, the length, the bytes of the name and the two bytes of the port,
/// whatever follows.
pub proof fn law_domain_is_read(name: Seq<u8>, hi: u8, lo: u8, rest: Seq<u8>)
    requires
        name.len() <= 255,
    ensures
        ({
            let got = target_of(seq![3u8, name.len() as u8] + name + seq![hi, lo] + rest);
            if valid_utf8(name) {
                &&& got matches Ok(target)
                &&& target matches TargetView::Domain(host, port)
                &&& host == decode_utf8(name)
                &&& port == 256 * hi + lo
            } else {
                got == Err::<TargetView, AddressError>(AddressError::DomainNotUtf8)
            }
        }),
{
    let d = seq![3u8, name.len() as u8] + name + seq![hi, lo] + rest;
    let n = name.len() as int;
    assert(d[0] == 3 && d[1] == n);
    assert(d.subrange(2, n + 2) =~= name);
    assert(d[n + 2] == hi && d[n + 3] == lo);
}

/// A field that ends before the port is complete is refused, at whatever length.
pub proof fn law_short_domain(len: u8, some: Seq<u8>)
    requires
        some.len() < len + 2,
    ensures
        target_of(seq![3u8, len] + some) == Err::<TargetView, AddressError>(
            AddressError::TruncatedDomain,
        ),
        target_of(seq![3u8]) == Err::<TargetView, AddressError>(AddressError::EmptyDomain),
{
    let d = seq![3u8, len] + some;
    assert(d[0] == 3 && d[1] == len);
}

/// The server reads an IPv4 address and a port from the field made of 1, the four octets
/// and the two bytes of the port, whatever follows, and refuses a field that ends earlier.
pub proof fn law_ipv4_is_read(ip: Ipv4Addr, hi: u8, lo: u8, rest: Seq<u8>, some: Seq<u8>)
    requires
        some.len() < 6,
    ensures
        target_of(seq![1u8, ip.a, ip.b, ip.c, ip.d, hi, lo] + rest) matches Ok(target)
            && target matches TargetView::Ip(got, port) && got == ip && port == 256 * hi + lo,
        target_of(seq![1u8] + some) == Err::<TargetView, AddressError>(AddressError::TruncatedIpv4),
{
    let d = seq![1u8] + some;
    assert(d[0] == 1);
}

/// The server refuses an empty field, an IPv6 address, and every unknown type, whatever
/// follows it.
pub proof fn law_other_addresses(kind: u8, rest: Seq<u8>)
    requires
        kind != 1,
        kind != 3,
    ensures
        target_of(Seq::empty()) == Err::<TargetView, AddressError>(AddressError::Empty),
        target_of(seq![kind] + rest) == Err::<TargetView, AddressError>(if kind == 4 {
            AddressError::Ipv6Unsupported
        } else {
            AddressError::UnknownType { kind }
        }),
{
    let d = seq![kind] + rest;
    assert(d[0] == kind);
}

/// A request is a version 5, a command 1, a byte that is ignored, and an address field,
/// seven bytes at least. Of such a request the address field decides; all else is an
/// unsupported command.
pub proof fn law_request(version: u8, command: u8, reserved: u8, field: Seq<u8>)
    ensures
        ({
            let got = request_of(seq![version, command, reserved] + field);
            if version == 5 && command == 1 && field.len() >= 4 {
                match target_of(field) {
                    Ok(t) => got == Ok::<TargetView, RequestError>(t),
                    Err(error) => got == Err::<TargetView, RequestError>(
                        RequestError::BadAddress { error },
                    ),
                }
            } else {
                got == Err::<TargetView, RequestError>(RequestError::UnsupportedCommand)
            }
        }),
{
    let d = seq![version, command, reserved] + field;
    assert(d[0] == version && d[1] == command);
    assert(d.skip(3) =~= field);
}

/// Less than three bytes are an unsupported command too.
pub proof fn law_short_request(d: Seq<u8>)
    requires
        d.len() < 3,
    ensures
        request_of(d) == Err::<TargetView, RequestError>(RequestError::UnsupportedCommand),
{
}

/// A client that asks for a domain is connected to that domain: the request made of 5, 1,
/// 0, 3, the length, the name and the port is read as that name and that port, for every
/// name of at most 255 bytes.
pub proof fn law_domain_request(name: Seq<u8>, hi: u8, lo: u8)
    requires
        name.len() <= 255,
        valid_utf8(name),
    ensures
        ({
            let d = seq![5u8, 1u8, 0u8] + (seq![3u8, name.len() as u8] + name + seq![hi, lo]);
            &&& request_of(d) matches Ok(target)
            &&& host_text(target) == decode_utf8(name)
            &&& port_of(target) == 256 * hi + lo
        }),
{
    law_domain_is_read(name, hi, lo, Seq::empty());
    let field = seq![3u8, name.len() as u8] + name + seq![hi, lo];
    assert(field + Seq::<u8>::empty() =~= field);
    law_request(5, 1, 0, field);
}

/// The codes of the server: 7 for a command and 8 for an address that it refuses, 0 when
/// Tor has connected, and 4 when it could not.
pub proof fn law_refusal_codes(error: AddressError)
    ensures
        refusal_code(RequestError::UnsupportedCommand) == 7,
        refusal_code(RequestError::BadAddress { error }) == 8,
        connect_code(true) == 0,
        connect_code(false) == 4,
{
}

/// A reply of the server: ten bytes, 5, the code, a zero, 1, and zeros.
pub proof fn law_reply(code: u8, i: int)
    requires
        4 <= i < 10,
    ensures
        reply_of(code).len() == 10,
        reply_of(code)[0] == 5,
        reply_of(code)[1] == code,
        reply_of(code)[2] == 0,
        reply_of(code)[3] == 1,
        reply_of(code)[i] == 0,
{
}

/// A greeting is accepted exactly when it has at least three bytes, starts with 5, and
/// has as many methods as its second byte says.
pub proof fn law_server_greeting(d: Seq<u8>)
    ensures
        greeting_error(d) is None <==> d.len() >= 3 && d[0] == 5 && d.len() >= 2 + d[1],
        greeting_error(d) == Some(GreetingError::Truncated) <==> d.len() >= 3 && d[0] == 5
            && d.len() < 2 + d[1],
{
}

/// What the Tor client is asked for: the name of a domain as it is, an address in dotted
/// decimal, and the port; and how that is told, with a colon between.
pub proof fn law_destination(host: Seq<char>, ip: Ipv4Addr, port: u16)
    ensures
        host_text(TargetView::Domain(host, port)) == host,
        host_text(TargetView::Ip(ip, port)) == decimal(ip.a as nat) + seq!['.'] + decimal(
            ip.b as nat,
        ) + seq!['.'] + decimal(ip.c as nat) + seq!['.'] + decimal(ip.d as nat),
        port_of(TargetView::Domain(host, port)) == port,
        port_of(TargetView::Ip(ip, port)) == port,
        host_port(host, port) == host + seq![':'] + decimal(port as nat),
{
    reveal_strlit(".");
    reveal_strlit(":");
    assert("."@ =~= seq!['.']);
    assert(":"@ =~= seq![':']);
}

/// What is known of a target and of a step of a handshake is what they hold.
pub proof fn law_steps_and_targets(
    host: String,
    ip: Ipv4Addr,
    port: u16,
    state: Handshake,
    send: Vec<u8>,
    read: usize,
    error: HandshakeError,
)
    ensures
        SocksTarget::Domain(host, port)@ == TargetView::Domain(host@, port),
        SocksTarget::Ip(ip, port)@ == TargetView::Ip(ip, port),
        (HandshakeStep::Exchange { state, send, read })@ == (StepView::Exchange {
            state,
            send: send@,
            read: read as int,
        }),
        HandshakeStep::Done@ is Done,
        (HandshakeStep::Failed { error })@ == (StepView::Failed { error }),
{
}

} // verus!
