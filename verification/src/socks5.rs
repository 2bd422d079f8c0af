//! The client side of a SOCKS5 handshake. The caller writes and reads what each
//! step asks for, and hands in what it read.
use vstd::prelude::*;

use crate::addr::Ipv4Addr;
use crate::bytes::{be16_bytes, push_be16, push_bytes};
use crate::packet::push_addr;

verus! {

/// Where a connection goes.
#[derive(Debug, Clone, Copy)]
pub enum SocketTarget {
    V4 { ip: Ipv4Addr, port: u16 },
    V6 { octets: [u8; 16], port: u16 },
}

/// What the client waits for.
#[derive(Debug, Clone, Copy, PartialEq, Eq, Structural)]
pub enum Handshake {
    /// The server's choice of a method.
    Method,
    /// The first four bytes of the reply to CONNECT.
    Reply,
    /// The length of the domain name in the reply.
    DomainLength,
    /// The rest of the reply.
    Bound,
}

/// Why a handshake failed.
#[derive(Debug, Clone, Copy, PartialEq, Eq, Structural)]
pub enum HandshakeError {
    /// The server does not accept a client without authentication.
    NoAuthRejected,
    /// The server could not connect; its code.
    ConnectFailed { code: u8 },
    /// The reply has an address of an unknown type.
    UnknownAddressType { kind: u8 },
}

/// What to do next.
#[derive(Debug)]
pub enum HandshakeStep {
    /// Write `send`, read `read` bytes, and go on in `state` with them.
    Exchange { state: Handshake, send: Vec<u8>, read: usize },
    /// The connection to the target is there.
    Done,
    /// The handshake failed.
    Failed { error: HandshakeError },
}

/// What a `HandshakeStep` says.
#[verifier::ext_equal]
pub enum StepView {
    Exchange { state: Handshake, send: Seq<u8>, read: int },
    Done,
    Failed { error: HandshakeError },
}

impl View for HandshakeStep {
    type V = StepView;

    open spec fn view(&self) -> StepView {
        match *self {
            HandshakeStep::Exchange { state, send, read } => StepView::Exchange {
                state,
                send: send@,
                read: read as int,
            },
            HandshakeStep::Done => StepView::Done,
            HandshakeStep::Failed { error } => StepView::Failed { error },
        }
    }
}

/// The greeting: version 5, one method, no authentication.
pub open spec fn greeting() -> Seq<u8> {
    seq![5u8, 1u8, 0u8]
}

/// The request to connect to `target`.
pub open spec fn connect_request(target: SocketTarget) -> Seq<u8> {
    match target {
        SocketTarget::V4 { ip, port } => seq![5u8, 1u8, 0u8, 1u8] + ip.bytes() + be16_bytes(port),
        SocketTarget::V6 { octets, port } => seq![5u8, 1u8, 0u8, 4u8] + octets@ + be16_bytes(port),
    }
}

/// How many bytes the client reads in `state`.
pub open spec fn wanted(state: Handshake) -> Option<int> {
    match state {
        Handshake::Method => Some(2int),
        Handshake::Reply => Some(4int),
        Handshake::DomainLength => Some(1int),
        Handshake::Bound => None,
    }
}

/// The next step when the client read `reply` in `state`.
pub open spec fn next_handshake(
    state: Handshake,
    target: SocketTarget,
    reply: Seq<u8>,
) -> StepView {
    match state {
        Handshake::Method => if reply[0] == 5 && reply[1] == 0 {
            StepView::Exchange {
                state: Handshake::Reply,
                send: connect_request(target),
                read: 4,
            }
        } else {
            StepView::Failed { error: HandshakeError::NoAuthRejected }
        },
        Handshake::Reply => if reply[0] != 5 || reply[1] != 0 {
            StepView::Failed { error: HandshakeError::ConnectFailed { code: reply[1] } }
        } else if reply[3] == 1 {
            StepView::Exchange { state: Handshake::Bound, send: Seq::empty(), read: 6 }
        } else if reply[3] == 4 {
            StepView::Exchange { state: Handshake::Bound, send: Seq::empty(), read: 18 }
        } else if reply[3] == 3 {
            StepView::Exchange { state: Handshake::DomainLength, send: Seq::empty(), read: 1 }
        } else {
            StepView::Failed { error: HandshakeError::UnknownAddressType { kind: reply[3] } }
        },
        Handshake::DomainLength => StepView::Exchange {
            state: Handshake::Bound,
            send: Seq::empty(),
            read: reply[0] + 2,
        },
        Handshake::Bound => StepView::Done,
    }
}

/// The greeting that opens a handshake.
pub fn greeting_bytes() -> (r: Vec<u8>)
    ensures
        r@ == greeting(),
{
    let mut v: Vec<u8> = Vec::new();
    v.push(5);
    v.push(1);
    v.push(0);
    assert(v@ =~= greeting());
    v
}

/// Whether the server accepts a client without authentication.
pub open spec fn method_accepted(reply: Seq<u8>) -> bool {
    reply == seq![5u8, 0u8]
}

/// Whether the two bytes with which a server answers the greeting accept a client
/// without authentication.
pub fn accepts_no_auth(reply: &[u8]) -> (r: bool)
    ensures
        r == method_accepted(reply@),
{
    assert(reply@.len() == 2 && reply@[0] == 5 && reply@[1] == 0 ==> reply@ =~= seq![5u8, 0u8]);
    reply.len() == 2 && reply[0] == 5 && reply[1] == 0
}

/// The request to connect to `target`.
pub fn build_connect_request(target: &SocketTarget) -> (r: Vec<u8>)
    ensures
        r@ == connect_request(*target),
{
    let mut v: Vec<u8> = Vec::new();
    v.push(5);
    v.push(1);
    v.push(0);
    match target {
        SocketTarget::V4 { ip, port } => {
            v.push(1);
            assert(v@ =~= seq![5u8, 1u8, 0u8, 1u8]);
            push_addr(&mut v, *ip);
            push_be16(&mut v, *port);
        },
        SocketTarget::V6 { octets, port } => {
            v.push(4);
            assert(v@ =~= seq![5u8, 1u8, 0u8, 4u8]);
            push_bytes(&mut v, octets.as_slice());
            push_be16(&mut v, *port);
        },
    }
    v
}

/// The first step of a handshake: the greeting.
pub fn start_handshake() -> (r: HandshakeStep)
    ensures
        r@ == (StepView::Exchange { state: Handshake::Method, send: greeting(), read: 2 }),
{
    HandshakeStep::Exchange { state: Handshake::Method, send: greeting_bytes(), read: 2 }
}

/// The next step of a handshake, when `reply` was read in `state`.
pub fn socks5_handshake(state: Handshake, target: &SocketTarget, reply: &[u8]) -> (r: HandshakeStep)
    requires
        wanted(state) matches Some(n) ==> reply@.len() == n,
    ensures
        r@ == next_handshake(state, *target, reply@),
{
    let nothing: Vec<u8> = Vec::new();
    match state {
        Handshake::Method => {
            if reply[0] != 5 || reply[1] != 0 {
                return HandshakeStep::Failed { error: HandshakeError::NoAuthRejected };
            }
            HandshakeStep::Exchange {
                state: Handshake::Reply,
                send: build_connect_request(target),
                read: 4,
            }
        },
        Handshake::Reply => {
            if reply[0] != 5 || reply[1] != 0 {
                return HandshakeStep::Failed {
                    error: HandshakeError::ConnectFailed { code: reply[1] },
                };
            }
            match reply[3] {
                1 => HandshakeStep::Exchange { state: Handshake::Bound, send: nothing, read: 6 },
                4 => HandshakeStep::Exchange { state: Handshake::Bound, send: nothing, read: 18 },
                3 => HandshakeStep::Exchange {
                    state: Handshake::DomainLength,
                    send: nothing,
                    read: 1,
                },
                kind => HandshakeStep::Failed {
                    error: HandshakeError::UnknownAddressType { kind },
                },
            }
        },
        Handshake::DomainLength => HandshakeStep::Exchange {
            state: Handshake::Bound,
            send: nothing,
            read: reply[0] as usize + 2,
        },
        Handshake::Bound => HandshakeStep::Done,
    }
}

/// What comes of a handshake.
#[verifier::ext_equal]
pub enum HandshakeEnd {
    /// The connection is there; `rest` is what the server sent after its reply.
    Connected { rest: Seq<u8> },
    /// The handshake failed.
    Failed { error: HandshakeError },
    /// The server closed the connection too early.
    CutShort,
}

/// What comes of the step `step` when the server sends `stream`.
pub open spec fn outcome(step: StepView, target: SocketTarget, stream: Seq<u8>) -> HandshakeEnd
    decreases
            match step {
                StepView::Exchange { state, .. } => match state {
                    Handshake::Method => 4int,
                    Handshake::Reply => 3,
                    Handshake::DomainLength => 2,
                    Handshake::Bound => 1,
                },
                _ => 0,
            },
{
    match step {
        StepView::Exchange { state, send, read } => if stream.len() < read {
            HandshakeEnd::CutShort
        } else {
            outcome(
                next_handshake(state, target, stream.take(read)),
                target,
                stream.skip(read),
            )
        },
        StepView::Done => HandshakeEnd::Connected { rest: stream },
        StepView::Failed { error } => HandshakeEnd::Failed { error },
    }
}

/// A reply to CONNECT that carries a bound address.
pub open spec fn success_reply(kind: u8, address: Seq<u8>, port: u16) -> Seq<u8> {
    seq![5u8, 0u8, 0u8, kind] + (if kind == 3 {
        seq![address.len() as u8] + address
    } else {
        address
    }) + be16_bytes(port)
}

/// A server that accepts the client and reports success, with a bound address of
/// any kind, is connected to, and nothing that it sends after its reply is lost.
pub proof fn lemma_handshake_succeeds(
    target: SocketTarget,
    kind: u8,
    address: Seq<u8>,
    port: u16,
    rest: Seq<u8>,
)
    requires
        (kind == 1 && address.len() == 4) || (kind == 4 && address.len() == 16) || (kind == 3
            && address.len() <= 255),
    ensures
        outcome(
            StepView::Exchange { state: Handshake::Method, send: greeting(), read: 2 },
            target,
            seq![5u8, 0u8] + success_reply(kind, address, port) + rest,
        ) == (HandshakeEnd::Connected { rest }),
{
    reveal_with_fuel(outcome, 5);
    let reply = success_reply(kind, address, port);
    let stream = seq![5u8, 0u8] + reply + rest;
    let after_method = reply + rest;
    assert(stream.take(2) =~= seq![5u8, 0u8]);
    assert(stream.skip(2) =~= after_method);
    let head = after_method.take(4);
    assert(head =~= seq![5u8, 0u8, 0u8, kind]);
    let tail = after_method.skip(4);
    if kind == 3 {
        let n = address.len() as u8;
        assert(tail.take(1) =~= seq![n]);
        assert(tail.skip(1).skip(n + 2) =~= rest);
    } else {
        assert(tail.skip(address.len() as int + 2) =~= rest);
    }
}

/// A server that does not accept a client without authentication is given up, and
/// so is one that reports a failure, with its code.
pub proof fn lemma_handshake_refused(target: SocketTarget, a: u8, b: u8, rest: Seq<u8>)
    requires
        a != 5 || b != 0,
    ensures
        outcome(
            StepView::Exchange { state: Handshake::Method, send: greeting(), read: 2 },
            target,
            seq![a, b] + rest,
        ) == (HandshakeEnd::Failed { error: HandshakeError::NoAuthRejected }),
        rest.len() >= 2 ==> outcome(
            StepView::Exchange { state: Handshake::Method, send: greeting(), read: 2 },
            target,
            seq![5u8, 0u8, a, b] + rest,
        ) == (HandshakeEnd::Failed { error: HandshakeError::ConnectFailed { code: b } }),
{
    reveal_with_fuel(outcome, 4);
    assert((seq![a, b] + rest).take(2) =~= seq![a, b]);
    if rest.len() >= 2 {
        let stream = seq![5u8, 0u8, a, b] + rest;
        assert(stream.take(2) =~= seq![5u8, 0u8]);
        assert(stream.skip(2) =~= seq![a, b] + rest);
        assert(stream.skip(2).take(4)[0] == a);
        assert(stream.skip(2).take(4)[1] == b);
    }
}

} // verus!
