//! What the UDP forwarder does, said of bytes, ports and times.
use vstd::prelude::*;

use crate::addr::Ipv4Addr;
use crate::laws::packets::{law_built_packet, law_transport_part, law_udp_packet};
use crate::packet::packet_of;
use crate::udp::{
    entered, forwarded, forwards, fresh, has_flow, kept, next_step, one_entry_per_flow, timed_out,
    udp_response, udp_responses, Arrival, NatEntry, SocketEvent, SocketStep, UdpAction, UdpFlow,
};

verus! {

/// The flow of a UDP packet, said of its bytes: its addresses are the source and the
/// destination of the IPv4 header, its client port is the number in the first two bytes
/// of the UDP header and its destination port that in the next two, and what is sent is
/// all that follows the eight bytes of the UDP header. A packet from or to 127.x.x.x or
/// the TUN interface's address, or from Tor's address, is left alone; no other is.
pub proof fn law_datagram(
    ip: Seq<u8>,
    part: Seq<u8>,
    rest: Seq<u8>,
    version: int,
    n: int,
    tun_ip: Ipv4Addr,
    tor_ip: Ipv4Addr,
)
    requires
        5 <= n < 16,
        ip.len() == 4 * n,
        ip[0] == 16 * version + n,
        256 * ip[2] + ip[3] == ip.len() + part.len() || (rest.len() == 0 && 256 * ip[2] + ip[3]
            >= ip.len() + part.len()),
        ip[9] == 17,
        part.len() >= 8,
    ensures
        ({
            let src = Ipv4Addr { a: ip[12], b: ip[13], c: ip[14], d: ip[15] };
            let dst = Ipv4Addr { a: ip[16], b: ip[17], c: ip[18], d: ip[19] };
            let got = forwarded(ip + part + rest, tun_ip, tor_ip);
            if src.a == 127 || dst.a == 127 || src == tun_ip || dst == tun_ip || src == tor_ip {
                got is None
            } else {
                &&& got matches Some((flow, payload))
                &&& flow.client_ip == src
                &&& flow.dest_ip == dst
                &&& flow.client_port == 256 * part[0] + part[1]
                &&& flow.dest_port == 256 * part[2] + part[3]
                &&& payload == part.skip(8)
            }
        }),
{
    law_udp_packet(ip, part, rest, version, n);
    law_transport_part(ip, part, rest, version, n);
}

/// A packet that is not UDP is not forwarded.
pub proof fn law_only_datagrams(data: Seq<u8>, tun_ip: Ipv4Addr, tor_ip: Ipv4Addr)
    requires
        packet_of(data) matches Some(pkt) ==> !(pkt.transport is Udp),
    ensures
        forwarded(data, tun_ip, tor_ip) is None,
{
}

/// A datagram goes through the socket of the flow that has all of its four numbers, if
/// there is an entry with that flow, and else through a new one. Its payload is not
/// changed, and the flow is its own.
pub proof fn law_forward(
    m: Map<u16, NatEntry>,
    flow: UdpFlow,
    payload: Seq<u8>,
    action: UdpAction,
)
    requires
        forwards(m, flow, payload, action),
    ensures
        action is Send <==> exists|p: u16| #[trigger]
            m.contains_key(p) && m[p].flow.client_ip == flow.client_ip && m[p].flow.client_port
                == flow.client_port && m[p].flow.dest_ip == flow.dest_ip && m[p].flow.dest_port
                == flow.dest_port,
        !(action is Send) ==> action is Open,
        action matches UdpAction::Send { nat_port, flow: f, payload: b } ==> m.contains_key(nat_port)
            && m[nat_port].flow == flow && f == flow && b@ == payload,
        action matches UdpAction::Open { flow: f, payload: b } ==> f == flow && b@ == payload,
{
    if action is Send {
        assert(has_flow(m, flow));
    } else {
        assert forall|p: u16| #[trigger] m.contains_key(p) implies m[p].flow != flow by {
            assert(!has_flow(m, flow));
        }
    }
}

/// An entry is given up by a poll when it is more than sixty seconds old, and kept by a
/// cleanup when it is less than sixty seconds old. An entry from the future is not old.
pub proof fn law_sixty_seconds(e: NatEntry, now: u64)
    ensures
        timed_out(e, now) <==> now > e.last_used + 60 * 1_000_000_000,
        fresh(e, now) <==> now < e.last_used + 60 * 1_000_000_000,
{
}

/// What a poll and a cleanup leave in the table: the entries that are not more than
/// sixty seconds old, and those that are less than sixty seconds old, as they were.
pub proof fn law_what_is_kept(m: Map<u16, NatEntry>, now: u64, p: u16)
    ensures
        ({
            let polled = kept(m, |e: NatEntry| !timed_out(e, now));
            let cleaned = kept(m, |e: NatEntry| fresh(e, now));
            &&& polled.contains_key(p) <==> m.contains_key(p) && now <= m[p].last_used + 60
                * 1_000_000_000
            &&& polled.contains_key(p) ==> polled[p] == m[p]
            &&& cleaned.contains_key(p) <==> m.contains_key(p) && now < m[p].last_used + 60
                * 1_000_000_000
            &&& cleaned.contains_key(p) ==> cleaned[p] == m[p]
        }),
{
}

/// A table without two entries of one flow: where two entries agree in both addresses and
/// both ports, they are the same entry.
pub proof fn law_one_socket_for_a_flow(m: Map<u16, NatEntry>, p: u16, q: u16)
    requires
        one_entry_per_flow(m),
        m.contains_key(p),
        m.contains_key(q),
        p != q,
    ensures
        m[p].flow.client_ip != m[q].flow.client_ip || m[p].flow.client_port
            != m[q].flow.client_port || m[p].flow.dest_ip != m[q].flow.dest_ip
            || m[p].flow.dest_port != m[q].flow.dest_port,
{
}

/// The bytes of the packet that brings a datagram back: it goes from the flow's
/// destination to its client. Of eight bytes or more, the first four are replaced by the
/// two ports, the seventh and eighth by zeros, and all others are kept. Fewer bytes are
/// kept as they are.
pub proof fn law_response(flow: UdpFlow, data: Seq<u8>, identification: u16, i: int)
    requires
        0 <= i < data.len(),
    ensures
        ({
            let d = udp_response(flow, data, identification);
            &&& d.len() == 20 + data.len()
            &&& 256 * d[2] + d[3] == (20 + data.len()) % 0x1_0000
            &&& 256 * d[4] + d[5] == identification
            &&& d[6] == 0x40
            &&& d[7] == 0
            &&& d[8] == 64
            &&& d[9] == 17
            &&& flow.dest_ip == (Ipv4Addr { a: d[12], b: d[13], c: d[14], d: d[15] })
            &&& flow.client_ip == (Ipv4Addr { a: d[16], b: d[17], c: d[18], d: d[19] })
            &&& data.len() >= 8 ==> {
                &&& 256 * d[20] + d[21] == flow.dest_port
                &&& 256 * d[22] + d[23] == flow.client_port
                &&& d[26] == 0
                &&& d[27] == 0
            }
            &&& data.len() < 8 || i == 4 || i == 5 || i >= 8 ==> d[20 + i] == data[i]
        }),
{
    let d = udp_response(flow, data, identification);
    let body = d.skip(20);
    let b0 = (flow.dest_port as int / 0x100) as u8;
    let b1 = (flow.dest_port as int % 0x100) as u8;
    let b2 = (flow.client_port as int / 0x100) as u8;
    let b3 = (flow.client_port as int % 0x100) as u8;
    let made = if data.len() >= 8 {
        seq![b0, b1] + seq![b2, b3] + data.subrange(4, 6) + seq![0u8, 0u8] + data.skip(8)
    } else {
        data
    };
    law_built_packet(made, flow.dest_ip, flow.client_ip, 17, 64, identification);
    assert(d.skip(20) == made);
    assert(forall|j: int| 0 <= j < made.len() ==> #[trigger] made[j] == d.skip(20)[j]);
    assert(d[20 + i] == made[i]);
    if data.len() >= 8 {
        assert(d[20] == made[0] && d[21] == made[1] && d[22] == made[2] && d[23] == made[3]);
        assert(d[26] == made[6] && d[27] == made[7]);
    }
}

/// A datagram more that comes in gives one packet more, at the end, if it came in on a
/// socket with an entry that is not more than sixty seconds old, and else none; the other
/// packets stay as they are. Without datagrams there is no packet.
pub proof fn law_responses(
    m: Map<u16, NatEntry>,
    now: u64,
    arrivals: Seq<Arrival>,
    ids: Seq<u16>,
    a: Arrival,
    id: u16,
)
    requires
        ids.len() == arrivals.len(),
    ensures
        udp_responses(m, now, Seq::empty(), Seq::empty()).len() == 0,
        ({
            let before = udp_responses(m, now, arrivals, ids);
            let after = udp_responses(m, now, arrivals.push(a), ids.push(id));
            if m.contains_key(a.nat_port) && now <= m[a.nat_port].last_used + 60 * 1_000_000_000 {
                &&& after.len() == before.len() + 1
                &&& after.take(before.len() as int) == before
                &&& after.last() == udp_response(m[a.nat_port].flow, a.data@, id)
            } else {
                after == before
            }
        }),
{
    let before = udp_responses(m, now, arrivals, ids);
    let after = udp_responses(m, now, arrivals.push(a), ids.push(id));
    assert(arrivals.push(a).drop_last() =~= arrivals);
    assert(ids.push(id).drop_last() =~= ids);
    if m.contains_key(a.nat_port) && !timed_out(m[a.nat_port], now) {
        assert(after.take(before.len() as int) =~= before);
    }
}

/// A new entry stands at the port of its socket, with its flow and the time it was made;
/// all other ports are as they were.
pub proof fn law_new_entry(m: Map<u16, NatEntry>, nat_port: u16, flow: UdpFlow, now: u64, p: u16)
    ensures
        ({
            let t = entered(m, nat_port, flow, now);
            &&& t.contains_key(nat_port)
            &&& t[nat_port].flow == flow
            &&& t[nat_port].last_used == now
            &&& p != nat_port ==> (t.contains_key(p) <==> m.contains_key(p))
            &&& p != nat_port && m.contains_key(p) ==> t[p] == m[p]
        }),
{
}

/// How a socket is emptied: it is received from as much as a look ahead showed; what came
/// from an IPv4 address is kept and what came from another is not, and both times the
/// next look follows; a failure ends it.
pub proof fn law_emptying(event: SocketEvent)
    ensures
        event matches SocketEvent::Peeked(n) ==> next_step(event) == SocketStep::Receive(n),
        next_step(event) is Receive <==> event is Peeked,
        next_step(event) is Keep <==> event is ReceivedV4,
        next_step(event) is Skip <==> event is ReceivedOther,
        next_step(event) is Leave <==> event is PeekFailed || event is ReceiveFailed,
{
}

} // verus!
