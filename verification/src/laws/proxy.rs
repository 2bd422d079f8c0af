//! What the TCP proxy does with packets and polls, said of addresses, ports and flags.
use crossbeam::channel::{Receiver, Sender};
use vstd::prelude::*;

use crate::addr::Ipv4Addr;
use crate::bypass::bypasses;
use crate::channel::{
    accepted, asked, contents, in_step, joined, offered, receives_in_order, room, sends_in_order,
    signal_joined, stop_answers, taken,
};
use crate::flow::FlowKey;
use crate::laws::sessions::law_syn_without_ack;
use crate::packet::{packet_of, PacketView, TcpHeader, TransportInfo};
use crate::relay::Relay;
use crate::session::{
    after_poll, after_segment, opened, passes_on, poll_packets, RelayEnds, RelayStart, SessionState,
    TcpSession,
};
use crate::tcp::{
    after_packet, closes_exactly, opens_session, packets_of_poll, polls, proxied, relay_for,
    ClosedSession, ProxyState, TcpProxy,
};

verus! {

/// Which packets stay out of the VPN: those from Tor's address, those from or to 127.x.x.x
/// or the TUN interface's own address, and those to 169.254.x.x and to addresses from
/// 224.0.0.0 to 239.255.255.255. All others do not.
pub proof fn law_bypass(src: Ipv4Addr, dst: Ipv4Addr, tor: Ipv4Addr, tun: Ipv4Addr)
    ensures
        bypasses(src, dst, tor, tun) <==> src == tor || src.a == 127 || dst.a == 127 || src == tun
            || dst == tun || (dst.a == 169 && dst.b == 254) || (dst.a >= 224 && dst.a < 240),
{
}

/// The proxy takes a TCP packet exactly when neither address is that of the TUN interface
/// or starts with 127, and it does not come from Tor's address. It takes no other packet.
pub proof fn law_which_packets_are_taken(p: ProxyState, data: Seq<u8>)
    ensures
        packet_of(data) matches Some(pkt) ==> (pkt.transport matches TransportInfo::Tcp(tcp) ==> {
            let src = pkt.ip_header.src_ip;
            let dst = pkt.ip_header.dst_ip;
            if src == p.tun_ip || dst == p.tun_ip || src.a == 127 || dst.a == 127 || src
                == p.tor_outbound_ip {
                proxied(p, data) is None
            } else {
                proxied(p, data) == Some((pkt, tcp))
            }
        }),
        packet_of(data) is None ==> proxied(p, data) is None,
        packet_of(data) matches Some(pkt) ==> (!(pkt.transport is Tcp) ==> proxied(p, data) is None),
{
}

/// A packet that the proxy does not take changes nothing.
pub proof fn law_other_packets_change_nothing(p: ProxyState, data: Seq<u8>, isn: u32)
    requires
        proxied(p, data) is None,
    ensures
        after_packet(p, data, isn) == p,
        !opens_session(p, data),
{
}

/// What a TCP packet that the proxy takes does. Its flow has the numbers of its two
/// addresses and its two ports. A SYN without ACK opens the session of a flow that has
/// none, and changes nothing else; of a flow that has one it changes nothing. Any other
/// segment changes the session of its flow and nothing else; of a flow that has none it
/// changes nothing.
pub proof fn law_packet(
    p: ProxyState,
    data: Seq<u8>,
    isn: u32,
    pkt: PacketView,
    tcp: TcpHeader,
    key: FlowKey,
    other: FlowKey,
)
    requires
        proxied(p, data) == Some((pkt, tcp)),
        key.src_ip == 256 * (256 * (256 * pkt.ip_header.src_ip.a + pkt.ip_header.src_ip.b)
            + pkt.ip_header.src_ip.c) + pkt.ip_header.src_ip.d,
        key.dst_ip == 256 * (256 * (256 * pkt.ip_header.dst_ip.a + pkt.ip_header.dst_ip.b)
            + pkt.ip_header.dst_ip.c) + pkt.ip_header.dst_ip.d,
        key.src_port == tcp.src_port,
        key.dst_port == tcp.dst_port,
        other != key,
    ensures
        ({
            let syn = tcp.data_offset_reserved_flags as int / 2 % 2 == 1
                && tcp.data_offset_reserved_flags as int / 16 % 2 == 0;
            let q = after_packet(p, data, isn);
            &&& opens_session(p, data) <==> syn && !p.sessions.contains_key(key)
            &&& q.sessions.contains_key(key) <==> p.sessions.contains_key(key) || syn
            &&& syn && !p.sessions.contains_key(key) ==> q.sessions[key] == opened(pkt, tcp, isn)
            &&& syn && p.sessions.contains_key(key) ==> q.sessions[key] == p.sessions[key]
            &&& !syn && p.sessions.contains_key(key) ==> q.sessions[key] == after_segment(
                p.sessions[key],
                pkt,
                tcp,
            )
            &&& q.sessions.contains_key(other) <==> p.sessions.contains_key(other)
            &&& p.sessions.contains_key(other) ==> q.sessions[other] == p.sessions[other]
            &&& q.physical_if_index == p.physical_if_index
            &&& q.socks_host == p.socks_host
            &&& q.socks_port == p.socks_port
            &&& q.tor_outbound_ip == p.tor_outbound_ip
            &&& q.tun_ip == p.tun_ip
        }),
{
    law_syn_without_ack(tcp);
}

/// The relay of a new session goes to the address and the port that the client's SYN was
/// going to, through the SOCKS server and the interface of the proxy, and belongs to the
/// session of the SYN's flow.
pub proof fn law_relay_of_a_session(
    proxy: TcpProxy,
    pkt: PacketView,
    tcp: TcpHeader,
    relay: RelayStart,
)
    requires
        relay_for(proxy, pkt, tcp, relay),
    ensures
        relay.target_ip == pkt.ip_header.dst_ip,
        relay.target_port == tcp.dst_port,
        relay.socks_host@ == proxy@.socks_host,
        relay.socks_port == proxy@.socks_port,
        relay.if_index == proxy@.physical_if_index,
        relay.key.src_port == tcp.src_port,
        relay.key.dst_port == tcp.dst_port,
        relay.key.src_ip == 256 * (256 * (256 * pkt.ip_header.src_ip.a + pkt.ip_header.src_ip.b)
            + pkt.ip_header.src_ip.c) + pkt.ip_header.src_ip.d,
        relay.key.dst_ip == 256 * (256 * (256 * pkt.ip_header.dst_ip.a + pkt.ip_header.dst_ip.b)
            + pkt.ip_header.dst_ip.c) + pkt.ip_header.dst_ip.d,
        proxy.session(relay.key).linked(relay.ends),
        joined(proxy.session(relay.key).uplink(), relay.ends.uplink()),
        joined(relay.ends.downlink(), proxy.session(relay.key).downlink()),
        signal_joined(proxy.session(relay.key).stop_line(), relay.ends.stop_line()),
        room(relay.ends.downlink()) == 256,
        accepted(proxy.session(relay.key).uplink()).len() == 0,
        offered(relay.ends.downlink()).len() == 0,
        accepted(relay.ends.downlink()).len() == 0,
        taken(relay.ends.uplink()).len() == 0,
        asked(relay.ends.uplink()) == 0,
        stop_answers(relay.ends.stop_line()).len() == 0,
{
}

/// What a poll of all sessions does: each session is polled once; those that were closing
/// are gone and handed out, each once and with one signal to stop more; the others stay,
/// each polled; and the settings are as they were.
pub proof fn law_poll_of_all(
    before: ProxyState,
    after: ProxyState,
    packets: Seq<Seq<u8>>,
    closed: Seq<ClosedSession>,
    order: Seq<FlowKey>,
    msgs: Map<FlowKey, Seq<Seq<u8>>>,
    k: FlowKey,
)
    requires
        polls(before, after, packets, closed, order, msgs),
    ensures
        before.sessions.contains_key(k) <==> exists|i: int| 0 <= i < order.len() && order[i] == k,
        forall|i: int, j: int| 0 <= i < j < order.len() ==> order[i] != order[j],
        packets == packets_of_poll(order, before.sessions, msgs),
        after.sessions.contains_key(k) <==> before.sessions.contains_key(k)
            && !before.sessions[k].pending_close,
        after.sessions.contains_key(k) ==> after.sessions[k] == after_poll(
            before.sessions[k],
            msgs[k],
        ),
        before.sessions.contains_key(k) && before.sessions[k].pending_close <==> exists|i: int|
            0 <= i < closed.len() && (#[trigger] closed[i]).key == k,
        forall|i: int, j: int|
            0 <= i < j < closed.len() ==> (#[trigger] closed[i]).key != (#[trigger] closed[j]).key,
        after.physical_if_index == before.physical_if_index,
        after.socks_host == before.socks_host,
        after.socks_port == before.socks_port,
        after.tor_outbound_ip == before.tor_outbound_ip,
        after.tun_ip == before.tun_ip,
{
    assert(order.contains(k) <==> before.sessions.contains_key(k));
    if before.sessions.contains_key(k) && before.sessions[k].pending_close {
        assert(closes_exactly(before.sessions, closed));
    }
}

/// A session that is handed out has been written out and told its relay to stop once
/// more; the rest is as it was before the poll.
pub proof fn law_closed_session(
    m: Map<FlowKey, SessionState>,
    closed: Seq<ClosedSession>,
    i: int,
)
    requires
        closes_exactly(m, closed),
        0 <= i < closed.len(),
    ensures
        ({
            let s = m[closed[i].key];
            let t = closed[i].session@;
            &&& m.contains_key(closed[i].key)
            &&& s.pending_close
            &&& t.close_signals == s.close_signals + 1
            &&& t.pending_output.len() == 0
            &&& t.pending_close
            &&& t.client_seq == s.client_seq
            &&& t.our_seq == s.our_seq
            &&& t.fin_sent == s.fin_sent
            &&& t.fin_received == s.fin_received
            &&& t.offered == s.offered
            &&& t.taken == s.taken
            &&& t.room == s.room
            &&& t.close_room == s.close_room
            &&& t.asked == s.asked
            &&& t.emptied == s.emptied
        }),
{
    assert(m.contains_key(closed[i].key));
}

/// A poll that comes to one session more writes the packets of that session, and no
/// others, after all that it wrote before; a poll of no session writes nothing.
pub proof fn law_packets_of_all(
    order: Seq<FlowKey>,
    k: FlowKey,
    m: Map<FlowKey, SessionState>,
    msgs: Map<FlowKey, Seq<Seq<u8>>>,
)
    ensures
        packets_of_poll(Seq::empty(), m, msgs).len() == 0,
        ({
            let before = packets_of_poll(order, m, msgs);
            let after = packets_of_poll(order.push(k), m, msgs);
            let own = poll_packets(k, m[k], msgs[k]);
            &&& after.len() == before.len() + own.len()
            &&& after.take(before.len() as int) == before
            &&& after.skip(before.len() as int) == own
        }),
{
    let before = packets_of_poll(order, m, msgs);
    let after = packets_of_poll(order.push(k), m, msgs);
    assert(order.push(k).drop_last() =~= order);
    assert(after.take(before.len() as int) =~= before);
    assert(after.skip(before.len() as int) =~= poll_packets(k, m[k], msgs[k]));
}

/// What a session passes on to its relay when it is handed a message: that message, or
/// nothing of it.
pub proof fn law_passed_on(
    before: Sender<Vec<u8>>,
    after: Sender<Vec<u8>>,
)
    requires
        passes_on(before, after),
    ensures
        ({
            let o = offered(before).len();
            let a = accepted(before).len();
            let off = offered(after);
            let acc = accepted(after);
            &&& off.len() == o || off.len() == o + 1
            &&& off.take(o as int) == offered(before)
            &&& acc.len() == a || (acc.len() == a + 1 && off.len() == o + 1 && acc.last()
                == off.last())
            &&& acc.take(a as int) == accepted(before)
        }),
{
    let o = offered(before);
    let a = accepted(before);
    assert(offered(after).take(o.len() as int) =~= o);
    assert(accepted(after).take(a.len() as int) =~= a);
}

/// What the two ends of a channel have in common: message by message, what the one gives
/// out is what was taken from the other.
pub proof fn law_no_message_overtakes(tx: Sender<Vec<u8>>, rx: Receiver<Vec<u8>>, i: int)
    requires
        sends_in_order(tx) || receives_in_order(rx),
        joined(tx, rx),
        0 <= i < accepted(tx).len(),
        i < taken(rx).len(),
    ensures
        accepted(tx)[i] == taken(rx)[i],
{
    assert(in_step(accepted(tx), taken(rx)));
}

/// Sessions and relays that are well formed let no message overtake another, and ends that
/// are linked are the two ends of three channels.
pub proof fn law_linked(session: TcpSession, ends: RelayEnds, relay: Relay, other: Relay)
    ensures
        session.wf() <==> sends_in_order(session.uplink()) && receives_in_order(session.downlink()),
        relay.wf() <==> receives_in_order(relay.uplink()) && sends_in_order(relay.downlink()),
        session.linked(ends) <==> joined(session.uplink(), ends.uplink()) && joined(
            ends.downlink(),
            session.downlink(),
        ) && signal_joined(session.stop_line(), ends.stop_line()),
        relay.same_channels(other) ==> (forall|tx: Sender<Vec<u8>>|
            joined(tx, relay.uplink()) == joined(tx, other.uplink())),
        relay.same_channels(other) ==> (forall|rx: Receiver<Vec<u8>>|
            joined(relay.downlink(), rx) == joined(other.downlink(), rx)),
        relay.same_channels(other) ==> (forall|tx: Sender<()>|
            signal_joined(tx, relay.stop_line()) == signal_joined(tx, other.stop_line())),
{
}

/// The contents of a list of packets or messages are those of its elements, whole and in
/// order.
pub proof fn law_contents(v: Seq<Vec<u8>>, i: int)
    requires
        0 <= i < v.len(),
    ensures
        contents(v).len() == v.len(),
        contents(v)[i] == v[i]@,
{
}

} // verus!
