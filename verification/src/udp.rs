//! The UDP forwarder: a table of the sockets through which clients' datagrams
//! leave, one for each flow.
use std::collections::HashMap;
use vstd::prelude::*;

use crate::addr::Ipv4Addr;
use crate::bytes::{be16, be16_bytes, lemma_be16_inverse};
use crate::channel::contents;
use crate::packet::{
    build_ipv4_packet, classify_packet, ipv4_header, ipv4_packet, lemma_built_packet_is_read,
    length_covers_header, length_field, packet_of, PacketView, TransportInfo, UdpHeader,
};
use crate::random::random_u16;

verus! {

broadcast use vstd::std_specs::hash::group_hash_axioms;

/// After this time, in nanoseconds, a table entry is given up.
pub const UDP_TIMEOUT: u64 = 60_000_000_000;

/// The two ends of a UDP flow.
#[derive(Debug, Clone, Copy, PartialEq, Eq, Structural)]
pub struct UdpFlow {
    pub client_ip: Ipv4Addr,
    pub client_port: u16,
    pub dest_ip: Ipv4Addr,
    pub dest_port: u16,
}

/// An entry of the table: a flow and when its socket was made, in nanoseconds of
/// the caller's clock.
#[derive(Debug, Clone, Copy, PartialEq, Eq, Structural)]
pub struct NatEntry {
    pub flow: UdpFlow,
    pub last_used: u64,
}

/// The UDP forwarder. The table is keyed by the local port of each socket.
pub struct UdpForwarder {
    entries: HashMap<u16, NatEntry>,
    if_index: u32,
}

/// What the caller has to do with a client's packet.
#[derive(Debug)]
pub enum UdpAction {
    /// Nothing.
    Ignore,
    /// Send `payload` to the flow's destination through the socket on `nat_port`.
    Send { nat_port: u16, flow: UdpFlow, payload: Vec<u8> },
    /// Make a socket for `flow` and go on with `finish_forward`.
    Open { flow: UdpFlow, payload: Vec<u8> },
}

/// A datagram that came in on the socket on `nat_port`.
#[derive(Debug)]
pub struct Arrival {
    pub nat_port: u16,
    pub data: Vec<u8>,
}

/// What happened on a socket that is being emptied.
#[derive(Debug, Clone, Copy, PartialEq, Eq, Structural)]
pub enum SocketEvent {
    /// A look ahead showed a datagram of this length.
    Peeked(usize),
    /// There is none, or looking ahead failed.
    PeekFailed,
    /// A datagram was received from an IPv4 address.
    ReceivedV4,
    /// A datagram was received from another address.
    ReceivedOther,
    /// Receiving failed.
    ReceiveFailed,
}

/// What to do next on a socket that is being emptied.
#[derive(Debug, Clone, Copy, PartialEq, Eq, Structural)]
pub enum SocketStep {
    /// Receive a datagram into a buffer of this length.
    Receive(usize),
    /// Keep the datagram and look ahead again.
    Keep,
    /// Forget the datagram and look ahead again.
    Skip,
    /// Go on with the next socket.
    Leave,
}

/// The time from `then` to `now`, or zero.
pub open spec fn elapsed(then: u64, now: u64) -> int {
    if now >= then {
        now - then
    } else {
        0
    }
}

/// Whether a poll gives up `e`.
pub open spec fn timed_out(e: NatEntry, now: u64) -> bool {
    elapsed(e.last_used, now) > UDP_TIMEOUT
}

/// Whether a cleanup keeps `e`.
pub open spec fn fresh(e: NatEntry, now: u64) -> bool {
    elapsed(e.last_used, now) < UDP_TIMEOUT
}

/// No flow has two entries.
pub open spec fn one_entry_per_flow(m: Map<u16, NatEntry>) -> bool {
    forall|p: u16, q: u16| #[trigger]
        m.contains_key(p) && #[trigger] m.contains_key(q) && m[p].flow == m[q].flow ==> p == q
}

/// Whether `flow` has an entry.
pub open spec fn has_flow(m: Map<u16, NatEntry>, flow: UdpFlow) -> bool {
    exists|p: u16| #[trigger] m.contains_key(p) && m[p].flow == flow
}

/// Whether the forwarder leaves `pkt` alone: loopback traffic, traffic of the TUN
/// interface itself, and what Tor sends.
pub open spec fn udp_leaves_alone(
    pkt: PacketView,
    tun_ip: Ipv4Addr,
    tor_outbound_ip: Ipv4Addr,
) -> bool {
    let src = pkt.ip_header.src_ip;
    let dst = pkt.ip_header.dst_ip;
    ||| src.loopback()
    ||| dst.loopback()
    ||| src == tun_ip
    ||| dst == tun_ip
    ||| src == tor_outbound_ip
}

/// The flow and the payload of the UDP packet in `data` that the forwarder deals
/// with, if there is one.
pub open spec fn forwarded(
    data: Seq<u8>,
    tun_ip: Ipv4Addr,
    tor_outbound_ip: Ipv4Addr,
) -> Option<(UdpFlow, Seq<u8>)> {
    match packet_of(data) {
        Some(pkt) => match pkt.transport {
            TransportInfo::Udp(udp) => if udp_leaves_alone(pkt, tun_ip, tor_outbound_ip) {
                None
            } else {
                Some(
                    (
                        UdpFlow {
                            client_ip: pkt.ip_header.src_ip,
                            client_port: udp.src_port,
                            dest_ip: pkt.ip_header.dst_ip,
                            dest_port: udp.dst_port,
                        },
                        pkt.payload,
                    ),
                )
            },
            _ => None,
        },
        None => None,
    }
}

/// The action for a datagram of `flow`: through the socket it has, or through one
/// that is to be made.
pub open spec fn forwards(
    m: Map<u16, NatEntry>,
    flow: UdpFlow,
    payload: Seq<u8>,
    action: UdpAction,
) -> bool {
    if has_flow(m, flow) {
        &&& action matches UdpAction::Send { nat_port, flow: f, payload: p }
        &&& m.contains_key(nat_port)
        &&& m[nat_port].flow == flow
        &&& f == flow
        &&& p@ == payload
    } else {
        &&& action matches UdpAction::Open { flow: f, payload: p }
        &&& f == flow
        &&& p@ == payload
    }
}

/// The table with an entry for `flow` on the socket on `nat_port`.
pub open spec fn entered(
    m: Map<u16, NatEntry>,
    nat_port: u16,
    flow: UdpFlow,
    now: u64,
) -> Map<u16, NatEntry> {
    m.insert(nat_port, NatEntry { flow, last_used: now })
}

/// The entries of `m` that `keep` holds of.
pub open spec fn kept(m: Map<u16, NatEntry>, keep: spec_fn(NatEntry) -> bool) -> Map<u16, NatEntry> {
    Map::new(|p: u16| m.contains_key(p) && keep(m[p]), |p: u16| m[p])
}

/// The packet that brings `data` back to the client of `flow`. The first eight
/// bytes of `data` stand where the UDP header is: when they are all there, the two
/// ports are written over the first four and the checksum is cleared.
pub open spec fn udp_response(flow: UdpFlow, data: Seq<u8>, identification: u16) -> Seq<u8> {
    let body = if data.len() >= 8 {
        be16_bytes(flow.dest_port) + be16_bytes(flow.client_port) + data.subrange(4, 6) + seq![
            0u8,
            0u8,
        ] + data.skip(8)
    } else {
        data
    };
    ipv4_packet(body, flow.dest_ip, flow.client_ip, 17, 64, identification)
}

/// The packets for `arrivals`, in order; the identification of the packet for the
/// `i`th is `ids[i]`. What came in on a socket that has no live entry is left out.
pub open spec fn udp_responses(
    m: Map<u16, NatEntry>,
    now: u64,
    arrivals: Seq<Arrival>,
    ids: Seq<u16>,
) -> Seq<Seq<u8>>
    decreases arrivals.len(),
{
    if arrivals.len() == 0 {
        Seq::empty()
    } else {
        let rest = udp_responses(m, now, arrivals.drop_last(), ids.drop_last());
        let last = arrivals.last();
        if m.contains_key(last.nat_port) && !timed_out(m[last.nat_port], now) {
            rest.push(udp_response(m[last.nat_port].flow, last.data@, ids.last()))
        } else {
            rest
        }
    }
}

/// What to do after `event` on a socket that is being emptied.
pub open spec fn next_step(event: SocketEvent) -> SocketStep {
    match event {
        SocketEvent::Peeked(n) => SocketStep::Receive(n),
        SocketEvent::PeekFailed => SocketStep::Leave,
        SocketEvent::ReceivedV4 => SocketStep::Keep,
        SocketEvent::ReceivedOther => SocketStep::Skip,
        SocketEvent::ReceiveFailed => SocketStep::Leave,
    }
}

/// What to do after `event` on a socket that is being emptied.
pub fn socket_step(event: SocketEvent) -> (r: SocketStep)
    ensures
        r == next_step(event),
{
    match event {
        SocketEvent::Peeked(n) => SocketStep::Receive(n),
        SocketEvent::PeekFailed => SocketStep::Leave,
        SocketEvent::ReceivedV4 => SocketStep::Keep,
        SocketEvent::ReceivedOther => SocketStep::Skip,
        SocketEvent::ReceiveFailed => SocketStep::Leave,
    }
}

/// Builds the packet that brings `data` back to the client of `flow`.
pub fn build_udp_response(flow: &UdpFlow, data: &[u8], identification: u16) -> (r: Vec<u8>)
    ensures
        r@ == udp_response(*flow, data@, identification),
{
    let mut pkt = build_ipv4_packet(
        data,
        flow.dest_ip,
        flow.client_ip,
        17,
        64,
        identification,
    );
    let ghost header = ipv4_header(
        length_field(20 + data@.len() as int),
        identification,
        0x4000,
        64,
        17,
        flow.dest_ip,
        flow.client_ip,
    );
    assert(header.len() == 20);
    if pkt.len() >= 28 {
        pkt[20] = (flow.dest_port / 0x100) as u8;
        pkt[21] = (flow.dest_port % 0x100) as u8;
        pkt[22] = (flow.client_port / 0x100) as u8;
        pkt[23] = (flow.client_port % 0x100) as u8;
        pkt[26] = 0;
        pkt[27] = 0;
        proof {
            let body = be16_bytes(flow.dest_port) + be16_bytes(flow.client_port) + data@.subrange(
                4,
                6,
            ) + seq![0u8, 0u8] + data@.skip(8);
            assert(body.len() == data@.len());
            assert(pkt@ =~= header + body);
        }
    }
    pkt
}

/// The time from `then` to `now`, or zero.
fn elapsed_since(then: u64, now: u64) -> (r: u64)
    ensures
        r == elapsed(then, now),
{
    if now >= then {
        now - then
    } else {
        0
    }
}

impl View for UdpForwarder {
    type V = Map<u16, NatEntry>;

    closed spec fn view(&self) -> Map<u16, NatEntry> {
        self.entries@
    }
}

impl UdpForwarder {
    /// No flow has two entries.
    pub open spec fn wf(self) -> bool {
        one_entry_per_flow(self@)
    }

    /// The interface that the sockets are bound to.
    pub closed spec fn interface(self) -> u32 {
        self.if_index
    }

    /// A forwarder with an empty table, for sockets on the interface `if_index`.
    pub fn new(if_index: u32) -> (r: UdpForwarder)
        ensures
            r@ == Map::<u16, NatEntry>::empty(),
            r.interface() == if_index,
            r.wf(),
    {
        UdpForwarder { entries: HashMap::new(), if_index }
    }

    /// The interface that the sockets are bound to.
    pub fn if_index(&self) -> (r: u32)
        ensures
            r == self.interface(),
    {
        self.if_index
    }

    /// How many entries the table has.
    pub fn entry_count(&self) -> (r: usize)
        ensures
            self@.dom().finite(),
            r == self@.dom().len(),
    {
        self.entries.len()
    }

    /// What to do with a client's packet. Packets that are not UDP or that the
    /// forwarder leaves alone are ignored.
    pub fn handle_packet(
        &self,
        data: &[u8],
        tun_ip: Ipv4Addr,
        tor_outbound_ip: Ipv4Addr,
    ) -> (r: UdpAction)
        requires
            length_covers_header(data@),
        ensures
            match forwarded(data@, tun_ip, tor_outbound_ip) {
                None => r == UdpAction::Ignore,
                Some((flow, payload)) => forwards(self@, flow, payload, r),
            },
    {
        let pkt = match classify_packet(data) {
            Some(pkt) => pkt,
            None => {
                return UdpAction::Ignore;
            },
        };
        let udp: UdpHeader = match pkt.transport {
            TransportInfo::Udp(udp) => udp,
            _ => {
                return UdpAction::Ignore;
            },
        };
        let src_ip = pkt.ip_header.src_ip;
        let dst_ip = pkt.ip_header.dst_ip;
        if src_ip.is_loopback() || dst_ip.is_loopback() {
            return UdpAction::Ignore;
        }
        if src_ip == tun_ip || dst_ip == tun_ip {
            return UdpAction::Ignore;
        }
        if src_ip == tor_outbound_ip {
            return UdpAction::Ignore;
        }
        let flow = UdpFlow {
            client_ip: src_ip,
            client_port: udp.src_port,
            dest_ip: dst_ip,
            dest_port: udp.dst_port,
        };
        self.forward(flow, pkt.payload)
    }

    /// What to do with a datagram of `flow`.
    pub fn forward(&self, flow: UdpFlow, payload: Vec<u8>) -> (r: UdpAction)
        ensures
            forwards(self@, flow, payload@, r),
    {
        match self.find_nat(&flow) {
            Some(nat_port) => UdpAction::Send { nat_port, flow, payload },
            None => UdpAction::Open { flow, payload },
        }
    }

    /// The ports of the table.
    fn ports(&self) -> (r: Vec<u16>)
        ensures
            r@.no_duplicates(),
            forall|p: u16| r@.contains(p) <==> self@.contains_key(p),
    {
        let ghost keys = vstd::std_specs::iter::IteratorSpec::remaining(
            &vstd::std_specs::hash::spec_keys_iter(&self.entries),
        ).unref();
        let mut r: Vec<u16> = Vec::new();
        for p in it: self.entries.keys()
            invariant
                it.seq().unref() == keys,
                r@ =~= keys.take(it.index() as int),
        {
            r.push(*p);
        }
        assert(r@ =~= keys);
        assert forall|p: u16| r@.contains(p) <==> self@.contains_key(p) by {
            assert(keys.to_set().contains(p) <==> keys.contains(p));
        }
        r
    }

    /// The port of the socket of `flow`.
    pub fn find_nat(&self, flow: &UdpFlow) -> (r: Option<u16>)
        ensures
            r is Some <==> has_flow(self@, *flow),
            r matches Some(p) ==> self@.contains_key(p) && self@[p].flow == *flow,
    {
        let ports = self.ports();
        let mut i: usize = 0;
        while i < ports.len()
            invariant
                i <= ports@.len(),
                forall|p: u16| ports@.contains(p) <==> self@.contains_key(p),
                forall|j: int|
                    0 <= j < i ==> self@[#[trigger] ports@[j]].flow != *flow,
            decreases ports@.len() - i,
        {
            let port: u16 = ports[i];
            assert(ports@.contains(port));
            if let Some(entry) = self.entries.get(&port) {
                if entry.flow == *flow {
                    return Some(port);
                }
            }
            i = i + 1;
        }
        proof {
            if has_flow(self@, *flow) {
                let p = choose|p: u16| #[trigger]
                    self@.contains_key(p) && self@[p].flow == *flow;
                assert(ports@.contains(p));
                let j = choose|j: int| 0 <= j < ports@.len() && ports@[j] == p;
                assert(self@[ports@[j]].flow == *flow);
            }
        }
        None
    }

    /// Goes on after `UdpAction::Open`. `socket` is the local port of the socket
    /// that was made for `flow`, or `None` if that failed; then the datagram is
    /// dropped.
    pub fn finish_forward(
        &mut self,
        flow: UdpFlow,
        payload: Vec<u8>,
        socket: Option<u16>,
        now: u64,
    ) -> (r: UdpAction)
        requires
            old(self).wf(),
            !has_flow(old(self)@, flow),
        ensures
            final(self).wf(),
            final(self).interface() == old(self).interface(),
            match socket {
                None => r == UdpAction::Ignore && final(self)@ == old(self)@,
                Some(nat_port) => final(self)@ == entered(old(self)@, nat_port, flow, now)
                    && final(self)@ == old(self)@.insert(
                    nat_port,
                    NatEntry { flow, last_used: now },
                ) && forwards(final(self)@, flow, payload@, r),
            },
    {
        match socket {
            None => UdpAction::Ignore,
            Some(nat_port) => {
                self.entries.insert(nat_port, NatEntry { flow, last_used: now });
                assert(self@.contains_key(nat_port) && self@[nat_port].flow == flow);
                UdpAction::Send { nat_port, flow, payload }
            },
        }
    }

    /// The ports whose sockets are to be emptied: those of the entries that are not
    /// timed out.
    pub fn live_ports(&self, now: u64) -> (r: Vec<u16>)
        ensures
            r@.no_duplicates(),
            forall|p: u16|
                r@.contains(p) <==> self@.contains_key(p) && !timed_out(self@[p], now),
    {
        let ports = self.ports();
        let mut r: Vec<u16> = Vec::new();
        let mut i: usize = 0;
        while i < ports.len()
            invariant
                i <= ports@.len(),
                ports@.no_duplicates(),
                forall|p: u16| ports@.contains(p) <==> self@.contains_key(p),
                r@.no_duplicates(),
                forall|p: u16|
                    r@.contains(p) <==> ports@.take(i as int).contains(p) && !timed_out(
                        self@[p],
                        now,
                    ),
            decreases ports@.len() - i,
        {
            let port: u16 = ports[i];
            let ghost done = ports@.take(i as int);
            let ghost next = ports@.take(i + 1);
            let ghost r0 = r@;
            proof {
                assert(ports@.contains(port));
                lemma_take_next(ports@, i as int);
            }
            if let Some(entry) = self.entries.get(&port) {
                if elapsed_since(entry.last_used, now) <= UDP_TIMEOUT {
                    r.push(port);
                    proof {
                        assert(!r0.contains(port));
                        assert forall|p: u16| r@.contains(p) <==> r0.contains(p) || p == port by {
                            assert(r@[r0.len() as int] == port);
                            if r0.contains(p) {
                                let j = choose|j: int| 0 <= j < r0.len() && r0[j] == p;
                                assert(r@[j] == p);
                            }
                        }
                    }
                }
            }
            assert forall|p: u16|
                r@.contains(p) <==> next.contains(p) && !timed_out(self@[p], now) by {
                assert(r0.contains(p) <==> done.contains(p) && !timed_out(self@[p], now));
            }
            i = i + 1;
        }
        assert(ports@.take(i as int) =~= ports@);
        r
    }

    /// Gives up the entries that are timed out, and returns the packets that bring
    /// `arrivals` back to the clients, in order, to be written to the TUN device.
    pub fn poll_responses(&mut self, now: u64, arrivals: &Vec<Arrival>) -> (r: Vec<Vec<u8>>)
        requires
            old(self).wf(),
        ensures
            final(self).wf(),
            final(self).interface() == old(self).interface(),
            final(self)@ == kept(old(self)@, |e: NatEntry| !timed_out(e, now)),
            exists|ids: Seq<u16>|
                ids.len() == arrivals@.len() && contents(r@) == #[trigger] udp_responses(
                    old(self)@,
                    now,
                    arrivals@,
                    ids,
                ),
    {
        let r = self.responses(now, arrivals);
        self.retain(now, true);
        r
    }

    /// The packets that bring `arrivals` back to the clients, each with a random
    /// identification.
    fn responses(&self, now: u64, arrivals: &Vec<Arrival>) -> (r: Vec<Vec<u8>>)
        ensures
            exists|ids: Seq<u16>|
                ids.len() == arrivals@.len() && contents(r@) == #[trigger] udp_responses(
                    self@,
                    now,
                    arrivals@,
                    ids,
                ),
    {
        let ghost mut ids: Seq<u16> = Seq::empty();
        let mut r: Vec<Vec<u8>> = Vec::new();
        let mut i: usize = 0;
        assert(contents(r@) =~= udp_responses(self@, now, arrivals@.take(0), ids));
        while i < arrivals.len()
            invariant
                i <= arrivals@.len(),
                ids.len() == i,
                contents(r@) == udp_responses(self@, now, arrivals@.take(i as int), ids),
            decreases arrivals@.len() - i,
        {
            let arrival = &arrivals[i];
            let ghost before = r@;
            let ghost mut drawn: u16 = 0;
            if let Some(entry) = self.entries.get(&arrival.nat_port) {
                if elapsed_since(entry.last_used, now) <= UDP_TIMEOUT {
                    let id: u16 = random_u16();
                    let pkt = build_udp_response(&entry.flow, arrival.data.as_slice(), id);
                    r.push(pkt);
                    proof {
                        drawn = id;
                        assert(contents(r@) =~= contents(before).push(pkt@));
                    }
                }
            }
            proof {
                let next = arrivals@.take(i + 1);
                assert(next.drop_last() =~= arrivals@.take(i as int));
                assert(next.last() == *arrival);
                assert(ids.push(drawn).drop_last() =~= ids);
                ids = ids.push(drawn);
            }
            i = i + 1;
        }
        assert(arrivals@.take(i as int) =~= arrivals@);
        r
    }

    /// Gives up the entries that are as old as the timeout.
    pub fn cleanup(&mut self, now: u64)
        requires
            old(self).wf(),
        ensures
            final(self).wf(),
            final(self).interface() == old(self).interface(),
            final(self)@ == kept(old(self)@, |e: NatEntry| fresh(e, now)),
    {
        self.retain(now, false);
    }

    /// Keeps the entries that are younger than the timeout and, if `exact`, those
    /// that are exactly as old.
    fn retain(&mut self, now: u64, exact: bool)
        requires
            old(self).wf(),
        ensures
            final(self).wf(),
            final(self).interface() == old(self).interface(),
            exact ==> final(self)@ == kept(old(self)@, |e: NatEntry| !timed_out(e, now)),
            !exact ==> final(self)@ == kept(old(self)@, |e: NatEntry| fresh(e, now)),
    {
        let ports = self.ports();
        let ghost m = self@;
        let ghost keep = |e: NatEntry|
            if exact {
                !timed_out(e, now)
            } else {
                fresh(e, now)
            };
        let mut i: usize = 0;
        while i < ports.len()
            invariant
                i <= ports@.len(),
                m == old(self)@,
                self.if_index == old(self).if_index,
                keep == (|e: NatEntry|
                    if exact {
                        !timed_out(e, now)
                    } else {
                        fresh(e, now)
                    }),
                forall|p: u16| ports@.contains(p) <==> m.contains_key(p),
                forall|p: u16| #[trigger]
                    self@.contains_key(p) <==> m.contains_key(p) && (ports@.take(
                        i as int,
                    ).contains(p) ==> keep(m[p])),
                forall|p: u16| #[trigger] self@.contains_key(p) ==> self@[p] == m[p],
            decreases ports@.len() - i,
        {
            let port: u16 = ports[i];
            let ghost before = self@;
            proof {
                assert(ports@.contains(port));
                lemma_take_next(ports@, i as int);
            }
            let drop_it: bool = match self.entries.get(&port) {
                Some(entry) => {
                    let age: u64 = elapsed_since(entry.last_used, now);
                    age > UDP_TIMEOUT || (!exact && age == UDP_TIMEOUT)
                },
                None => false,
            };
            if drop_it {
                self.entries.remove(&port);
                assert(self@ == before.remove(port));
            }
            i = i + 1;
        }
        assert(ports@.take(i as int) =~= ports@);
        assert(exact ==> self@ =~= kept(m, |e: NatEntry| !timed_out(e, now)));
        assert(!exact ==> self@ =~= kept(m, |e: NatEntry| fresh(e, now)));
    }
}

/// The elements of the first `i + 1` places are those of the first `i` and the next.
proof fn lemma_take_next(s: Seq<u16>, i: int)
    requires
        0 <= i < s.len(),
    ensures
        forall|p: u16| s.take(i + 1).contains(p) <==> s.take(i).contains(p) || p == s[i],
        s.no_duplicates() ==> !s.take(i).contains(s[i]),
{
    let done = s.take(i);
    let next = s.take(i + 1);
    assert forall|p: u16| next.contains(p) <==> done.contains(p) || p == s[i] by {
        assert(next[i] == s[i]);
        if done.contains(p) {
            let j = choose|j: int| 0 <= j < done.len() && done[j] == p;
            assert(next[j] == p);
        }
        if next.contains(p) && p != s[i] {
            let j = choose|j: int| 0 <= j < next.len() && next[j] == p;
            assert(done[j] == p);
        }
    }
}

/// The packet that brings a datagram back reaches the client of the flow, from where
/// the client was sending, with the datagram's bytes from the ninth on as its payload,
/// if the datagram has eight bytes and the packet is no longer than its length field
/// can say.
pub proof fn lemma_response_is_read(flow: UdpFlow, data: Seq<u8>, identification: u16)
    requires
        8 <= data.len(),
        20 + data.len() <= 0xffff,
    ensures
        ({
            let d = udp_response(flow, data, identification);
            &&& length_covers_header(d)
            &&& packet_of(d) matches Some(pkt)
            &&& pkt.ip_header.src_ip == flow.dest_ip
            &&& pkt.ip_header.dst_ip == flow.client_ip
            &&& pkt.transport == TransportInfo::Udp(
                UdpHeader {
                    src_port: flow.dest_port,
                    dst_port: flow.client_port,
                    length: be16(data[4], data[5]),
                    checksum: 0,
                },
            )
            &&& pkt.payload == data.skip(8)
        }),
{
    broadcast use lemma_be16_inverse;

    let ports = be16_bytes(flow.dest_port) + be16_bytes(flow.client_port);
    let body = ports + data.subrange(4, 6) + seq![0u8, 0u8] + data.skip(8);
    lemma_built_packet_is_read(body, flow.dest_ip, flow.client_ip, 17, 64, identification);
    assert(body[0] == be16_bytes(flow.dest_port)[0] && body[1] == be16_bytes(flow.dest_port)[1]);
    assert(body[2] == be16_bytes(flow.client_port)[0] && body[3] == be16_bytes(
        flow.client_port,
    )[1]);
    assert(body[4] == data[4] && body[5] == data[5]);
    assert(body[6] == 0 && body[7] == 0);
    assert(body.skip(8) =~= data.skip(8));
}

/// Once a flow has a socket, its datagrams go through that socket and no other is
/// made for it, until the entry is given up.
pub proof fn lemma_flow_keeps_its_socket(
    m: Map<u16, NatEntry>,
    flow: UdpFlow,
    nat_port: u16,
    now: u64,
    payload: Seq<u8>,
    action: UdpAction,
)
    requires
        one_entry_per_flow(m),
        !has_flow(m, flow),
        forwards(m.insert(nat_port, NatEntry { flow, last_used: now }), flow, payload, action),
    ensures
        one_entry_per_flow(m.insert(nat_port, NatEntry { flow, last_used: now })),
        action matches UdpAction::Send { nat_port: p, flow: f, payload: b } && p == nat_port && f
            == flow && b@ == payload,
{
    let after = m.insert(nat_port, NatEntry { flow, last_used: now });
    assert(after.contains_key(nat_port) && after[nat_port].flow == flow);
}

/// A flow whose entry a poll keeps goes on through the same socket.
pub proof fn lemma_kept_flow_keeps_its_socket(m: Map<u16, NatEntry>, now: u64, p: u16)
    requires
        m.contains_key(p),
    ensures
        kept(m, |e: NatEntry| !timed_out(e, now)).contains_key(p) <==> elapsed(m[p].last_used, now)
            <= UDP_TIMEOUT,
        kept(m, |e: NatEntry| !timed_out(e, now)).contains_key(p) ==> kept(
            m,
            |e: NatEntry| !timed_out(e, now),
        )[p] == m[p],
{
}

/// A cleanup gives up all that a poll at the same time gives up: a poll after it
/// gives up nothing more, and a cleanup after a poll leaves what it would have left
/// before.
pub proof fn lemma_cleanup_is_stricter(m: Map<u16, NatEntry>, now: u64)
    ensures
        kept(kept(m, |e: NatEntry| fresh(e, now)), |e: NatEntry| !timed_out(e, now)) == kept(
            m,
            |e: NatEntry| fresh(e, now),
        ),
        kept(kept(m, |e: NatEntry| !timed_out(e, now)), |e: NatEntry| fresh(e, now)) == kept(
            m,
            |e: NatEntry| fresh(e, now),
        ),
{
    let cleaned = kept(m, |e: NatEntry| fresh(e, now));
    let polled = kept(m, |e: NatEntry| !timed_out(e, now));
    assert(kept(cleaned, |e: NatEntry| !timed_out(e, now)) =~= cleaned);
    assert(kept(polled, |e: NatEntry| fresh(e, now)) =~= cleaned);
}

/// A poll writes at most one packet for each datagram that came in, and one for each
/// when all of them came in on sockets whose entries are not timed out.
pub proof fn lemma_one_packet_each(
    m: Map<u16, NatEntry>,
    now: u64,
    arrivals: Seq<Arrival>,
    ids: Seq<u16>,
)
    requires
        ids.len() == arrivals.len(),
    ensures
        udp_responses(m, now, arrivals, ids).len() <= arrivals.len(),
        (forall|i: int|
            0 <= i < arrivals.len() ==> m.contains_key((#[trigger] arrivals[i]).nat_port)
                && !timed_out(m[arrivals[i].nat_port], now)) ==> udp_responses(
            m,
            now,
            arrivals,
            ids,
        ) =~= Seq::new(
            arrivals.len(),
            |i: int| udp_response(m[arrivals[i].nat_port].flow, arrivals[i].data@, ids[i]),
        ),
    decreases arrivals.len(),
{
    if arrivals.len() > 0 {
        let rest = arrivals.drop_last();
        lemma_one_packet_each(m, now, rest, ids.drop_last());
        assert(forall|i: int| 0 <= i < rest.len() ==> rest[i] == arrivals[i]);
    }
}

} // verus!
