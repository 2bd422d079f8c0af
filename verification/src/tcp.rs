//! The TCP proxy: it terminates the client's TCP flows and hands their data to
//! relays.
use std::collections::HashMap;
use vstd::prelude::*;

use crate::addr::Ipv4Addr;
use crate::channel::{accepted, contents};
use crate::flow::{lemma_pack_unpack, lemma_packed_injective, lemma_unpack_pack, FlowKey};
use crate::packet::{
    ack_flag, classify_packet, length_covers_header, packet_of, syn_flag, PacketInfo, PacketView,
    TcpHeader, TransportInfo,
};
use crate::random::random_u32;
use crate::session::{
    after_poll, after_segment, opened, opens_flow, passes_on, poll_packets, session_ok, RelayEnds,
    RelayStart, SessionState, TcpSession,
};

verus! {

broadcast use vstd::std_specs::hash::group_hash_axioms;

/// The TCP proxy and its sessions.
pub struct TcpProxy {
    sessions: HashMap<u128, TcpSession>,
    physical_if_index: u32,
    socks_host: String,
    socks_port: u16,
    tor_outbound_ip: Ipv4Addr,
    tun_ip: Ipv4Addr,
}

/// A session that was taken out of the proxy.
pub struct ClosedSession {
    pub key: FlowKey,
    pub session: TcpSession,
}

/// What a poll of all sessions brings: packets to write to the client, in order,
/// and the sessions that are gone.
pub struct Responses {
    pub packets: Vec<Vec<u8>>,
    pub closed: Vec<ClosedSession>,
}

/// What is known of a proxy.
#[verifier::ext_equal]
pub struct ProxyState {
    pub sessions: Map<FlowKey, SessionState>,
    pub physical_if_index: u32,
    pub socks_host: Seq<char>,
    pub socks_port: u16,
    pub tor_outbound_ip: Ipv4Addr,
    pub tun_ip: Ipv4Addr,
}

/// The sessions of a table that is keyed by packed keys.
spec fn flows(raw: Map<u128, TcpSession>) -> Map<FlowKey, SessionState> {
    Map::new(|k: FlowKey| raw.contains_key(k.packed()), |k: FlowKey| raw[k.packed()]@)
}

impl View for TcpProxy {
    type V = ProxyState;

    closed spec fn view(&self) -> ProxyState {
        ProxyState {
            sessions: flows(self.sessions@),
            physical_if_index: self.physical_if_index,
            socks_host: self.socks_host@,
            socks_port: self.socks_port,
            tor_outbound_ip: self.tor_outbound_ip,
            tun_ip: self.tun_ip,
        }
    }
}

/// Whether the proxy leaves `pkt` alone: traffic of the TUN interface itself,
/// loopback traffic, and what Tor sends.
pub open spec fn leaves_alone(p: ProxyState, pkt: PacketView) -> bool {
    let src = pkt.ip_header.src_ip;
    let dst = pkt.ip_header.dst_ip;
    ||| dst == p.tun_ip
    ||| src == p.tun_ip
    ||| src.loopback()
    ||| dst.loopback()
    ||| src == p.tor_outbound_ip
}

/// The TCP packet in `data` that the proxy deals with, if there is one.
pub open spec fn proxied(p: ProxyState, data: Seq<u8>) -> Option<(PacketView, TcpHeader)> {
    match packet_of(data) {
        Some(pkt) => match pkt.transport {
            TransportInfo::Tcp(tcp) => if leaves_alone(p, pkt) {
                None
            } else {
                Some((pkt, tcp))
            },
            _ => None,
        },
        None => None,
    }
}

/// The flow that a packet of the client belongs to.
pub open spec fn flow_of(pkt: PacketView, tcp: TcpHeader) -> FlowKey {
    FlowKey::of(pkt.ip_header.src_ip, tcp.src_port, pkt.ip_header.dst_ip, tcp.dst_port)
}

/// Whether `data` opens a session: a SYN without ACK of a flow that has none.
pub open spec fn opens_session(p: ProxyState, data: Seq<u8>) -> bool {
    proxied(p, data) matches Some((pkt, tcp)) && opens_flow(tcp) && !p.sessions.contains_key(
        flow_of(pkt, tcp),
    )
}

/// The proxy after the client's packet `data`, when a session that it opens starts
/// at `isn`.
pub open spec fn after_packet(p: ProxyState, data: Seq<u8>, isn: u32) -> ProxyState {
    match proxied(p, data) {
        None => p,
        Some((pkt, tcp)) => {
            let key = flow_of(pkt, tcp);
            if opens_flow(tcp) {
                if p.sessions.contains_key(key) {
                    p
                } else {
                    ProxyState { sessions: p.sessions.insert(key, opened(pkt, tcp, isn)), ..p }
                }
            } else if p.sessions.contains_key(key) {
                ProxyState {
                    sessions: p.sessions.insert(key, after_segment(p.sessions[key], pkt, tcp)),
                    ..p
                }
            } else {
                p
            }
        },
    }
}

/// The sessions that stay at a poll in which `msgs` was ready.
pub open spec fn sessions_after_poll(
    m: Map<FlowKey, SessionState>,
    msgs: Map<FlowKey, Seq<Seq<u8>>>,
) -> Map<FlowKey, SessionState> {
    Map::new(
        |k: FlowKey| m.contains_key(k) && !m[k].pending_close,
        |k: FlowKey| after_poll(m[k], msgs[k]),
    )
}

/// The packets of a poll that walks the sessions in `order`.
pub open spec fn packets_of_poll(
    order: Seq<FlowKey>,
    m: Map<FlowKey, SessionState>,
    msgs: Map<FlowKey, Seq<Seq<u8>>>,
) -> Seq<Seq<u8>>
    decreases order.len(),
{
    if order.len() == 0 {
        Seq::empty()
    } else {
        packets_of_poll(order.drop_last(), m, msgs) + poll_packets(
            order.last(),
            m[order.last()],
            msgs[order.last()],
        )
    }
}

/// The session as it is handed out when it is gone: written out, its relay told to
/// stop once more.
pub open spec fn dismissed(s: SessionState) -> SessionState {
    SessionState {
        pending_output: Seq::empty(),
        close_signals: s.close_signals + 1,
        ..s
    }
}

/// Exactly the closing sessions of `m`, each once.
pub open spec fn closes_exactly(m: Map<FlowKey, SessionState>, closed: Seq<ClosedSession>) -> bool {
    &&& forall|i: int|
        0 <= i < closed.len() ==> m.contains_key(#[trigger] closed[i].key)
            && m[closed[i].key].pending_close && closed[i].session@ == dismissed(m[closed[i].key])
    &&& forall|i: int, j: int|
        0 <= i < j < closed.len() ==> (#[trigger] closed[i]).key != (#[trigger] closed[j]).key
    &&& forall|k: FlowKey| #[trigger]
        m.contains_key(k) && m[k].pending_close ==> exists|i: int|
            0 <= i < closed.len() && (#[trigger] closed[i]).key == k
}

/// What a poll does: for some order of the sessions and some messages that were
/// ready, `packets` is written, `closed` are the closing sessions, and the others
/// stay.
pub open spec fn polls(
    before: ProxyState,
    after: ProxyState,
    packets: Seq<Seq<u8>>,
    closed: Seq<ClosedSession>,
    order: Seq<FlowKey>,
    msgs: Map<FlowKey, Seq<Seq<u8>>>,
) -> bool {
    &&& order.no_duplicates()
    &&& forall|k: FlowKey| order.contains(k) <==> before.sessions.contains_key(k)
    &&& packets == packets_of_poll(order, before.sessions, msgs)
    &&& closes_exactly(before.sessions, closed)
    &&& after == (ProxyState {
        sessions: sessions_after_poll(before.sessions, msgs),
        ..before
    })
}

proof fn lemma_flows_insert(raw: Map<u128, TcpSession>, key: FlowKey, s: TcpSession)
    ensures
        flows(raw.insert(key.packed(), s)) == flows(raw).insert(key, s@),
{
    assert forall|k: FlowKey| k.packed() == key.packed() implies k == key by {
        lemma_packed_injective(k, key);
    }
    assert(flows(raw.insert(key.packed(), s)) =~= flows(raw).insert(key, s@));
}

proof fn lemma_flows_count(raw: Map<u128, TcpSession>)
    requires
        raw.dom().finite(),
        forall|n: u128| raw.contains_key(n) ==> n < 0x1_0000_0000_0000_0000_0000_0000,
    ensures
        flows(raw).dom().finite(),
        flows(raw).dom().len() == raw.len(),
{
    let unpack = |n: u128| FlowKey::unpacked(n);
    assert forall|n1: u128, n2: u128|
        raw.dom().contains(n1) && raw.dom().contains(n2) && #[trigger] unpack(n1)
            == #[trigger] unpack(n2) implies n1 == n2 by {
        assert(raw.contains_key(n1) && raw.contains_key(n2));
        lemma_pack_unpack(n1);
        lemma_pack_unpack(n2);
    }
    assert forall|k: FlowKey| flows(raw).dom().contains(k) implies exists|n: u128|
        raw.dom().contains(n) && k == #[trigger] unpack(n) by {
        lemma_unpack_pack(k);
        assert(unpack(k.packed()) == k);
    }
    assert forall|n: u128| raw.dom().contains(n) implies flows(raw).dom().contains(
        #[trigger] unpack(n),
    ) by {
        assert(raw.contains_key(n));
        lemma_pack_unpack(n);
    }
    assert(flows(raw).dom() =~= raw.dom().map(unpack));
    raw.dom().lemma_map_finite(unpack);
    vstd::set_lib::lemma_map_size(raw.dom(), flows(raw).dom(), unpack);
}

/// The closing sessions among those whose packed keys are in `done`, each once.
spec fn closes_so_far(
    m: Map<FlowKey, SessionState>,
    closed: Seq<ClosedSession>,
    done: Seq<u128>,
) -> bool {
    &&& forall|i: int|
        0 <= i < closed.len() ==> m.contains_key(#[trigger] closed[i].key)
            && m[closed[i].key].pending_close && closed[i].session@ == dismissed(m[closed[i].key])
            && done.contains(closed[i].key.packed())
    &&& forall|i: int, j: int|
        0 <= i < j < closed.len() ==> (#[trigger] closed[i]).key != (#[trigger] closed[j]).key
    &&& forall|k: FlowKey| #[trigger]
        m.contains_key(k) && m[k].pending_close && done.contains(k.packed()) ==> exists|i: int|
            0 <= i < closed.len() && (#[trigger] closed[i]).key == k
}

proof fn lemma_closes_step(
    m: Map<FlowKey, SessionState>,
    closed: Seq<ClosedSession>,
    done: Seq<u128>,
    gone: ClosedSession,
    packed: u128,
)
    requires
        closes_so_far(m, closed, done),
        !done.contains(packed),
        gone.key.packed() == packed,
        m.contains_key(gone.key),
        m[gone.key].pending_close,
        gone.session@ == dismissed(m[gone.key]),
    ensures
        closes_so_far(m, closed.push(gone), done.push(packed)),
{
    let all = closed.push(gone);
    let next = done.push(packed);
    assert forall|n: u128| next.contains(n) <==> done.contains(n) || n == packed by {
        assert(next[done.len() as int] == packed);
        if done.contains(n) {
            let j = choose|j: int| 0 <= j < done.len() && done[j] == n;
            assert(next[j] == n);
        }
    }
    assert forall|k: FlowKey| #[trigger]
        m.contains_key(k) && m[k].pending_close && next.contains(k.packed()) implies exists|i: int|
        0 <= i < all.len() && (#[trigger] all[i]).key == k by {
        if k.packed() == packed {
            lemma_packed_injective(k, gone.key);
            assert(all[closed.len() as int].key == k);
        } else {
            let i = choose|i: int| 0 <= i < closed.len() && (#[trigger] closed[i]).key == k;
            assert(all[i].key == k);
        }
    }
}

proof fn lemma_closes_skip(
    m: Map<FlowKey, SessionState>,
    closed: Seq<ClosedSession>,
    done: Seq<u128>,
    packed: u128,
)
    requires
        closes_so_far(m, closed, done),
        forall|k: FlowKey| k.packed() == packed ==> !m[k].pending_close,
    ensures
        closes_so_far(m, closed, done.push(packed)),
{
    let next = done.push(packed);
    assert forall|n: u128| next.contains(n) <==> done.contains(n) || n == packed by {
        assert(next[done.len() as int] == packed);
        if done.contains(n) {
            let j = choose|j: int| 0 <= j < done.len() && done[j] == n;
            assert(next[j] == n);
        }
    }
}

proof fn lemma_closes_done(
    m: Map<FlowKey, SessionState>,
    closed: Seq<ClosedSession>,
    done: Seq<u128>,
    raw: Map<u128, TcpSession>,
)
    requires
        closes_so_far(m, closed, done),
        m == flows(raw),
        forall|n: u128| done.contains(n) <==> raw.contains_key(n),
    ensures
        closes_exactly(m, closed),
{
}

proof fn lemma_packets_of_poll(
    order: Seq<FlowKey>,
    m: Map<FlowKey, SessionState>,
    msgs: Map<FlowKey, Seq<Seq<u8>>>,
    key: FlowKey,
    more: Seq<Seq<u8>>,
)
    requires
        forall|j: int| 0 <= j < order.len() ==> #[trigger] order[j] != key,
    ensures
        packets_of_poll(order, m, msgs.insert(key, more)) == packets_of_poll(order, m, msgs),
    decreases order.len(),
{
    if order.len() > 0 {
        let rest = order.drop_last();
        assert forall|j: int| 0 <= j < rest.len() implies #[trigger] rest[j] != key by {
            assert(rest[j] == order[j]);
        }
        lemma_packets_of_poll(rest, m, msgs, key, more);
    }
}

impl TcpProxy {
    /// Every key of the table is a packed flow key, and no session lets messages
    /// overtake each other.
    pub closed spec fn wf(self) -> bool {
        forall|n: u128| #[trigger]
            self.sessions@.contains_key(n) ==> n < 0x1_0000_0000_0000_0000_0000_0000
                && self.sessions@[n].wf()
    }

    /// The session of a flow.
    pub closed spec fn session(self, key: FlowKey) -> TcpSession {
        self.sessions@[key.packed()]
    }

    /// A session of a proxy lets no message overtake another, and is what is known of
    /// it.
    pub proof fn lemma_session(self, key: FlowKey)
        requires
            self.wf(),
            self@.sessions.contains_key(key),
        ensures
            self.session(key).wf(),
            self.session(key)@ == self@.sessions[key],
    {
    }

    /// A proxy without sessions.
    pub fn new(
        physical_if_index: u32,
        socks_host: String,
        socks_port: u16,
        tor_outbound_ip: Ipv4Addr,
        tun_ip: Ipv4Addr,
    ) -> (r: TcpProxy)
        ensures
            r.wf(),
            r@ == (ProxyState {
                sessions: Map::empty(),
                physical_if_index,
                socks_host: socks_host@,
                socks_port,
                tor_outbound_ip,
                tun_ip,
            }),
    {
        let r = TcpProxy {
            sessions: HashMap::new(),
            physical_if_index,
            socks_host,
            socks_port,
            tor_outbound_ip,
            tun_ip,
        };
        assert(r@.sessions =~= Map::empty());
        r
    }

    /// How many sessions there are.
    pub fn session_count(&self) -> (r: usize)
        requires
            self.wf(),
        ensures
            self@.sessions.dom().finite(),
            r == self@.sessions.dom().len(),
    {
        proof {
            lemma_flows_count(self.sessions@);
        }
        self.sessions.len()
    }

    /// Whether the flow `key` has a session.
    pub fn has_session(&self, key: &FlowKey) -> (r: bool)
        ensures
            r == self@.sessions.contains_key(*key),
    {
        let packed: u128 = key.pack();
        self.sessions.contains_key(&packed)
    }

    /// Takes a packet from the client. A SYN opens a session, for which the caller
    /// starts the relay that is returned; any other segment goes to the session of
    /// its flow. Packets that are not TCP, that the proxy leaves alone, or that
    /// belong to no session change nothing.
    pub fn handle_packet(&mut self, data: &[u8]) -> (r: Option<RelayStart>)
        requires
            old(self).wf(),
            length_covers_header(data@),
        ensures
            final(self).wf(),
            exists|isn: u32| #[trigger] after_packet(old(self)@, data@, isn) == final(self)@,
            r is Some <==> opens_session(old(self)@, data@),
            r matches Some(relay) ==> proxied(old(self)@, data@) matches Some((pkt, tcp))
                && relay_for(*final(self), pkt, tcp, relay),
            forall|k: FlowKey|
                old(self)@.sessions.contains_key(k) ==> passes_on(
                    #[trigger] old(self).session(k).uplink(),
                    final(self).session(k).uplink(),
                ),
            forall|k: FlowKey, relay: RelayEnds|
                old(self)@.sessions.contains_key(k) ==> #[trigger] final(self).session(k).linked(
                    relay,
                ) == old(self).session(k).linked(relay),
    {
        let ghost before = self@;
        assert(after_packet(before, data@, 0) == after_packet(before, data@, 0));
        let pkt = match classify_packet(data) {
            Some(pkt) => pkt,
            None => {
                return None;
            },
        };
        let tcp: TcpHeader = match pkt.transport {
            TransportInfo::Tcp(tcp) => tcp,
            _ => {
                return None;
            },
        };
        let src_ip = pkt.ip_header.src_ip;
        let dst_ip = pkt.ip_header.dst_ip;
        if dst_ip == self.tun_ip || src_ip == self.tun_ip {
            return None;
        }
        if src_ip.is_loopback() || dst_ip.is_loopback() {
            return None;
        }
        if src_ip == self.tor_outbound_ip {
            return None;
        }
        let key = FlowKey::from_parts(src_ip, tcp.src_port, dst_ip, tcp.dst_port);
        assert(proxied(before, data@) == Some((pkt@, tcp)));
        let flags: u16 = tcp.data_offset_reserved_flags;
        if syn_flag(flags) && !ack_flag(flags) {
            if self.has_session(&key) {
                return None;
            }
            let relay = self.handle_new_connection(&key, &pkt, &tcp);
            proof {
                let isn = choose|isn: u32|
                    self@ == (ProxyState {
                        sessions: before.sessions.insert(key, #[trigger] opened(pkt@, tcp, isn)),
                        ..before
                    });
                assert(after_packet(before, data@, isn) == self@);
            }
            return Some(relay);
        }
        let packed: u128 = key.pack();
        let ghost raw = self.sessions@;
        if let Some(mut session) = self.sessions.remove(&packed) {
            let ghost found = session;
            session.on_segment(&pkt, &tcp);
            let ghost changed = session;
            self.sessions.insert(packed, session);
            proof {
                lemma_unpack_pack(key);
                assert(raw.remove(packed).insert(packed, changed) =~= raw.insert(packed, changed));
                lemma_flows_insert(raw, key, changed);
                assert(self@ =~= after_packet(before, data@, 0));
                assert forall|k: FlowKey, relay: RelayEnds|
                    before.sessions.contains_key(k) implies #[trigger] self.session(k).linked(
                    relay,
                ) == old(self).session(k).linked(relay) by {
                    if k.packed() == packed {
                        assert(changed.linked(relay) == found.linked(relay));
                    }
                }
            }
        }
        None
    }

    /// Opens the session for the SYN in `pkt`, at a random sequence number.
    fn handle_new_connection(
        &mut self,
        key: &FlowKey,
        pkt: &PacketInfo,
        tcp: &TcpHeader,
    ) -> (relay: RelayStart)
        requires
            old(self).wf(),
            *key == flow_of(pkt@, *tcp),
            !old(self)@.sessions.contains_key(*key),
        ensures
            final(self).wf(),
            exists|isn: u32|
                final(self)@ == (ProxyState {
                    sessions: old(self)@.sessions.insert(*key, #[trigger] opened(pkt@, *tcp, isn)),
                    ..old(self)@
                }),
            relay_for(*final(self), pkt@, *tcp, relay),
            forall|k: FlowKey|
                k != *key ==> #[trigger] final(self).session(k) == old(self).session(k),
    {
        let our_isn: u32 = random_u32();
        self.open_session(key, pkt, tcp, our_isn)
    }

    /// Opens the session for the SYN in `pkt`, at the sequence number `our_isn`.
    pub fn open_session(
        &mut self,
        key: &FlowKey,
        pkt: &PacketInfo,
        tcp: &TcpHeader,
        our_isn: u32,
    ) -> (relay: RelayStart)
        requires
            old(self).wf(),
            *key == flow_of(pkt@, *tcp),
            !old(self)@.sessions.contains_key(*key),
        ensures
            final(self).wf(),
            final(self)@ == (ProxyState {
                sessions: old(self)@.sessions.insert(*key, opened(pkt@, *tcp, our_isn)),
                ..old(self)@
            }),
            relay_for(*final(self), pkt@, *tcp, relay),
            forall|k: FlowKey|
                k != *key ==> #[trigger] final(self).session(k) == old(self).session(k),
    {
        let (session, relay) = TcpSession::open(
            pkt,
            tcp,
            our_isn,
            *key,
            self.socks_host.clone(),
            self.socks_port,
            self.physical_if_index,
        );
        let ghost raw = self.sessions@;
        let ghost made = session;
        let packed: u128 = key.pack();
        self.sessions.insert(packed, session);
        proof {
            lemma_unpack_pack(*key);
            lemma_flows_insert(raw, *key, made);
            assert forall|k: FlowKey| k != *key implies #[trigger] self.session(k) == old(
                self,
            ).session(k) by {
                if k.packed() == packed {
                    lemma_packed_injective(k, *key);
                }
            }
        }
        relay
    }

    /// The packed keys of all sessions.
    fn packed_keys(&self) -> (r: Vec<u128>)
        ensures
            r@.no_duplicates(),
            forall|n: u128| r@.contains(n) <==> self.sessions@.contains_key(n),
    {
        let ghost keys = vstd::std_specs::iter::IteratorSpec::remaining(
            &vstd::std_specs::hash::spec_keys_iter(&self.sessions),
        ).unref();
        let mut r: Vec<u128> = Vec::new();
        for n in it: self.sessions.keys()
            invariant
                it.seq().unref() == keys,
                r@ =~= keys.take(it.index() as int),
        {
            r.push(*n);
        }
        assert(r@ =~= keys);
        assert forall|n: u128| r@.contains(n) <==> self.sessions@.contains_key(n) by {
            assert(keys.to_set().contains(n) <==> keys.contains(n));
        }
        r
    }

    /// Polls every session: what has to be written to the clients is returned in
    /// the order in which it is to be written, and the closing sessions are taken
    /// out, their relays told to stop.
    pub fn process_responses(&mut self) -> (r: Responses)
        requires
            old(self).wf(),
        ensures
            final(self).wf(),
            exists|order: Seq<FlowKey>, msgs: Map<FlowKey, Seq<Seq<u8>>>| #[trigger]
                polls(
                    old(self)@,
                    final(self)@,
                    contents(r.packets@),
                    r.closed@,
                    order,
                    msgs,
                ),
            forall|k: FlowKey|
                final(self)@.sessions.contains_key(k) ==> #[trigger] final(self).session(k).uplink()
                    == old(self).session(k).uplink(),
            forall|k: FlowKey, relay: RelayEnds|
                final(self)@.sessions.contains_key(k) ==> #[trigger] final(self).session(k).linked(
                    relay,
                ) == old(self).session(k).linked(relay),
            forall|i: int, relay: RelayEnds|
                0 <= i < r.closed@.len() ==> #[trigger] r.closed@[i].session.linked(relay) == old(
                    self,
                ).session(r.closed@[i].key).linked(relay),
    {
        let keys = self.packed_keys();
        let ghost before = self@;
        let ghost m = self@.sessions;
        let ghost raw0 = self.sessions@;
        let ghost order = keys@.map_values(|n: u128| FlowKey::unpacked(n));
        let ghost mut msgs: Map<FlowKey, Seq<Seq<u8>>> = Map::empty();
        let mut packets: Vec<Vec<u8>> = Vec::new();
        let mut closed: Vec<ClosedSession> = Vec::new();
        assert(contents(packets@) =~= packets_of_poll(order.take(0), m, msgs));
        let mut i: usize = 0;
        while i < keys.len()
            invariant
                i <= keys@.len(),
                m == flows(raw0),
                m == before.sessions,
                before == old(self)@,
                raw0 == old(self).sessions@,
                keys@.no_duplicates(),
                forall|n: u128| keys@.contains(n) <==> raw0.contains_key(n),
                forall|n: u128|
                    raw0.contains_key(n) ==> n < 0x1_0000_0000_0000_0000_0000_0000,
                forall|n: u128| #[trigger]
                    self.sessions@.contains_key(n) ==> self.sessions@[n].wf() && (
                    self.sessions@[n].uplink() == raw0[n].uplink()),
                order == keys@.map_values(|n: u128| FlowKey::unpacked(n)),
                self.physical_if_index == old(self).physical_if_index,
                self.socks_host == old(self).socks_host,
                self.socks_port == old(self).socks_port,
                self.tor_outbound_ip == old(self).tor_outbound_ip,
                self.tun_ip == old(self).tun_ip,
                forall|n: u128| #[trigger]
                    self.sessions@.contains_key(n) <==> raw0.contains_key(n) && !(
                    keys@.take(i as int).contains(n) && raw0[n]@.pending_close),
                forall|n: u128| #[trigger]
                    self.sessions@.contains_key(n) && !keys@.take(i as int).contains(n)
                        ==> self.sessions@[n] == raw0[n],
                forall|n: u128| #[trigger]
                    self.sessions@.contains_key(n) && keys@.take(i as int).contains(n)
                        ==> self.sessions@[n]@ == after_poll(
                        raw0[n]@,
                        msgs[FlowKey::unpacked(n)],
                    ),
                forall|n: u128, relay: RelayEnds|
                    self.sessions@.contains_key(n) ==> #[trigger] self.sessions@[n].linked(relay)
                        == raw0[n].linked(relay),
                contents(packets@) == packets_of_poll(order.take(i as int), m, msgs),
                closes_so_far(m, closed@, keys@.take(i as int)),
                forall|j: int, relay: RelayEnds|
                    0 <= j < closed@.len() ==> #[trigger] closed@[j].session.linked(relay)
                        == raw0[closed@[j].key.packed()].linked(relay),
            decreases keys@.len() - i,
        {
            let packed: u128 = keys[i];
            let ghost done = keys@.take(i as int);
            let ghost next = keys@.take(i + 1);
            assert(keys@.contains(packed));
            let key = FlowKey::unpack(packed);
            proof {
                lemma_pack_unpack(packed);
                assert(next =~= done.push(packed));
                assert(!done.contains(packed)) by {
                    if done.contains(packed) {
                        let j = choose|j: int| 0 <= j < done.len() && done[j] == packed;
                        assert(keys@[j] == keys@[i as int]);
                    }
                }
                assert forall|n: u128| next.contains(n) <==> done.contains(n) || n == packed by {
                    assert(next[i as int] == packed);
                    if done.contains(n) {
                        let j = choose|j: int| 0 <= j < done.len() && done[j] == n;
                        assert(next[j] == n);
                    }
                }
                assert(self.sessions@.contains_key(packed));
            }
            let ghost raw = self.sessions@;
            if let Some(mut session) = self.sessions.remove(&packed) {
                let ghost found = session;
                let ghost old_packets = packets@;
                session.poll(&key, &mut packets);
                let ghost m1 = choose|m1: Seq<Seq<u8>>| #[trigger]
                    after_poll(found@, m1) == session@ && contents(packets@) == contents(
                        old_packets,
                    ) + poll_packets(key, found@, m1);
                proof {
                    let prev_msgs = msgs;
                    msgs = msgs.insert(key, m1);
                    assert forall|j: int| 0 <= j < i implies #[trigger] order.take(i as int)[j]
                        != key by {
                        assert(keys@.contains(keys@[j]));
                        lemma_pack_unpack(keys@[j]);
                        assert(done.contains(done[j]));
                    }
                    lemma_packets_of_poll(order.take(i as int), m, prev_msgs, key, m1);
                    assert(order.take(i + 1).drop_last() =~= order.take(i as int));
                    assert(order.take(i + 1).last() == key);
                    assert(m[key] == found@);
                    assert(contents(packets@) =~= packets_of_poll(order.take(i + 1), m, msgs));
                }
                let ghost polled = session;
                if session.closing() {
                    session.stop_relay();
                    let ghost old_closed = closed@;
                    let ghost gone = ClosedSession { key, session };
                    closed.push(ClosedSession { key, session });
                    proof {
                        assert(gone.session@ =~= dismissed(m[key]));
                        lemma_closes_step(m, old_closed, done, gone, packed);
                        assert forall|j: int, relay: RelayEnds|
                            0 <= j < closed@.len() implies #[trigger] closed@[j].session.linked(
                            relay,
                        ) == raw0[closed@[j].key.packed()].linked(relay) by {
                            if j < old_closed.len() {
                                assert(closed@[j] == old_closed[j]);
                                assert(old_closed[j].session.linked(relay)
                                    == raw0[old_closed[j].key.packed()].linked(relay));
                            } else {
                                assert(polled.linked(relay) == found.linked(relay));
                                assert(gone.session.linked(relay) == polled.linked(relay));
                            }
                        }
                    }
                } else {
                    self.sessions.insert(packed, session);
                    proof {
                        assert(self.sessions@ =~= raw.insert(packed, polled));
                        assert(!m[key].pending_close);
                        lemma_closes_skip(m, closed@, done, packed);
                    }
                }
                proof {
                    assert forall|n: u128| #[trigger]
                        self.sessions@.contains_key(n) && next.contains(n) implies
                        self.sessions@[n]@ == after_poll(
                        raw0[n]@,
                        msgs[FlowKey::unpacked(n)],
                    ) by {
                        if n != packed {
                            lemma_pack_unpack(n);
                            assert(raw.contains_key(n));
                        }
                    }
                    assert forall|n: u128, relay: RelayEnds|
                        self.sessions@.contains_key(n) implies #[trigger] self.sessions@[n].linked(
                        relay,
                    ) == raw0[n].linked(relay) by {
                        if n == packed {
                            assert(polled.linked(relay) == found.linked(relay));
                        } else {
                            assert(raw[n].linked(relay) == raw0[n].linked(relay));
                        }
                    }
                }
            }
            i = i + 1;
        }
        proof {
            assert(keys@.take(i as int) =~= keys@);
            assert(order.take(i as int) =~= order);
            assert(self@.sessions =~= sessions_after_poll(m, msgs)) by {
                assert forall|k: FlowKey| #[trigger]
                    self@.sessions.contains_key(k) <==> m.contains_key(k)
                        && !m[k].pending_close by {
                    lemma_unpack_pack(k);
                    assert(self.sessions@.contains_key(k.packed()) <==> raw0.contains_key(
                        k.packed(),
                    ) && !raw0[k.packed()]@.pending_close);
                }
                assert forall|k: FlowKey| #[trigger] self@.sessions.contains_key(k) implies
                    self@.sessions[k] == after_poll(m[k], msgs[k]) by {
                    lemma_unpack_pack(k);
                    assert(self.sessions@.contains_key(k.packed()));
                }
            }
            assert forall|k: FlowKey| order.contains(k) <==> m.contains_key(k) by {
                lemma_unpack_pack(k);
                if m.contains_key(k) {
                    assert(keys@.contains(k.packed()));
                    let j = choose|j: int| 0 <= j < keys@.len() && keys@[j] == k.packed();
                    assert(order[j] == k);
                }
                if order.contains(k) {
                    let j = choose|j: int| 0 <= j < order.len() && order[j] == k;
                    assert(keys@.contains(keys@[j]));
                    lemma_pack_unpack(keys@[j]);
                }
            }
            assert(order.no_duplicates()) by {
                assert forall|a: int, b: int|
                    0 <= a < order.len() && 0 <= b < order.len() && a != b implies order[a]
                    != order[b] by {
                    assert(keys@.contains(keys@[a]) && keys@.contains(keys@[b]));
                    lemma_pack_unpack(keys@[a]);
                    lemma_pack_unpack(keys@[b]);
                }
            }
            lemma_closes_done(m, closed@, keys@, raw0);
        }
        let r = Responses { packets, closed };
        assert(polls(before, self@, contents(r.packets@), r.closed@, order, msgs));
        r
    }
}

/// The relay of the session that the SYN in `pkt` opened: it goes to where the
/// client was going, through the SOCKS server of the proxy, and holds the other
/// ends of the session's channels.
pub open spec fn relay_for(
    proxy: TcpProxy,
    pkt: PacketView,
    tcp: TcpHeader,
    relay: RelayStart,
) -> bool {
    &&& relay.key == flow_of(pkt, tcp)
    &&& relay.target_ip == pkt.ip_header.dst_ip
    &&& relay.target_port == tcp.dst_port
    &&& relay.socks_host@ == proxy@.socks_host
    &&& relay.socks_port == proxy@.socks_port
    &&& relay.if_index == proxy@.physical_if_index
    &&& relay.ends.unused()
    &&& accepted(proxy.session(relay.key).uplink()) == Seq::<Seq<u8>>::empty()
    &&& proxy.session(relay.key).linked(relay.ends)
}

/// What holds of the sessions of every proxy.
pub open spec fn proxy_ok(p: ProxyState) -> bool {
    forall|k: FlowKey| #[trigger] p.sessions.contains_key(k) ==> session_ok(p.sessions[k])
}

/// The sessions of a proxy stay in order, whatever packets come and however the
/// sessions are polled.
pub proof fn lemma_proxy_stays_ok(
    p: ProxyState,
    data: Seq<u8>,
    isn: u32,
    msgs: Map<FlowKey, Seq<Seq<u8>>>,
)
    requires
        proxy_ok(p),
    ensures
        proxy_ok(after_packet(p, data, isn)),
        proxy_ok(ProxyState { sessions: sessions_after_poll(p.sessions, msgs), ..p }),
{
}

/// A poll leaves no session that is closing and none with packets that wait, and
/// every session that was not closing stays, its relay's channel asked for data until it
/// had no more.
pub proof fn lemma_poll_clears(
    m: Map<FlowKey, SessionState>,
    msgs: Map<FlowKey, Seq<Seq<u8>>>,
    k: FlowKey,
)
    ensures
        sessions_after_poll(m, msgs).contains_key(k) <==> m.contains_key(k) && !m[k].pending_close,
        sessions_after_poll(m, msgs).contains_key(k) ==> !sessions_after_poll(
            m,
            msgs,
        )[k].pending_close && sessions_after_poll(m, msgs)[k].pending_output.len() == 0,
        sessions_after_poll(m, msgs).contains_key(k) ==> sessions_after_poll(m, msgs)[k].asked
            == m[k].asked + 1 && sessions_after_poll(m, msgs)[k].emptied == m[k].emptied + 1,
{
}

/// A packet that is not TCP, or that the proxy leaves alone, changes nothing.
pub proof fn lemma_left_alone(p: ProxyState, data: Seq<u8>, isn: u32)
    requires
        packet_of(data) matches Some(pkt) ==> !(pkt.transport is Tcp) || leaves_alone(p, pkt),
    ensures
        after_packet(p, data, isn) == p,
        !opens_session(p, data),
{
}

/// A SYN that comes again changes nothing, whatever number would be drawn for it, and
/// starts no second relay.
pub proof fn lemma_repeated_syn(p: ProxyState, data: Seq<u8>, isn: u32, other: u32)
    requires
        opens_session(p, data),
    ensures
        after_packet(after_packet(p, data, isn), data, other) == after_packet(p, data, isn),
        !opens_session(after_packet(p, data, isn), data),
{
}

/// A packet changes no session but that of its own flow, and opens none but that.
pub proof fn lemma_one_flow_at_a_time(p: ProxyState, data: Seq<u8>, isn: u32, k: FlowKey)
    requires
        proxied(p, data) matches Some((pkt, tcp)) ==> flow_of(pkt, tcp) != k,
    ensures
        after_packet(p, data, isn).sessions.contains_key(k) == p.sessions.contains_key(k),
        p.sessions.contains_key(k) ==> after_packet(p, data, isn).sessions[k] == p.sessions[k],
{
}

/// A segment of a flow that has no session, and that does not open one, is dropped.
pub proof fn lemma_stray_segment(p: ProxyState, data: Seq<u8>, isn: u32)
    requires
        proxied(p, data) matches Some((pkt, tcp)) && !opens_flow(tcp) && !p.sessions.contains_key(
            flow_of(pkt, tcp),
        ),
    ensures
        after_packet(p, data, isn) == p,
{
}

/// In a poll each session's packets stand together, after those of the sessions that
/// were polled before it.
pub proof fn lemma_packets_stand_together(
    order: Seq<FlowKey>,
    m: Map<FlowKey, SessionState>,
    msgs: Map<FlowKey, Seq<Seq<u8>>>,
    i: int,
)
    requires
        0 <= i < order.len(),
    ensures
        ({
            let own = poll_packets(order[i], m[order[i]], msgs[order[i]]);
            let start = packets_of_poll(order.take(i), m, msgs).len() as int;
            let all = packets_of_poll(order, m, msgs);
            start + own.len() <= all.len() && all.subrange(start, start + own.len()) == own
        }),
    decreases order.len(),
{
    let rest = order.drop_last();
    let own = poll_packets(order[i], m[order[i]], msgs[order[i]]);
    let start = packets_of_poll(order.take(i), m, msgs).len() as int;
    let all = packets_of_poll(order, m, msgs);
    if i < rest.len() {
        lemma_packets_stand_together(rest, m, msgs, i);
        assert(rest.take(i) =~= order.take(i));
        assert(all.subrange(start, start + own.len()) =~= packets_of_poll(rest, m, msgs).subrange(
            start,
            start + own.len(),
        ));
    } else {
        assert(order.take(i) =~= rest);
        assert(all.subrange(start, start + own.len()) =~= own);
    }
}

} // verus!
