//! One TCP flow through the proxy.
use crossbeam::channel::{Receiver, Sender};
use vstd::prelude::*;

use crate::addr::{lemma_addr_of_bits, Ipv4Addr};
use crate::channel::{
    accepted, asked, contents, data_channel, emptied, joined, offer, offered, receives_in_order,
    room, sends_in_order, signal, signal_channel, signal_joined, signal_room, signals, stop_answers,
    take_ready, taken,
};
use crate::flow::FlowKey;
use crate::packet::{fin_flag, rst_flag, PacketInfo, PacketView, TcpHeader};
use crate::segment::{
    build_tcp_ip_packet, carries, lemma_segment_is_read, tcp_ip_packet, TCP_ACK, TCP_FIN, TCP_PSH,
    TCP_SYN,
};

verus! {

/// How many messages fit the channels between a session and its relay.
pub const CHANNEL_CAPACITY: usize = 256;

/// A TCP flow that the proxy terminates, with its ends of the channels to the
/// relay that carries the data on.
pub struct TcpSession {
    client_seq: u32,
    our_seq: u32,
    app_to_proxy: Sender<Vec<u8>>,
    proxy_to_app: Receiver<Vec<u8>>,
    close_signal: Sender<()>,
    pending_output: Vec<Vec<u8>>,
    fin_sent: bool,
    fin_received: bool,
    pending_close: bool,
}

/// What a relay needs to carry the data of a new session: where to go, and its ends
/// of the channels.
pub struct RelayStart {
    pub key: FlowKey,
    pub target_ip: Ipv4Addr,
    pub target_port: u16,
    pub socks_host: String,
    pub socks_port: u16,
    pub if_index: u32,
    pub ends: RelayEnds,
}

/// The relay's ends of the channels between it and its session.
pub struct RelayEnds {
    app_to_proxy: Receiver<Vec<u8>>,
    proxy_to_app: Sender<Vec<u8>>,
    close: Receiver<()>,
}

/// What is known of a session.
#[verifier::ext_equal]
pub struct SessionState {
    /// The next sequence number expected from the client.
    pub client_seq: u32,
    /// The next sequence number to send to the client.
    pub our_seq: u32,
    /// Packets that wait to be written to the client.
    pub pending_output: Seq<Seq<u8>>,
    pub fin_sent: bool,
    pub fin_received: bool,
    /// The session goes at the next poll.
    pub pending_close: bool,
    /// The client data handed to the relay.
    pub offered: Seq<Seq<u8>>,
    /// The data taken from the relay.
    pub taken: Seq<Seq<u8>>,
    /// How often the relay was told to stop.
    pub close_signals: nat,
    /// How many messages fit the channel to the relay.
    pub room: nat,
    /// How many signals fit the channel to the relay.
    pub close_room: nat,
    /// How often the relay's channel was asked for data.
    pub asked: nat,
    /// How often the relay's channel had no data, or no data more, to give.
    pub emptied: nat,
}

impl View for TcpSession {
    type V = SessionState;

    closed spec fn view(&self) -> SessionState {
        SessionState {
            client_seq: self.client_seq,
            our_seq: self.our_seq,
            pending_output: contents(self.pending_output@),
            fin_sent: self.fin_sent,
            fin_received: self.fin_received,
            pending_close: self.pending_close,
            offered: offered(self.app_to_proxy),
            taken: taken(self.proxy_to_app),
            close_signals: signals(self.close_signal),
            room: room(self.app_to_proxy),
            close_room: signal_room(self.close_signal),
            asked: asked(self.proxy_to_app),
            emptied: emptied(self.proxy_to_app),
        }
    }
}

impl TcpSession {
    /// The end of the channel that takes client data to the relay.
    pub closed spec fn uplink(self) -> Sender<Vec<u8>> {
        self.app_to_proxy
    }

    /// The end of the channel that brings data from the relay.
    pub closed spec fn downlink(self) -> Receiver<Vec<u8>> {
        self.proxy_to_app
    }

    /// The end of the channel that tells the relay to stop.
    pub closed spec fn stop_line(self) -> Sender<()> {
        self.close_signal
    }

    /// The session and the relay hold the two ends of the same three channels.
    pub open spec fn linked(self, relay: RelayEnds) -> bool {
        &&& joined(self.uplink(), relay.uplink())
        &&& joined(relay.downlink(), self.downlink())
        &&& signal_joined(self.stop_line(), relay.stop_line())
    }

    /// What is known of a session in terms of its channels.
    pub proof fn lemma_view(self)
        ensures
            self@.offered == offered(self.uplink()),
            self@.taken == taken(self.downlink()),
            self@.close_signals == signals(self.stop_line()),
            self@.room == room(self.uplink()),
            self@.close_room == signal_room(self.stop_line()),
            self@.asked == asked(self.downlink()),
            self@.emptied == emptied(self.downlink()),
    {
    }

    /// No message overtakes another on its way to or from the relay.
    pub open spec fn wf(self) -> bool {
        sends_in_order(self.uplink()) && receives_in_order(self.downlink())
    }
}

impl RelayEnds {
    /// The end of the channel that brings client data.
    pub closed spec fn uplink(self) -> Receiver<Vec<u8>> {
        self.app_to_proxy
    }

    /// The end of the channel that takes data to the session.
    pub closed spec fn downlink(self) -> Sender<Vec<u8>> {
        self.proxy_to_app
    }

    /// The end of the channel that tells the relay to stop.
    pub closed spec fn stop_line(self) -> Receiver<()> {
        self.close
    }

    /// The channels have their full capacity, and the relay has not used its ends.
    pub open spec fn unused(self) -> bool {
        &&& room(self.downlink()) == CHANNEL_CAPACITY
        &&& offered(self.downlink()) == Seq::<Seq<u8>>::empty()
        &&& accepted(self.downlink()) == Seq::<Seq<u8>>::empty()
        &&& taken(self.uplink()) == Seq::<Seq<u8>>::empty()
        &&& asked(self.uplink()) == 0
        &&& stop_answers(self.stop_line()) == Seq::<bool>::empty()
    }

    /// The relay's ends of the channels.
    pub(crate) fn channels(self) -> (r: (Receiver<Vec<u8>>, Sender<Vec<u8>>, Receiver<()>))
        ensures
            r == (self.uplink(), self.downlink(), self.stop_line()),
    {
        (self.app_to_proxy, self.proxy_to_app, self.close)
    }
}

/// What the uplink of a session passes on: of one message at most that is handed to
/// it, nothing or the whole.
pub open spec fn passes_on(before: Sender<Vec<u8>>, after: Sender<Vec<u8>>) -> bool {
    ||| offered(after) == offered(before) && accepted(after) == accepted(before)
    ||| exists|m: Seq<u8>|
        offered(after) == #[trigger] offered(before).push(m) && (accepted(after) == accepted(before)
            || accepted(after) == accepted(before).push(m))
}

/// `seq` moved on by `n` bytes.
pub open spec fn advance(seq: u32, n: int) -> u32 {
    ((seq + n) % 0x1_0000_0000) as u32
}

/// The number of bytes in all messages.
pub open spec fn total_len(msgs: Seq<Seq<u8>>) -> int
    decreases msgs.len(),
{
    if msgs.len() == 0 {
        0
    } else {
        total_len(msgs.drop_last()) + msgs.last().len()
    }
}

/// A length is not negative.
pub proof fn lemma_total_len(msgs: Seq<Seq<u8>>)
    ensures
        total_len(msgs) >= 0,
    decreases msgs.len(),
{
    if msgs.len() > 0 {
        lemma_total_len(msgs.drop_last());
    }
}

/// Moving on twice is moving on by the sum.
pub proof fn lemma_advance(seq: u32, m: int, n: int)
    requires
        0 <= m,
        0 <= n,
    ensures
        advance(advance(seq, m), n) == advance(seq, m + n),
{
}

/// Whether SYN is set and ACK is not.
pub open spec fn opens_flow(tcp: TcpHeader) -> bool {
    tcp.data_offset_reserved_flags & 0x002 != 0 && tcp.data_offset_reserved_flags & 0x010 == 0
}

/// A packet from the server side of the flow `key` to the client.
pub open spec fn reply(key: FlowKey, seq: u32, ack: u32, flags: u8, payload: Seq<u8>) -> Seq<u8> {
    tcp_ip_packet(
        seq,
        ack,
        flags,
        Ipv4Addr::of_bits(key.dst_ip),
        Ipv4Addr::of_bits(key.src_ip),
        key.dst_port,
        key.src_port,
        payload,
    )
}

/// A packet that answers `pkt`: from where it was going to where it came from.
pub open spec fn answer(pkt: PacketView, tcp: TcpHeader, seq: u32, ack: u32, flags: u8) -> Seq<u8> {
    tcp_ip_packet(
        seq,
        ack,
        flags,
        pkt.ip_header.dst_ip,
        pkt.ip_header.src_ip,
        tcp.dst_port,
        tcp.src_port,
        Seq::empty(),
    )
}

/// The session that the SYN in `tcp` opens, with `isn` as its own first sequence
/// number: a SYN-ACK waits to be written.
pub open spec fn opened(pkt: PacketView, tcp: TcpHeader, isn: u32) -> SessionState {
    SessionState {
        client_seq: advance(tcp.sequence_number, 1),
        our_seq: advance(isn, 1),
        pending_output: seq![
            answer(pkt, tcp, isn, advance(tcp.sequence_number, 1), 0x12),
        ],
        fin_sent: false,
        fin_received: false,
        pending_close: false,
        offered: Seq::empty(),
        taken: Seq::empty(),
        close_signals: 0,
        room: CHANNEL_CAPACITY as nat,
        close_room: 1,
        asked: 0,
        emptied: 0,
    }
}

/// The session after the client's segment `tcp` with `pkt.payload`. RST closes it
/// and stops the relay. FIN closes it and is answered with FIN and ACK. Data is
/// handed to the relay and moves the client's sequence number.
pub open spec fn after_segment(s: SessionState, pkt: PacketView, tcp: TcpHeader) -> SessionState {
    let flags = tcp.data_offset_reserved_flags;
    if flags & 0x004 != 0 {
        SessionState { pending_close: true, close_signals: s.close_signals + 1, ..s }
    } else if flags & 0x001 != 0 {
        SessionState {
            fin_received: true,
            pending_close: true,
            pending_output: s.pending_output.push(
                answer(pkt, tcp, s.our_seq, s.client_seq, 0x11),
            ),
            fin_sent: true,
            our_seq: advance(s.our_seq, 1),
            ..s
        }
    } else if pkt.payload.len() > 0 {
        SessionState {
            client_seq: advance(tcp.sequence_number, pkt.payload.len() as int),
            offered: s.offered.push(pkt.payload),
            ..s
        }
    } else {
        s
    }
}

/// The packets that carry `msgs` to the client, the first at `our_seq`.
pub open spec fn data_packets(
    key: FlowKey,
    our_seq: u32,
    client_seq: u32,
    msgs: Seq<Seq<u8>>,
) -> Seq<Seq<u8>>
    decreases msgs.len(),
{
    if msgs.len() == 0 {
        Seq::empty()
    } else {
        data_packets(key, our_seq, client_seq, msgs.drop_last()).push(
            reply(
                key,
                advance(our_seq, total_len(msgs.drop_last())),
                client_seq,
                0x18,
                msgs.last(),
            ),
        )
    }
}

/// The packets that answer `msgs` from the relay: the data, and an ACK when there
/// was any.
pub open spec fn response_packets(
    key: FlowKey,
    s: SessionState,
    msgs: Seq<Seq<u8>>,
) -> Seq<Seq<u8>> {
    let data = data_packets(key, s.our_seq, s.client_seq, msgs);
    if msgs.len() == 0 {
        data
    } else {
        data.push(
            reply(key, advance(s.our_seq, total_len(msgs)), s.client_seq, 0x10, Seq::empty()),
        )
    }
}

/// The packets that a poll writes to the client when `msgs` was ready.
pub open spec fn poll_packets(key: FlowKey, s: SessionState, msgs: Seq<Seq<u8>>) -> Seq<Seq<u8>> {
    if s.pending_close {
        s.pending_output
    } else {
        s.pending_output + response_packets(key, s, msgs)
    }
}

/// The session after a poll when `msgs` was ready. Unless the session is closing, its
/// channel is asked, and gives data until it has no more.
pub open spec fn after_poll(s: SessionState, msgs: Seq<Seq<u8>>) -> SessionState {
    if s.pending_close {
        SessionState { pending_output: Seq::empty(), ..s }
    } else {
        SessionState {
            pending_output: Seq::empty(),
            our_seq: advance(s.our_seq, total_len(msgs)),
            taken: s.taken + msgs,
            asked: s.asked + 1,
            emptied: s.emptied + 1,
            ..s
        }
    }
}

/// `seq` moved on by `n` bytes.
pub fn advance_seq(seq: u32, n: usize) -> (r: u32)
    ensures
        r == advance(seq, n as int),
{
    let low: u32 = (n as u64 % 0x1_0000_0000) as u32;
    seq.wrapping_add(low)
}

impl TcpSession {
    /// Opens a session for the SYN in `tcp`, with `our_isn` as its first sequence
    /// number, and makes the channels to its relay. The relay's ends are returned.
    pub fn open(
        pkt: &PacketInfo,
        tcp: &TcpHeader,
        our_isn: u32,
        key: FlowKey,
        socks_host: String,
        socks_port: u16,
        if_index: u32,
    ) -> (r: (TcpSession, RelayStart))
        ensures
            r.0@ == opened(pkt@, *tcp, our_isn),
            r.0.wf(),
            accepted(r.0.uplink()) == Seq::<Seq<u8>>::empty(),
            r.0.linked(r.1.ends),
            r.1.ends.unused(),
            r.1.key == key,
            r.1.target_ip == pkt.ip_header.dst_ip,
            r.1.target_port == tcp.dst_port,
            r.1.socks_host == socks_host,
            r.1.socks_port == socks_port,
            r.1.if_index == if_index,
    {
        let client_seq: u32 = tcp.sequence_number.wrapping_add(1);
        let empty: [u8; 0] = [];
        let syn_ack = build_tcp_ip_packet(
            our_isn,
            client_seq,
            TCP_SYN | TCP_ACK,
            pkt.ip_header.dst_ip,
            pkt.ip_header.src_ip,
            tcp.dst_port,
            tcp.src_port,
            &empty,
        );
        assert(TCP_SYN | TCP_ACK == 0x12) by (bit_vector);
        assert(empty@ =~= Seq::<u8>::empty());
        let (app_to_proxy_tx, app_to_proxy_rx) = data_channel(CHANNEL_CAPACITY);
        let (proxy_to_app_tx, proxy_to_app_rx) = data_channel(CHANNEL_CAPACITY);
        let (close_tx, close_rx) = signal_channel(1);

        let mut pending_output: Vec<Vec<u8>> = Vec::new();
        pending_output.push(syn_ack);
        let session = TcpSession {
            client_seq,
            our_seq: our_isn.wrapping_add(1),
            app_to_proxy: app_to_proxy_tx,
            proxy_to_app: proxy_to_app_rx,
            close_signal: close_tx,
            pending_output,
            fin_sent: false,
            fin_received: false,
            pending_close: false,
        };
        assert(session@.pending_output =~= opened(pkt@, *tcp, our_isn).pending_output);
        let relay = RelayStart {
            key,
            target_ip: pkt.ip_header.dst_ip,
            target_port: tcp.dst_port,
            socks_host,
            socks_port,
            if_index,
            ends: RelayEnds {
                app_to_proxy: app_to_proxy_rx,
                proxy_to_app: proxy_to_app_tx,
                close: close_rx,
            },
        };
        (session, relay)
    }

    /// Takes a segment of the client that does not open the flow.
    pub fn on_segment(&mut self, pkt: &PacketInfo, tcp: &TcpHeader)
        requires
            old(self).wf(),
        ensures
            final(self)@ == after_segment(old(self)@, pkt@, *tcp),
            final(self).wf(),
            passes_on(old(self).uplink(), final(self).uplink()),
            forall|relay: RelayEnds| #[trigger]
                final(self).linked(relay) == old(self).linked(relay),
    {
        let ghost before = self@;
        let flags: u16 = tcp.data_offset_reserved_flags;
        if rst_flag(flags) {
            self.pending_close = true;
            let _ = signal(&mut self.close_signal);
            assert(self@ =~= after_segment(before, pkt@, *tcp));
            return;
        }
        if fin_flag(flags) {
            self.fin_received = true;
            self.pending_close = true;
            let empty: [u8; 0] = [];
            let fin_ack = build_tcp_ip_packet(
                self.our_seq,
                self.client_seq,
                TCP_FIN | TCP_ACK,
                pkt.ip_header.dst_ip,
                pkt.ip_header.src_ip,
                tcp.dst_port,
                tcp.src_port,
                &empty,
            );
            assert(TCP_FIN | TCP_ACK == 0x11) by (bit_vector);
            assert(empty@ =~= Seq::<u8>::empty());
            self.pending_output.push(fin_ack);
            self.fin_sent = true;
            self.our_seq = self.our_seq.wrapping_add(1);
            assert(self@.pending_output =~= after_segment(before, pkt@, *tcp).pending_output);
            return;
        }
        if !pkt.payload.is_empty() {
            self.client_seq = advance_seq(tcp.sequence_number, pkt.payload.len());
            let payload = pkt.payload.clone();
            assert(payload@ =~= pkt.payload@);
            let _ = offer(&mut self.app_to_proxy, payload);
            assert(offered(self.uplink()) == offered(old(self).uplink()).push(pkt.payload@));
        }
    }

    /// Appends to `out` the packets that carry `msgs` from the relay to the client.
    pub fn respond(&mut self, key: &FlowKey, msgs: &Vec<Vec<u8>>, out: &mut Vec<Vec<u8>>)
        ensures
            final(self)@ == (SessionState {
                our_seq: advance(old(self)@.our_seq, total_len(contents(msgs@))),
                ..old(self)@
            }),
            final(self).uplink() == old(self).uplink(),
            final(self).downlink() == old(self).downlink(),
            final(self).stop_line() == old(self).stop_line(),
            contents(final(out)@) == contents(old(out)@) + response_packets(
                *key,
                old(self)@,
                contents(msgs@),
            ),
    {
        let ghost start = self@;
        let ghost out0 = contents(out@);
        let ghost all = contents(msgs@);
        let src_ip = Ipv4Addr::from_bits(key.dst_ip);
        let dst_ip = Ipv4Addr::from_bits(key.src_ip);
        let mut i: usize = 0;
        assert(all.take(0).len() == 0);
        assert(contents(out@) =~= out0 + data_packets(
            *key,
            start.our_seq,
            start.client_seq,
            all.take(0),
        ));
        while i < msgs.len()
            invariant
                i <= msgs@.len(),
                all == contents(msgs@),
                src_ip == Ipv4Addr::of_bits(key.dst_ip),
                dst_ip == Ipv4Addr::of_bits(key.src_ip),
                self@ == (SessionState {
                    our_seq: advance(start.our_seq, total_len(all.take(i as int))),
                    ..start
                }),
                contents(out@) == out0 + data_packets(
                    *key,
                    start.our_seq,
                    start.client_seq,
                    all.take(i as int),
                ),
                self.uplink() == old(self).uplink(),
                self.downlink() == old(self).downlink(),
                self.stop_line() == old(self).stop_line(),
            decreases msgs@.len() - i,
        {
            let seg = build_tcp_ip_packet(
                self.our_seq,
                self.client_seq,
                TCP_PSH | TCP_ACK,
                src_ip,
                dst_ip,
                key.dst_port,
                key.src_port,
                msgs[i].as_slice(),
            );
            assert(TCP_PSH | TCP_ACK == 0x18) by (bit_vector);
            self.our_seq = advance_seq(self.our_seq, msgs[i].len());
            let ghost prev = out@;
            out.push(seg);
            i = i + 1;
            proof {
                lemma_total_len(all.take(i - 1));
                lemma_advance(start.our_seq, total_len(all.take(i - 1)), msgs@[i - 1]@.len() as int);
                let done = all.take(i as int);
                assert(done.drop_last() =~= all.take(i - 1));
                assert(done.last() == msgs@[i - 1]@);
                assert(contents(out@) =~= contents(prev).push(seg@));
                assert(contents(out@) =~= out0 + data_packets(
                    *key,
                    start.our_seq,
                    start.client_seq,
                    done,
                ));
            }
        }
        assert(all.take(i as int) =~= all);
        if msgs.len() > 0 {
            let empty: [u8; 0] = [];
            assert(empty@ =~= Seq::<u8>::empty());
            let seg = build_tcp_ip_packet(
                self.our_seq,
                self.client_seq,
                TCP_ACK,
                src_ip,
                dst_ip,
                key.dst_port,
                key.src_port,
                &empty,
            );
            let ghost prev = out@;
            out.push(seg);
            assert(contents(out@) =~= contents(prev).push(seg@));
            assert(contents(out@) =~= out0 + response_packets(*key, start, all));
        }
    }

    /// Appends to `out` what has to be written to the client: the packets that
    /// wait and, unless the session is closing, what the relay has ready.
    pub fn poll(&mut self, key: &FlowKey, out: &mut Vec<Vec<u8>>)
        requires
            old(self).wf(),
        ensures
            final(self).wf(),
            final(self).uplink() == old(self).uplink(),
            exists|msgs: Seq<Seq<u8>>| #[trigger]
                after_poll(old(self)@, msgs) == final(self)@ && contents(final(out)@) == contents(
                    old(out)@,
                ) + poll_packets(*key, old(self)@, msgs),
            forall|relay: RelayEnds| #[trigger]
                final(self).linked(relay) == old(self).linked(relay),
    {
        let ghost start = self@;
        let ghost out0 = out@;
        let mut waiting: Vec<Vec<u8>> = Vec::new();
        waiting.append(&mut self.pending_output);
        let ghost queued = waiting@;
        out.append(&mut waiting);
        assert(contents(out@) =~= contents(out0) + start.pending_output);
        assert(contents(self.pending_output@) =~= Seq::<Seq<u8>>::empty());
        if self.pending_close {
            assert(after_poll(start, Seq::empty()) == self@);
            return;
        }
        let msgs = take_ready(&mut self.proxy_to_app);
        self.respond(key, &msgs, out);
        proof {
            let m = contents(msgs@);
            assert(after_poll(start, m) == self@);
            assert(contents(out@) =~= contents(out0) + poll_packets(*key, start, m));
        }
    }

    /// Whether the session goes at the next poll.
    pub fn closing(&self) -> (r: bool)
        ensures
            r == self@.pending_close,
    {
        self.pending_close
    }

    /// Tells the relay to stop.
    pub fn stop_relay(&mut self)
        ensures
            final(self).uplink() == old(self).uplink(),
            final(self).downlink() == old(self).downlink(),
            final(self)@ == (SessionState {
                close_signals: old(self)@.close_signals + 1,
                ..old(self)@
            }),
            forall|relay: RelayEnds| #[trigger]
                final(self).linked(relay) == old(self).linked(relay),
    {
        let _ = signal(&mut self.close_signal);
    }
}

/// What holds of every session: it has sent a FIN exactly when it has received one,
/// and is then closing.
pub open spec fn session_ok(s: SessionState) -> bool {
    s.fin_sent == s.fin_received && (s.fin_received ==> s.pending_close)
}

/// A new session is in order and open, segments and polls keep a session in order,
/// and a closing session stays closing.
pub proof fn lemma_session_stays_ok(
    s: SessionState,
    pkt: PacketView,
    tcp: TcpHeader,
    isn: u32,
    msgs: Seq<Seq<u8>>,
)
    ensures
        session_ok(opened(pkt, tcp, isn)),
        !opened(pkt, tcp, isn).pending_close,
        session_ok(s) ==> session_ok(after_segment(s, pkt, tcp)),
        session_ok(s) ==> session_ok(after_poll(s, msgs)),
        s.pending_close ==> after_segment(s, pkt, tcp).pending_close,
        s.pending_close ==> after_poll(s, msgs).pending_close,
{
}

/// A packet of the session reaches the client of the flow: it comes from where the
/// client was going, and can be read, if it is no longer than its length field can
/// say.
pub proof fn lemma_reply_is_read(key: FlowKey, seq: u32, ack: u32, flags: u8, payload: Seq<u8>)
    requires
        40 + payload.len() <= 0xffff,
    ensures
        carries(
            reply(key, seq, ack, flags, payload),
            seq,
            ack,
            flags,
            Ipv4Addr::of_bits(key.dst_ip),
            Ipv4Addr::of_bits(key.src_ip),
            key.dst_port,
            key.src_port,
            payload,
        ),
{
    lemma_segment_is_read(
        seq,
        ack,
        flags,
        Ipv4Addr::of_bits(key.dst_ip),
        Ipv4Addr::of_bits(key.src_ip),
        key.dst_port,
        key.src_port,
        payload,
    );
}

/// An answer to a client's packet goes back to where the packet came from, and an
/// answer and a reply on the packet's flow are the same.
pub proof fn lemma_answer_is_read(pkt: PacketView, tcp: TcpHeader, seq: u32, ack: u32, flags: u8)
    ensures
        carries(
            answer(pkt, tcp, seq, ack, flags),
            seq,
            ack,
            flags,
            pkt.ip_header.dst_ip,
            pkt.ip_header.src_ip,
            tcp.dst_port,
            tcp.src_port,
            Seq::empty(),
        ),
        answer(pkt, tcp, seq, ack, flags) == reply(
            FlowKey::of(pkt.ip_header.src_ip, tcp.src_port, pkt.ip_header.dst_ip, tcp.dst_port),
            seq,
            ack,
            flags,
            Seq::empty(),
        ),
{
    lemma_segment_is_read(
        seq,
        ack,
        flags,
        pkt.ip_header.dst_ip,
        pkt.ip_header.src_ip,
        tcp.dst_port,
        tcp.src_port,
        Seq::empty(),
    );
    lemma_addr_of_bits(pkt.ip_header.src_ip);
    lemma_addr_of_bits(pkt.ip_header.dst_ip);
}

/// A SYN is answered by one packet: a SYN-ACK back to the client that acknowledges
/// it and starts at `isn`.
pub proof fn lemma_syn_is_answered(pkt: PacketView, tcp: TcpHeader, isn: u32)
    ensures
        ({
            let out = opened(pkt, tcp, isn).pending_output;
            &&& out.len() == 1
            &&& carries(
                out[0],
                isn,
                advance(tcp.sequence_number, 1),
                0x12,
                pkt.ip_header.dst_ip,
                pkt.ip_header.src_ip,
                tcp.dst_port,
                tcp.src_port,
                Seq::empty(),
            )
        }),
{
    lemma_answer_is_read(pkt, tcp, isn, advance(tcp.sequence_number, 1), 0x12);
}

/// A FIN without RST is answered by one packet more: a FIN-ACK back to the client at
/// the session's own sequence number. An RST is not answered.
pub proof fn lemma_fin_is_answered(s: SessionState, pkt: PacketView, tcp: TcpHeader)
    requires
        tcp.data_offset_reserved_flags & 0x005 != 0,
    ensures
        ({
            let out = after_segment(s, pkt, tcp).pending_output;
            if tcp.data_offset_reserved_flags & 0x004 != 0 {
                out == s.pending_output
            } else {
                &&& out.drop_last() == s.pending_output
                &&& carries(
                    out.last(),
                    s.our_seq,
                    s.client_seq,
                    0x11,
                    pkt.ip_header.dst_ip,
                    pkt.ip_header.src_ip,
                    tcp.dst_port,
                    tcp.src_port,
                    Seq::empty(),
                )
            }
        }),
{
    let flags = tcp.data_offset_reserved_flags;
    assert(flags & 0x005 != 0 ==> flags & 0x004 != 0 || flags & 0x001 != 0) by (bit_vector);
    lemma_answer_is_read(pkt, tcp, s.our_seq, s.client_seq, 0x11);
    assert(s.pending_output.push(
        answer(pkt, tcp, s.our_seq, s.client_seq, 0x11),
    ).drop_last() =~= s.pending_output);
}

/// The data from the relay reaches the client whole and in order: one packet for
/// each message, which carries that message at the sequence number that follows the
/// bytes of the messages before it, if it is no longer than its length field can say.
pub proof fn lemma_data_is_delivered(
    key: FlowKey,
    our_seq: u32,
    client_seq: u32,
    msgs: Seq<Seq<u8>>,
    i: int,
)
    requires
        0 <= i < msgs.len(),
        40 + msgs[i].len() <= 0xffff,
    ensures
        data_packets(key, our_seq, client_seq, msgs).len() == msgs.len(),
        carries(
            data_packets(key, our_seq, client_seq, msgs)[i],
            advance(our_seq, total_len(msgs.take(i))),
            client_seq,
            0x18,
            Ipv4Addr::of_bits(key.dst_ip),
            Ipv4Addr::of_bits(key.src_ip),
            key.dst_port,
            key.src_port,
            msgs[i],
        ),
    decreases msgs.len(),
{
    let rest = msgs.drop_last();
    lemma_packet_count(key, our_seq, client_seq, rest);
    if i < rest.len() {
        lemma_data_is_delivered(key, our_seq, client_seq, rest, i);
        assert(rest.take(i) =~= msgs.take(i));
    } else {
        assert(rest =~= msgs.take(i));
        lemma_reply_is_read(
            key,
            advance(our_seq, total_len(msgs.take(i))),
            client_seq,
            0x18,
            msgs[i],
        );
    }
}

proof fn lemma_packet_count(key: FlowKey, our_seq: u32, client_seq: u32, msgs: Seq<Seq<u8>>)
    ensures
        data_packets(key, our_seq, client_seq, msgs).len() == msgs.len(),
    decreases msgs.len(),
{
    if msgs.len() > 0 {
        lemma_packet_count(key, our_seq, client_seq, msgs.drop_last());
    }
}

/// The data of two polls one after the other goes on where the first ended: the
/// packets are those of one poll that brings all of it.
pub proof fn lemma_polls_continue(
    key: FlowKey,
    our_seq: u32,
    client_seq: u32,
    first: Seq<Seq<u8>>,
    second: Seq<Seq<u8>>,
)
    ensures
        data_packets(key, our_seq, client_seq, first + second) == data_packets(
            key,
            our_seq,
            client_seq,
            first,
        ) + data_packets(key, advance(our_seq, total_len(first)), client_seq, second),
        total_len(first + second) == total_len(first) + total_len(second),
    decreases second.len(),
{
    if second.len() == 0 {
        assert(first + second =~= first);
        assert(data_packets(key, our_seq, client_seq, first) + Seq::<Seq<u8>>::empty()
            =~= data_packets(key, our_seq, client_seq, first));
    } else {
        let all = first + second;
        let rest = second.drop_last();
        lemma_polls_continue(key, our_seq, client_seq, first, rest);
        assert(all.drop_last() =~= first + rest);
        lemma_total_len(first);
        lemma_total_len(rest);
        lemma_advance(our_seq, total_len(first), total_len(rest));
        assert(data_packets(key, our_seq, client_seq, all) =~= data_packets(
            key,
            our_seq,
            client_seq,
            first,
        ) + data_packets(key, advance(our_seq, total_len(first)), client_seq, second));
    }
}

} // verus!
