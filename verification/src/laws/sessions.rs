//! What a TCP session does, said of numbers, flags and the bytes of its packets.
use vstd::prelude::*;

use crate::addr::Ipv4Addr;
use crate::flow::FlowKey;
use crate::laws::segments::{has_segment, law_built_segment};
use crate::packet::{PacketView, TcpHeader};
use crate::session::{
    after_poll, after_segment, data_packets, opened, opens_flow, poll_packets, SessionState,
};

verus! {

/// The lowest bits of a flag word.
proof fn lemma_flag_bits(flags: u16)
    ensures
        flags & 0x001 != 0 <==> flags as int % 2 == 1,
        flags & 0x002 != 0 <==> flags as int / 2 % 2 == 1,
        flags & 0x004 != 0 <==> flags as int / 4 % 2 == 1,
        flags & 0x010 != 0 <==> flags as int / 16 % 2 == 1,
{
    assert(flags & 0x001 != 0 <==> flags % 2 == 1) by (bit_vector);
    assert(flags & 0x002 != 0 <==> (flags / 2) % 2 == 1) by (bit_vector);
    assert(flags & 0x004 != 0 <==> (flags / 4) % 2 == 1) by (bit_vector);
    assert(flags & 0x010 != 0 <==> (flags / 16) % 2 == 1) by (bit_vector);
}

/// A segment opens a flow exactly when the second flag bit, SYN, is set and the fifth,
/// ACK, is not.
pub proof fn law_syn_without_ack(tcp: TcpHeader)
    ensures
        opens_flow(tcp) <==> tcp.data_offset_reserved_flags as int / 2 % 2 == 1
            && tcp.data_offset_reserved_flags as int / 16 % 2 == 0,
{
    lemma_flag_bits(tcp.data_offset_reserved_flags);
}

/// After a SYN with the number x the session expects x + 1 from the client, and its own
/// next number is one past that of its SYN-ACK, the one packet that waits. The SYN-ACK
/// goes back to where the SYN came from and acknowledges x + 1. Nothing else has
/// happened yet.
pub proof fn law_syn_opens(pkt: PacketView, tcp: TcpHeader, isn: u32)
    ensures
        ({
            let s = opened(pkt, tcp, isn);
            &&& s.client_seq == (tcp.sequence_number + 1) % 0x1_0000_0000
            &&& s.our_seq == (isn + 1) % 0x1_0000_0000
            &&& s.pending_output.len() == 1
            &&& has_segment(
                s.pending_output[0],
                isn,
                s.client_seq,
                0x12,
                pkt.ip_header.dst_ip,
                pkt.ip_header.src_ip,
                tcp.dst_port,
                tcp.src_port,
                Seq::empty(),
            )
            &&& !s.fin_sent
            &&& !s.fin_received
            &&& !s.pending_close
            &&& s.offered.len() == 0
            &&& s.taken.len() == 0
            &&& s.close_signals == 0
            &&& s.room == 256
            &&& s.close_room == 1
            &&& s.asked == 0
            &&& s.emptied == 0
        }),
{
    law_built_segment(
        isn,
        ((tcp.sequence_number + 1) % 0x1_0000_0000) as u32,
        0x12,
        pkt.ip_header.dst_ip,
        pkt.ip_header.src_ip,
        tcp.dst_port,
        tcp.src_port,
        Seq::empty(),
    );
}

/// A segment with RST, the third flag bit, closes the session and tells its relay to stop
/// once more. It changes nothing else, whatever other flags and payload it has.
pub proof fn law_rst(s: SessionState, pkt: PacketView, tcp: TcpHeader)
    requires
        tcp.data_offset_reserved_flags as int / 4 % 2 == 1,
    ensures
        ({
            let t = after_segment(s, pkt, tcp);
            &&& t.pending_close
            &&& t.close_signals == s.close_signals + 1
            &&& t.client_seq == s.client_seq
            &&& t.our_seq == s.our_seq
            &&& t.pending_output == s.pending_output
            &&& t.fin_sent == s.fin_sent
            &&& t.fin_received == s.fin_received
            &&& t.offered == s.offered
            &&& t.taken == s.taken
            &&& t.room == s.room
            &&& t.close_room == s.close_room
            &&& t.asked == s.asked
            &&& t.emptied == s.emptied
        }),
{
    lemma_flag_bits(tcp.data_offset_reserved_flags);
}

/// A segment with FIN, the first flag bit, and without RST closes the session and is
/// answered with one packet more, a FIN-ACK that goes back to where the segment came from,
/// has the session's next number and acknowledges what the session expects from the
/// client. The FIN-ACK takes one number. Nothing is handed to the relay.
pub proof fn law_fin(s: SessionState, pkt: PacketView, tcp: TcpHeader)
    requires
        tcp.data_offset_reserved_flags as int / 4 % 2 == 0,
        tcp.data_offset_reserved_flags as int % 2 == 1,
    ensures
        ({
            let t = after_segment(s, pkt, tcp);
            &&& t.pending_close
            &&& t.fin_received
            &&& t.fin_sent
            &&& t.our_seq == (s.our_seq + 1) % 0x1_0000_0000
            &&& t.client_seq == s.client_seq
            &&& t.pending_output.len() == s.pending_output.len() + 1
            &&& t.pending_output.take(s.pending_output.len() as int) == s.pending_output
            &&& has_segment(
                t.pending_output.last(),
                s.our_seq,
                s.client_seq,
                0x11,
                pkt.ip_header.dst_ip,
                pkt.ip_header.src_ip,
                tcp.dst_port,
                tcp.src_port,
                Seq::empty(),
            )
            &&& t.close_signals == s.close_signals
            &&& t.offered == s.offered
            &&& t.taken == s.taken
            &&& t.room == s.room
            &&& t.close_room == s.close_room
            &&& t.asked == s.asked
            &&& t.emptied == s.emptied
        }),
{
    lemma_flag_bits(tcp.data_offset_reserved_flags);
    law_built_segment(
        s.our_seq,
        s.client_seq,
        0x11,
        pkt.ip_header.dst_ip,
        pkt.ip_header.src_ip,
        tcp.dst_port,
        tcp.src_port,
        Seq::empty(),
    );
    let t = after_segment(s, pkt, tcp);
    assert(t.pending_output.take(s.pending_output.len() as int) =~= s.pending_output);
}

/// A segment with neither RST nor FIN hands its payload to the relay as one message, byte
/// for byte and all of it, and the session expects from the client what follows it: what
/// the session acknowledges is what it handed over. Without a payload it changes nothing.
pub proof fn law_data(s: SessionState, pkt: PacketView, tcp: TcpHeader)
    requires
        tcp.data_offset_reserved_flags as int / 4 % 2 == 0,
        tcp.data_offset_reserved_flags as int % 2 == 0,
    ensures
        pkt.payload.len() == 0 ==> after_segment(s, pkt, tcp) == s,
        pkt.payload.len() > 0 ==> ({
            let t = after_segment(s, pkt, tcp);
            &&& t.offered.len() == s.offered.len() + 1
            &&& t.offered.take(s.offered.len() as int) == s.offered
            &&& t.offered.last().len() == pkt.payload.len()
            &&& forall|i: int| 0 <= i < pkt.payload.len() ==> t.offered.last()[i] == pkt.payload[i]
            &&& t.client_seq == (tcp.sequence_number + t.offered.last().len()) % 0x1_0000_0000
            &&& t.our_seq == s.our_seq
            &&& t.pending_output == s.pending_output
            &&& t.fin_sent == s.fin_sent
            &&& t.fin_received == s.fin_received
            &&& t.pending_close == s.pending_close
            &&& t.close_signals == s.close_signals
            &&& t.taken == s.taken
            &&& t.room == s.room
            &&& t.close_room == s.close_room
            &&& t.asked == s.asked
            &&& t.emptied == s.emptied
        }),
{
    lemma_flag_bits(tcp.data_offset_reserved_flags);
    if pkt.payload.len() > 0 {
        let t = after_segment(s, pkt, tcp);
        assert(t.offered.take(s.offered.len() as int) =~= s.offered);
    }
}

/// A poll of a closing session writes what waits and takes nothing from the relay.
pub proof fn law_poll_of_a_closing_session(key: FlowKey, s: SessionState, msgs: Seq<Seq<u8>>)
    requires
        s.pending_close,
    ensures
        poll_packets(key, s, msgs) == s.pending_output,
        ({
            let t = after_poll(s, msgs);
            &&& t.pending_output.len() == 0
            &&& t.pending_close
            &&& t.client_seq == s.client_seq
            &&& t.our_seq == s.our_seq
            &&& t.fin_sent == s.fin_sent
            &&& t.fin_received == s.fin_received
            &&& t.offered == s.offered
            &&& t.taken == s.taken
            &&& t.close_signals == s.close_signals
            &&& t.room == s.room
            &&& t.close_room == s.close_room
            &&& t.asked == s.asked
            &&& t.emptied == s.emptied
        }),
{
}

/// The session after a poll, when it is not closing: what waited is written, what the
/// relay had ready is taken, and the rest is as it was but for the next number.
pub proof fn law_poll_of_an_open_session(s: SessionState, msgs: Seq<Seq<u8>>)
    requires
        !s.pending_close,
    ensures
        ({
            let t = after_poll(s, msgs);
            &&& t.pending_output.len() == 0
            &&& t.taken.len() == s.taken.len() + msgs.len()
            &&& t.taken.take(s.taken.len() as int) == s.taken
            &&& t.taken.skip(s.taken.len() as int) == msgs
            &&& !t.pending_close
            &&& t.client_seq == s.client_seq
            &&& t.fin_sent == s.fin_sent
            &&& t.fin_received == s.fin_received
            &&& t.offered == s.offered
            &&& t.close_signals == s.close_signals
            &&& t.room == s.room
            &&& t.close_room == s.close_room
            &&& t.asked == s.asked + 1
            &&& t.emptied == s.emptied + 1
            &&& msgs.len() == 0 ==> t.our_seq == s.our_seq
        }),
{
    let t = after_poll(s, msgs);
    assert(t.taken.take(s.taken.len() as int) =~= s.taken);
    assert(t.taken.skip(s.taken.len() as int) =~= msgs);
}

/// The number after a poll that brings one message more is higher by the length of that
/// message.
pub proof fn law_numbers_count_bytes(s: SessionState, msgs: Seq<Seq<u8>>, m: Seq<u8>)
    requires
        !s.pending_close,
    ensures
        after_poll(s, msgs.push(m)).our_seq == (after_poll(s, msgs).our_seq + m.len())
            % 0x1_0000_0000,
{
    assert(msgs.push(m).drop_last() =~= msgs);
    crate::session::lemma_total_len(msgs);
}

/// What a poll of an open session writes: first what waited; then, for each message from
/// the relay, one packet that carries it whole, whose number follows the bytes before it;
/// and after the last message a packet without payload that has the next number. All of
/// them go from where the client was going to the client, and acknowledge what the
/// session expects from the client, whether or not the client has sent data.
pub proof fn law_poll_packets(key: FlowKey, s: SessionState, msgs: Seq<Seq<u8>>, i: int)
    requires
        !s.pending_close,
        0 <= i < msgs.len(),
    ensures
        ({
            let out = poll_packets(key, s, msgs);
            let w = s.pending_output.len() as int;
            let src = Ipv4Addr::of_bits(key.dst_ip);
            let dst = Ipv4Addr::of_bits(key.src_ip);
            &&& out.len() == w + msgs.len() + 1
            &&& out.take(w) == s.pending_output
            &&& has_segment(
                out[w + i],
                after_poll(s, msgs.take(i)).our_seq,
                s.client_seq,
                0x18,
                src,
                dst,
                key.dst_port,
                key.src_port,
                msgs[i],
            )
            &&& has_segment(
                out.last(),
                after_poll(s, msgs).our_seq,
                s.client_seq,
                0x10,
                src,
                dst,
                key.dst_port,
                key.src_port,
                Seq::empty(),
            )
        }),
{
    let out = poll_packets(key, s, msgs);
    let data = data_packets(key, s.our_seq, s.client_seq, msgs);
    let src = Ipv4Addr::of_bits(key.dst_ip);
    let dst = Ipv4Addr::of_bits(key.src_ip);
    lemma_data_bytes(key, s, msgs, i);
    assert(out.take(s.pending_output.len() as int) =~= s.pending_output);
    law_built_segment(
        after_poll(s, msgs).our_seq,
        s.client_seq,
        0x10,
        src,
        dst,
        key.dst_port,
        key.src_port,
        Seq::empty(),
    );
    assert(out[s.pending_output.len() + i] == data[i]);
}

/// Without messages from the relay, a poll writes what waited and no more.
pub proof fn law_poll_without_messages(key: FlowKey, s: SessionState)
    ensures
        poll_packets(key, s, Seq::empty()) == s.pending_output,
{
    assert(poll_packets(key, s, Seq::empty()) =~= s.pending_output);
}

proof fn lemma_data_bytes(key: FlowKey, s: SessionState, msgs: Seq<Seq<u8>>, i: int)
    requires
        !s.pending_close,
        0 <= i < msgs.len(),
    ensures
        data_packets(key, s.our_seq, s.client_seq, msgs).len() == msgs.len(),
        has_segment(
            data_packets(key, s.our_seq, s.client_seq, msgs)[i],
            after_poll(s, msgs.take(i)).our_seq,
            s.client_seq,
            0x18,
            Ipv4Addr::of_bits(key.dst_ip),
            Ipv4Addr::of_bits(key.src_ip),
            key.dst_port,
            key.src_port,
            msgs[i],
        ),
    decreases msgs.len(),
{
    let rest = msgs.drop_last();
    if rest.len() > 0 {
        let j = if i < rest.len() {
            i
        } else {
            0
        };
        lemma_data_bytes(key, s, rest, j);
    } else {
        assert(data_packets(key, s.our_seq, s.client_seq, rest).len() == 0);
    }
    if i < rest.len() {
        assert(rest.take(i) =~= msgs.take(i));
    } else {
        assert(rest =~= msgs.take(i));
        law_built_segment(
            after_poll(s, rest).our_seq,
            s.client_seq,
            0x18,
            Ipv4Addr::of_bits(key.dst_ip),
            Ipv4Addr::of_bits(key.src_ip),
            key.dst_port,
            key.src_port,
            msgs[i],
        );
    }
}

/// Until the client sends data, all that the session sends acknowledges what its SYN-ACK
/// acknowledged: the data and the ACK of a poll after the SYN, and the FIN-ACK.
pub proof fn law_nothing_unsent_is_acknowledged(
    key: FlowKey,
    pkt: PacketView,
    tcp: TcpHeader,
    isn: u32,
    first: Seq<Seq<u8>>,
    msgs: Seq<Seq<u8>>,
    i: int,
    fin: PacketView,
    fin_tcp: TcpHeader,
)
    requires
        0 <= i < msgs.len(),
        fin_tcp.data_offset_reserved_flags as int / 4 % 2 == 0,
        fin_tcp.data_offset_reserved_flags as int % 2 == 1,
    ensures
        ({
            let s = after_poll(opened(pkt, tcp, isn), first);
            let d = poll_packets(key, s, msgs)[i];
            let ack = poll_packets(key, s, msgs).last();
            let f = after_segment(s, fin, fin_tcp).pending_output.last();
            let expected = (tcp.sequence_number + 1) % 0x1_0000_0000;
            &&& 256 * (256 * (256 * d[28] + d[29]) + d[30]) + d[31] == expected
            &&& 256 * (256 * (256 * ack[28] + ack[29]) + ack[30]) + ack[31] == expected
            &&& 256 * (256 * (256 * f[28] + f[29]) + f[30]) + f[31] == expected
            &&& first.len() == 0 && i == 0 ==> 256 * (256 * (256 * d[24] + d[25]) + d[26]) + d[27]
                == (isn + 1) % 0x1_0000_0000
        }),
{
    let s0 = opened(pkt, tcp, isn);
    law_syn_opens(pkt, tcp, isn);
    law_poll_of_an_open_session(s0, first);
    let s = after_poll(s0, first);
    law_poll_packets(key, s, msgs, i);
    law_fin(s, fin, fin_tcp);
    assert(msgs.take(0) =~= Seq::<Seq<u8>>::empty());
    law_poll_of_an_open_session(s, Seq::empty());
}

} // verus!
