//! TCP segments in IPv4 packets.
use vstd::prelude::*;
use vstd::slice::slice_subrange;

use crate::addr::Ipv4Addr;
use crate::bytes::{
    be16_bytes, be32_bytes, lemma_be16_inverse, lemma_be32_inverse, push_be16, push_be32,
    push_bytes, u16_from_be,
};
use crate::checksum::{
    add_words, checksum_of, finish_checksum, lemma_checksum_verifies, lemma_word_sum_bound,
    lemma_word_sum_concat, lemma_word_sum_number, lemma_word_sum_split, word_sum,
};
use crate::packet::{
    build_ipv4_header, ipv4_header, ipv4_of, lemma_built_header_is_read, lemma_tcp_packet, length_covers_header, length_field,
    packet_of, tcp_of, total_length, transport_bytes, Ipv4Header, PacketView, TcpHeader,
    TransportInfo,
};

verus! {

pub const TCP_SYN: u8 = 0x02;

pub const TCP_ACK: u8 = 0x10;

pub const TCP_PSH: u8 = 0x08;

pub const TCP_FIN: u8 = 0x01;

pub const TCP_RST: u8 = 0x04;

pub const TCP_WINDOW: u16 = 65535;

/// A 20-byte TCP header without options that carries `checksum`.
pub open spec fn tcp_header_with(
    seq: u32,
    ack: u32,
    flags: u8,
    src_port: u16,
    dst_port: u16,
    checksum: u16,
) -> Seq<u8> {
    be16_bytes(src_port) + be16_bytes(dst_port) + be32_bytes(seq) + be32_bytes(ack) + seq![
        0x50u8,
        flags,
    ] + be16_bytes(TCP_WINDOW) + be16_bytes(checksum) + seq![0u8, 0u8]
}

/// The sum of the words of the pseudo header of a segment of `len` bytes.
pub open spec fn pseudo_sum(src: Ipv4Addr, dst: Ipv4Addr, len: int) -> int {
    word_sum(src.bytes()) + word_sum(dst.bytes()) + 6 + len
}

/// A segment with its checksum field taken as zero.
pub open spec fn blank_checksum(segment: Seq<u8>) -> Seq<u8> {
    Seq::new(
        segment.len(),
        |i: int|
            if i == 16 || i == 17 {
                0u8
            } else {
                segment[i]
            },
    )
}

/// The TCP checksum of `segment` between `src` and `dst`.
pub open spec fn tcp_checksum(segment: Seq<u8>, src: Ipv4Addr, dst: Ipv4Addr) -> u16 {
    checksum_of(pseudo_sum(src, dst, segment.len() as int) + word_sum(blank_checksum(segment)))
}

/// The IPv4 packet that carries one TCP segment.
#[verifier::opaque]
pub open spec fn tcp_ip_packet(
    seq: u32,
    ack: u32,
    flags: u8,
    src: Ipv4Addr,
    dst: Ipv4Addr,
    src_port: u16,
    dst_port: u16,
    payload: Seq<u8>,
) -> Seq<u8> {
    let blank = tcp_header_with(seq, ack, flags, src_port, dst_port, 0) + payload;
    ipv4_header(length_field(40 + payload.len() as int), 0, 0, 64, 6, src, dst) + tcp_header_with(
        seq,
        ack,
        flags,
        src_port,
        dst_port,
        tcp_checksum(blank, src, dst),
    ) + payload
}

/// The sum of the words of an address.
fn add_addr(start: u32, ip: Ipv4Addr) -> (r: u32)
    ensures
        r == (start + word_sum(ip.bytes())) % 0x1_0000_0000,
{
    proof {
        reveal_with_fuel(word_sum, 3);
        assert(ip.bytes().skip(2) =~= seq![ip.c, ip.d]);
        assert(ip.bytes().skip(2).skip(2) =~= Seq::<u8>::empty());
    }
    let hi: u16 = u16_from_be(ip.a, ip.b);
    let lo: u16 = u16_from_be(ip.c, ip.d);
    start.wrapping_add(hi as u32).wrapping_add(lo as u32)
}

/// The sum of the words of the pseudo header of a segment of `len` bytes.
fn pseudo_header_sum(src: Ipv4Addr, dst: Ipv4Addr, len: usize) -> (r: u32)
    ensures
        r == pseudo_sum(src, dst, len as int) % 0x1_0000_0000,
{
    let len_low: u32 = (len as u64 % 0x1_0000_0000) as u32;
    let src_sum: u32 = add_addr(0, src);
    let both: u32 = add_addr(src_sum, dst);
    both.wrapping_add(6).wrapping_add(len_low)
}

/// `start` plus the words of a segment whose checksum field counts as zero.
fn add_segment(start: u32, segment: &[u8]) -> (r: u32)
    ensures
        r == (start + word_sum(blank_checksum(segment@))) % 0x1_0000_0000,
{
    let len: usize = segment.len();
    let ghost blank = blank_checksum(segment@);
    if len <= 16 {
        assert(segment@ =~= blank);
        return add_words(start, segment);
    }
    let head: u32 = add_words(start, slice_subrange(segment, 0, 16));
    let ghost field = blank.skip(16);
    proof {
        lemma_word_sum_split(blank, 16);
        assert(segment@.subrange(0, 16) =~= blank.take(16));
    }
    if len <= 18 {
        assert(word_sum(field) == 0) by {
            reveal_with_fuel(word_sum, 2);
            assert(field.len() == 2 ==> field.skip(2).len() == 0);
        }
        return head;
    }
    assert(word_sum(field) == word_sum(field.skip(2)));
    assert(field.skip(2) =~= segment@.subrange(18, len as int));
    add_words(head, slice_subrange(segment, 18, len))
}

/// The TCP checksum of the segment that follows the 20-byte header of `ip_pkt`.
/// The checksum field of the segment counts as zero.
pub fn calc_tcp_checksum(ip_pkt: &[u8], src: Ipv4Addr, dst: Ipv4Addr) -> (r: u16)
    requires
        ip_pkt@.len() >= 20,
    ensures
        r == tcp_checksum(ip_pkt@.skip(20), src, dst),
{
    let segment = slice_subrange(ip_pkt, 20, ip_pkt.len());
    assert(segment@ =~= ip_pkt@.skip(20));
    let sum: u32 = add_segment(pseudo_header_sum(src, dst, segment.len()), segment);
    finish_checksum(sum)
}

/// The TCP header `tcp_header_with` describes.
fn push_tcp_header(
    out: &mut Vec<u8>,
    seq: u32,
    ack: u32,
    flags: u8,
    src_port: u16,
    dst_port: u16,
    checksum: u16,
)
    ensures
        final(out)@ == old(out)@ + tcp_header_with(seq, ack, flags, src_port, dst_port, checksum),
{
    let ghost before = out@;
    push_be16(out, src_port);
    push_be16(out, dst_port);
    push_be32(out, seq);
    push_be32(out, ack);
    out.push(0x50);
    out.push(flags);
    push_be16(out, TCP_WINDOW);
    push_be16(out, checksum);
    out.push(0);
    out.push(0);
    assert(out@ =~= before + tcp_header_with(seq, ack, flags, src_port, dst_port, checksum));
}

/// Builds the IPv4 packet that carries one TCP segment.
pub fn build_tcp_ip_packet(
    seq: u32,
    ack: u32,
    flags: u8,
    src_ip: Ipv4Addr,
    dst_ip: Ipv4Addr,
    src_port: u16,
    dst_port: u16,
    payload: &[u8],
) -> (r: Vec<u8>)
    ensures
        r@ == tcp_ip_packet(seq, ack, flags, src_ip, dst_ip, src_port, dst_port, payload@),
{
    reveal(tcp_ip_packet);
    let total: u16 = total_length(40, payload.len());
    let mut buf = build_ipv4_header(total, 0, 0, 64, 6, src_ip, dst_ip);
    let ghost header = buf@;
    push_tcp_header(&mut buf, seq, ack, flags, src_port, dst_port, 0);
    push_bytes(&mut buf, payload);
    let ghost blank = tcp_header_with(seq, ack, flags, src_port, dst_port, 0) + payload@;
    assert(header.len() == 20);
    assert(buf@.skip(20) =~= blank);
    let checksum: u16 = calc_tcp_checksum(buf.as_slice(), src_ip, dst_ip);
    buf[36] = (checksum / 0x100) as u8;
    buf[37] = (checksum % 0x100) as u8;
    assert(buf@ =~= header + tcp_header_with(seq, ack, flags, src_port, dst_port, checksum)
        + payload@);
    buf
}

/// The words of a segment that carries a checksum are those of the segment without
/// it and the checksum.
proof fn lemma_segment_words(
    seq: u32,
    ack: u32,
    flags: u8,
    src_port: u16,
    dst_port: u16,
    checksum: u16,
    payload: Seq<u8>,
)
    ensures
        word_sum(tcp_header_with(seq, ack, flags, src_port, dst_port, checksum) + payload)
            == word_sum(tcp_header_with(seq, ack, flags, src_port, dst_port, 0) + payload)
            + checksum,
{
    let front = be16_bytes(src_port) + be16_bytes(dst_port) + be32_bytes(seq) + be32_bytes(ack)
        + seq![0x50u8, flags] + be16_bytes(TCP_WINDOW);
    let back = seq![0u8, 0u8] + payload;
    let with = tcp_header_with(seq, ack, flags, src_port, dst_port, checksum) + payload;
    let without = tcp_header_with(seq, ack, flags, src_port, dst_port, 0) + payload;
    assert(with =~= front + be16_bytes(checksum) + back);
    assert(without =~= front + be16_bytes(0) + back);
    lemma_word_sum_concat(front + be16_bytes(checksum), back);
    lemma_word_sum_concat(front, be16_bytes(checksum));
    lemma_word_sum_number(checksum);
    lemma_word_sum_concat(front + be16_bytes(0), back);
    lemma_word_sum_concat(front, be16_bytes(0));
    lemma_word_sum_number(0);
}

/// A segment that was built, and is no longer than its packet's length field can
/// say, verifies: the checksum over its pseudo header and all of it, its own checksum
/// field among it, is zero.
pub proof fn lemma_segment_verifies(
    seq: u32,
    ack: u32,
    flags: u8,
    src: Ipv4Addr,
    dst: Ipv4Addr,
    src_port: u16,
    dst_port: u16,
    payload: Seq<u8>,
)
    requires
        40 + payload.len() <= 0xffff,
    ensures
        ({
            let segment = tcp_ip_packet(
                seq,
                ack,
                flags,
                src,
                dst,
                src_port,
                dst_port,
                payload,
            ).skip(20);
            checksum_of(pseudo_sum(src, dst, segment.len() as int) + word_sum(segment)) == 0
        }),
{
    reveal(tcp_ip_packet);
    let blank = tcp_header_with(seq, ack, flags, src_port, dst_port, 0) + payload;
    let checksum = tcp_checksum(blank, src, dst);
    let d = tcp_ip_packet(seq, ack, flags, src, dst, src_port, dst_port, payload);
    let whole = tcp_header_with(seq, ack, flags, src_port, dst_port, checksum) + payload;
    assert(d.skip(20) =~= whole);
    assert(blank_checksum(blank) =~= blank);
    lemma_segment_words(seq, ack, flags, src_port, dst_port, checksum, payload);
    lemma_word_sum_bound(blank);
    lemma_word_sum_bound(src.bytes());
    lemma_word_sum_bound(dst.bytes());
    lemma_checksum_verifies(
        pseudo_sum(src, dst, blank.len() as int) + word_sum(blank),
    );
}

/// A segment that was built, and is no longer than its packet's length field can
/// say, is read back: both headers and the payload.
pub proof fn lemma_segment_is_read(
    seq: u32,
    ack: u32,
    flags: u8,
    src: Ipv4Addr,
    dst: Ipv4Addr,
    src_port: u16,
    dst_port: u16,
    payload: Seq<u8>,
)
    requires
        40 + payload.len() <= 0xffff,
    ensures
        ({
            let d = tcp_ip_packet(seq, ack, flags, src, dst, src_port, dst_port, payload);
            &&& length_covers_header(d)
            &&& carries(d, seq, ack, flags, src, dst, src_port, dst_port, payload)
        }),
{
    reveal(tcp_ip_packet);
    let blank = tcp_header_with(seq, ack, flags, src_port, dst_port, 0) + payload;
    let checksum = tcp_checksum(blank, src, dst);
    let header = tcp_header_with(seq, ack, flags, src_port, dst_port, checksum);
    let tcp = TcpHeader {
        src_port,
        dst_port,
        sequence_number: seq,
        acknowledgment_number: ack,
        data_offset_reserved_flags: (0x5000 + flags) as u16,
        window_size: TCP_WINDOW,
        checksum,
        urgent_pointer: 0,
    };
    lemma_tcp_header_is_read(seq, ack, flags, src_port, dst_port, checksum, payload);
    lemma_header_in_packet(header, payload, src, dst, tcp);
}

/// A packet around a TCP header that is read as `tcp`.
proof fn lemma_header_in_packet(
    header: Seq<u8>,
    payload: Seq<u8>,
    src: Ipv4Addr,
    dst: Ipv4Addr,
    tcp: TcpHeader,
)
    requires
        40 + payload.len() <= 0xffff,
        (header + payload).len() == 20 + payload.len(),
        tcp_of(header + payload) == Some((tcp, 20int)),
        (header + payload).skip(20) == payload,
        0x5000 <= tcp.data_offset_reserved_flags <= 0x50ff,
        tcp.window_size == TCP_WINDOW,
        tcp.urgent_pointer == 0,
    ensures
        ({
            let total = length_field(40 + payload.len() as int);
            let d = ipv4_header(total, 0, 0, 64, 6, src, dst) + header + payload;
            &&& length_covers_header(d)
            &&& carries(
                d,
                tcp.sequence_number,
                tcp.acknowledgment_number,
                (tcp.data_offset_reserved_flags - 0x5000) as u8,
                src,
                dst,
                tcp.src_port,
                tcp.dst_port,
                payload,
            )
        }),
{
    let total = length_field(40 + payload.len() as int);
    let ip = ipv4_header(total, 0, 0, 64, 6, src, dst);
    lemma_built_header_is_read(total, 0, 0, 64, 6, src, dst, header + payload);
    let (ip_header, _) = ipv4_of(ip + (header + payload))->0;
    lemma_three_parts(ip, header, payload, ip_header, tcp);
    lemma_carries(ip + header + payload, ip_header, tcp, payload);
}

/// What a packet says that is made of an IPv4 header, a TCP header and a payload.
proof fn lemma_three_parts(
    ip: Seq<u8>,
    header: Seq<u8>,
    payload: Seq<u8>,
    ip_header: Ipv4Header,
    tcp: TcpHeader,
)
    requires
        length_covers_header(ip + (header + payload)),
        ipv4_of(ip + (header + payload)) == Some((ip_header, 20int)),
        ip_header.protocol == 6,
        transport_bytes(ip + (header + payload)) == header + payload,
        tcp_of(header + payload) == Some((tcp, 20int)),
        (header + payload).skip(20) == payload,
    ensures
        length_covers_header(ip + header + payload),
        packet_of(ip + header + payload) == Some(
            PacketView { ip_header, transport: TransportInfo::Tcp(tcp), payload },
        ),
{
    assert(ip + header + payload =~= ip + (header + payload));
    lemma_tcp_packet(ip + header + payload, ip_header, tcp, 20);
}

/// What a packet carries whose headers are known.
proof fn lemma_carries(d: Seq<u8>, ip_header: Ipv4Header, tcp: TcpHeader, payload: Seq<u8>)
    requires
        packet_of(d) == Some(
            PacketView { ip_header, transport: TransportInfo::Tcp(tcp), payload },
        ),
        ip_header.version_ihl == 0x45,
        ip_header.total_length == 40 + payload.len(),
        ip_header.ttl == 64,
        0x5000 <= tcp.data_offset_reserved_flags <= 0x50ff,
        tcp.window_size == TCP_WINDOW,
        tcp.urgent_pointer == 0,
    ensures
        carries(
            d,
            tcp.sequence_number,
            tcp.acknowledgment_number,
            (tcp.data_offset_reserved_flags - 0x5000) as u8,
            ip_header.src_ip,
            ip_header.dst_ip,
            tcp.src_port,
            tcp.dst_port,
            payload,
        ),
{
}

/// A TCP header that was built is read back.
proof fn lemma_tcp_header_is_read(
    seq: u32,
    ack: u32,
    flags: u8,
    src_port: u16,
    dst_port: u16,
    checksum: u16,
    payload: Seq<u8>,
)
    ensures
        ({
            let t = tcp_header_with(seq, ack, flags, src_port, dst_port, checksum) + payload;
            &&& t.len() == 20 + payload.len()
            &&& tcp_of(t) == Some(
                (
                    TcpHeader {
                        src_port,
                        dst_port,
                        sequence_number: seq,
                        acknowledgment_number: ack,
                        data_offset_reserved_flags: (0x5000 + flags) as u16,
                        window_size: TCP_WINDOW,
                        checksum,
                        urgent_pointer: 0,
                    },
                    20int,
                ),
            )
            &&& t.skip(20) == payload
        }),
{
    broadcast use {lemma_be16_inverse, lemma_be32_inverse};

    let header = tcp_header_with(seq, ack, flags, src_port, dst_port, checksum);
    let t = header + payload;
    assert(header.len() == 20);
    assert(t[0] == be16_bytes(src_port)[0] && t[1] == be16_bytes(src_port)[1]);
    assert(t[2] == be16_bytes(dst_port)[0] && t[3] == be16_bytes(dst_port)[1]);
    assert(t[4] == be32_bytes(seq)[0] && t[5] == be32_bytes(seq)[1] && t[6] == be32_bytes(seq)[2]
        && t[7] == be32_bytes(seq)[3]);
    assert(t[8] == be32_bytes(ack)[0] && t[9] == be32_bytes(ack)[1] && t[10] == be32_bytes(ack)[2]
        && t[11] == be32_bytes(ack)[3]);
    assert(t[12] == 0x50 && t[13] == flags);
    assert(t[14] == be16_bytes(TCP_WINDOW)[0] && t[15] == be16_bytes(TCP_WINDOW)[1]);
    assert(t[16] == be16_bytes(checksum)[0] && t[17] == be16_bytes(checksum)[1]);
    assert(t[18] == 0 && t[19] == 0);
    assert(t.skip(20) =~= payload);
}

/// Whether the packet `d` carries this TCP segment.
pub open spec fn carries(
    d: Seq<u8>,
    seq: u32,
    ack: u32,
    flags: u8,
    src: Ipv4Addr,
    dst: Ipv4Addr,
    src_port: u16,
    dst_port: u16,
    payload: Seq<u8>,
) -> bool {
    &&& packet_of(d) matches Some(pkt)
    &&& pkt.ip_header.version_ihl == 0x45
    &&& pkt.ip_header.total_length == 40 + payload.len()
    &&& pkt.ip_header.ttl == 64
    &&& pkt.ip_header.src_ip == src
    &&& pkt.ip_header.dst_ip == dst
    &&& pkt.payload == payload
    &&& pkt.transport matches TransportInfo::Tcp(tcp)
    &&& tcp.src_port == src_port
    &&& tcp.dst_port == dst_port
    &&& tcp.sequence_number == seq
    &&& tcp.acknowledgment_number == ack
    &&& tcp.data_offset_reserved_flags == 0x5000 + flags
    &&& tcp.window_size == TCP_WINDOW
    &&& tcp.urgent_pointer == 0
}

} // verus!
