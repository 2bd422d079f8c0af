//! How TCP segments are built, said of their bytes.
use vstd::prelude::*;

use crate::addr::Ipv4Addr;
use crate::checksum::{lemma_word_sum_bound, word_sum};
use crate::laws::numbers::law_checksum;
use crate::laws::packets::law_built_header;
use crate::packet::{ipv4_header, length_field};
use crate::segment::{
    blank_checksum, pseudo_sum, tcp_checksum, tcp_header_with, tcp_ip_packet,
};

verus! {

/// The packet `d` has these bytes: an IPv4 header and a TCP header of twenty bytes each,
/// with these addresses, ports, numbers and flags, and the whole payload. The window is
/// 65535, the lifetime 64, and the length field has the low sixteen bits of the length.
/// The two checksums are left out.
pub open spec fn has_segment(
    d: Seq<u8>,
    seq: u32,
    ack: u32,
    flags: u8,
    src: Ipv4Addr,
    dst: Ipv4Addr,
    src_port: u16,
    dst_port: u16,
    payload: Seq<u8>,
) -> bool {
    &&& d.len() == 40 + payload.len()
    &&& d[0] == 0x45
    &&& d[1] == 0
    &&& 256 * d[2] + d[3] == (40 + payload.len()) % 0x1_0000
    &&& d[4] == 0 && d[5] == 0 && d[6] == 0 && d[7] == 0
    &&& d[8] == 64
    &&& d[9] == 6
    &&& d[12] == src.a && d[13] == src.b && d[14] == src.c && d[15] == src.d
    &&& d[16] == dst.a && d[17] == dst.b && d[18] == dst.c && d[19] == dst.d
    &&& 256 * d[20] + d[21] == src_port
    &&& 256 * d[22] + d[23] == dst_port
    &&& 256 * (256 * (256 * d[24] + d[25]) + d[26]) + d[27] == seq
    &&& 256 * (256 * (256 * d[28] + d[29]) + d[30]) + d[31] == ack
    &&& d[32] == 0x50
    &&& d[33] == flags
    &&& d[34] == 0xff && d[35] == 0xff
    &&& d[38] == 0 && d[39] == 0
    &&& d.skip(40) == payload
}

/// The bytes of a segment that is built.
pub proof fn law_built_segment(
    seq: u32,
    ack: u32,
    flags: u8,
    src: Ipv4Addr,
    dst: Ipv4Addr,
    src_port: u16,
    dst_port: u16,
    payload: Seq<u8>,
)
    ensures
        has_segment(
            tcp_ip_packet(seq, ack, flags, src, dst, src_port, dst_port, payload),
            seq,
            ack,
            flags,
            src,
            dst,
            src_port,
            dst_port,
            payload,
        ),
{
    reveal(tcp_ip_packet);
    let blank = tcp_header_with(seq, ack, flags, src_port, dst_port, 0) + payload;
    let checksum = tcp_checksum(blank, src, dst);
    lemma_header_bytes(seq, ack, flags, src_port, dst_port, checksum);
    let total = length_field(40 + payload.len() as int);
    law_built_header(total, 0, 0, 64, 6, src, dst);
    lemma_assembled(
        ipv4_header(total, 0, 0, 64, 6, src, dst),
        tcp_header_with(seq, ack, flags, src_port, dst_port, checksum),
        payload,
        seq,
        ack,
        flags,
        src,
        dst,
        src_port,
        dst_port,
    );
}

proof fn lemma_header_bytes(
    seq: u32,
    ack: u32,
    flags: u8,
    src_port: u16,
    dst_port: u16,
    checksum: u16,
)
    ensures
        ({
            let t = tcp_header_with(seq, ack, flags, src_port, dst_port, checksum);
            &&& t.len() == 20
            &&& 256 * t[0] + t[1] == src_port
            &&& 256 * t[2] + t[3] == dst_port
            &&& 256 * (256 * (256 * t[4] + t[5]) + t[6]) + t[7] == seq
            &&& 256 * (256 * (256 * t[8] + t[9]) + t[10]) + t[11] == ack
            &&& t[12] == 0x50
            &&& t[13] == flags
            &&& t[14] == 0xff && t[15] == 0xff
            &&& t[18] == 0 && t[19] == 0
        }),
{
}

proof fn lemma_assembled(
    ip: Seq<u8>,
    t: Seq<u8>,
    payload: Seq<u8>,
    seq: u32,
    ack: u32,
    flags: u8,
    src: Ipv4Addr,
    dst: Ipv4Addr,
    src_port: u16,
    dst_port: u16,
)
    requires
        ip.len() == 20,
        ip[0] == 0x45,
        ip[1] == 0,
        256 * ip[2] + ip[3] == (40 + payload.len()) % 0x1_0000,
        256 * ip[4] + ip[5] == 0,
        256 * ip[6] + ip[7] == 0,
        ip[8] == 64,
        ip[9] == 6,
        ip[12] == src.a && ip[13] == src.b && ip[14] == src.c && ip[15] == src.d,
        ip[16] == dst.a && ip[17] == dst.b && ip[18] == dst.c && ip[19] == dst.d,
        t.len() == 20,
        256 * t[0] + t[1] == src_port,
        256 * t[2] + t[3] == dst_port,
        256 * (256 * (256 * t[4] + t[5]) + t[6]) + t[7] == seq,
        256 * (256 * (256 * t[8] + t[9]) + t[10]) + t[11] == ack,
        t[12] == 0x50,
        t[13] == flags,
        t[14] == 0xff && t[15] == 0xff,
        t[18] == 0 && t[19] == 0,
    ensures
        has_segment(
            ip + t + payload,
            seq,
            ack,
            flags,
            src,
            dst,
            src_port,
            dst_port,
            payload,
        ),
{
    let d = ip + t + payload;
    assert(forall|i: int| 0 <= i < 20 ==> d[i] == ip[i]);
    assert(forall|i: int| 0 <= i < 20 ==> #[trigger] d[20 + i] == t[i]);
    assert(d[20] == t[0] && d[21] == t[1] && d[22] == t[2] && d[23] == t[3]);
    assert(d[24] == t[4] && d[25] == t[5] && d[26] == t[6] && d[27] == t[7]);
    assert(d[28] == t[8] && d[29] == t[9] && d[30] == t[10] && d[31] == t[11]);
    assert(d[32] == t[12] && d[33] == t[13] && d[34] == t[14] && d[35] == t[15]);
    assert(d[38] == t[18] && d[39] == t[19]);
    assert(d.skip(40) =~= payload);
}

/// The pseudo header of a segment counts the two addresses in words of two bytes, the
/// protocol 6, and the length of the segment.
pub proof fn law_pseudo_header(src: Ipv4Addr, dst: Ipv4Addr, len: int)
    ensures
        pseudo_sum(src, dst, len) == 256 * src.a + src.b + 256 * src.c + src.d + 256 * dst.a + dst.b
            + 256 * dst.c + dst.d + 6 + len,
{
    reveal_with_fuel(word_sum, 3);
    assert(src.bytes().skip(2) =~= seq![src.c, src.d]);
    assert(src.bytes().skip(2).skip(2) =~= Seq::<u8>::empty());
    assert(dst.bytes().skip(2) =~= seq![dst.c, dst.d]);
    assert(dst.bytes().skip(2).skip(2) =~= Seq::<u8>::empty());
}

/// The checksum of a segment does not rest on the two bytes of its checksum field. With
/// zeros there, it makes the sum of the words of the pseudo header and of the segment a
/// multiple of 65535.
pub proof fn law_tcp_checksum(segment: Seq<u8>, src: Ipv4Addr, dst: Ipv4Addr, hi: u8, lo: u8)
    requires
        18 <= segment.len() <= 0xffff,
        segment[16] == 0,
        segment[17] == 0,
    ensures
        (256 * src.a + src.b + 256 * src.c + src.d + 256 * dst.a + dst.b + 256 * dst.c + dst.d + 6
            + segment.len() + word_sum(segment) + tcp_checksum(segment, src, dst)) % 0xffff == 0,
        tcp_checksum(segment.update(16, hi).update(17, lo), src, dst) == tcp_checksum(
            segment,
            src,
            dst,
        ),
{
    law_pseudo_header(src, dst, segment.len() as int);
    assert(blank_checksum(segment) =~= segment);
    let other = segment.update(16, hi).update(17, lo);
    assert(blank_checksum(other) =~= segment);
    lemma_word_sum_bound(segment);
    law_checksum(pseudo_sum(src, dst, segment.len() as int) + word_sum(segment));
}

} // verus!
