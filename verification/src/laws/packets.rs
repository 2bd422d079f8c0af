//! How packets are read and built, said of their bytes.
use vstd::prelude::*;

use crate::addr::Ipv4Addr;
use crate::packet::{
    ipv4_header, ipv4_of, ipv4_packet, length_covers_header, packet_of, tcp_of, transport_bytes,
    udp_of, PacketInfo, TransportInfo,
};

verus! {

/// An IPv4 header whose first byte has `n` in its low half is read exactly when it has
/// at least five words of four bytes and all of them are there, whatever its version.
/// Each field is read from its own bytes.
pub proof fn law_ipv4_header_is_read(d: Seq<u8>, version: int, n: int)
    requires
        d.len() > 0 ==> d[0] == 16 * version + n,
        0 <= n < 16,
    ensures
        ipv4_of(d) is Some <==> d.len() >= 20 && n >= 5 && 4 * n <= d.len(),
        ipv4_of(d) matches Some((h, len)) ==> {
            &&& len == 4 * n
            &&& h.version_ihl == d[0]
            &&& h.dscp_ecn == d[1]
            &&& h.total_length == 256 * d[2] + d[3]
            &&& h.identification == 256 * d[4] + d[5]
            &&& h.flags_fragment == 256 * d[6] + d[7]
            &&& h.ttl == d[8]
            &&& h.protocol == d[9]
            &&& h.header_checksum == 256 * d[10] + d[11]
            &&& h.src_ip == (Ipv4Addr { a: d[12], b: d[13], c: d[14], d: d[15] })
            &&& h.dst_ip == (Ipv4Addr { a: d[16], b: d[17], c: d[18], d: d[19] })
        },
{
}

/// A TCP header whose byte 12 has the data offset `n` in its high half is read exactly
/// when the offset is at least five words of four bytes and all of them are there: no
/// segment with options is refused. Each field is read from its own bytes.
pub proof fn law_tcp_header_is_read(d: Seq<u8>, n: int, low: int)
    requires
        d.len() > 12 ==> d[12] == 16 * n + low,
        0 <= low < 16,
    ensures
        tcp_of(d) is Some <==> d.len() >= 20 && n >= 5 && 4 * n <= d.len(),
        tcp_of(d) matches Some((h, len)) ==> {
            &&& len == 4 * n
            &&& h.src_port == 256 * d[0] + d[1]
            &&& h.dst_port == 256 * d[2] + d[3]
            &&& h.sequence_number == 256 * (256 * (256 * d[4] + d[5]) + d[6]) + d[7]
            &&& h.acknowledgment_number == 256 * (256 * (256 * d[8] + d[9]) + d[10]) + d[11]
            &&& h.data_offset_reserved_flags == 256 * d[12] + d[13]
            &&& h.window_size == 256 * d[14] + d[15]
            &&& h.checksum == 256 * d[16] + d[17]
            &&& h.urgent_pointer == 256 * d[18] + d[19]
        },
{
}

/// A UDP header is read exactly when its eight bytes are there.
pub proof fn law_udp_header_is_read(d: Seq<u8>)
    ensures
        udp_of(d) is Some <==> d.len() >= 8,
        udp_of(d) matches Some((h, len)) ==> {
            &&& len == 8
            &&& h.src_port == 256 * d[0] + d[1]
            &&& h.dst_port == 256 * d[2] + d[3]
            &&& h.length == 256 * d[4] + d[5]
            &&& h.checksum == 256 * d[6] + d[7]
        },
{
}

/// Whether a packet may be taken apart: a whole IPv4 header does not announce a total
/// length that is shorter than itself.
pub proof fn law_total_length(d: Seq<u8>, version: int, n: int)
    requires
        d.len() > 0 ==> d[0] == 16 * version + n,
        0 <= n < 16,
    ensures
        length_covers_header(d) <==> (d.len() >= 20 && n >= 5 && 4 * n <= d.len() ==> 256 * d[2]
            + d[3] >= 4 * n),
{
}

/// A packet made of an IPv4 header of `n` words, a transport part and bytes after the
/// announced length is taken apart into that header and that part: the bytes after it
/// are ignored. When the data ends before the announced length, the part ends there.
pub proof fn law_transport_part(ip: Seq<u8>, part: Seq<u8>, rest: Seq<u8>, version: int, n: int)
    requires
        5 <= n < 16,
        ip.len() == 4 * n,
        ip[0] == 16 * version + n,
        256 * ip[2] + ip[3] == ip.len() + part.len() || (rest.len() == 0 && 256 * ip[2] + ip[3]
            >= ip.len() + part.len()),
    ensures
        length_covers_header(ip + part + rest),
        ipv4_of(ip + part + rest) is Some,
        transport_bytes(ip + part + rest) == part,
        packet_of(ip + part + rest) matches Some(pkt) ==> pkt.ip_header.protocol == ip[9]
            && pkt.ip_header.ttl == ip[8] && pkt.ip_header.src_ip == (Ipv4Addr {
            a: ip[12],
            b: ip[13],
            c: ip[14],
            d: ip[15],
        }) && pkt.ip_header.dst_ip == (Ipv4Addr { a: ip[16], b: ip[17], c: ip[18], d: ip[19] }),
{
    let d = ip + part + rest;
    assert(forall|i: int| 0 <= i < 20 ==> d[i] == ip[i]);
    assert(transport_bytes(d) =~= part);
}

/// A packet of protocol 6 is a TCP packet exactly when its transport part is a TCP header
/// of `m` words, options among them, and a payload; that payload is what is taken out.
pub proof fn law_tcp_packet(
    ip: Seq<u8>,
    part: Seq<u8>,
    rest: Seq<u8>,
    version: int,
    n: int,
    m: int,
    low: int,
)
    requires
        5 <= n < 16,
        ip.len() == 4 * n,
        ip[0] == 16 * version + n,
        256 * ip[2] + ip[3] == ip.len() + part.len() || (rest.len() == 0 && 256 * ip[2] + ip[3]
            >= ip.len() + part.len()),
        ip[9] == 6,
        part.len() > 12 ==> part[12] == 16 * m + low,
        0 <= low < 16,
    ensures
        packet_of(ip + part + rest) is Some <==> part.len() >= 20 && m >= 5 && 4 * m <= part.len(),
        packet_of(ip + part + rest) matches Some(pkt) ==> {
            &&& pkt.payload == part.skip(4 * m)
            &&& pkt.transport matches TransportInfo::Tcp(h)
            &&& h.src_port == 256 * part[0] + part[1]
            &&& h.dst_port == 256 * part[2] + part[3]
            &&& h.sequence_number == 256 * (256 * (256 * part[4] + part[5]) + part[6]) + part[7]
            &&& h.acknowledgment_number == 256 * (256 * (256 * part[8] + part[9]) + part[10])
                + part[11]
            &&& h.data_offset_reserved_flags == 256 * part[12] + part[13]
        },
{
    law_transport_part(ip, part, rest, version, n);
    law_tcp_header_is_read(part, m, low);
    let d = ip + part + rest;
    assert(d[9] == ip[9]);
}

/// A packet of protocol 17 is a UDP packet exactly when its transport part has the eight
/// bytes of a UDP header; the payload is what follows them.
pub proof fn law_udp_packet(ip: Seq<u8>, part: Seq<u8>, rest: Seq<u8>, version: int, n: int)
    requires
        5 <= n < 16,
        ip.len() == 4 * n,
        ip[0] == 16 * version + n,
        256 * ip[2] + ip[3] == ip.len() + part.len() || (rest.len() == 0 && 256 * ip[2] + ip[3]
            >= ip.len() + part.len()),
        ip[9] == 17,
    ensures
        packet_of(ip + part + rest) is Some <==> part.len() >= 8,
        packet_of(ip + part + rest) matches Some(pkt) ==> {
            &&& pkt.payload == part.skip(8)
            &&& pkt.transport matches TransportInfo::Udp(h)
            &&& h.src_port == 256 * part[0] + part[1]
            &&& h.dst_port == 256 * part[2] + part[3]
            &&& h.length == 256 * part[4] + part[5]
            &&& h.checksum == 256 * part[6] + part[7]
        },
{
    law_transport_part(ip, part, rest, version, n);
    let d = ip + part + rest;
    assert(d[9] == ip[9]);
}

/// A packet of any other protocol is taken apart into its IPv4 header and all that
/// follows it.
pub proof fn law_other_packet(ip: Seq<u8>, part: Seq<u8>, rest: Seq<u8>, version: int, n: int)
    requires
        5 <= n < 16,
        ip.len() == 4 * n,
        ip[0] == 16 * version + n,
        256 * ip[2] + ip[3] == ip.len() + part.len() || (rest.len() == 0 && 256 * ip[2] + ip[3]
            >= ip.len() + part.len()),
        ip[9] != 6,
        ip[9] != 17,
    ensures
        packet_of(ip + part + rest) matches Some(pkt) && pkt.payload == part && pkt.transport == (
        TransportInfo::Other { protocol: ip[9] }),
{
    law_transport_part(ip, part, rest, version, n);
    let d = ip + part + rest;
    assert(d[9] == ip[9]);
}

/// The bytes of an IPv4 header that is built, but for those of its checksum.
pub proof fn law_built_header(
    total: u16,
    identification: u16,
    flags_fragment: u16,
    ttl: u8,
    protocol: u8,
    src: Ipv4Addr,
    dst: Ipv4Addr,
)
    ensures
        ({
            let h = ipv4_header(total, identification, flags_fragment, ttl, protocol, src, dst);
            &&& h.len() == 20
            &&& h[0] == 0x45
            &&& h[1] == 0
            &&& 256 * h[2] + h[3] == total
            &&& 256 * h[4] + h[5] == identification
            &&& 256 * h[6] + h[7] == flags_fragment
            &&& h[8] == ttl
            &&& h[9] == protocol
            &&& h[12] == src.a && h[13] == src.b && h[14] == src.c && h[15] == src.d
            &&& h[16] == dst.a && h[17] == dst.b && h[18] == dst.c && h[19] == dst.d
        }),
{
}

/// The bytes of an IPv4 packet that is built: it is not to be fragmented, it carries the
/// whole payload, and its length field has the low sixteen bits of its length.
pub proof fn law_built_packet(
    payload: Seq<u8>,
    src: Ipv4Addr,
    dst: Ipv4Addr,
    protocol: u8,
    ttl: u8,
    identification: u16,
)
    ensures
        ({
            let d = ipv4_packet(payload, src, dst, protocol, ttl, identification);
            &&& d.len() == 20 + payload.len()
            &&& d[0] == 0x45
            &&& d[1] == 0
            &&& 256 * d[2] + d[3] == (20 + payload.len()) % 0x1_0000
            &&& 256 * d[4] + d[5] == identification
            &&& d[6] == 0x40
            &&& d[7] == 0
            &&& d[8] == ttl
            &&& d[9] == protocol
            &&& d[12] == src.a && d[13] == src.b && d[14] == src.c && d[15] == src.d
            &&& d[16] == dst.a && d[17] == dst.b && d[18] == dst.c && d[19] == dst.d
            &&& d.skip(20) == payload
        }),
{
    let d = ipv4_packet(payload, src, dst, protocol, ttl, identification);
    let total = ((20 + payload.len()) % 0x1_0000) as u16;
    law_built_header(total, identification, 0x4000, ttl, protocol, src, dst);
    let h = ipv4_header(total, identification, 0x4000, ttl, protocol, src, dst);
    assert(d == h + payload);
    assert(forall|i: int| 0 <= i < 20 ==> d[i] == h[i]);
    assert(d.skip(20) =~= payload);
}

/// What is known of a packet that was taken apart is what it holds.
pub proof fn law_packet_info(info: PacketInfo)
    ensures
        info@.ip_header == info.ip_header,
        info@.transport == info.transport,
        info@.payload == info.payload@,
{
}

} // verus!
