//! IPv4, TCP and UDP headers: reading a packet and building one.
use vstd::prelude::*;
use vstd::slice::{slice_subrange, slice_to_vec};

use crate::addr::Ipv4Addr;
use crate::bytes::{
    be16, be16_bytes, be32, lemma_be16_inverse, push_be16, push_bytes, u16_from_be, u32_from_be,
};
use crate::checksum::{
    checksum_of, ip_checksum, lemma_checksum_verifies, lemma_word_sum_bound, lemma_word_sum_concat,
    lemma_word_sum_number, lemma_word_sum_pair, word_sum,
};

verus! {

pub const IP_PROTOCOL_TCP: u8 = 6;

pub const IP_PROTOCOL_UDP: u8 = 17;

/// The fixed part of an IPv4 header.
#[derive(Debug, Clone, Copy, PartialEq, Eq, Structural)]
pub struct Ipv4Header {
    pub version_ihl: u8,
    pub dscp_ecn: u8,
    pub total_length: u16,
    pub identification: u16,
    pub flags_fragment: u16,
    pub ttl: u8,
    pub protocol: u8,
    pub header_checksum: u16,
    pub src_ip: Ipv4Addr,
    pub dst_ip: Ipv4Addr,
}

/// The fixed part of a TCP header.
#[derive(Debug, Clone, Copy, PartialEq, Eq, Structural)]
pub struct TcpHeader {
    pub src_port: u16,
    pub dst_port: u16,
    pub sequence_number: u32,
    pub acknowledgment_number: u32,
    pub data_offset_reserved_flags: u16,
    pub window_size: u16,
    pub checksum: u16,
    pub urgent_pointer: u16,
}

/// A UDP header.
#[derive(Debug, Clone, Copy, PartialEq, Eq, Structural)]
pub struct UdpHeader {
    pub src_port: u16,
    pub dst_port: u16,
    pub length: u16,
    pub checksum: u16,
}

/// A packet taken apart.
#[derive(Debug, Clone)]
pub struct PacketInfo {
    pub ip_header: Ipv4Header,
    pub transport: TransportInfo,
    pub payload: Vec<u8>,
}

/// The transport header of a packet.
#[derive(Debug, Clone, Copy, PartialEq, Eq, Structural)]
pub enum TransportInfo {
    Tcp(TcpHeader),
    Udp(UdpHeader),
    Other { protocol: u8 },
}

/// What a `PacketInfo` says.
pub struct PacketView {
    pub ip_header: Ipv4Header,
    pub transport: TransportInfo,
    pub payload: Seq<u8>,
}

impl View for PacketInfo {
    type V = PacketView;

    open spec fn view(&self) -> PacketView {
        PacketView {
            ip_header: self.ip_header,
            transport: self.transport,
            payload: self.payload@,
        }
    }
}

/// The IPv4 header length, in bytes, that the first byte announces.
pub open spec fn announced_ip_header_len(first: u8) -> int {
    (first as int % 16) * 4
}

/// The TCP header length, in bytes, that byte 12 announces.
pub open spec fn announced_tcp_header_len(offset_byte: u8) -> int {
    (offset_byte as int / 16) * 4
}

/// The fields that stand in the first 20 bytes of an IPv4 packet.
pub open spec fn ipv4_fields(d: Seq<u8>) -> Ipv4Header {
    Ipv4Header {
        version_ihl: d[0],
        dscp_ecn: d[1],
        total_length: be16(d[2], d[3]),
        identification: be16(d[4], d[5]),
        flags_fragment: be16(d[6], d[7]),
        ttl: d[8],
        protocol: d[9],
        header_checksum: be16(d[10], d[11]),
        src_ip: Ipv4Addr { a: d[12], b: d[13], c: d[14], d: d[15] },
        dst_ip: Ipv4Addr { a: d[16], b: d[17], c: d[18], d: d[19] },
    }
}

/// The fields that stand in the first 20 bytes of a TCP segment.
pub open spec fn tcp_fields(d: Seq<u8>) -> TcpHeader {
    TcpHeader {
        src_port: be16(d[0], d[1]),
        dst_port: be16(d[2], d[3]),
        sequence_number: be32(d[4], d[5], d[6], d[7]),
        acknowledgment_number: be32(d[8], d[9], d[10], d[11]),
        data_offset_reserved_flags: be16(d[12], d[13]),
        window_size: be16(d[14], d[15]),
        checksum: be16(d[16], d[17]),
        urgent_pointer: be16(d[18], d[19]),
    }
}

/// The fields of a UDP header.
pub open spec fn udp_fields(d: Seq<u8>) -> UdpHeader {
    UdpHeader {
        src_port: be16(d[0], d[1]),
        dst_port: be16(d[2], d[3]),
        length: be16(d[4], d[5]),
        checksum: be16(d[6], d[7]),
    }
}

/// The header that `d` starts with and its length, when all of it is there.
pub open spec fn ipv4_of(d: Seq<u8>) -> Option<(Ipv4Header, int)> {
    if d.len() >= 20 && 20 <= announced_ip_header_len(d[0]) <= d.len() {
        Some((ipv4_fields(d), announced_ip_header_len(d[0])))
    } else {
        None
    }
}

/// The header that `d` starts with and its length, when all of it is there.
pub open spec fn tcp_of(d: Seq<u8>) -> Option<(TcpHeader, int)> {
    if d.len() >= 20 && 20 <= announced_tcp_header_len(d[12]) <= d.len() {
        Some((tcp_fields(d), announced_tcp_header_len(d[12])))
    } else {
        None
    }
}

/// The header that `d` starts with and its length, when all of it is there.
pub open spec fn udp_of(d: Seq<u8>) -> Option<(UdpHeader, int)> {
    if d.len() >= 8 {
        Some((udp_fields(d), 8int))
    } else {
        None
    }
}

/// A packet whose IPv4 header is whole has a total length that covers it.
pub open spec fn length_covers_header(d: Seq<u8>) -> bool {
    ipv4_of(d) matches Some((h, n)) ==> h.total_length >= n
}

/// What follows the IPv4 header, up to the total length or the end of the data.
pub open spec fn transport_bytes(d: Seq<u8>) -> Seq<u8> {
    let (header, start) = ipv4_of(d)->0;
    let end = if header.total_length <= d.len() {
        header.total_length as int
    } else {
        d.len() as int
    };
    d.subrange(start, end)
}

/// What the packet `d` says, when its headers are whole.
pub open spec fn packet_of(d: Seq<u8>) -> Option<PacketView> {
    match ipv4_of(d) {
        None => None,
        Some((ip_header, _)) => {
            let t = transport_bytes(d);
            if ip_header.protocol == IP_PROTOCOL_TCP {
                match tcp_of(t) {
                    Some((tcp, n)) => Some(
                        PacketView {
                            ip_header,
                            transport: TransportInfo::Tcp(tcp),
                            payload: t.skip(n),
                        },
                    ),
                    None => None,
                }
            } else if ip_header.protocol == IP_PROTOCOL_UDP {
                match udp_of(t) {
                    Some((udp, n)) => Some(
                        PacketView {
                            ip_header,
                            transport: TransportInfo::Udp(udp),
                            payload: t.skip(n),
                        },
                    ),
                    None => None,
                }
            } else {
                Some(
                    PacketView {
                        ip_header,
                        transport: TransportInfo::Other { protocol: ip_header.protocol },
                        payload: t,
                    },
                )
            }
        },
    }
}

/// What a TCP packet says.
pub proof fn lemma_tcp_packet(d: Seq<u8>, ip_header: Ipv4Header, tcp: TcpHeader, len: int)
    requires
        ipv4_of(d) matches Some((h, _)) && h == ip_header,
        ip_header.protocol == IP_PROTOCOL_TCP,
        tcp_of(transport_bytes(d)) == Some((tcp, len)),
    ensures
        packet_of(d) == Some(
            PacketView {
                ip_header,
                transport: TransportInfo::Tcp(tcp),
                payload: transport_bytes(d).skip(len),
            },
        ),
{
}

/// Reads the IPv4 header at the start of `data` and its length in bytes.
pub fn parse_ipv4(data: &[u8]) -> (r: Option<(Ipv4Header, usize)>)
    ensures
        r is Some <==> ipv4_of(data@) is Some,
        r matches Some((header, len)) ==> ipv4_of(data@) == Some((header, len as int)),
{
    if data.len() < 20 {
        return None;
    }
    let version_ihl: u8 = data[0];
    let ihl: usize = (version_ihl & 0x0f) as usize;
    assert(version_ihl & 0x0f == version_ihl % 16) by (bit_vector);
    if ihl < 5 || data.len() < ihl * 4 {
        return None;
    }
    let header = Ipv4Header {
        version_ihl,
        dscp_ecn: data[1],
        total_length: u16_from_be(data[2], data[3]),
        identification: u16_from_be(data[4], data[5]),
        flags_fragment: u16_from_be(data[6], data[7]),
        ttl: data[8],
        protocol: data[9],
        header_checksum: u16_from_be(data[10], data[11]),
        src_ip: Ipv4Addr::new(data[12], data[13], data[14], data[15]),
        dst_ip: Ipv4Addr::new(data[16], data[17], data[18], data[19]),
    };
    Some((header, ihl * 4))
}

/// Reads the TCP header at the start of `data` and its length in bytes.
pub fn parse_tcp(data: &[u8]) -> (r: Option<(TcpHeader, usize)>)
    ensures
        r is Some <==> tcp_of(data@) is Some,
        r matches Some((header, len)) ==> tcp_of(data@) == Some((header, len as int)),
{
    if data.len() < 20 {
        return None;
    }
    let offset_byte: u8 = data[12];
    let data_offset: usize = ((offset_byte >> 4) & 0x0f) as usize;
    assert((offset_byte >> 4) & 0x0f == offset_byte / 16) by (bit_vector);
    if data_offset < 5 || data.len() < data_offset * 4 {
        return None;
    }
    let header = TcpHeader {
        src_port: u16_from_be(data[0], data[1]),
        dst_port: u16_from_be(data[2], data[3]),
        sequence_number: u32_from_be(data[4], data[5], data[6], data[7]),
        acknowledgment_number: u32_from_be(data[8], data[9], data[10], data[11]),
        data_offset_reserved_flags: u16_from_be(data[12], data[13]),
        window_size: u16_from_be(data[14], data[15]),
        checksum: u16_from_be(data[16], data[17]),
        urgent_pointer: u16_from_be(data[18], data[19]),
    };
    Some((header, data_offset * 4))
}

/// Reads the UDP header at the start of `data` and its length in bytes.
pub fn parse_udp(data: &[u8]) -> (r: Option<(UdpHeader, usize)>)
    ensures
        r is Some <==> udp_of(data@) is Some,
        r matches Some((header, len)) ==> udp_of(data@) == Some((header, len as int)),
{
    if data.len() < 8 {
        return None;
    }
    let header = UdpHeader {
        src_port: u16_from_be(data[0], data[1]),
        dst_port: u16_from_be(data[2], data[3]),
        length: u16_from_be(data[4], data[5]),
        checksum: u16_from_be(data[6], data[7]),
    };
    Some((header, 8))
}

/// Whether `classify_packet` may be asked about `data`: a whole IPv4 header must
/// not announce a total length that ends inside the header.
pub fn total_length_covers_header(data: &[u8]) -> (r: bool)
    ensures
        r == length_covers_header(data@),
{
    match parse_ipv4(data) {
        Some((header, len)) => header.total_length as usize >= len,
        None => true,
    }
}

/// Takes a packet apart. The payload ends at the total length that the IPv4
/// header announces, or at the end of the data if that comes first.
pub fn classify_packet(data: &[u8]) -> (r: Option<PacketInfo>)
    requires
        length_covers_header(data@),
    ensures
        r is Some <==> packet_of(data@) is Some,
        r matches Some(info) ==> packet_of(data@) == Some(info@),
{
    let (ip_header, ip_header_len) = match parse_ipv4(data) {
        Some(x) => x,
        None => {
            return None;
        },
    };
    let total_len: usize = ip_header.total_length as usize;
    let transport_end: usize = if total_len <= data.len() {
        total_len
    } else {
        data.len()
    };
    let transport_data = slice_subrange(data, ip_header_len, transport_end);

    let (transport, payload_start) = if ip_header.protocol == IP_PROTOCOL_TCP {
        match parse_tcp(transport_data) {
            Some((tcp, tcp_len)) => (TransportInfo::Tcp(tcp), tcp_len),
            None => {
                return None;
            },
        }
    } else if ip_header.protocol == IP_PROTOCOL_UDP {
        match parse_udp(transport_data) {
            Some((udp, udp_len)) => (TransportInfo::Udp(udp), udp_len),
            None => {
                return None;
            },
        }
    } else {
        (TransportInfo::Other { protocol: ip_header.protocol }, 0)
    };

    let payload = slice_to_vec(
        slice_subrange(transport_data, payload_start, transport_data.len()),
    );
    assert(payload@ =~= transport_bytes(data@).skip(payload_start as int));
    assert(transport_bytes(data@).skip(0) =~= transport_bytes(data@));

    Some(PacketInfo { ip_header, transport, payload })
}

/// Whether SYN is set.
pub fn syn_flag(flags: u16) -> (r: bool)
    ensures
        r == (flags & 0x002 != 0),
        r <==> flags as int / 2 % 2 == 1,
{
    assert(flags & 0x002 != 0 <==> (flags / 2) % 2 == 1) by (bit_vector);
    flags & 0x002 != 0
}

/// Whether ACK is set.
pub fn ack_flag(flags: u16) -> (r: bool)
    ensures
        r == (flags & 0x010 != 0),
        r <==> flags as int / 16 % 2 == 1,
{
    assert(flags & 0x010 != 0 <==> (flags / 16) % 2 == 1) by (bit_vector);
    flags & 0x010 != 0
}

/// Whether RST is set.
pub fn rst_flag(flags: u16) -> (r: bool)
    ensures
        r == (flags & 0x004 != 0),
        r <==> flags as int / 4 % 2 == 1,
{
    assert(flags & 0x004 != 0 <==> (flags / 4) % 2 == 1) by (bit_vector);
    flags & 0x004 != 0
}

/// Whether FIN is set.
pub fn fin_flag(flags: u16) -> (r: bool)
    ensures
        r == (flags & 0x001 != 0),
        r <==> flags as int % 2 == 1,
{
    assert(flags & 0x001 != 0 <==> flags % 2 == 1) by (bit_vector);
    flags & 0x001 != 0
}

/// Whether PSH is set.
pub fn psh_flag(flags: u16) -> (r: bool)
    ensures
        r == (flags & 0x008 != 0),
        r <==> flags as int / 8 % 2 == 1,
{
    assert(flags & 0x008 != 0 <==> (flags / 8) % 2 == 1) by (bit_vector);
    flags & 0x008 != 0
}

/// A 20-byte IPv4 header without options that carries `checksum`.
pub open spec fn ipv4_header_with(
    total: u16,
    identification: u16,
    flags_fragment: u16,
    ttl: u8,
    protocol: u8,
    checksum: u16,
    src: Ipv4Addr,
    dst: Ipv4Addr,
) -> Seq<u8> {
    seq![0x45u8, 0u8] + be16_bytes(total) + be16_bytes(identification) + be16_bytes(flags_fragment)
        + seq![ttl, protocol] + be16_bytes(checksum) + src.bytes() + dst.bytes()
}

/// A 20-byte IPv4 header with the checksum of itself, its checksum field taken
/// as zero.
pub open spec fn ipv4_header(
    total: u16,
    identification: u16,
    flags_fragment: u16,
    ttl: u8,
    protocol: u8,
    src: Ipv4Addr,
    dst: Ipv4Addr,
) -> Seq<u8> {
    let blank = ipv4_header_with(total, identification, flags_fragment, ttl, protocol, 0, src, dst);
    ipv4_header_with(
        total,
        identification,
        flags_fragment,
        ttl,
        protocol,
        checksum_of(word_sum(blank)),
        src,
        dst,
    )
}

/// `n` in the 16 bits of a total length field.
pub open spec fn length_field(n: int) -> u16 {
    (n % 0x1_0000) as u16
}

/// Appends the four octets of `ip`.
pub fn push_addr(out: &mut Vec<u8>, ip: Ipv4Addr)
    ensures
        final(out)@ == old(out)@ + ip.bytes(),
{
    let ghost before = out@;
    out.push(ip.a);
    out.push(ip.b);
    out.push(ip.c);
    out.push(ip.d);
    assert(out@ =~= before + ip.bytes());
}

/// The header `ipv4_header_with` describes.
fn header_with(
    total: u16,
    identification: u16,
    flags_fragment: u16,
    ttl: u8,
    protocol: u8,
    checksum: u16,
    src: Ipv4Addr,
    dst: Ipv4Addr,
) -> (r: Vec<u8>)
    ensures
        r@ == ipv4_header_with(
            total,
            identification,
            flags_fragment,
            ttl,
            protocol,
            checksum,
            src,
            dst,
        ),
{
    let mut buf: Vec<u8> = Vec::new();
    buf.push(0x45);
    buf.push(0);
    assert(buf@ =~= seq![0x45u8, 0u8]);
    push_be16(&mut buf, total);
    push_be16(&mut buf, identification);
    push_be16(&mut buf, flags_fragment);
    let ghost before = buf@;
    buf.push(ttl);
    buf.push(protocol);
    assert(buf@ =~= before + seq![ttl, protocol]);
    push_be16(&mut buf, checksum);
    push_addr(&mut buf, src);
    push_addr(&mut buf, dst);
    buf
}

/// An IPv4 header without options, with its checksum.
pub fn build_ipv4_header(
    total: u16,
    identification: u16,
    flags_fragment: u16,
    ttl: u8,
    protocol: u8,
    src: Ipv4Addr,
    dst: Ipv4Addr,
) -> (r: Vec<u8>)
    ensures
        r@ == ipv4_header(total, identification, flags_fragment, ttl, protocol, src, dst),
{
    let blank = header_with(total, identification, flags_fragment, ttl, protocol, 0, src, dst);
    let checksum: u16 = ip_checksum(blank.as_slice());
    header_with(total, identification, flags_fragment, ttl, protocol, checksum, src, dst)
}

/// An IPv4 packet that may not be fragmented, around `payload`. The total length
/// field holds the low 16 bits of the length.
pub open spec fn ipv4_packet(
    payload: Seq<u8>,
    src: Ipv4Addr,
    dst: Ipv4Addr,
    protocol: u8,
    ttl: u8,
    identification: u16,
) -> Seq<u8> {
    ipv4_header(
        length_field(20 + payload.len() as int),
        identification,
        0x4000,
        ttl,
        protocol,
        src,
        dst,
    ) + payload
}

/// Builds the IPv4 packet that carries `payload`.
pub fn build_ipv4_packet(
    payload: &[u8],
    src_ip: Ipv4Addr,
    dst_ip: Ipv4Addr,
    protocol: u8,
    ttl: u8,
    identification: u16,
) -> (r: Vec<u8>)
    ensures
        r@ == ipv4_packet(payload@, src_ip, dst_ip, protocol, ttl, identification),
{
    let total: u16 = total_length(20, payload.len());
    let mut buf = build_ipv4_header(
        total,
        identification,
        0x4000,
        ttl,
        protocol,
        src_ip,
        dst_ip,
    );
    push_bytes(&mut buf, payload);
    buf
}

/// The length field of a packet of `header_len` and `payload_len` bytes.
pub fn total_length(header_len: u16, payload_len: usize) -> (r: u16)
    ensures
        r == length_field(header_len + payload_len),
{
    let low: u16 = (payload_len % 0x1_0000) as u16;
    low.wrapping_add(header_len)
}

/// The words of a header that carries a checksum are those of the header without it
/// and the checksum.
proof fn lemma_header_words(
    total: u16,
    identification: u16,
    flags_fragment: u16,
    ttl: u8,
    protocol: u8,
    checksum: u16,
    src: Ipv4Addr,
    dst: Ipv4Addr,
)
    ensures
        word_sum(
            ipv4_header_with(
                total,
                identification,
                flags_fragment,
                ttl,
                protocol,
                checksum,
                src,
                dst,
            ),
        ) == word_sum(
            ipv4_header_with(total, identification, flags_fragment, ttl, protocol, 0, src, dst),
        ) + checksum,
        word_sum(
            ipv4_header_with(total, identification, flags_fragment, ttl, protocol, 0, src, dst),
        ) >= 0x4500,
{
    let front = seq![0x45u8, 0u8] + be16_bytes(total) + be16_bytes(identification) + be16_bytes(
        flags_fragment,
    ) + seq![ttl, protocol];
    let back = src.bytes() + dst.bytes();
    let with = ipv4_header_with(
        total,
        identification,
        flags_fragment,
        ttl,
        protocol,
        checksum,
        src,
        dst,
    );
    let without = ipv4_header_with(
        total,
        identification,
        flags_fragment,
        ttl,
        protocol,
        0,
        src,
        dst,
    );
    assert(with =~= front + be16_bytes(checksum) + back);
    assert(without =~= front + be16_bytes(0) + back);
    lemma_word_sum_concat(front + be16_bytes(checksum), back);
    lemma_word_sum_concat(front, be16_bytes(checksum));
    lemma_word_sum_number(checksum);
    lemma_word_sum_concat(front + be16_bytes(0), back);
    lemma_word_sum_concat(front, be16_bytes(0));
    lemma_word_sum_number(0);
    let rest = front.skip(2);
    assert(front =~= seq![0x45u8, 0u8] + rest);
    lemma_word_sum_concat(seq![0x45u8, 0u8], rest);
    lemma_word_sum_pair(0x45, 0);
    lemma_word_sum_bound(rest);
    lemma_word_sum_bound(back);
}

/// An IPv4 header that was built verifies: the checksum over all of it, its own
/// checksum field among it, is zero.
pub proof fn lemma_ipv4_header_verifies(
    total: u16,
    identification: u16,
    flags_fragment: u16,
    ttl: u8,
    protocol: u8,
    src: Ipv4Addr,
    dst: Ipv4Addr,
)
    ensures
        checksum_of(
            word_sum(ipv4_header(total, identification, flags_fragment, ttl, protocol, src, dst)),
        ) == 0,
{
    let blank = ipv4_header_with(total, identification, flags_fragment, ttl, protocol, 0, src, dst);
    let sum = word_sum(blank);
    lemma_header_words(
        total,
        identification,
        flags_fragment,
        ttl,
        protocol,
        checksum_of(sum),
        src,
        dst,
    );
    lemma_word_sum_bound(blank);
    lemma_checksum_verifies(sum);
}

/// A packet that starts with a header that was built, and whose length the header
/// announces, is read back: its addresses, its protocol, and what follows the header.
pub proof fn lemma_built_header_is_read(
    total: u16,
    identification: u16,
    flags_fragment: u16,
    ttl: u8,
    protocol: u8,
    src: Ipv4Addr,
    dst: Ipv4Addr,
    rest: Seq<u8>,
)
    requires
        total == 20 + rest.len(),
    ensures
        ({
            let header = ipv4_header(
                total,
                identification,
                flags_fragment,
                ttl,
                protocol,
                src,
                dst,
            );
            let d = header + rest;
            &&& ipv4_of(d) matches Some((h, n)) && n == 20 && h == (Ipv4Header {
                version_ihl: 0x45,
                dscp_ecn: 0,
                total_length: total,
                identification,
                flags_fragment,
                ttl,
                protocol,
                header_checksum: be16(header[10], header[11]),
                src_ip: src,
                dst_ip: dst,
            })
            &&& length_covers_header(d)
            &&& transport_bytes(d) == rest
        }),
{
    broadcast use lemma_be16_inverse;

    let header = ipv4_header(total, identification, flags_fragment, ttl, protocol, src, dst);
    let d = header + rest;
    assert(header.len() == 20);
    assert(d.len() == total);
    assert(header[0] == 0x45 && header[1] == 0);
    assert(header[2] == be16_bytes(total)[0] && header[3] == be16_bytes(total)[1]);
    assert(header[4] == be16_bytes(identification)[0] && header[5] == be16_bytes(
        identification,
    )[1]);
    assert(header[6] == be16_bytes(flags_fragment)[0] && header[7] == be16_bytes(
        flags_fragment,
    )[1]);
    assert(header[8] == ttl && header[9] == protocol);
    assert(header[12] == src.a && header[13] == src.b && header[14] == src.c && header[15]
        == src.d);
    assert(header[16] == dst.a && header[17] == dst.b && header[18] == dst.c && header[19]
        == dst.d);
    assert(forall|i: int| 0 <= i < 20 ==> d[i] == header[i]);
    assert(transport_bytes(d) =~= rest);
}

/// A packet that was built around `payload` and is no longer than its length field
/// can say is read back: its addresses, its protocol and its payload.
pub proof fn lemma_built_packet_is_read(
    payload: Seq<u8>,
    src: Ipv4Addr,
    dst: Ipv4Addr,
    protocol: u8,
    ttl: u8,
    identification: u16,
)
    requires
        20 + payload.len() <= 0xffff,
    ensures
        ({
            let d = ipv4_packet(payload, src, dst, protocol, ttl, identification);
            &&& length_covers_header(d)
            &&& ipv4_of(d) matches Some((h, n)) && n == 20 && h.src_ip == src && h.dst_ip == dst
                && h.protocol == protocol && h.ttl == ttl && h.identification == identification
                && h.total_length == d.len()
            &&& transport_bytes(d) == payload
        }),
{
    lemma_built_header_is_read(
        length_field(20 + payload.len() as int),
        identification,
        0x4000,
        ttl,
        protocol,
        src,
        dst,
        payload,
    );
}

} // verus!
