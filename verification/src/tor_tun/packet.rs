//! The headers of the packets that the TUN device delivers, as far as a report
//! needs them.
use vstd::prelude::*;

use crate::addr::Ipv4Addr;
use crate::bytes::{be16, u16_from_be};
use crate::packet::{ipv4_of, tcp_of, udp_of};

verus! {

pub const PROTOCOL_TCP: u8 = 6;

pub const PROTOCOL_UDP: u8 = 17;

/// What a report needs of an IPv4 header.
#[derive(Debug, Clone, Copy, PartialEq, Eq, Structural)]
pub struct IpHeader {
    pub version: u8,
    /// The length of the header in bytes.
    pub ihl: u8,
    pub total_length: u16,
    pub protocol: u8,
    pub source: Ipv4Addr,
    pub destination: Ipv4Addr,
}

impl IpHeader {
    /// The IPv4 header that `d` starts with.
    pub open spec fn of(d: Seq<u8>) -> Option<IpHeader> {
        if d.len() >= 20 && d[0] as int / 16 == 4 && (d[0] as int % 16) * 4 <= d.len() {
            Some(
                IpHeader {
                    version: 4,
                    ihl: ((d[0] as int % 16) * 4) as u8,
                    total_length: be16(d[2], d[3]),
                    protocol: d[9],
                    source: Ipv4Addr { a: d[12], b: d[13], c: d[14], d: d[15] },
                    destination: Ipv4Addr { a: d[16], b: d[17], c: d[18], d: d[19] },
                },
            )
        } else {
            None
        }
    }

    /// Reads the IPv4 header at the start of `data`.
    pub fn parse(data: &[u8]) -> (r: Option<IpHeader>)
        ensures
            r == IpHeader::of(data@),
    {
        if data.len() < 20 {
            return None;
        }
        let version_ihl: u8 = data[0];
        let version: u8 = version_ihl >> 4;
        let ihl: usize = (version_ihl & 0x0f) as usize * 4;
        assert(version_ihl >> 4 == version_ihl / 16) by (bit_vector);
        assert(version_ihl & 0x0f == version_ihl % 16) by (bit_vector);
        if version != 4 || data.len() < ihl {
            return None;
        }
        Some(
            IpHeader {
                version,
                ihl: ihl as u8,
                total_length: u16_from_be(data[2], data[3]),
                protocol: data[9],
                source: Ipv4Addr::new(data[12], data[13], data[14], data[15]),
                destination: Ipv4Addr::new(data[16], data[17], data[18], data[19]),
            },
        )
    }
}

/// What a report needs of a TCP header.
#[derive(Debug, Clone, Copy, PartialEq, Eq, Structural)]
pub struct TcpHeader {
    pub source_port: u16,
    pub dest_port: u16,
    pub flags: u8,
    /// The length of the header in bytes.
    pub data_offset: u8,
}

impl TcpHeader {
    /// The TCP header that `d` holds from `start` on.
    pub open spec fn of(d: Seq<u8>, start: int) -> Option<TcpHeader> {
        if d.len() >= start + 20 && d.len() >= start + (d[start + 12] as int / 16) * 4 {
            Some(
                TcpHeader {
                    source_port: be16(d[start], d[start + 1]),
                    dest_port: be16(d[start + 2], d[start + 3]),
                    flags: d[start + 13],
                    data_offset: ((d[start + 12] as int / 16) * 4) as u8,
                },
            )
        } else {
            None
        }
    }

    /// Reads the TCP header that follows an IPv4 header of `ip_header_len` bytes.
    pub fn parse(data: &[u8], ip_header_len: usize) -> (r: Option<TcpHeader>)
        requires
            ip_header_len + 20 <= usize::MAX,
        ensures
            r == TcpHeader::of(data@, ip_header_len as int),
    {
        let tcp_start: usize = ip_header_len;
        if data.len() < tcp_start + 20 {
            return None;
        }
        let data_offset_byte: u8 = data[tcp_start + 12];
        assert((data_offset_byte >> 4) & 0x0f == data_offset_byte / 16) by (bit_vector);
        let data_offset: u8 = ((data_offset_byte >> 4) & 0x0f) * 4;
        if data.len() - tcp_start < data_offset as usize {
            return None;
        }
        Some(
            TcpHeader {
                source_port: u16_from_be(data[tcp_start], data[tcp_start + 1]),
                dest_port: u16_from_be(data[tcp_start + 2], data[tcp_start + 3]),
                flags: data[tcp_start + 13],
                data_offset,
            },
        )
    }
}

/// What a report needs of a UDP header.
#[derive(Debug, Clone, Copy, PartialEq, Eq, Structural)]
pub struct UdpHeader {
    pub source_port: u16,
    pub dest_port: u16,
    pub length: u16,
}

impl UdpHeader {
    /// The UDP header that `d` holds from `start` on.
    pub open spec fn of(d: Seq<u8>, start: int) -> Option<UdpHeader> {
        if d.len() >= start + 8 {
            Some(
                UdpHeader {
                    source_port: be16(d[start], d[start + 1]),
                    dest_port: be16(d[start + 2], d[start + 3]),
                    length: be16(d[start + 4], d[start + 5]),
                },
            )
        } else {
            None
        }
    }

    /// Reads the UDP header that follows an IPv4 header of `ip_header_len` bytes.
    pub fn parse(data: &[u8], ip_header_len: usize) -> (r: Option<UdpHeader>)
        requires
            ip_header_len + 8 <= usize::MAX,
        ensures
            r == UdpHeader::of(data@, ip_header_len as int),
    {
        let udp_start: usize = ip_header_len;
        if data.len() < udp_start + 8 {
            return None;
        }
        Some(
            UdpHeader {
                source_port: u16_from_be(data[udp_start], data[udp_start + 1]),
                dest_port: u16_from_be(data[udp_start + 2], data[udp_start + 3]),
                length: u16_from_be(data[udp_start + 4], data[udp_start + 5]),
            },
        )
    }
}

/// On an IPv4 packet whose header says version 4 and is at least 20 bytes long,
/// this reader and the reader of the proxy see the same header.
pub proof fn lemma_readers_agree_on_ip(d: Seq<u8>)
    requires
        ipv4_of(d) is Some,
        d[0] as int / 16 == 4,
    ensures
        IpHeader::of(d) matches Some(h) && ipv4_of(d) matches Some((g, n)) && h.ihl == n
            && h.total_length == g.total_length && h.protocol == g.protocol && h.source == g.src_ip
            && h.destination == g.dst_ip,
{
}

/// Where the proxy reads a TCP or a UDP header, this reader sees the same ports.
pub proof fn lemma_readers_agree_on_ports(d: Seq<u8>, start: int)
    requires
        0 <= start <= d.len(),
    ensures
        tcp_of(d.skip(start)) matches Some((g, n)) ==> TcpHeader::of(d, start) matches Some(h)
            && h.source_port == g.src_port && h.dest_port == g.dst_port && h.data_offset == n,
        udp_of(d.skip(start)) matches Some((g, _)) ==> UdpHeader::of(d, start) matches Some(h)
            && h.source_port == g.src_port && h.dest_port == g.dst_port && h.length == g.length,
{
    let t = d.skip(start);
    assert(forall|i: int| 0 <= i < t.len() ==> t[i] == d[start + i]);
}

} // verus!
