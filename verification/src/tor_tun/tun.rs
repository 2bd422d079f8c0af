//! What is reported of the packets that the TUN device delivers.
use vstd::prelude::*;

use crate::addr::Ipv4Addr;
use crate::tor_tun::packet::{IpHeader, TcpHeader, UdpHeader, PROTOCOL_TCP, PROTOCOL_UDP};

verus! {

/// The endpoints of a packet.
#[derive(Debug, Clone, Copy, PartialEq, Eq, Structural)]
pub struct Endpoints {
    pub source: Ipv4Addr,
    pub source_port: u16,
    pub destination: Ipv4Addr,
    pub dest_port: u16,
}

/// What is reported of a packet.
#[derive(Debug, Clone, Copy, PartialEq, Eq, Structural)]
pub enum PacketReport {
    /// Nothing.
    Silent,
    /// It has no IPv4 header.
    NoIpHeader,
    /// It is a TCP segment.
    Tcp { between: Endpoints },
    /// It is the first UDP datagram, which is dropped as all others are.
    UdpDropped { between: Endpoints },
    /// It is neither TCP nor UDP.
    Other { protocol: u8 },
}

/// What is reported of the packet `d`, when `warned` tells whether a UDP datagram
/// was reported before.
pub open spec fn report_of(d: Seq<u8>, warned: bool) -> PacketReport {
    match IpHeader::of(d) {
        None => PacketReport::NoIpHeader,
        Some(ip) => if ip.protocol == PROTOCOL_TCP {
            match TcpHeader::of(d, ip.ihl as int) {
                Some(tcp) => PacketReport::Tcp {
                    between: Endpoints {
                        source: ip.source,
                        source_port: tcp.source_port,
                        destination: ip.destination,
                        dest_port: tcp.dest_port,
                    },
                },
                None => PacketReport::Silent,
            }
        } else if ip.protocol == PROTOCOL_UDP {
            match UdpHeader::of(d, ip.ihl as int) {
                Some(udp) => if warned {
                    PacketReport::Silent
                } else {
                    PacketReport::UdpDropped {
                        between: Endpoints {
                            source: ip.source,
                            source_port: udp.source_port,
                            destination: ip.destination,
                            dest_port: udp.dest_port,
                        },
                    }
                },
                None => PacketReport::Silent,
            }
        } else {
            PacketReport::Other { protocol: ip.protocol }
        },
    }
}

/// Says what to report of a packet, and keeps in `udp_warned` whether a UDP
/// datagram was reported.
pub fn process_packet(data: &[u8], udp_warned: &mut bool) -> (r: PacketReport)
    ensures
        r == report_of(data@, *old(udp_warned)),
        *final(udp_warned) == (*old(udp_warned) || r is UdpDropped),
{
    let ip_header = match IpHeader::parse(data) {
        Some(h) => h,
        None => {
            return PacketReport::NoIpHeader;
        },
    };
    if ip_header.protocol == PROTOCOL_TCP {
        match TcpHeader::parse(data, ip_header.ihl as usize) {
            Some(tcp) => PacketReport::Tcp {
                between: Endpoints {
                    source: ip_header.source,
                    source_port: tcp.source_port,
                    destination: ip_header.destination,
                    dest_port: tcp.dest_port,
                },
            },
            None => PacketReport::Silent,
        }
    } else if ip_header.protocol == PROTOCOL_UDP {
        match UdpHeader::parse(data, ip_header.ihl as usize) {
            Some(udp) => {
                if *udp_warned {
                    PacketReport::Silent
                } else {
                    *udp_warned = true;
                    PacketReport::UdpDropped {
                        between: Endpoints {
                            source: ip_header.source,
                            source_port: udp.source_port,
                            destination: ip_header.destination,
                            dest_port: udp.dest_port,
                        },
                    }
                }
            },
            None => PacketReport::Silent,
        }
    } else {
        PacketReport::Other { protocol: ip_header.protocol }
    }
}

/// Whether a UDP datagram was reported after the packets `ds`, none having been
/// reported before them.
pub open spec fn warned_after(ds: Seq<Seq<u8>>) -> bool
    decreases ds.len(),
{
    if ds.len() == 0 {
        false
    } else {
        warned_after(ds.drop_last()) || report_of(
            ds.last(),
            warned_after(ds.drop_last()),
        ) is UdpDropped
    }
}

/// Of any packets that arrive one after the other, at most one is reported as a
/// dropped UDP datagram.
pub proof fn lemma_udp_reported_once(ds: Seq<Seq<u8>>, i: int, j: int)
    requires
        0 <= i < j < ds.len(),
    ensures
        !(report_of(ds[i], warned_after(ds.take(i))) is UdpDropped && report_of(
            ds[j],
            warned_after(ds.take(j)),
        ) is UdpDropped),
{
    if report_of(ds[i], warned_after(ds.take(i))) is UdpDropped {
        assert(ds.take(i + 1).drop_last() =~= ds.take(i));
        lemma_warning_stays(ds, i + 1, j);
    }
}

proof fn lemma_warning_stays(ds: Seq<Seq<u8>>, i: int, j: int)
    requires
        0 <= i <= j <= ds.len(),
        warned_after(ds.take(i)),
    ensures
        warned_after(ds.take(j)),
    decreases j,
{
    if i < j {
        lemma_warning_stays(ds, i, j - 1);
        assert(ds.take(j).drop_last() =~= ds.take(j - 1));
    }
}

} // verus!
