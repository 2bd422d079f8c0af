//! What is reported of packets, said of their bytes.
use vstd::prelude::*;

use crate::addr::Ipv4Addr;
use crate::packet::{ipv4_of, tcp_of, udp_of};
use crate::tor_tun::packet::{IpHeader, TcpHeader, UdpHeader};
use crate::tor_tun::tun::{report_of, Endpoints, PacketReport};

verus! {

/// The report's reader of IPv4 headers takes version 4 only, and any length that is
/// there. Each field is read from its own bytes.
pub proof fn law_report_ip_header(d: Seq<u8>, version: int, n: int)
    requires
        d.len() > 0 ==> d[0] == 16 * version + n,
        0 <= n < 16,
    ensures
        IpHeader::of(d) is Some <==> d.len() >= 20 && version == 4 && 4 * n <= d.len(),
        IpHeader::of(d) matches Some(h) ==> {
            &&& h.version == 4
            &&& h.ihl == 4 * n
            &&& h.total_length == 256 * d[2] + d[3]
            &&& h.protocol == d[9]
            &&& h.source == (Ipv4Addr { a: d[12], b: d[13], c: d[14], d: d[15] })
            &&& h.destination == (Ipv4Addr { a: d[16], b: d[17], c: d[18], d: d[19] })
        },
{
}

/// The report's reader of TCP headers takes any data offset that is there.
pub proof fn law_report_tcp_header(d: Seq<u8>, start: int, n: int, low: int)
    requires
        0 <= start,
        d.len() > start + 12 ==> d[start + 12] == 16 * n + low,
        0 <= low < 16,
    ensures
        TcpHeader::of(d, start) is Some <==> d.len() >= start + 20 && d.len() >= start + 4 * n,
        TcpHeader::of(d, start) matches Some(h) ==> {
            &&& h.source_port == 256 * d[start] + d[start + 1]
            &&& h.dest_port == 256 * d[start + 2] + d[start + 3]
            &&& h.flags == d[start + 13]
            &&& h.data_offset == 4 * n
        },
{
}

/// The report's reader of UDP headers takes eight bytes.
pub proof fn law_report_udp_header(d: Seq<u8>, start: int)
    requires
        0 <= start,
    ensures
        UdpHeader::of(d, start) is Some <==> d.len() >= start + 8,
        UdpHeader::of(d, start) matches Some(h) ==> {
            &&& h.source_port == 256 * d[start] + d[start + 1]
            &&& h.dest_port == 256 * d[start + 2] + d[start + 3]
            &&& h.length == 256 * d[start + 4] + d[start + 5]
        },
{
}

/// The proxy's readers take every header that the report's readers take, if it is at
/// least twenty bytes long, and a UDP header exactly when the report's reader does.
pub proof fn law_readers_take_the_same(d: Seq<u8>, start: int)
    requires
        0 <= start <= d.len(),
    ensures
        IpHeader::of(d) matches Some(h) ==> (h.ihl >= 20 <==> ipv4_of(d) is Some),
        TcpHeader::of(d, start) matches Some(h) ==> (h.data_offset >= 20 <==> tcp_of(
            d.skip(start),
        ) is Some),
        tcp_of(d.skip(start)) is Some ==> TcpHeader::of(d, start) is Some,
        UdpHeader::of(d, start) is Some <==> udp_of(d.skip(start)) is Some,
{
    let t = d.skip(start);
    assert(forall|i: int| 0 <= i < t.len() ==> t[i] == d[start + i]);
}

/// What is reported of a packet with a whole IPv4 header of version 4: of protocol 6 its
/// four numbers, if its TCP header is whole; of protocol 17 its four numbers, if its UDP
/// header is whole and no such packet was reported before; of any other its protocol; and
/// else nothing. The addresses are those of the IPv4 header, and the ports the two
/// numbers that follow it.
pub proof fn law_report(d: Seq<u8>, warned: bool, n: int, m: int, low: int)
    requires
        d.len() >= 20,
        d[0] == 64 + n,
        0 <= n < 16,
        4 * n <= d.len(),
        d.len() > 4 * n + 12 ==> d[4 * n + 12] == 16 * m + low,
        0 <= low < 16,
    ensures
        ({
            let at = 4 * n;
            let r = report_of(d, warned);
            if d[9] == 6 {
                if d.len() >= at + 20 && d.len() >= at + 4 * m {
                    r matches PacketReport::Tcp { between } && ends_are(d, at, between)
                } else {
                    r is Silent
                }
            } else if d[9] == 17 {
                if d.len() >= at + 8 && !warned {
                    r matches PacketReport::UdpDropped { between } && ends_are(d, at, between)
                } else {
                    r is Silent
                }
            } else {
                r == (PacketReport::Other { protocol: d[9] })
            }
        }),
{
    law_report_ip_header(d, 4, n);
    law_report_tcp_header(d, 4 * n, m, low);
    law_report_udp_header(d, 4 * n);
}

/// A packet without a whole IPv4 header of version 4 is reported as such.
pub proof fn law_report_without_header(d: Seq<u8>, warned: bool)
    requires
        d.len() < 20 || d[0] < 64 || d[0] >= 80 || d.len() < 4 * (d[0] - 64),
    ensures
        report_of(d, warned) is NoIpHeader,
{
}

/// The two ends that the bytes of a packet name, with its ports at `at`.
pub open spec fn ends_are(d: Seq<u8>, at: int, between: Endpoints) -> bool {
    &&& between.source == (Ipv4Addr { a: d[12], b: d[13], c: d[14], d: d[15] })
    &&& between.destination == (Ipv4Addr { a: d[16], b: d[17], c: d[18], d: d[19] })
    &&& between.source_port == 256 * d[at] + d[at + 1]
    &&& between.dest_port == 256 * d[at + 2] + d[at + 3]
}

} // verus!
