//! Which packets stay out of the VPN.
use vstd::prelude::*;

use crate::addr::Ipv4Addr;
use crate::packet::PacketView;
use crate::tcp::{leaves_alone, ProxyState};
use crate::udp::udp_leaves_alone;

verus! {

/// Whether a packet stays out of the VPN: what Tor sends, loopback traffic,
/// traffic of the TUN interface itself, and packets to link-local and multicast
/// addresses.
pub open spec fn bypasses(
    src_ip: Ipv4Addr,
    dst_ip: Ipv4Addr,
    tor_outbound_ip: Ipv4Addr,
    tun_ip: Ipv4Addr,
) -> bool {
    ||| src_ip == tor_outbound_ip
    ||| src_ip.loopback()
    ||| dst_ip.loopback()
    ||| src_ip == tun_ip
    ||| dst_ip == tun_ip
    ||| dst_ip.link_local()
    ||| dst_ip.multicast()
}

/// Whether a packet should bypass the proxy: `true` if the VPN must not process it.
pub fn should_bypass(
    src_ip: Ipv4Addr,
    src_port: u16,
    dst_ip: Ipv4Addr,
    dst_port: u16,
    tor_outbound_ip: Ipv4Addr,
    tor_socks_port: u16,
    tun_ip: Ipv4Addr,
) -> (r: bool)
    ensures
        r == bypasses(src_ip, dst_ip, tor_outbound_ip, tun_ip),
{
    // Tor's own traffic leaves from the address that it is bound to.
    if src_ip == tor_outbound_ip {
        return true;
    }
    // Traffic to and from Tor's SOCKS port.
    let is_loopback: bool = dst_ip.is_loopback() || src_ip.is_loopback();
    if is_loopback && (src_port == tor_socks_port || dst_port == tor_socks_port) {
        return true;
    }
    // Other loopback traffic never goes through the TUN interface.
    if is_loopback {
        return true;
    }
    if src_ip == tun_ip || dst_ip == tun_ip {
        return true;
    }
    dst_ip.is_link_local() || dst_ip.is_multicast()
}

/// What the TCP proxy and the UDP forwarder leave alone bypasses the VPN; of what
/// bypasses it, they take only packets to link-local and multicast addresses.
pub proof fn lemma_left_alone_bypasses(
    p: ProxyState,
    pkt: PacketView,
)
    ensures
        leaves_alone(p, pkt) == udp_leaves_alone(pkt, p.tun_ip, p.tor_outbound_ip),
        bypasses(pkt.ip_header.src_ip, pkt.ip_header.dst_ip, p.tor_outbound_ip, p.tun_ip) == (
        leaves_alone(p, pkt) || pkt.ip_header.dst_ip.link_local()
            || pkt.ip_header.dst_ip.multicast()),
{
}

} // verus!
