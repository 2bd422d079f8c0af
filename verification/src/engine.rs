//! The main loop of the VPN, as far as it decides: where a packet from the TUN
//! device goes, and what is due after a round.
use vstd::prelude::*;

use crate::addr::Ipv4Addr;
use crate::flow::FlowKey;
use crate::packet::{classify_packet, length_covers_header, packet_of, TransportInfo};
use crate::session::{passes_on, RelayEnds, RelayStart};
use crate::tcp::{after_packet, opens_session, proxied, relay_for, TcpProxy};
use crate::udp::{forwarded, forwards, UdpAction, UdpForwarder};

verus! {

/// What became of a packet.
pub enum Dispatch {
    /// Its headers are not whole: it is dropped.
    Dropped,
    /// It went to the UDP forwarder, and this is to be done.
    Udp { action: UdpAction },
    /// It went to the TCP proxy, and this relay is to be started, if there is one.
    Tcp { relay: Option<RelayStart> },
}

/// Hands a packet from the TUN device to the UDP forwarder if it is UDP, and else to
/// the TCP proxy.
pub fn dispatch(
    tcp: &mut TcpProxy,
    udp: &UdpForwarder,
    data: &[u8],
    tun_ip: Ipv4Addr,
    tor_outbound_ip: Ipv4Addr,
) -> (r: Dispatch)
    requires
        old(tcp).wf(),
        length_covers_header(data@),
    ensures
        final(tcp).wf(),
        forall|k: FlowKey|
            old(tcp)@.sessions.contains_key(k) ==> passes_on(
                #[trigger] old(tcp).session(k).uplink(),
                final(tcp).session(k).uplink(),
            ),
        forall|k: FlowKey, relay: RelayEnds|
            old(tcp)@.sessions.contains_key(k) ==> #[trigger] final(tcp).session(k).linked(relay)
                == old(tcp).session(k).linked(relay),
        match packet_of(data@) {
            None => r is Dropped && *final(tcp) == *old(tcp),
            Some(pkt) => if pkt.transport is Udp {
                &&& *final(tcp) == *old(tcp)
                &&& r matches Dispatch::Udp { action }
                &&& match forwarded(data@, tun_ip, tor_outbound_ip) {
                    None => action == UdpAction::Ignore,
                    Some((flow, payload)) => forwards(udp@, flow, payload, action),
                }
            } else {
                &&& exists|isn: u32| #[trigger] after_packet(old(tcp)@, data@, isn) == final(tcp)@
                &&& r matches Dispatch::Tcp { relay }
                &&& relay is Some <==> opens_session(old(tcp)@, data@)
                &&& relay matches Some(start) ==> proxied(old(tcp)@, data@) matches Some((p, t))
                    && relay_for(*final(tcp), p, t, start)
            },
        },
{
    match classify_packet(data) {
        None => Dispatch::Dropped,
        Some(info) => match info.transport {
            TransportInfo::Udp(_) => {
                Dispatch::Udp { action: udp.handle_packet(data, tun_ip, tor_outbound_ip) }
            },
            _ => Dispatch::Tcp { relay: tcp.handle_packet(data) },
        },
    }
}

/// How the loop waits at the end of a round.
#[derive(Debug, Clone, Copy, PartialEq, Eq, Structural)]
pub enum Pause {
    /// For ten milliseconds or an interrupt, which ends the loop.
    UntilInterrupt,
    /// For five milliseconds.
    Sleep,
}

/// What is due after a round.
#[derive(Debug, Clone, Copy, PartialEq, Eq, Structural)]
pub struct Round {
    /// The number of rounds so far.
    pub tick: u64,
    /// The counts of sessions and table entries are to be logged.
    pub log: bool,
    /// The counts are to be shown to the user.
    pub show: bool,
    /// How to wait.
    pub pause: Pause,
}

/// What is due after the round that follows `tick` rounds: the counts are logged
/// every 200 rounds and shown every 40, and every tenth round looks for an interrupt.
pub open spec fn round_after(tick: int) -> Round {
    Round {
        tick: (tick + 1) as u64,
        log: (tick + 1) % 200 == 0,
        show: (tick + 1) % 40 == 0,
        pause: if (tick + 1) % 10 == 0 {
            Pause::UntilInterrupt
        } else {
            Pause::Sleep
        },
    }
}

/// What is due after the round that follows `tick` rounds.
pub fn end_round(tick: u64) -> (r: Round)
    requires
        tick < u64::MAX,
    ensures
        r == round_after(tick as int),
        r.tick == tick + 1,
        r.log <==> (tick + 1) % 200 == 0,
        r.show <==> (tick + 1) % 40 == 0,
        r.pause == (if (tick + 1) % 10 == 0 {
            Pause::UntilInterrupt
        } else {
            Pause::Sleep
        }),
{
    let next: u64 = tick + 1;
    Round {
        tick: next,
        log: next % 200 == 0,
        show: next % 40 == 0,
        pause: if next % 10 == 0 {
            Pause::UntilInterrupt
        } else {
            Pause::Sleep
        },
    }
}

} // verus!
