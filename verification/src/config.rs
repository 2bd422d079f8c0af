//! The settings of the VPN.
use vstd::prelude::*;

use crate::addr::Ipv4Addr;

verus! {

/// The settings of the VPN.
pub struct Config {
    pub tor_host: String,
    pub tor_port: u16,
    pub tun_ip: Ipv4Addr,
    pub tun_prefix_len: u8,
    pub tor_outbound_ip: Ipv4Addr,
    pub mtu: usize,
    pub tun_name: String,
    pub tor_dir: String,
    pub tor_control_port: u16,
    pub skip_tor_download: bool,
}

impl Default for Config {
    /// The settings when none are given.
    fn default() -> (r: Config)
        ensures
            r.tor_host@ == "127.0.0.1"@,
            r.tor_port == 9050,
            r.tun_ip == (Ipv4Addr { a: 10, b: 0, c: 0, d: 1 }),
            r.tun_prefix_len == 24,
            r.tor_outbound_ip == (Ipv4Addr { a: 10, b: 0, c: 0, d: 2 }),
            r.mtu == 1500,
            r.tun_name@ == "TorVPN"@,
            r.tor_dir@ == "tor"@,
            r.tor_control_port == 9051,
            !r.skip_tor_download,
    {
        Config {
            tor_host: "127.0.0.1".to_owned(),
            tor_port: 9050,
            tun_ip: Ipv4Addr::new(10, 0, 0, 1),
            tun_prefix_len: 24,
            tor_outbound_ip: Ipv4Addr::new(10, 0, 0, 2),
            mtu: 1500,
            tun_name: "TorVPN".to_owned(),
            tor_dir: "tor".to_owned(),
            tor_control_port: 9051,
            skip_tor_download: false,
        }
    }
}

} // verus!
