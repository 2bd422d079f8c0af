use tor_vpn::addr::Ipv4Addr;
use tor_vpn::bypass::should_bypass;
use tor_vpn::config::Config;
use tor_vpn::interfaces::{
    get_physical_interface_index, get_tun_interface_index, select_named_interface,
    select_physical_interface,
};
use tor_vpn::tor::{
    after_attempt, before_attempt, bundle_name, bundle_url, socks_address, startup, tor_args,
    ProbeResult, ReadyCheck, Startup, READY_ATTEMPTS,
};
use tor_vpn::tun::{
    adapter_request, add_address_args, default_route_args, list_interfaces_args, packet_size,
    set_address_args, subnet_mask,
};

#[test]
fn defaults() {
    let c = Config::default();
    assert_eq!(c.tor_host, "127.0.0.1");
    assert_eq!(c.tor_port, 9050);
    assert_eq!(c.tun_ip, Ipv4Addr::new(10, 0, 0, 1));
    assert_eq!(c.tun_prefix_len, 24);
    assert_eq!(c.tor_outbound_ip, Ipv4Addr::new(10, 0, 0, 2));
    assert_eq!(c.mtu, 1500);
    assert_eq!(c.tun_name, "TorVPN");
    assert_eq!(c.tor_dir, "tor");
    assert_eq!(c.tor_control_port, 9051);
    assert!(!c.skip_tor_download);
}

#[test]
fn masks() {
    assert_eq!(subnet_mask(1), "128.0.0.0");
    assert_eq!(subnet_mask(8), "255.0.0.0");
    assert_eq!(subnet_mask(20), "255.255.240.0");
    assert_eq!(subnet_mask(24), "255.255.255.0");
    assert_eq!(subnet_mask(31), "255.255.255.254");
    assert_eq!(subnet_mask(32), "255.255.255.255");
    assert_eq!(subnet_mask(200), "255.255.255.255");
}

#[test]
fn address_commands() {
    let c = Config::default();
    assert_eq!(list_interfaces_args(), ["interface", "ip", "show", "interface"]);
    assert_eq!(
        set_address_args(&c),
        ["interface", "ip", "set", "address", "TorVPN", "static", "10.0.0.1", "255.255.255.0"]
    );
    assert_eq!(
        add_address_args(&c),
        ["interface", "ip", "add", "address", "TorVPN", "10.0.0.2", "255.255.255.0"]
    );
}

#[test]
fn route_commands() {
    let (low, high) = default_route_args(&Config::default(), 17);
    assert_eq!(
        low,
        ["add", "0.0.0.0", "mask", "128.0.0.0", "10.0.0.1", "if", "17", "metric", "1"]
    );
    assert_eq!(
        high,
        ["add", "128.0.0.0", "mask", "128.0.0.0", "10.0.0.1", "if", "17", "metric", "1"]
    );
}

#[test]
fn adapters() {
    let a = adapter_request(&Config::default());
    let b = adapter_request(&Config::default());
    assert_eq!(a.name, "TorVPN");
    assert_eq!(a.tunnel_type, "Tor VPN");
    assert_eq!(a.ring_capacity, 0x400000);
    assert_ne!(a.guid, b.guid);
    assert_eq!((a.guid >> 76) & 0xf, 4);
    assert_eq!((a.guid >> 62) & 3, 2);
}

#[test]
fn packet_sizes() {
    assert_eq!(packet_size(&[]), Some(0));
    assert_eq!(packet_size(&vec![0; 65535]), Some(65535));
    assert_eq!(packet_size(&vec![0; 65536]), None);
}

#[test]
fn starting_tor() {
    let mut c = Config::default();
    assert_eq!(startup(true, &c), Startup::Launch);
    assert_eq!(startup(false, &c), Startup::Download);
    c.skip_tor_download = true;
    assert_eq!(startup(true, &c), Startup::Launch);
    assert_eq!(startup(false, &c), Startup::Missing);
    assert_eq!(
        tor_args(&c, "tor/Data", 4711),
        [
            "--SocksPort",
            "9050",
            "--ControlPort",
            "9051",
            "--DataDirectory",
            "tor/Data",
            "--OutboundBindAddress",
            "10.0.0.2",
            "--Log",
            "notice stderr",
            "__OwningControllerProcess",
            "4711",
        ]
    );
    assert_eq!(socks_address(&c), "127.0.0.1:9050");
}

#[test]
fn waiting_for_tor() {
    assert_eq!(before_attempt(0, false), ReadyCheck::Probe);
    assert_eq!(before_attempt(59, true), ReadyCheck::ShutDown);
    assert_eq!(before_attempt(READY_ATTEMPTS, true), ReadyCheck::TimedOut);
    assert_eq!(after_attempt(3, Some(&[5, 0])), ProbeResult::Ready);
    assert_eq!(after_attempt(3, Some(&[5, 1])), ProbeResult::Retry { report: false });
    assert_eq!(after_attempt(5, None), ProbeResult::Retry { report: true });
    assert_eq!(after_attempt(0, Some(&[])), ProbeResult::Retry { report: true });
}

#[test]
fn bundles() {
    assert_eq!(bundle_name(true), "tor-expert-bundle-windows-x86_64-15.0.14");
    assert_eq!(bundle_name(false), "tor-expert-bundle-windows-i686-15.0.14");
    assert_eq!(
        bundle_url(true),
        "https://dist.torproject.org/torbrowser/15.0.14/tor-expert-bundle-windows-x86_64-15.0.14.tar.gz"
    );
}

const LISTING: &str = "\r\nIdx     Met  State       Name\r\n---  ------  ----------  ------\r\n  \
    1  75  connected  Loopback Pseudo-Interface Loopback\r\n \
    4  25  disconnected  Wi-Fi\r\n\
    x  25  connected  Odd\r\n\
    9  5  connected  TorVPN\r\n\
    +12  25  connected  Ethernet\r\n\
    13  25  connected  Ethernet2\r\n";

#[test]
fn physical_interface() {
    assert_eq!(select_physical_interface(LISTING, "TorVPN"), Some(12));
    assert_eq!(select_physical_interface(LISTING, "Ethernet"), Some(9));
    assert_eq!(select_physical_interface("", "TorVPN"), None);
    assert_eq!(select_physical_interface("5 connected x", "TorVPN"), None);
    assert_eq!(get_physical_interface_index(LISTING.as_bytes(), "TorVPN"), Some(12));
    // Bytes that are not text are replaced, and the rest is read.
    assert_eq!(
        get_physical_interface_index(b"7 1 connected \xff\xfe\n", "TorVPN"),
        Some(7)
    );
    assert_eq!(
        get_physical_interface_index(b"7 1 connected A\xffB\n", "A\u{fffd}B"),
        None
    );
}

#[test]
fn named_interface() {
    assert_eq!(select_named_interface(LISTING, "TorVPN"), Some(9));
    assert_eq!(select_named_interface(LISTING, "Odd"), None);
    assert_eq!(select_named_interface(LISTING, "net2"), Some(13));
    assert_eq!(select_named_interface(LISTING, "Missing"), None);
    assert_eq!(select_named_interface("4294967296 a\n4294967295 a", "a"), Some(4294967295));
    assert_eq!(get_tun_interface_index(LISTING.as_bytes(), "TorVPN"), Some(9));
    assert_eq!(get_tun_interface_index(b"3 \xff", "\u{fffd}"), Some(3));
}

#[test]
fn bypassed_packets() {
    let tor = Ipv4Addr::new(10, 0, 0, 2);
    let tun = Ipv4Addr::new(10, 0, 0, 1);
    let client = Ipv4Addr::new(10, 0, 0, 7);
    let server = Ipv4Addr::new(93, 184, 216, 34);
    let local = Ipv4Addr::new(127, 0, 0, 1);
    let ask = |src, dst| should_bypass(src, 1, dst, 9050, tor, 9050, tun);
    assert!(!ask(client, server));
    assert!(ask(tor, server));
    assert!(!ask(client, tor));
    assert!(ask(local, server));
    assert!(ask(client, local));
    assert!(should_bypass(local, 1, local, 2, tor, 9050, tun));
    assert!(ask(tun, server));
    assert!(ask(client, tun));
    assert!(ask(client, Ipv4Addr::new(169, 254, 1, 1)));
    assert!(!ask(Ipv4Addr::new(169, 254, 1, 1), server));
    assert!(ask(client, Ipv4Addr::new(224, 0, 0, 1)));
    assert!(ask(client, Ipv4Addr::new(239, 255, 255, 255)));
    assert!(!ask(client, Ipv4Addr::new(240, 0, 0, 1)));
}
