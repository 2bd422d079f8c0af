//! The set-up of the TUN device.
use vstd::prelude::*;

use crate::addr::Ipv4Addr;
use crate::config::Config;
use crate::random::{random_form, random_guid};
use crate::text::{decimal, decimal_string, dotted, dotted_string};

verus! {

/// The TUN adapter to be made.
#[derive(Debug)]
pub struct AdapterRequest {
    pub name: String,
    pub tunnel_type: String,
    pub guid: u128,
    /// The capacity of the rings of a session on the adapter, in bytes.
    pub ring_capacity: u32,
}

/// The adapter to be made for `config`, with a random identifier.
pub fn adapter_request(config: &Config) -> (r: AdapterRequest)
    ensures
        r.name@ == config.tun_name@,
        r.tunnel_type@ == "Tor VPN"@,
        random_form(r.guid),
        r.ring_capacity == 0x400000,
{
    AdapterRequest {
        name: config.tun_name.clone(),
        tunnel_type: "Tor VPN".to_owned(),
        guid: random_guid(),
        ring_capacity: 0x400000,
    }
}

/// The netmask of a prefix of `prefix_len` bits.
pub open spec fn prefix_mask(prefix_len: u8) -> u32 {
    if prefix_len >= 32 {
        0xffff_ffff
    } else {
        0xffff_ffffu32 << ((32 - prefix_len) as u32)
    }
}

/// A netmask has ones in its first `prefix_len` bits, counted from the most
/// significant, and zeros after them.
pub proof fn lemma_mask_bits(prefix_len: u8, i: u32)
    requires
        1 <= prefix_len,
        i < 32,
    ensures
        (prefix_mask(prefix_len) >> ((31 - i) as u32)) & 1 == 1 <==> i < prefix_len,
{
    let at: u32 = (31 - i) as u32;
    let p: u32 = prefix_len as u32;
    if prefix_len >= 32 {
        assert((0xffff_ffffu32 >> at) & 1 == 1) by (bit_vector)
            requires
                at < 32,
        ;
    } else {
        let by: u32 = (32 - prefix_len) as u32;
        assert(((0xffff_ffffu32 << by) >> at) & 1 == 1 <==> at >= by) by (bit_vector)
            requires
                at < 32,
                by < 32,
        ;
    }
}

/// The netmask of a prefix of `prefix_len` bits, in dotted decimal.
pub open spec fn mask_text(prefix_len: u8) -> Seq<char> {
    dotted(Ipv4Addr::of_bits(prefix_mask(prefix_len)))
}

/// The netmask of a prefix of `prefix_len` bits, in dotted decimal.
pub fn subnet_mask(prefix_len: u8) -> (r: String)
    requires
        prefix_len > 0,
    ensures
        r@ == dotted(Ipv4Addr::of_bits(prefix_mask(prefix_len))),
        r@ == mask_text(prefix_len),
{
    let mask: u32 = if prefix_len >= 32 {
        0xffff_ffff
    } else {
        0xffff_ffffu32 << ((32 - prefix_len) as u32)
    };
    dotted_string(Ipv4Addr::from_bits(mask))
}

/// The text of each element.
pub open spec fn strings(v: Seq<String>) -> Seq<Seq<char>> {
    Seq::new(v.len(), |i: int| v[i]@)
}

/// Appends a copy of `s`.
pub(crate) fn push_text(v: &mut Vec<String>, s: &str)
    ensures
        strings(final(v)@) == strings(old(v)@).push(s@),
{
    let ghost before = v@;
    v.push(s.to_owned());
    assert(strings(v@) =~= strings(before).push(s@));
}

/// The arguments of `netsh` that list the interfaces.
pub fn list_interfaces_args() -> (r: Vec<String>)
    ensures
        strings(r@) == seq!["interface"@, "ip"@, "show"@, "interface"@],
{
    let mut v: Vec<String> = Vec::new();
    push_text(&mut v, "interface");
    push_text(&mut v, "ip");
    push_text(&mut v, "show");
    push_text(&mut v, "interface");
    assert(strings(v@) =~= seq!["interface"@, "ip"@, "show"@, "interface"@]);
    v
}

/// The arguments of `netsh` that give the TUN interface its address.
pub open spec fn set_address_words(config: Config) -> Seq<Seq<char>> {
    seq![
        "interface"@,
        "ip"@,
        "set"@,
        "address"@,
        config.tun_name@,
        "static"@,
        dotted(config.tun_ip),
        mask_text(config.tun_prefix_len),
    ]
}

/// The arguments of `netsh` that give the TUN interface the address that Tor is bound to.
pub open spec fn add_address_words(config: Config) -> Seq<Seq<char>> {
    seq![
        "interface"@,
        "ip"@,
        "add"@,
        "address"@,
        config.tun_name@,
        dotted(config.tor_outbound_ip),
        mask_text(config.tun_prefix_len),
    ]
}

/// The arguments of `netsh` that give the TUN interface its address.
pub fn set_address_args(config: &Config) -> (r: Vec<String>)
    requires
        config.tun_prefix_len > 0,
    ensures
        strings(r@) == set_address_words(*config),
        strings(r@) == seq![
            "interface"@,
            "ip"@,
            "set"@,
            "address"@,
            config.tun_name@,
            "static"@,
            dotted(config.tun_ip),
            dotted(Ipv4Addr::of_bits(prefix_mask(config.tun_prefix_len))),
        ],
{
    let mut v: Vec<String> = Vec::new();
    push_text(&mut v, "interface");
    push_text(&mut v, "ip");
    push_text(&mut v, "set");
    push_text(&mut v, "address");
    push_text(&mut v, config.tun_name.as_str());
    push_text(&mut v, "static");
    push_text(&mut v, dotted_string(config.tun_ip).as_str());
    push_text(&mut v, subnet_mask(config.tun_prefix_len).as_str());
    assert(strings(v@) =~= seq![
        "interface"@,
        "ip"@,
        "set"@,
        "address"@,
        config.tun_name@,
        "static"@,
        dotted(config.tun_ip),
        dotted(Ipv4Addr::of_bits(prefix_mask(config.tun_prefix_len))),
    ]);
    v
}

/// The arguments of `netsh` that give the TUN interface the address that Tor is
/// bound to.
pub fn add_address_args(config: &Config) -> (r: Vec<String>)
    requires
        config.tun_prefix_len > 0,
    ensures
        strings(r@) == add_address_words(*config),
        strings(r@) == seq![
            "interface"@,
            "ip"@,
            "add"@,
            "address"@,
            config.tun_name@,
            dotted(config.tor_outbound_ip),
            dotted(Ipv4Addr::of_bits(prefix_mask(config.tun_prefix_len))),
        ],
{
    let mut v: Vec<String> = Vec::new();
    push_text(&mut v, "interface");
    push_text(&mut v, "ip");
    push_text(&mut v, "add");
    push_text(&mut v, "address");
    push_text(&mut v, config.tun_name.as_str());
    push_text(&mut v, dotted_string(config.tor_outbound_ip).as_str());
    push_text(&mut v, subnet_mask(config.tun_prefix_len).as_str());
    assert(strings(v@) =~= seq![
        "interface"@,
        "ip"@,
        "add"@,
        "address"@,
        config.tun_name@,
        dotted(config.tor_outbound_ip),
        dotted(Ipv4Addr::of_bits(prefix_mask(config.tun_prefix_len))),
    ]);
    v
}

/// The arguments of `route` that send the half of the address space that starts at
/// `dest` through the TUN interface.
pub open spec fn route_words(dest: Seq<char>, config: Config, if_index: u32) -> Seq<Seq<char>> {
    seq![
        "add"@,
        dest,
        "mask"@,
        dotted(Ipv4Addr::of_bits(prefix_mask(1))),
        dotted(config.tun_ip),
        "if"@,
        decimal(if_index as nat),
        "metric"@,
        "1"@,
    ]
}

fn route_args(dest: &str, config: &Config, if_index: u32) -> (r: Vec<String>)
    ensures
        strings(r@) == route_words(dest@, *config, if_index),
{
    let mut v: Vec<String> = Vec::new();
    push_text(&mut v, "add");
    push_text(&mut v, dest);
    push_text(&mut v, "mask");
    push_text(&mut v, subnet_mask(1).as_str());
    push_text(&mut v, dotted_string(config.tun_ip).as_str());
    push_text(&mut v, "if");
    push_text(&mut v, decimal_string(if_index as u64).as_str());
    push_text(&mut v, "metric");
    push_text(&mut v, "1");
    assert(strings(v@) =~= route_words(dest@, *config, if_index));
    v
}

/// The arguments of the two calls of `route` that send all traffic through the TUN
/// interface, one half of the address space each.
pub fn default_route_args(config: &Config, if_index: u32) -> (r: (Vec<String>, Vec<String>))
    ensures
        strings(r.0@) == route_words("0.0.0.0"@, *config, if_index),
        strings(r.1@) == route_words("128.0.0.0"@, *config, if_index),
{
    (route_args("0.0.0.0", config, if_index), route_args("128.0.0.0", config, if_index))
}

/// The size of a packet of `len` bytes for the TUN device, which takes at most 65535.
pub open spec fn size_field(len: int) -> Option<u16> {
    if len <= 0xffff {
        Some(len as u16)
    } else {
        None
    }
}

/// The size of a packet for the TUN device, which takes at most 65535 bytes.
pub fn packet_size(data: &[u8]) -> (r: Option<u16>)
    ensures
        r == size_field(data@.len() as int),
        r == (if data@.len() <= 0xffff {
            Some(data@.len() as u16)
        } else {
            None
        }),
{
    if data.len() <= 0xffff {
        Some(data.len() as u16)
    } else {
        None
    }
}

/// 0.0.0.0, where the lower half of the address space starts.
pub open spec fn lower_half() -> Ipv4Addr {
    Ipv4Addr { a: 0, b: 0, c: 0, d: 0 }
}

/// 128.0.0.0, where the upper half of the address space starts.
pub open spec fn upper_half() -> Ipv4Addr {
    Ipv4Addr { a: 128, b: 0, c: 0, d: 0 }
}

/// The two routes cover every address, and no address twice: under the mask of both,
/// an address is the destination of exactly one.
pub proof fn lemma_routes_cover(ip: u32)
    ensures
        (ip & prefix_mask(1) == lower_half().bits()) != (ip & prefix_mask(1)
            == upper_half().bits()),
        dotted(lower_half()) == "0.0.0.0"@,
        dotted(upper_half()) == "128.0.0.0"@,
{
    assert(ip & (0xffff_ffffu32 << 31u32) == 0 || ip & (0xffff_ffffu32 << 31u32) == 0x8000_0000)
        by (bit_vector);
    reveal_strlit(".");
    reveal_strlit("0.0.0.0");
    reveal_strlit("128.0.0.0");
    reveal_with_fuel(decimal, 4);
    assert(dotted(lower_half()) =~= "0.0.0.0"@);
    assert(dotted(upper_half()) =~= "128.0.0.0"@);
}

} // verus!
