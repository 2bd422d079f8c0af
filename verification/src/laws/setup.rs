//! How the TUN device and Tor are set up.
use vstd::arithmetic::div_mod::lemma_fundamental_div_mod_converse;
use vstd::prelude::*;

use crate::addr::{lemma_addr_of_bits, Ipv4Addr};
use crate::config::Config;
use crate::engine::{round_after, Pause};
use crate::laws::socks::law_method_accepted;
use crate::laws::texts::law_dotted;
use crate::text::{decimal, dotted};
use crate::tor::{
    bundle, bundle_link, check_before, result_after, startup_for, tor_words, ProbeResult,
    ReadyCheck, Startup,
};
use crate::tun::{
    add_address_words, mask_text, prefix_mask, route_words, set_address_words, size_field, strings,
};

verus! {

/// A netmask is the highest number under 2^32 less the addresses that its prefix leaves
/// open: there are 2^(32 - p) of them, and one more bit halves them.
pub proof fn law_mask(p: u8)
    requires
        1 <= p,
    ensures
        p >= 32 ==> prefix_mask(p) == 0xffff_ffff,
        prefix_mask(1) == 0x8000_0000,
        p < 32 ==> 2 * (0x1_0000_0000 - prefix_mask((p + 1) as u8)) == 0x1_0000_0000 - prefix_mask(
            p,
        ),
{
    assert(0xffff_ffffu32 << 31u32 == 0x8000_0000) by (bit_vector);
    if p < 31 {
        let by: u32 = (32 - p) as u32;
        let less: u32 = (31 - p) as u32;
        assert(2 * (0x1_0000_0000 - (0xffff_ffffu32 << less)) == 0x1_0000_0000 - (0xffff_ffffu32
            << by)) by (bit_vector)
            requires
                less < 31,
                by == less + 1,
        ;
    } else if p == 31 {
        assert(0xffff_ffffu32 << 1u32 == 0xffff_fffe) by (bit_vector);
    }
}

/// The words of a route: nine, of which the second is the destination, the fourth the
/// mask of one bit, the fifth the address of the TUN interface and the seventh its index.
pub proof fn law_route(dest: Seq<char>, config: Config, if_index: u32)
    ensures
        ({
            let w = route_words(dest, config, if_index);
            &&& w.len() == 9
            &&& w[0] == "add"@
            &&& w[1] == dest
            &&& w[2] == "mask"@
            &&& w[3] == dotted(Ipv4Addr { a: 128, b: 0, c: 0, d: 0 })
            &&& w[4] == dotted(config.tun_ip)
            &&& w[5] == "if"@
            &&& w[6] == decimal(if_index as nat)
            &&& w[7] == "metric"@
            &&& w[8] == "1"@
        }),
{
    law_mask(1);
}

/// The arguments of Tor: six options, each followed by its value.
pub proof fn law_tor_options(config: Config, data_dir: Seq<char>, pid: u32)
    ensures
        ({
            let w = tor_words(config, data_dir, pid);
            &&& w.len() == 12
            &&& w[0] == "--SocksPort"@ && w[1] == decimal(config.tor_port as nat)
            &&& w[2] == "--ControlPort"@ && w[3] == decimal(config.tor_control_port as nat)
            &&& w[4] == "--DataDirectory"@ && w[5] == data_dir
            &&& w[6] == "--OutboundBindAddress"@ && w[7] == dotted(config.tor_outbound_ip)
            &&& w[8] == "--Log"@ && w[9] == "notice stderr"@
            &&& w[10] == "__OwningControllerProcess"@ && w[11] == decimal(pid as nat)
        }),
{
}

/// The bundles for the two kinds of Windows differ in the kind alone.
pub proof fn law_bundles()
    ensures
        bundle(true) == "tor-expert-bundle-windows-x86_64-15.0.14"@,
        bundle(false) == "tor-expert-bundle-windows-i686-15.0.14"@,
{
    reveal_strlit("tor-expert-bundle-windows-x86_64-15.0.14");
    reveal_strlit("tor-expert-bundle-windows-i686-15.0.14");
    reveal_strlit("tor-expert-bundle-windows-");
    reveal_strlit("x86_64");
    reveal_strlit("i686");
    reveal_strlit("-");
    reveal_strlit("15.0.14");
    assert(bundle(true) =~= "tor-expert-bundle-windows-x86_64-15.0.14"@);
    assert(bundle(false) =~= "tor-expert-bundle-windows-i686-15.0.14"@);
}

/// The texts of a list are those of its elements, in order.
pub proof fn law_strings(v: Seq<String>, i: int)
    requires
        0 <= i < v.len(),
    ensures
        strings(v).len() == v.len(),
        strings(v)[i] == v[i]@,
{
}

/// The bundles are downloaded from the directory of their version.
pub proof fn law_links()
    ensures
        bundle_link(true)
            == "https://dist.torproject.org/torbrowser/15.0.14/tor-expert-bundle-windows-x86_64-15.0.14.tar.gz"@,
        bundle_link(false)
            == "https://dist.torproject.org/torbrowser/15.0.14/tor-expert-bundle-windows-i686-15.0.14.tar.gz"@,
{
    law_bundles();
    reveal_strlit(
        "https://dist.torproject.org/torbrowser/15.0.14/tor-expert-bundle-windows-x86_64-15.0.14.tar.gz",
    );
    reveal_strlit(
        "https://dist.torproject.org/torbrowser/15.0.14/tor-expert-bundle-windows-i686-15.0.14.tar.gz",
    );
    reveal_strlit("tor-expert-bundle-windows-x86_64-15.0.14");
    reveal_strlit("tor-expert-bundle-windows-i686-15.0.14");
    reveal_strlit("https://dist.torproject.org/torbrowser/");
    reveal_strlit("15.0.14");
    reveal_strlit("/");
    reveal_strlit(".tar.gz");
    assert(bundle_link(true)
        =~= "https://dist.torproject.org/torbrowser/15.0.14/tor-expert-bundle-windows-x86_64-15.0.14.tar.gz"@);
    assert(bundle_link(false)
        =~= "https://dist.torproject.org/torbrowser/15.0.14/tor-expert-bundle-windows-i686-15.0.14.tar.gz"@);
}

/// Tor is downloaded only if it is not there and may be downloaded, and given up only if
/// it is not there and may not.
pub proof fn law_startup(exists_already: bool, skip: bool)
    ensures
        startup_for(exists_already, skip) == Startup::Launch <==> exists_already,
        startup_for(exists_already, skip) == Startup::Download <==> !exists_already && !skip,
        startup_for(exists_already, skip) == Startup::Missing <==> !exists_already && skip,
{
}

/// Tor is asked sixty times whether it is ready, and no more, and not once a shutdown was
/// requested; it is ready when it answers with the two bytes 5 and 0; and every fifth
/// failure, from the first on, is told.
pub proof fn law_waiting(attempt: u32, shutdown: bool, reply: Option<Seq<u8>>, k: int)
    ensures
        check_before(attempt, shutdown) == ReadyCheck::Probe <==> attempt < 60 && !shutdown,
        check_before(attempt, shutdown) == ReadyCheck::ShutDown <==> attempt < 60 && shutdown,
        check_before(attempt, shutdown) == ReadyCheck::TimedOut <==> attempt >= 60,
        reply matches Some(b) ==> (result_after(attempt, reply) is Ready <==> b.len() == 2 && b[0]
            == 5 && b[1] == 0),
        reply is None ==> result_after(attempt, reply) is Retry,
        attempt == 5 * k ==> (result_after(attempt, reply) matches ProbeResult::Retry { report }
            ==> report),
        5 * k < attempt < 5 * k + 5 ==> (result_after(attempt, reply) matches ProbeResult::Retry {
            report,
        } ==> !report),
{
    if reply is Some {
        law_method_accepted(reply->0);
    }
}

/// Of two hundred rounds that follow a multiple of two hundred, the last is logged and no
/// other; of forty the last is shown, of ten the last looks for an interrupt.
pub proof fn law_rounds(k: nat, i: nat)
    ensures
        200 * k + i < u64::MAX ==> round_after((200 * k + i) as int).tick == 200 * k + i + 1,
        i < 200 ==> (round_after((200 * k + i) as int).log <==> i == 199),
        i < 40 ==> (round_after((40 * k + i) as int).show <==> i == 39),
        i < 10 ==> (round_after((10 * k + i) as int).pause == Pause::UntilInterrupt <==> i == 9),
{
    if i < 200 {
        lemma_last_of(200, k as int, i as int);
    }
    if i < 40 {
        lemma_last_of(40, k as int, i as int);
    }
    if i < 10 {
        lemma_last_of(10, k as int, i as int);
    }
}

proof fn lemma_last_of(m: int, k: int, i: int)
    requires
        0 <= k,
        0 <= i < m,
    ensures
        (m * k + i + 1) % m == 0 <==> i == m - 1,
{
    if i == m - 1 {
        assert(m * k + i + 1 == (k + 1) * m) by (nonlinear_arith)
            requires
                i == m - 1,
        ;
        lemma_fundamental_div_mod_converse(m * k + i + 1, m, k + 1, 0);
    } else {
        assert(m * k == k * m) by (nonlinear_arith);
        lemma_fundamental_div_mod_converse(m * k + i + 1, m, k, i + 1);
    }
}

/// The text of a netmask: the four octets whose number is the mask, with points between.
pub proof fn law_mask_text(p: u8, a: u8, b: u8, c: u8, d: u8)
    requires
        256 * (256 * (256 * a + b) + c) + d == prefix_mask(p),
    ensures
        mask_text(p) == decimal(a as nat) + seq!['.'] + decimal(b as nat) + seq!['.'] + decimal(
            c as nat,
        ) + seq!['.'] + decimal(d as nat),
{
    let ip = Ipv4Addr { a, b, c, d };
    lemma_addr_of_bits(ip);
    law_dotted(ip);
}

/// The arguments that give the TUN interface its own address, and those that give it
/// Tor's address: the interface by name, the address, and the mask of the prefix.
pub proof fn law_address_arguments(config: Config)
    ensures
        ({
            let w = set_address_words(config);
            &&& w.len() == 8
            &&& w[0] == "interface"@ && w[1] == "ip"@ && w[2] == "set"@ && w[3] == "address"@
            &&& w[4] == config.tun_name@
            &&& w[5] == "static"@
            &&& w[6] == dotted(config.tun_ip)
            &&& w[7] == mask_text(config.tun_prefix_len)
        }),
        ({
            let w = add_address_words(config);
            &&& w.len() == 7
            &&& w[0] == "interface"@ && w[1] == "ip"@ && w[2] == "add"@ && w[3] == "address"@
            &&& w[4] == config.tun_name@
            &&& w[5] == dotted(config.tor_outbound_ip)
            &&& w[6] == mask_text(config.tun_prefix_len)
        }),
{
}

/// A packet of at most 65535 bytes has its length as its size; a longer one has none.
pub proof fn law_packet_size(len: int)
    requires
        0 <= len,
    ensures
        size_field(len) is Some <==> len < 0x1_0000,
        size_field(len) matches Some(n) ==> n == len,
{
}

} // verus!
