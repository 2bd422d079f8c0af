//! The start of the Tor process.
use vstd::prelude::*;

use crate::config::Config;
use crate::socks5::{accepts_no_auth, method_accepted};
use crate::text::{decimal, decimal_string, dotted, dotted_string, host_port, host_port_string};
use crate::tun::{push_text, strings};

verus! {

/// What to do about the Tor binary.
#[derive(Debug, Clone, Copy, PartialEq, Eq, Structural)]
pub enum Startup {
    /// It is there: start it.
    Launch,
    /// It is not there: download it first.
    Download,
    /// It is not there and must not be downloaded.
    Missing,
}

/// What to do about the Tor binary, that is there or not and may be downloaded or not.
pub open spec fn startup_for(binary_exists: bool, skip_download: bool) -> Startup {
    if binary_exists {
        Startup::Launch
    } else if skip_download {
        Startup::Missing
    } else {
        Startup::Download
    }
}

/// What to do about the Tor binary.
pub fn startup(binary_exists: bool, config: &Config) -> (r: Startup)
    ensures
        r == startup_for(binary_exists, config.skip_tor_download),
        r == (if binary_exists {
            Startup::Launch
        } else if config.skip_tor_download {
            Startup::Missing
        } else {
            Startup::Download
        }),
{
    if binary_exists {
        Startup::Launch
    } else if config.skip_tor_download {
        Startup::Missing
    } else {
        Startup::Download
    }
}

/// The arguments with which Tor is started.
pub open spec fn tor_words(config: Config, data_dir: Seq<char>, pid: u32) -> Seq<Seq<char>> {
    seq![
        "--SocksPort"@,
        decimal(config.tor_port as nat),
        "--ControlPort"@,
        decimal(config.tor_control_port as nat),
        "--DataDirectory"@,
        data_dir,
        "--OutboundBindAddress"@,
        dotted(config.tor_outbound_ip),
        "--Log"@,
        "notice stderr"@,
        "__OwningControllerProcess"@,
        decimal(pid as nat),
    ]
}

/// The arguments with which Tor is started by the process `pid`.
pub fn tor_args(config: &Config, data_dir: &str, pid: u32) -> (r: Vec<String>)
    ensures
        strings(r@) == tor_words(*config, data_dir@, pid),
{
    let mut v: Vec<String> = Vec::new();
    push_text(&mut v, "--SocksPort");
    push_text(&mut v, decimal_string(config.tor_port as u64).as_str());
    push_text(&mut v, "--ControlPort");
    push_text(&mut v, decimal_string(config.tor_control_port as u64).as_str());
    push_text(&mut v, "--DataDirectory");
    push_text(&mut v, data_dir);
    push_text(&mut v, "--OutboundBindAddress");
    push_text(&mut v, dotted_string(config.tor_outbound_ip).as_str());
    push_text(&mut v, "--Log");
    push_text(&mut v, "notice stderr");
    push_text(&mut v, "__OwningControllerProcess");
    push_text(&mut v, decimal_string(pid as u64).as_str());
    assert(strings(v@) =~= tor_words(*config, data_dir@, pid));
    v
}

/// Where the SOCKS server of Tor listens.
pub fn socks_address(config: &Config) -> (r: String)
    ensures
        r@ == host_port(config.tor_host@, config.tor_port),
{
    host_port_string(config.tor_host.as_str(), config.tor_port)
}

/// How often Tor is asked whether it is ready.
pub const READY_ATTEMPTS: u32 = 60;

/// What to do before an attempt to reach Tor.
#[derive(Debug, Clone, Copy, PartialEq, Eq, Structural)]
pub enum ReadyCheck {
    /// Connect, write the greeting, and read two bytes.
    Probe,
    /// Give up: a shutdown was requested.
    ShutDown,
    /// Give up: Tor did not become ready in time.
    TimedOut,
}

/// What an attempt to reach Tor brought.
#[derive(Debug, Clone, Copy, PartialEq, Eq, Structural)]
pub enum ProbeResult {
    /// Tor is ready.
    Ready,
    /// Wait a second and try again; say so if `report`.
    Retry { report: bool },
}

/// What to do before the attempt `attempt`, counted from zero.
pub open spec fn check_before(attempt: u32, shutdown: bool) -> ReadyCheck {
    if attempt >= READY_ATTEMPTS {
        ReadyCheck::TimedOut
    } else if shutdown {
        ReadyCheck::ShutDown
    } else {
        ReadyCheck::Probe
    }
}

/// What to do before the attempt `attempt`, counted from zero.
pub fn before_attempt(attempt: u32, shutdown: bool) -> (r: ReadyCheck)
    ensures
        r == check_before(attempt, shutdown),
        r == (if attempt >= READY_ATTEMPTS {
            ReadyCheck::TimedOut
        } else if shutdown {
            ReadyCheck::ShutDown
        } else {
            ReadyCheck::Probe
        }),
{
    if attempt >= READY_ATTEMPTS {
        ReadyCheck::TimedOut
    } else if shutdown {
        ReadyCheck::ShutDown
    } else {
        ReadyCheck::Probe
    }
}

/// What the attempt `attempt` brought, when `reply` is what was read, if anything was.
pub open spec fn result_after(attempt: u32, reply: Option<Seq<u8>>) -> ProbeResult {
    if reply matches Some(b) && method_accepted(b) {
        ProbeResult::Ready
    } else {
        ProbeResult::Retry { report: attempt % 5 == 0 }
    }
}

/// What the attempt `attempt` brought, when `reply` is what was read, or `None` if
/// connecting, writing or reading failed.
pub fn after_attempt(attempt: u32, reply: Option<&[u8]>) -> (r: ProbeResult)
    ensures
        r == result_after(
            attempt,
            match reply {
                Some(b) => Some(b@),
                None => None,
            },
        ),
        r == (if reply matches Some(b) && method_accepted(b@) {
            ProbeResult::Ready
        } else {
            ProbeResult::Retry { report: attempt % 5 == 0 }
        }),
{
    if let Some(bytes) = reply {
        if accepts_no_auth(bytes) {
            return ProbeResult::Ready;
        }
    }
    ProbeResult::Retry { report: attempt % 5 == 0 }
}

/// The name of the Tor bundle for 64-bit (`wide`) or 32-bit Windows.
pub open spec fn bundle(wide: bool) -> Seq<char> {
    "tor-expert-bundle-windows-"@ + (if wide {
        "x86_64"@
    } else {
        "i686"@
    }) + "-"@ + "15.0.14"@
}

/// The name of the Tor bundle, which is also the directory it may be packed in.
pub fn bundle_name(wide: bool) -> (r: String)
    ensures
        r@ == bundle(wide),
{
    let mut s = "tor-expert-bundle-windows-".to_owned();
    s.append(
        if wide {
            "x86_64"
        } else {
            "i686"
        },
    );
    s.append("-");
    s.append("15.0.14");
    s
}

/// Where the Tor bundle is downloaded from.
pub open spec fn bundle_link(wide: bool) -> Seq<char> {
    "https://dist.torproject.org/torbrowser/"@ + "15.0.14"@ + "/"@ + bundle(wide) + ".tar.gz"@
}

/// Where the Tor bundle is downloaded from.
pub fn bundle_url(wide: bool) -> (r: String)
    ensures
        r@ == bundle_link(wide),
        r@ == "https://dist.torproject.org/torbrowser/"@ + "15.0.14"@ + "/"@ + bundle(wide)
            + ".tar.gz"@,
{
    let mut s = "https://dist.torproject.org/torbrowser/".to_owned();
    s.append("15.0.14");
    s.append("/");
    s.append(bundle_name(wide).as_str());
    s.append(".tar.gz");
    s
}

} // verus!
