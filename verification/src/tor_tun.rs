//! A SOCKS5 server in front of a Tor client, beside a TUN device whose packets are
//! reported.
pub mod packet;
pub mod socks5;
pub mod tun;
