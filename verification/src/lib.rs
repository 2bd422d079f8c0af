//! Packet handling of a VPN that routes TCP through Tor via a TUN interface.
pub mod addr;
pub mod bypass;
pub mod bytes;
pub mod channel;
pub mod checksum;
pub mod config;
pub mod engine;
pub mod flow;
pub mod gui;
pub mod interfaces;
pub mod laws;
pub mod packet;
pub mod random;
pub mod relay;
pub mod segment;
pub mod session;
pub mod socks5;
pub mod tcp;
pub mod text;
pub mod tor;
pub mod tor_tun;
pub mod tun;
pub mod udp;
pub mod utf8;
