//! What the library promises, said of the bytes and numbers themselves.
pub mod numbers;
pub mod packets;
pub mod proxy;
pub mod relays;
pub mod reports;
pub mod segments;
pub mod sessions;
pub mod setup;
pub mod socks;
pub mod texts;
pub mod udp;
pub mod window;
