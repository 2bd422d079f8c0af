[package]
name = "tor-vpn"
version = "0.1.0"
edition = "2021"
publish = false

[dependencies]
anyhow = "1"
clap = { version = "4", default-features = false, features = ["std", "derive", "help", "usage", "error-context"] }
crossbeam = "=0.8.5"
env_logger = { version = "0.11", default-features = false }
flate2 = "1"
log = "0.4"
rand = "=0.8.8"
reqwest = { version = "=0.12.28", default-features = false, features = ["rustls-tls"] }
socket2 = { version = "0.6", features = ["all"] }
tar = { version = "0.4", default-features = false }
tokio = { version = "1", features = ["rt-multi-thread", "macros", "signal", "time", "net", "io-util"] }
tracing = "0.1"
tracing-subscriber = { version = "0.3", default-features = false, features = ["fmt", "env-filter"] }
tun = { version = "0.7", default-features = false, features = ["async"] }
uuid = { version = "=1.29.0", features = ["v4"] }
windows-sys = { version = "0.61", features = ["Win32_Networking_WinSock"] }
wintun = "0.5"
