# tor-vpn

A VPN that routes TCP through Tor via a TUN interface. TCP flows are terminated here
and carried to Tor's SOCKS server by relays; UDP datagrams leave through sockets of
their own; the answers go back to the TUN interface as packets.

- `src/` is the library, verified with Verus: packets and checksums (`packet`,
  `segment`, `checksum`), TCP sessions and their relays (`session`, `tcp`, `relay`,
  `channel`), UDP forwarding (`udp`), both sides of SOCKS5 (`socks5`,
  `tor_tun::socks5`), the set-up of the TUN device and of Tor (`tun`, `tor`,
  `interfaces`, `config`), and the state that the window shows (`gui`).
- `app/` is the program around it: sockets, threads, processes and the window. It runs
  on Windows. Under the name `tor-tun` it is a SOCKS5 server in front of a Tor client,
  for which it needs the `arti-client` and `tor-rtcompat` crates; the window needs
  `eframe`.
- `tests/` runs the library.

What the library takes on trust stands in `channel`, `random` and `utf8`: the channels
of `crossbeam`, the numbers of `rand` and `uuid`, and the text of `std::string::String`.
