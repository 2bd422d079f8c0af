//! IPv4 addresses.
use vstd::arithmetic::div_mod::lemma_fundamental_div_mod_converse;
use vstd::prelude::*;

use crate::bytes::{be32, u32_from_be};

verus! {

/// The IPv4 address `a.b.c.d`.
#[derive(Debug, Clone, Copy, PartialEq, Eq, Structural, Hash)]
pub struct Ipv4Addr {
    pub a: u8,
    pub b: u8,
    pub c: u8,
    pub d: u8,
}

impl Ipv4Addr {
    /// The address `a.b.c.d`.
    pub fn new(a: u8, b: u8, c: u8, d: u8) -> (r: Ipv4Addr)
        ensures
            r == (Ipv4Addr { a, b, c, d }),
    {
        Ipv4Addr { a, b, c, d }
    }

    /// The four octets, in network order.
    pub open spec fn bytes(self) -> Seq<u8> {
        seq![self.a, self.b, self.c, self.d]
    }

    /// The address as one number.
    pub open spec fn bits(self) -> u32 {
        be32(self.a, self.b, self.c, self.d)
    }

    /// The address whose number is `n`.
    pub open spec fn of_bits(n: u32) -> Ipv4Addr {
        Ipv4Addr {
            a: (n as int / 0x100_0000) as u8,
            b: (n as int / 0x1_0000 % 0x100) as u8,
            c: (n as int / 0x100 % 0x100) as u8,
            d: (n as int % 0x100) as u8,
        }
    }

    /// 127.0.0.0/8.
    pub open spec fn loopback(self) -> bool {
        self.a == 127
    }

    /// 169.254.0.0/16.
    pub open spec fn link_local(self) -> bool {
        self.a == 169 && self.b == 254
    }

    /// 224.0.0.0/4.
    pub open spec fn multicast(self) -> bool {
        224 <= self.a <= 239
    }

    /// The address as one number, most significant octet first.
    pub fn to_bits(self) -> (r: u32)
        ensures
            r == self.bits(),
    {
        u32_from_be(self.a, self.b, self.c, self.d)
    }

    /// The address whose number is `n`.
    pub fn from_bits(n: u32) -> (r: Ipv4Addr)
        ensures
            r == Ipv4Addr::of_bits(n),
    {
        Ipv4Addr {
            a: (n / 0x100_0000) as u8,
            b: (n / 0x1_0000 % 0x100) as u8,
            c: (n / 0x100 % 0x100) as u8,
            d: (n % 0x100) as u8,
        }
    }

    /// Whether this is a loopback address (127.0.0.0/8).
    pub fn is_loopback(self) -> (r: bool)
        ensures
            r == self.loopback(),
    {
        self.a == 127
    }

    /// Whether this is a link-local address (169.254.0.0/16).
    pub fn is_link_local(self) -> (r: bool)
        ensures
            r == self.link_local(),
    {
        self.a == 169 && self.b == 254
    }

    /// Whether this is a multicast address (224.0.0.0/4).
    pub fn is_multicast(self) -> (r: bool)
        ensures
            r == self.multicast(),
    {
        self.a >= 224 && self.a <= 239
    }
}

/// An address is the address of its number.
pub proof fn lemma_addr_of_bits(ip: Ipv4Addr)
    ensures
        Ipv4Addr::of_bits(ip.bits()) == ip,
{
    let n = ip.bits() as int;
    let (a, b, c, d) = (ip.a as int, ip.b as int, ip.c as int, ip.d as int);
    lemma_fundamental_div_mod_converse(n, 0x100_0000, a, b * 0x1_0000 + c * 0x100 + d);
    lemma_fundamental_div_mod_converse(n, 0x1_0000, a * 0x100 + b, c * 0x100 + d);
    lemma_fundamental_div_mod_converse(n, 0x100, a * 0x1_0000 + b * 0x100 + c, d);
}

/// A number is the number of its address.
pub proof fn lemma_bits_of_addr(n: u32)
    ensures
        Ipv4Addr::of_bits(n).bits() == n,
{
}

} // verus!
