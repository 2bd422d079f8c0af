//! The key of a TCP flow.
use vstd::arithmetic::div_mod::lemma_fundamental_div_mod_converse;
use vstd::prelude::*;

use crate::addr::{lemma_addr_of_bits, Ipv4Addr};

verus! {

/// Which TCP flow a segment belongs to, seen from the client.
#[derive(Debug, Clone, Copy, PartialEq, Eq, Structural, Hash)]
pub struct FlowKey {
    pub src_ip: u32,
    pub src_port: u16,
    pub dst_ip: u32,
    pub dst_port: u16,
}

impl FlowKey {
    /// The key of the flow from `src` to `dst`.
    pub open spec fn of(
        src_ip: Ipv4Addr,
        src_port: u16,
        dst_ip: Ipv4Addr,
        dst_port: u16,
    ) -> FlowKey {
        FlowKey { src_ip: src_ip.bits(), src_port, dst_ip: dst_ip.bits(), dst_port }
    }

    /// The fields side by side in one number.
    pub open spec fn packed(self) -> u128 {
        (self.src_ip * 0x1_0000_0000_0000_0000 + self.src_port * 0x1_0000_0000_0000 + self.dst_ip
            * 0x1_0000 + self.dst_port) as u128
    }

    /// The key whose fields stand side by side in `n`.
    pub open spec fn unpacked(n: u128) -> FlowKey {
        FlowKey {
            src_ip: (n as int / 0x1_0000_0000_0000_0000) as u32,
            src_port: (n as int / 0x1_0000_0000_0000 % 0x1_0000) as u16,
            dst_ip: (n as int / 0x1_0000 % 0x1_0000_0000) as u32,
            dst_port: (n as int % 0x1_0000) as u16,
        }
    }

    /// The key of the flow from `src_ip`:`src_port` to `dst_ip`:`dst_port`.
    pub fn from_parts(
        src_ip: Ipv4Addr,
        src_port: u16,
        dst_ip: Ipv4Addr,
        dst_port: u16,
    ) -> (r: FlowKey)
        ensures
            r == FlowKey::of(src_ip, src_port, dst_ip, dst_port),
    {
        FlowKey { src_ip: src_ip.to_bits(), src_port, dst_ip: dst_ip.to_bits(), dst_port }
    }

    /// The fields side by side in one number.
    pub fn pack(&self) -> (r: u128)
        ensures
            r == self.packed(),
    {
        self.src_ip as u128 * 0x1_0000_0000_0000_0000 + self.src_port as u128 * 0x1_0000_0000_0000
            + self.dst_ip as u128 * 0x1_0000 + self.dst_port as u128
    }

    /// The key whose fields stand side by side in `n`.
    pub fn unpack(n: u128) -> (r: FlowKey)
        requires
            n < 0x1_0000_0000_0000_0000_0000_0000,
        ensures
            r == FlowKey::unpacked(n),
    {
        FlowKey {
            src_ip: (n / 0x1_0000_0000_0000_0000) as u32,
            src_port: (n / 0x1_0000_0000_0000 % 0x1_0000) as u16,
            dst_ip: (n / 0x1_0000 % 0x1_0000_0000) as u32,
            dst_port: (n % 0x1_0000) as u16,
        }
    }
}

/// Unpacking a packed key gives the key back.
pub proof fn lemma_unpack_pack(key: FlowKey)
    ensures
        FlowKey::unpacked(key.packed()) == key,
        key.packed() < 0x1_0000_0000_0000_0000_0000_0000,
{
    let n = key.packed() as int;
    let (s, p, t, q) = (
        key.src_ip as int,
        key.src_port as int,
        key.dst_ip as int,
        key.dst_port as int,
    );
    lemma_fundamental_div_mod_converse(
        n,
        0x1_0000_0000_0000_0000,
        s,
        p * 0x1_0000_0000_0000 + t * 0x1_0000 + q,
    );
    lemma_fundamental_div_mod_converse(n, 0x1_0000_0000_0000, s * 0x1_0000 + p, t * 0x1_0000 + q);
    lemma_fundamental_div_mod_converse(s * 0x1_0000 + p, 0x1_0000, s, p);
    lemma_fundamental_div_mod_converse(
        n,
        0x1_0000,
        s * 0x1_0000_0000_0000 + p * 0x1_0000_0000 + t,
        q,
    );
    lemma_fundamental_div_mod_converse(
        s * 0x1_0000_0000_0000 + p * 0x1_0000_0000 + t,
        0x1_0000_0000,
        s * 0x1_0000 + p,
        t,
    );
}

/// Packing an unpacked number gives the number back, when it is a packed key.
pub proof fn lemma_pack_unpack(n: u128)
    requires
        n < 0x1_0000_0000_0000_0000_0000_0000,
    ensures
        FlowKey::unpacked(n).packed() == n,
{
    let high = n as int / 0x1_0000_0000_0000;
    let low = n as int / 0x1_0000;
    assert(n as int / 0x1_0000_0000_0000_0000 == high / 0x1_0000);
    assert(high == low / 0x1_0000_0000);
}

/// Two flows with the same packed key are the same flow.
pub proof fn lemma_packed_injective(k1: FlowKey, k2: FlowKey)
    requires
        k1.packed() == k2.packed(),
    ensures
        k1 == k2,
{
    lemma_unpack_pack(k1);
    lemma_unpack_pack(k2);
}

/// Flows between different endpoints have different keys.
pub proof fn lemma_flow_of_endpoints(
    s1: Ipv4Addr,
    p1: u16,
    d1: Ipv4Addr,
    q1: u16,
    s2: Ipv4Addr,
    p2: u16,
    d2: Ipv4Addr,
    q2: u16,
)
    ensures
        FlowKey::of(s1, p1, d1, q1) == FlowKey::of(s2, p2, d2, q2) <==> (s1 == s2 && p1 == p2
            && d1 == d2 && q1 == q2),
{
    lemma_addr_of_bits(s1);
    lemma_addr_of_bits(s2);
    lemma_addr_of_bits(d1);
    lemma_addr_of_bits(d2);
}

} // verus!
