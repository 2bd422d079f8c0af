//! Numbers, addresses and checksums.
use vstd::prelude::*;

use crate::addr::Ipv4Addr;
use crate::bytes::{be16, be16_bytes, be32, be32_bytes};
use crate::checksum::{checksum_of, fold16, word_sum};
use crate::flow::FlowKey;

verus! {

/// Of the two bytes of a number the first counts 256 times.
pub proof fn law_two_bytes(hi: u8, lo: u8, v: u16)
    ensures
        be16(hi, lo) == 256 * hi + lo,
        be16_bytes(v).len() == 2,
        256 * be16_bytes(v)[0] + be16_bytes(v)[1] == v,
{
}

/// Of the four bytes of a number each counts 256 times as much as the next.
pub proof fn law_four_bytes(a: u8, b: u8, c: u8, d: u8, v: u32)
    ensures
        be32(a, b, c, d) == 256 * (256 * (256 * a + b) + c) + d,
        be32_bytes(v).len() == 4,
        256 * (256 * (256 * be32_bytes(v)[0] + be32_bytes(v)[1]) + be32_bytes(v)[2])
            + be32_bytes(v)[3] == v,
{
}

/// The octets of an address, its number, and the address of a number.
pub proof fn law_address_octets(ip: Ipv4Addr, n: u32)
    ensures
        ip.bytes().len() == 4,
        ip.bytes()[0] == ip.a,
        ip.bytes()[1] == ip.b,
        ip.bytes()[2] == ip.c,
        ip.bytes()[3] == ip.d,
        ip.bits() == 256 * (256 * (256 * ip.a + ip.b) + ip.c) + ip.d,
        ({
            let q = Ipv4Addr::of_bits(n);
            256 * (256 * (256 * q.a + q.b) + q.c) + q.d == n
        }),
{
}

/// The loopback, link-local and multicast addresses are three ranges of numbers.
pub proof fn law_address_ranges(ip: Ipv4Addr)
    ensures
        ({
            let n = 256 * (256 * (256 * ip.a + ip.b) + ip.c) + ip.d;
            &&& ip.loopback() <==> 0x7f00_0000 <= n <= 0x7fff_ffff
            &&& ip.link_local() <==> 0xa9fe_0000 <= n <= 0xa9fe_ffff
            &&& ip.multicast() <==> 0xe000_0000 <= n <= 0xefff_ffff
        }),
{
}

/// The key of a flow holds the numbers of the two addresses and the two ports, each in
/// its place.
pub proof fn law_flow_key(src: Ipv4Addr, src_port: u16, dst: Ipv4Addr, dst_port: u16)
    ensures
        ({
            let k = FlowKey::of(src, src_port, dst, dst_port);
            &&& k.src_ip == 256 * (256 * (256 * src.a + src.b) + src.c) + src.d
            &&& k.dst_ip == 256 * (256 * (256 * dst.a + dst.b) + dst.c) + dst.d
            &&& k.src_port == src_port
            &&& k.dst_port == dst_port
            &&& k.packed() == ((k.src_ip * 0x1_0000 + k.src_port) * 0x1_0000_0000 + k.dst_ip)
                * 0x1_0000 + k.dst_port
        }),
{
}

/// In the sum of words a byte at an even place counts 256 times and one at an odd place
/// once, whatever the other bytes are: changing it changes the sum by that.
pub proof fn law_word_sum_of_a_change(s: Seq<u8>, i: int, b: u8)
    requires
        0 <= i < s.len(),
    ensures
        word_sum(s.update(i, b)) - word_sum(s) == (if i % 2 == 0 {
            256 * (b - s[i])
        } else {
            b - s[i]
        }),
    decreases s.len(),
{
    let t = s.update(i, b);
    if s.len() >= 2 {
        if i >= 2 {
            law_word_sum_of_a_change(s.skip(2), i - 2, b);
            assert(t.skip(2) =~= s.skip(2).update(i - 2, b));
        } else {
            assert(t.skip(2) =~= s.skip(2));
        }
    }
}

/// Zeros, however many, add up to zero.
pub proof fn law_word_sum_of_zeros(s: Seq<u8>)
    requires
        forall|i: int| 0 <= i < s.len() ==> s[i] == 0,
    ensures
        word_sum(s) == 0,
    decreases s.len(),
{
    if s.len() >= 2 {
        law_word_sum_of_zeros(s.skip(2));
    }
}

/// The checksum of a sum that fits 32 bits is what makes it a multiple of 65535. It is
/// 65535 for zero, and less for all else.
pub proof fn law_checksum(sum: int)
    requires
        0 <= sum <= 0xffff_ffff,
    ensures
        (sum + checksum_of(sum)) % 0xffff == 0,
        checksum_of(sum) == 0xffff <==> sum == 0,
{
    let f = fold16(sum);
    if sum > 0 {
        let q = (sum - 1) / 0xffff;
        assert(sum - 1 == q * 0xffff + (sum - 1) % 0xffff);
        assert(sum + checksum_of(sum) == (q + 1) * 0xffff);
        vstd::arithmetic::div_mod::lemma_mod_multiples_basic(q + 1, 0xffff);
    }
}

} // verus!
