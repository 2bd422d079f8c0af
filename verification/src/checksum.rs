//! The Internet checksum.
use vstd::arithmetic::div_mod::lemma_fundamental_div_mod_converse;
use vstd::prelude::*;

use crate::bytes::{be16, be16_bytes, lemma_be16_inverse, u16_from_be};

verus! {

/// The sum of the big-endian 16-bit words of `s`; a last odd byte is the high
/// byte of a word whose low byte is zero.
pub open spec fn word_sum(s: Seq<u8>) -> int
    decreases s.len(),
{
    if s.len() == 0 {
        0
    } else if s.len() == 1 {
        s[0] as int * 0x100
    } else {
        be16(s[0], s[1]) + word_sum(s.skip(2))
    }
}

/// What is left of `n` when its carries out of 16 bits are added back in until
/// none is left: zero for zero, and else the number from 1 to 65535 that `n` is
/// congruent to modulo 65535.
pub open spec fn fold16(n: int) -> int {
    if n == 0 {
        0
    } else {
        (n - 1) % 0xffff + 1
    }
}

/// The checksum of data whose words add up to `sum`, in a 32-bit accumulator.
pub open spec fn checksum_of(sum: int) -> u16 {
    (0xffff - fold16(sum % 0x1_0000_0000)) as u16
}

/// The checksum of `sum`, which fits 32 bits.
pub fn finish_checksum(sum: u32) -> (r: u16)
    ensures
        r == checksum_of(sum as int),
{
    let mut acc: u32 = sum;
    while acc >> 16 != 0
        invariant
            fold16(acc as int) == fold16(sum as int),
        decreases acc,
    {
        assert(acc >> 16 == acc / 0x1_0000 && acc & 0xffff == acc % 0x1_0000) by (bit_vector);
        acc = (acc & 0xffff) + (acc >> 16);
    }
    assert(acc >> 16 == 0 ==> acc < 0x1_0000) by (bit_vector);
    let low: u16 = acc as u16;
    assert(!low == 0xffff - low) by (bit_vector);
    !low
}

/// The Internet checksum of `data`.
pub fn ip_checksum(data: &[u8]) -> (r: u16)
    ensures
        r == checksum_of(word_sum(data@)),
{
    let sum: u32 = add_words(0, data);
    finish_checksum(sum)
}

/// `start` plus the words of `data`, in 32 bits.
pub fn add_words(start: u32, data: &[u8]) -> (sum: u32)
    ensures
        sum == (start + word_sum(data@)) % 0x1_0000_0000,
{
    let mut sum: u32 = start;
    let mut i: usize = 0;
    assert(data@.skip(0) =~= data@);
    while i < data.len()
        invariant
            i <= data@.len(),
            (sum + word_sum(data@.skip(i as int))) % 0x1_0000_0000 == (start + word_sum(data@))
                % 0x1_0000_0000,
        decreases data@.len() - i,
    {
        let ghost rest = data@.skip(i as int);
        if data.len() - i == 1 {
            let word: u16 = u16_from_be(data[i], 0);
            sum = sum.wrapping_add(word as u32);
            i = i + 1;
            assert(data@.skip(i as int).len() == 0);
        } else {
            let word: u16 = u16_from_be(data[i], data[i + 1]);
            sum = sum.wrapping_add(word as u32);
            i = i + 2;
            assert(rest.skip(2) =~= data@.skip(i as int));
        }
    }
    assert(data@.skip(i as int).len() == 0);
    sum
}

/// The words of `s` are those of its first `n` bytes and those of the rest, when
/// `n` is even.
pub proof fn lemma_word_sum_split(s: Seq<u8>, n: int)
    requires
        0 <= n <= s.len(),
        n % 2 == 0,
    ensures
        word_sum(s) == word_sum(s.take(n)) + word_sum(s.skip(n)),
    decreases n,
{
    if n == 0 {
        assert(s.skip(0) =~= s);
        assert(s.take(0).len() == 0);
    } else {
        lemma_word_sum_split(s.skip(2), n - 2);
        assert(s.skip(2).take(n - 2) =~= s.take(n).skip(2));
        assert(s.skip(2).skip(n - 2) =~= s.skip(n));
    }
}

/// The words of two sequences one after the other, when the first has whole words.
pub proof fn lemma_word_sum_concat(a: Seq<u8>, b: Seq<u8>)
    requires
        a.len() % 2 == 0,
    ensures
        word_sum(a + b) == word_sum(a) + word_sum(b),
{
    lemma_word_sum_split(a + b, a.len() as int);
    assert((a + b).take(a.len() as int) =~= a);
    assert((a + b).skip(a.len() as int) =~= b);
}

/// Two bytes are one word.
pub proof fn lemma_word_sum_pair(hi: u8, lo: u8)
    ensures
        word_sum(seq![hi, lo]) == be16(hi, lo),
{
    reveal_with_fuel(word_sum, 2);
    assert(seq![hi, lo].skip(2).len() == 0);
}

/// The bytes of a number are one word.
pub proof fn lemma_word_sum_number(v: u16)
    ensures
        word_sum(be16_bytes(v)) == v,
{
    lemma_word_sum_pair(be16_bytes(v)[0], be16_bytes(v)[1]);
    assert(be16_bytes(v) =~= seq![be16_bytes(v)[0], be16_bytes(v)[1]]);
    lemma_be16_inverse(v);
}

/// The words of `n` bytes add up to at most 65535 for each.
pub proof fn lemma_word_sum_bound(s: Seq<u8>)
    ensures
        0 <= word_sum(s) <= (s.len() + 1) / 2 * 0xffff,
    decreases s.len(),
{
    if s.len() >= 2 {
        lemma_word_sum_bound(s.skip(2));
    }
}

/// Data verifies against its checksum: the words together with the checksum that was
/// computed without it leave nothing, as long as the sum fits 32 bits.
pub proof fn lemma_checksum_verifies(sum: int)
    requires
        0 < sum < 0xffff_0000,
    ensures
        checksum_of(sum + checksum_of(sum)) == 0,
{
    let folded = fold16(sum);
    let total = sum + (0xffff - folded);
    assert(fold16(total) == 0xffff) by {
        let q = (sum - 1) / 0xffff;
        assert(sum - 1 == q * 0xffff + (sum - 1) % 0xffff);
        assert(total - 1 == q * 0xffff + 0xfffe);
        lemma_fundamental_div_mod_converse(total - 1, 0xffff, q, 0xfffe);
    }
}

} // verus!
