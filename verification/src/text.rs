//! Text: numbers and addresses in decimal, and rows of words.
use vstd::prelude::*;
use vstd::slice::{slice_subrange, slice_to_vec};

use crate::addr::Ipv4Addr;

verus! {

/// The decimal digit `d`.
pub open spec fn digit(d: int) -> char {
    (48 + d) as char
}

/// `n` in decimal.
pub open spec fn decimal(n: nat) -> Seq<char>
    decreases n,
{
    if n < 10 {
        seq![digit(n as int)]
    } else {
        decimal(n / 10).push(digit(n as int % 10))
    }
}

/// `n` in decimal, with at least two digits.
pub open spec fn two_digits(n: nat) -> Seq<char> {
    if n < 10 {
        seq!['0'] + decimal(n)
    } else {
        decimal(n)
    }
}

/// An address in dotted decimal.
pub open spec fn dotted(ip: Ipv4Addr) -> Seq<char> {
    decimal(ip.a as nat) + "."@ + decimal(ip.b as nat) + "."@ + decimal(ip.c as nat) + "."@
        + decimal(ip.d as nat)
}

/// A host and a port, as in `host:port`.
pub open spec fn host_port(host: Seq<char>, port: u16) -> Seq<char> {
    host + ":"@ + decimal(port as nat)
}

/// Appends the decimal digit `d`.
fn append_digit(out: &mut String, d: u64)
    requires
        d < 10,
    ensures
        final(out)@ == old(out)@.push(digit(d as int)),
{
    proof {
        reveal_strlit("0");
        reveal_strlit("1");
        reveal_strlit("2");
        reveal_strlit("3");
        reveal_strlit("4");
        reveal_strlit("5");
        reveal_strlit("6");
        reveal_strlit("7");
        reveal_strlit("8");
        reveal_strlit("9");
    }
    let ghost before = out@;
    let s: &str = match d {
        0 => "0",
        1 => "1",
        2 => "2",
        3 => "3",
        4 => "4",
        5 => "5",
        6 => "6",
        7 => "7",
        8 => "8",
        _ => "9",
    };
    assert(s@ =~= seq![digit(d as int)]);
    out.append(s);
    assert(out@ =~= before.push(digit(d as int)));
}

/// Appends `n` in decimal.
pub fn append_decimal(out: &mut String, n: u64)
    ensures
        final(out)@ == old(out)@ + decimal(n as nat),
    decreases n,
{
    let ghost before = out@;
    if n >= 10 {
        append_decimal(out, n / 10);
    }
    append_digit(out, n % 10);
    assert(out@ =~= before + decimal(n as nat));
}

/// Appends `n` in decimal, with at least two digits.
pub fn append_two_digits(out: &mut String, n: u64)
    ensures
        final(out)@ == old(out)@ + two_digits(n as nat),
{
    let ghost before = out@;
    if n < 10 {
        append_digit(out, 0);
    }
    append_decimal(out, n);
    assert(out@ =~= before + two_digits(n as nat));
}

/// `n` in decimal.
pub fn decimal_string(n: u64) -> (r: String)
    ensures
        r@ == decimal(n as nat),
{
    let mut out = String::new();
    append_decimal(&mut out, n);
    assert(out@ =~= decimal(n as nat));
    out
}

/// An address in dotted decimal.
pub fn dotted_string(ip: Ipv4Addr) -> (r: String)
    ensures
        r@ == dotted(ip),
{
    let mut out = decimal_string(ip.a as u64);
    out.append(".");
    append_decimal(&mut out, ip.b as u64);
    out.append(".");
    append_decimal(&mut out, ip.c as u64);
    out.append(".");
    append_decimal(&mut out, ip.d as u64);
    out
}

/// A host and a port, as in `host:port`.
pub fn host_port_string(host: &str, port: u16) -> (r: String)
    ensures
        r@ == host_port(host@, port),
{
    let mut out = host.to_owned();
    out.append(":");
    append_decimal(&mut out, port as u64);
    out
}

/// White space, as Unicode has it.
pub open spec fn is_white(c: char) -> bool {
    let n = c as int;
    ||| 9 <= n <= 13
    ||| n == 0x20
    ||| n == 0x85
    ||| n == 0xa0
    ||| n == 0x1680
    ||| 0x2000 <= n <= 0x200a
    ||| n == 0x2028
    ||| n == 0x2029
    ||| n == 0x202f
    ||| n == 0x205f
    ||| n == 0x3000
}

/// How many characters at the start of `s` are white (`white`) or are not.
pub open spec fn lead(s: Seq<char>, white: bool) -> int
    decreases s.len(),
{
    if s.len() > 0 && is_white(s[0]) == white {
        1 + lead(s.skip(1), white)
    } else {
        0
    }
}

/// A lead is a part of the text.
pub proof fn lemma_lead(s: Seq<char>, white: bool)
    ensures
        0 <= lead(s, white) <= s.len(),
        lead(s, white) < s.len() ==> is_white(s[lead(s, white)]) != white,
    decreases s.len(),
{
    if s.len() > 0 && is_white(s[0]) == white {
        lemma_lead(s.skip(1), white);
    }
}

/// The words of `s`: what stands between white space.
pub open spec fn words(s: Seq<char>) -> Seq<Seq<char>>
    decreases s.len(),
{
    let t = s.skip(lead(s, true));
    if t.len() == 0 {
        Seq::empty()
    } else {
        proof {
            lemma_lead(s, true);
            lemma_lead(t, false);
        }
        seq![t.take(lead(t, false))] + words(t.skip(lead(t, false)))
    }
}

/// `s` without the white space at its end.
pub open spec fn trim_end(s: Seq<char>) -> Seq<char>
    decreases s.len(),
{
    if s.len() > 0 && is_white(s.last()) {
        trim_end(s.drop_last())
    } else {
        s
    }
}

/// `s` without the white space at its ends.
pub open spec fn trim(s: Seq<char>) -> Seq<char> {
    trim_end(s.skip(lead(s, true)))
}

/// The position of the first line feed, or the length.
pub open spec fn row_end(s: Seq<char>) -> int
    decreases s.len(),
{
    if s.len() > 0 && s[0] != '\n' {
        1 + row_end(s.skip(1))
    } else {
        0
    }
}

/// A row ends in the text.
pub proof fn lemma_row_end(s: Seq<char>)
    ensures
        0 <= row_end(s) <= s.len(),
        row_end(s) < s.len() ==> s[row_end(s)] == '\n',
    decreases s.len(),
{
    if s.len() > 0 && s[0] != '\n' {
        lemma_row_end(s.skip(1));
    }
}

/// The rows of `s`: what stands between line feeds. Text that ends in a line feed
/// has no empty row after it.
pub open spec fn rows(s: Seq<char>) -> Seq<Seq<char>>
    decreases s.len(),
{
    if s.len() == 0 {
        Seq::empty()
    } else if row_end(s) == s.len() {
        seq![s]
    } else {
        proof {
            lemma_row_end(s);
        }
        seq![s.take(row_end(s))] + rows(s.skip(row_end(s) + 1))
    }
}

/// Whether `s` starts with `p`.
pub open spec fn starts_with(s: Seq<char>, p: Seq<char>) -> bool {
    p.len() <= s.len() && s.take(p.len() as int) == p
}

/// Whether `s` ends with `p`.
pub open spec fn ends_with(s: Seq<char>, p: Seq<char>) -> bool {
    p.len() <= s.len() && s.skip(s.len() - p.len()) == p
}

/// Whether `p` stands somewhere in `s`.
pub open spec fn has_part(s: Seq<char>, p: Seq<char>) -> bool {
    exists|i: int| 0 <= i <= s.len() - p.len() && #[trigger] s.subrange(i, i + p.len()) == p
}

/// Whether `c` is an ASCII digit.
pub open spec fn is_digit(c: char) -> bool {
    '0' <= c <= '9'
}

/// The number that the digits `s` write.
pub open spec fn value(s: Seq<char>) -> int
    decreases s.len(),
{
    if s.len() == 0 {
        0
    } else {
        value(s.drop_last()) * 10 + (s.last() as int - 48)
    }
}

/// `s` without a plus sign at its start.
pub open spec fn unsigned_part(s: Seq<char>) -> Seq<char> {
    if s.len() > 0 && s[0] == '+' {
        s.skip(1)
    } else {
        s
    }
}

/// The 32-bit number that `s` writes in decimal, with or without a plus sign.
pub open spec fn number(s: Seq<char>) -> Option<u32> {
    let t = unsigned_part(s);
    if t.len() > 0 && (forall|i: int| 0 <= i < t.len() ==> is_digit(#[trigger] t[i])) && value(t)
        <= u32::MAX {
        Some(value(t) as u32)
    } else {
        None
    }
}

/// The characters of `s`.
pub fn chars_of(s: &str) -> (r: Vec<char>)
    ensures
        r@ == s@,
{
    let mut r: Vec<char> = Vec::new();
    for c in it: s.chars()
        invariant
            it.seq() == s@,
            r@ == s@.take(it.index() as int),
    {
        r.push(c);
        assert(r@ =~= s@.take(it.index() + 1));
    }
    assert(r@ =~= s@);
    r
}

/// Whether `c` is white space.
pub fn white(c: char) -> (r: bool)
    ensures
        r == is_white(c),
{
    let n: u32 = c as u32;
    (n >= 9 && n <= 13) || n == 0x20 || n == 0x85 || n == 0xa0 || n == 0x1680 || (n >= 0x2000 && n
        <= 0x200a) || n == 0x2028 || n == 0x2029 || n == 0x202f || n == 0x205f || n == 0x3000
}

/// Whether `a` and `b` are the same text.
pub fn same(a: &[char], b: &[char]) -> (r: bool)
    ensures
        r == (a@ == b@),
{
    if a.len() != b.len() {
        return false;
    }
    let mut i: usize = 0;
    while i < a.len()
        invariant
            i <= a@.len(),
            a@.len() == b@.len(),
            forall|j: int| 0 <= j < i ==> a@[j] == b@[j],
        decreases a@.len() - i,
    {
        if a[i] != b[i] {
            return false;
        }
        i = i + 1;
    }
    assert(a@ =~= b@);
    true
}

/// Whether `s` starts with `p`.
pub fn has_prefix(s: &[char], p: &[char]) -> (r: bool)
    ensures
        r == starts_with(s@, p@),
{
    p.len() <= s.len() && same(slice_subrange(s, 0, p.len()), p)
}

/// Whether `s` ends with `p`.
pub fn has_suffix(s: &[char], p: &[char]) -> (r: bool)
    ensures
        r == ends_with(s@, p@),
{
    p.len() <= s.len() && same(slice_subrange(s, s.len() - p.len(), s.len()), p)
}

/// Whether `p` stands somewhere in `s`.
pub fn contains(s: &[char], p: &[char]) -> (r: bool)
    ensures
        r == has_part(s@, p@),
{
    if p.len() > s.len() {
        return false;
    }
    let mut i: usize = 0;
    while i <= s.len() - p.len()
        invariant
            p@.len() <= s@.len(),
            i <= s@.len() - p@.len() + 1,
            forall|j: int| 0 <= j < i ==> #[trigger] s@.subrange(j, j + p@.len()) != p@,
        decreases s@.len() - p@.len() + 1 - i,
    {
        if same(slice_subrange(s, i, i + p.len()), p) {
            assert(s@.subrange(i as int, i + p@.len()) == p@);
            return true;
        }
        if i == s.len() - p.len() {
            return false;
        }
        i = i + 1;
    }
    false
}

/// How many characters at the start of `s` are white (`of_white`) or are not.
fn lead_len(s: &[char], of_white: bool) -> (r: usize)
    ensures
        r == lead(s@, of_white),
        r <= s@.len(),
{
    let mut i: usize = 0;
    assert(s@.skip(0) =~= s@);
    while i < s.len() && white(s[i]) == of_white
        invariant
            i <= s@.len(),
            lead(s@, of_white) == i + lead(s@.skip(i as int), of_white),
        decreases s@.len() - i,
    {
        assert(s@.skip(i as int).skip(1) =~= s@.skip(i + 1));
        i = i + 1;
    }
    i
}

/// The words of `s`.
pub fn split_words(s: &[char]) -> (r: Vec<Vec<char>>)
    ensures
        texts(r@) == words(s@),
{
    let mut r: Vec<Vec<char>> = Vec::new();
    let mut at: usize = 0;
    assert(s@.skip(0) =~= s@);
    assert(texts(r@) + words(s@.skip(0)) =~= words(s@));
    loop
        invariant
            at <= s@.len(),
            texts(r@) + words(s@.skip(at as int)) == words(s@),
        decreases s@.len() - at,
    {
        let ghost rest = s@.skip(at as int);
        let tail = slice_subrange(s, at, s.len());
        assert(tail@ =~= rest);
        let skip: usize = lead_len(tail, true);
        let word_start = slice_subrange(tail, skip, tail.len());
        assert(word_start@ =~= rest.skip(skip as int));
        let len: usize = lead_len(word_start, false);
        proof {
            lemma_lead(rest, true);
            if word_start@.len() > 0 {
                lemma_lead(word_start@.skip(1), false);
            }
        }
        if len == 0 {
            assert(words(rest) =~= Seq::empty());
            assert(texts(r@) =~= words(s@));
            return r;
        }
        let word = slice_to_vec(slice_subrange(word_start, 0, len));
        let ghost before = r@;
        r.push(word);
        proof {
            assert(word@ =~= word_start@.take(len as int));
            assert(texts(r@) =~= texts(before).push(word@));
            assert(word_start@.skip(len as int) =~= s@.skip(at + skip + len));
            assert(texts(r@) + words(s@.skip(at + skip + len)) =~= texts(before) + words(rest));
        }
        at = at + skip + len;
    }
}

/// The text of each element.
pub open spec fn texts(v: Seq<Vec<char>>) -> Seq<Seq<char>> {
    Seq::new(v.len(), |i: int| v[i]@)
}

/// The rows of `s`.
pub fn split_rows(s: &[char]) -> (r: Vec<Vec<char>>)
    ensures
        texts(r@) == rows(s@),
{
    let mut r: Vec<Vec<char>> = Vec::new();
    let mut at: usize = 0;
    assert(s@.skip(0) =~= s@);
    assert(texts(r@) + rows(s@.skip(0)) =~= rows(s@));
    while at < s.len()
        invariant
            at <= s@.len(),
            texts(r@) + rows(s@.skip(at as int)) == rows(s@),
        decreases s@.len() - at,
    {
        let ghost rest = s@.skip(at as int);
        let tail = slice_subrange(s, at, s.len());
        assert(tail@ =~= rest);
        let len: usize = row_len(tail);
        let row = slice_to_vec(slice_subrange(tail, 0, len));
        let ghost before = r@;
        r.push(row);
        assert(texts(r@) =~= texts(before).push(row@));
        if len == tail.len() {
            assert(row@ =~= rest);
            at = s.len();
            assert(rows(s@.skip(at as int)) =~= Seq::empty());
            assert(texts(r@) + rows(s@.skip(at as int)) =~= rows(s@));
        } else {
            assert(row@ =~= rest.take(len as int));
            assert(rest.skip(len + 1) =~= s@.skip(at + len + 1));
            assert(texts(r@) + rows(s@.skip(at + len + 1)) =~= texts(before) + rows(rest));
            at = at + len + 1;
        }
    }
    assert(rows(s@.skip(at as int)) =~= Seq::empty());
    assert(texts(r@) =~= rows(s@));
    r
}

/// The position of the first line feed, or the length.
fn row_len(s: &[char]) -> (r: usize)
    ensures
        r == row_end(s@),
        r <= s@.len(),
{
    let mut i: usize = 0;
    assert(s@.skip(0) =~= s@);
    while i < s.len() && s[i] != '\n'
        invariant
            i <= s@.len(),
            row_end(s@) == i + row_end(s@.skip(i as int)),
        decreases s@.len() - i,
    {
        assert(s@.skip(i as int).skip(1) =~= s@.skip(i + 1));
        i = i + 1;
    }
    i
}

/// `s` without the white space at its ends.
pub fn trimmed<'a>(s: &'a [char]) -> (r: &'a [char])
    ensures
        r@ == trim(s@),
{
    let start: usize = lead_len(s, true);
    let t = slice_subrange(s, start, s.len());
    assert(t@ =~= s@.skip(start as int));
    let mut end: usize = t.len();
    assert(t@.take(end as int) =~= t@);
    while end > 0 && white(t[end - 1])
        invariant
            end <= t@.len(),
            trim_end(t@.take(end as int)) == trim_end(t@),
        decreases end,
    {
        assert(t@.take(end as int).drop_last() =~= t@.take(end - 1));
        end = end - 1;
    }
    let r = slice_subrange(t, 0, end);
    assert(r@ =~= t@.take(end as int));
    r
}

/// The 32-bit number that `s` writes in decimal, with or without a plus sign.
pub fn parse_number(s: &[char]) -> (r: Option<u32>)
    ensures
        r == number(s@),
{
    let t = if s.len() > 0 && s[0] == '+' {
        slice_subrange(s, 1, s.len())
    } else {
        s
    };
    assert(t@ =~= unsigned_part(s@));
    if t.len() == 0 {
        return None;
    }
    let mut n: u64 = 0;
    let mut i: usize = 0;
    assert(t@.take(0).len() == 0);
    while i < t.len()
        invariant
            i <= t@.len(),
            t@ == unsigned_part(s@),
            forall|j: int| 0 <= j < i ==> is_digit(#[trigger] t@[j]),
            n == value(t@.take(i as int)),
            n <= u32::MAX,
        decreases t@.len() - i,
    {
        let c: char = t[i];
        if c < '0' || c > '9' {
            assert(!is_digit(t@[i as int]));
            return None;
        }
        n = n * 10 + (c as u32 - 48) as u64;
        assert(t@.take(i + 1).drop_last() =~= t@.take(i as int));
        i = i + 1;
        if n > 0xffff_ffff {
            proof {
                if forall|j: int| 0 <= j < t@.len() ==> is_digit(#[trigger] t@[j]) {
                    lemma_value_grows(t@, i as int);
                }
            }
            return None;
        }
    }
    assert(t@.take(i as int) =~= t@);
    Some(n as u32)
}

/// More digits do not make a number smaller.
proof fn lemma_value_grows(t: Seq<char>, i: int)
    requires
        0 <= i <= t.len(),
        forall|j: int| 0 <= j < t.len() ==> is_digit(#[trigger] t[j]),
    ensures
        0 <= value(t.take(i)) <= value(t),
    decreases t.len(),
{
    if i == t.len() {
        assert(t.take(i) =~= t);
        if t.len() > 0 {
            let rest = t.drop_last();
            assert forall|j: int| 0 <= j < rest.len() implies is_digit(#[trigger] rest[j]) by {
                assert(rest[j] == t[j]);
            }
            lemma_value_grows(rest, rest.len() as int);
            assert(rest.take(rest.len() as int) =~= rest);
            assert(is_digit(t[t.len() - 1]));
        }
    } else {
        let rest = t.drop_last();
        assert forall|j: int| 0 <= j < rest.len() implies is_digit(#[trigger] rest[j]) by {
            assert(rest[j] == t[j]);
        }
        lemma_value_grows(rest, i);
        assert(rest.take(i) =~= t.take(i));
        assert(is_digit(t[t.len() - 1]));
    }
}

} // verus!
