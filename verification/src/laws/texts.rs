//! Numbers and lists of interfaces as text.
use vstd::prelude::*;

use crate::addr::Ipv4Addr;
use crate::interfaces::{first_index, named_index, physical_index};
use crate::text::{
    decimal, dotted, ends_with, has_part, is_white, lead, lemma_lead, number, row_end, rows,
    starts_with, texts, trim, trim_end, two_digits, unsigned_part, value, words,
};

verus! {

/// A number in decimal: one digit for a number under ten; and a digit more at the end
/// makes it ten times the number plus that digit.
pub proof fn law_decimal(n: nat, d: nat)
    requires
        d < 10,
    ensures
        decimal(d).len() == 1,
        decimal(d)[0] as int == 48 + d,
        n > 0 ==> decimal(10 * n + d).len() == decimal(n).len() + 1,
        n > 0 ==> decimal(10 * n + d).drop_last() == decimal(n),
        n > 0 ==> decimal(10 * n + d).last() as int == 48 + d,
{
    if n > 0 {
        let whole = 10 * n + d;
        assert(whole / 10 == n);
        assert(whole % 10 == d);
        assert(decimal(whole).drop_last() =~= decimal(n));
    }
}

/// A number of two digits at least: with a zero before a single digit.
pub proof fn law_two_digits(n: nat)
    ensures
        n < 10 ==> two_digits(n).len() == 2 && two_digits(n)[0] == '0' && two_digits(n)[1] as int
            == 48 + n,
        n >= 10 ==> two_digits(n) == decimal(n),
{
}

/// An address in dotted decimal: its four octets in order, with points between.
pub proof fn law_dotted(ip: Ipv4Addr)
    ensures
        dotted(ip) == decimal(ip.a as nat) + seq!['.'] + decimal(ip.b as nat) + seq!['.'] + decimal(
            ip.c as nat,
        ) + seq!['.'] + decimal(ip.d as nat),
{
    reveal_strlit(".");
    assert("."@ =~= seq!['.']);
}

/// A text in decimal is read as the number it was made of, with or without a plus sign and
/// with zeros before it, if it fits 32 bits; if it does not, it is no number.
pub proof fn law_number_is_read(n: nat, zeros: nat)
    ensures
        ({
            let t = Seq::new(zeros, |i: int| '0') + decimal(n);
            let expected = if n <= u32::MAX {
                Some(n as u32)
            } else {
                None
            };
            number(t) == expected && number(seq!['+'] + t) == expected
        }),
{
    let z = Seq::new(zeros, |i: int| '0');
    let t = z + decimal(n);
    lemma_decimal(n);
    lemma_zeros(z, decimal(n));
    assert forall|i: int| 0 <= i < t.len() implies '0' <= #[trigger] t[i] <= '9' by {
        if i >= z.len() {
            assert(t[i] == decimal(n)[i - z.len()]);
        }
    }
    assert(t[0] != '+');
    assert((seq!['+'] + t).skip(1) =~= t);
}

/// Text that has anything but digits, but for a plus sign before them, and text without
/// any digit, is no number.
pub proof fn law_no_number(t: Seq<char>, i: int)
    requires
        0 < i < t.len(),
        t[i] < '0' || t[i] > '9',
    ensures
        number(t) is None,
        number(Seq::empty()) is None,
        number(seq!['+']) is None,
        number(seq![t[i]]) is None,
{
    if t[0] == '+' {
        assert(t.skip(1)[i - 1] == t[i]);
    } else {
        assert(unsigned_part(t)[i] == t[i]);
    }
    assert(seq!['+'].skip(1).len() == 0);
    let one = seq![t[i]];
    if t[i] == '+' {
        assert(one.skip(1).len() == 0);
    } else {
        assert(unsigned_part(one)[0] == t[i]);
    }
}

proof fn lemma_decimal(n: nat)
    ensures
        decimal(n).len() > 0,
        forall|i: int| 0 <= i < decimal(n).len() ==> '0' <= #[trigger] decimal(n)[i] <= '9',
        value(decimal(n)) == n,
    decreases n,
{
    if n >= 10 {
        lemma_decimal(n / 10);
        let head = decimal(n / 10);
        assert(decimal(n).drop_last() =~= head);
        assert forall|i: int| 0 <= i < decimal(n).len() implies '0' <= #[trigger] decimal(n)[i]
            <= '9' by {
            if i < head.len() {
                assert(decimal(n)[i] == head[i]);
            }
        }
    } else {
        reveal_with_fuel(value, 2);
        assert(decimal(n).drop_last() =~= Seq::<char>::empty());
    }
}

proof fn lemma_zeros(z: Seq<char>, t: Seq<char>)
    requires
        forall|i: int| 0 <= i < z.len() ==> z[i] == '0',
    ensures
        value(z + t) == value(t),
    decreases t.len(), z.len(),
{
    if t.len() > 0 {
        assert((z + t).drop_last() =~= z + t.drop_last());
        lemma_zeros(z, t.drop_last());
    } else if z.len() > 0 {
        assert(z + t =~= z);
        assert(z.drop_last() + t =~= z.drop_last());
        lemma_zeros(z.drop_last(), t);
    }
}

/// White space: tab to carriage return, the space, and what else Unicode calls so.
pub proof fn law_white_space(c: char)
    ensures
        is_white(c) <==> seq![
            9int, 10, 11, 12, 13, 32, 133, 160, 5760, 8192, 8193, 8194, 8195, 8196, 8197, 8198,
            8199, 8200, 8201, 8202, 8232, 8233, 8239, 8287, 12288,
        ].contains(c as int),
{
    let all = seq![
        9int, 10, 11, 12, 13, 32, 133, 160, 5760, 8192, 8193, 8194, 8195, 8196, 8197, 8198, 8199,
        8200, 8201, 8202, 8232, 8233, 8239, 8287, 12288,
    ];
    if is_white(c) {
        let n = c as int;
        let i = if n <= 13 {
            n - 9
        } else if n == 32 {
            5
        } else if n == 133 {
            6
        } else if n == 160 {
            7
        } else if n == 5760 {
            8
        } else if n <= 8202 {
            n - 8192 + 9
        } else if n == 8232 {
            20
        } else if n == 8233 {
            21
        } else if n == 8239 {
            22
        } else if n == 8287 {
            23
        } else {
            24
        };
        assert(all[i] == n);
    }
}

/// Text without white space is one word, empty text has none, and white space between two
/// texts parts their words: the words of the whole are those of the one and those of the
/// other.
pub proof fn law_words(a: Seq<char>, w: char, b: Seq<char>, word: Seq<char>)
    requires
        is_white(w),
        word.len() > 0,
        forall|i: int| 0 <= i < word.len() ==> !is_white(#[trigger] word[i]),
    ensures
        words(Seq::empty()).len() == 0,
        words(word) == seq![word],
        words(a + seq![w] + b) == words(a) + words(b),
{
    let none = Seq::<char>::empty();
    assert(none.skip(lead(none, true)).len() == 0);
    lemma_one_word(word);
    lemma_parted(a, w, b);
}

proof fn lemma_lead_all(s: Seq<char>, white: bool)
    requires
        forall|i: int| 0 <= i < s.len() ==> is_white(#[trigger] s[i]) == white,
    ensures
        lead(s, white) == s.len(),
    decreases s.len(),
{
    if s.len() > 0 {
        lemma_lead_all(s.skip(1), white);
    }
}

/// A lead that ends in the first of two texts is the lead of both.
proof fn lemma_lead_first(s: Seq<char>, more: Seq<char>, white: bool)
    requires
        lead(s, white) < s.len() || (more.len() > 0 && is_white(more[0]) != white),
    ensures
        lead(s + more, white) == lead(s, white),
    decreases s.len(),
{
    let t = s + more;
    if s.len() > 0 {
        assert(t[0] == s[0]);
        if is_white(s[0]) == white {
            assert(t.skip(1) =~= s.skip(1) + more);
            lemma_lead_first(s.skip(1), more, white);
        }
    } else {
        assert(t =~= more);
    }
}

/// A lead that takes all of the first text goes on in the second.
proof fn lemma_lead_on(s: Seq<char>, more: Seq<char>, white: bool)
    requires
        lead(s, white) == s.len(),
    ensures
        lead(s + more, white) == s.len() + lead(more, white),
    decreases s.len(),
{
    let t = s + more;
    if s.len() > 0 {
        lemma_lead(s.skip(1), white);
        assert(t[0] == s[0]);
        assert(t.skip(1) =~= s.skip(1) + more);
        lemma_lead_on(s.skip(1), more, white);
    } else {
        assert(t =~= more);
    }
}

proof fn lemma_one_word(word: Seq<char>)
    requires
        word.len() > 0,
        forall|i: int| 0 <= i < word.len() ==> !is_white(#[trigger] word[i]),
    ensures
        words(word) == seq![word],
{
    reveal_with_fuel(words, 2);
    lemma_lead_all(word, false);
    assert(lead(word, true) == 0);
    assert(word.skip(0) =~= word);
    assert(word.take(word.len() as int) =~= word);
    let none = word.skip(word.len() as int);
    assert(none.len() == 0);
    assert(none.skip(lead(none, true)).len() == 0);
    assert(words(none) =~= Seq::<Seq<char>>::empty());
    assert(words(word) =~= seq![word]);
}

/// White space at the start does not change the words.
proof fn lemma_white_start(s: Seq<char>, n: int)
    requires
        0 <= n <= lead(s, true),
    ensures
        words(s.skip(n)) == words(s),
    decreases n,
{
    lemma_lead(s, true);
    if n > 0 {
        let t = s.skip(1);
        lemma_white_start(t, n - 1);
        assert(t.skip(n - 1) =~= s.skip(n));
        lemma_lead(t, true);
        assert(t.skip(lead(t, true)) =~= s.skip(lead(s, true)));
        lemma_same_words(s, t);
    } else {
        assert(s.skip(0) =~= s);
    }
}

/// The words rest on what follows the white space at the start.
proof fn lemma_same_words(s: Seq<char>, t: Seq<char>)
    requires
        s.skip(lead(s, true)) == t.skip(lead(t, true)),
    ensures
        words(s) == words(t),
{
}

proof fn lemma_parted(a: Seq<char>, w: char, b: Seq<char>)
    requires
        is_white(w),
    ensures
        words(a + seq![w] + b) == words(a) + words(b),
    decreases a.len(),
{
    let more = seq![w] + b;
    let s = a + seq![w] + b;
    assert(s =~= a + more);
    lemma_lead(a, true);
    let rest = a.skip(lead(a, true));
    if rest.len() == 0 {
        assert(words(a) =~= Seq::<Seq<char>>::empty());
        lemma_lead_on(a, more, true);
        let one = seq![w];
        assert(one.skip(1).len() == 0);
        assert(lead(one.skip(1), true) == 0);
        assert(lead(one, true) == 1);
        lemma_lead_on(one, b, true);
        lemma_lead(b, true);
        lemma_white_start(s, a.len() as int + 1);
        assert(s.skip(a.len() as int + 1) =~= b);
        assert(Seq::<Seq<char>>::empty() + words(b) =~= words(b));
    } else {
        lemma_lead_first(a, more, true);
        let t = rest + more;
        assert(s.skip(lead(s, true)) =~= t);
        lemma_lead(rest, false);
        let n = lead(rest, false);
        lemma_lead_first(rest, more, false);
        assert(t.take(n) =~= rest.take(n));
        assert(rest.len() > 0 && !is_white(rest[0]));
        assert(n > 0) by {
            assert(n == 1 + lead(rest.skip(1), false));
            lemma_lead(rest.skip(1), false);
        }
        let after = rest.skip(n);
        assert(t.skip(n) =~= after + seq![w] + b);
        lemma_parted(after, w, b);
        assert(words(a) == seq![rest.take(n)] + words(after));
        assert(words(s) == seq![t.take(n)] + words(t.skip(n)));
        assert(words(s) =~= words(a) + words(b));
    }
}

/// A row without a line feed is one row if it is not empty; a line feed after it makes it
/// one row, empty or not, and the rows of what follows come after it.
pub proof fn law_rows(row: Seq<char>, rest: Seq<char>)
    requires
        forall|i: int| 0 <= i < row.len() ==> row[i] != '\n',
    ensures
        rows(Seq::empty()).len() == 0,
        row.len() > 0 ==> rows(row) == seq![row],
        rows(row + seq!['\n'] + rest) == seq![row] + rows(rest),
{
    lemma_row_all(row);
    let s = row + seq!['\n'] + rest;
    lemma_row_first(row, seq!['\n'] + rest);
    assert(s =~= row + (seq!['\n'] + rest));
    assert(s.take(row.len() as int) =~= row);
    assert(s.skip(row.len() as int + 1) =~= rest);
}

proof fn lemma_row_all(row: Seq<char>)
    requires
        forall|i: int| 0 <= i < row.len() ==> row[i] != '\n',
    ensures
        row_end(row) == row.len(),
    decreases row.len(),
{
    if row.len() > 0 {
        lemma_row_all(row.skip(1));
    }
}

proof fn lemma_row_first(row: Seq<char>, more: Seq<char>)
    requires
        forall|i: int| 0 <= i < row.len() ==> row[i] != '\n',
        more.len() > 0,
        more[0] == '\n',
    ensures
        row_end(row + more) == row.len(),
    decreases row.len(),
{
    let t = row + more;
    if row.len() > 0 {
        assert(t[0] == row[0]);
        assert(t.skip(1) =~= row.skip(1) + more);
        lemma_row_first(row.skip(1), more);
    } else {
        assert(t =~= more);
    }
}

/// Trimming takes away the white space at both ends and nothing else.
pub proof fn law_trim(before: Seq<char>, core: Seq<char>, after: Seq<char>)
    requires
        forall|i: int| 0 <= i < before.len() ==> is_white(#[trigger] before[i]),
        forall|i: int| 0 <= i < after.len() ==> is_white(#[trigger] after[i]),
        core.len() > 0,
        !is_white(core[0]),
        !is_white(core.last()),
    ensures
        trim(before + core + after) == core,
{
    let s = before + core + after;
    lemma_lead_all(before, true);
    assert(s =~= before + (core + after));
    lemma_lead_on(before, core + after, true);
    assert((core + after)[0] == core[0]);
    assert(s.skip(before.len() as int) =~= core + after);
    lemma_trim_end(core, after);
}

proof fn lemma_trim_end(core: Seq<char>, after: Seq<char>)
    requires
        forall|i: int| 0 <= i < after.len() ==> is_white(#[trigger] after[i]),
        core.len() > 0,
        !is_white(core.last()),
    ensures
        trim_end(core + after) == core,
    decreases after.len(),
{
    let t = core + after;
    if after.len() > 0 {
        assert(t.last() == after.last());
        assert(is_white(after[after.len() - 1]));
        assert(t.drop_last() =~= core + after.drop_last());
        lemma_trim_end(core, after.drop_last());
    } else {
        assert(t =~= core);
    }
}

/// A text starts with, ends with and holds exactly what stands at its start, at its end
/// and somewhere in it.
pub proof fn law_parts(s: Seq<char>, p: Seq<char>, x: Seq<char>, y: Seq<char>)
    ensures
        starts_with(p + x, p),
        ends_with(x + p, p),
        has_part(x + p + y, p),
        starts_with(s, p) ==> exists|z: Seq<char>| s == #[trigger] (p + z),
        ends_with(s, p) ==> exists|z: Seq<char>| s == #[trigger] (z + p),
        has_part(s, p) ==> exists|z: Seq<char>, u: Seq<char>| s == #[trigger] (z + p + u),
{
    assert((p + x).take(p.len() as int) =~= p);
    assert((x + p).skip(x.len() as int) =~= p);
    let n = x.len() as int;
    assert((x + p + y).subrange(n, n + p.len()) =~= p);
    if starts_with(s, p) {
        assert(s =~= p + s.skip(p.len() as int));
    }
    if ends_with(s, p) {
        assert(s =~= s.take(s.len() - p.len()) + p);
    }
    if has_part(s, p) {
        let i = choose|i: int|
            0 <= i <= s.len() - p.len() && #[trigger] s.subrange(i, i + p.len()) == p;
        assert(s =~= s.take(i) + p + s.skip(i + p.len()));
    }
}

/// The first row with an index decides: rows before it that have none, and all rows after
/// it, do not matter. Where no row has one, there is none.
pub proof fn law_first_row_decides(
    before: Seq<Seq<char>>,
    row: Seq<char>,
    after: Seq<Seq<char>>,
    pick: spec_fn(Seq<char>) -> Option<u32>,
)
    requires
        forall|i: int| 0 <= i < before.len() ==> pick(#[trigger] before[i]) is None,
    ensures
        first_index(before, pick) is None,
        pick(row) is Some ==> first_index(before + seq![row] + after, pick) == pick(row),
        pick(row) is None ==> first_index(before + seq![row] + after, pick) == first_index(
            after,
            pick,
        ),
    decreases before.len(),
{
    let all = before + seq![row] + after;
    if before.len() > 0 {
        assert(all[0] == before[0]);
        assert(all.skip(1) =~= before.skip(1) + seq![row] + after);
        law_first_row_decides(before.skip(1), row, after, pick);
    } else {
        assert(all[0] == row);
        assert(all.skip(1) =~= after);
    }
}

/// A row of four words, an index, a number, the word `connected` and a name, with white
/// space between, gives the index as a number, unless the name is that of the TUN
/// interface or has `Loopback` in it. With any other third word it gives none.
pub proof fn law_physical_row(
    index: Seq<char>,
    metric: Seq<char>,
    state: Seq<char>,
    name: Seq<char>,
    tun_name: Seq<char>,
    n: nat,
)
    requires
        index == decimal(n),
        is_word(metric),
        is_word(state),
        is_word(name),
    ensures
        ({
            let row = index + seq![' '] + (metric + seq![' '] + (state + seq![' '] + name));
            physical_index(row, tun_name) == (if state == "connected"@ && name != tun_name
                && !has_part(name, "Loopback"@) && n <= u32::MAX {
                Some(n as u32)
            } else {
                None
            })
        }),
{
    lemma_decimal(n);
    assert(is_white(' '));
    assert forall|i: int| 0 <= i < index.len() implies !is_white(#[trigger] index[i]) by {
        assert('0' <= decimal(n)[i] <= '9');
    }
    let tail = state + seq![' '] + name;
    let rest = metric + seq![' '] + tail;
    let row = index + seq![' '] + rest;
    law_words(index, ' ', rest, index);
    law_words(metric, ' ', tail, metric);
    law_words(state, ' ', name, state);
    law_words(state, ' ', name, name);
    let w = words(row);
    assert(w =~= seq![index, metric, state, name]);
    law_number_is_read(n, 0);
    assert(Seq::new(0, |i: int| '0') + decimal(n) =~= decimal(n));
    reveal_strlit("Idx");
    reveal_strlit("--");
    if starts_with(index, "Idx"@) {
        assert(index.take(3)[0] == 'I');
    }
    if starts_with(index, "--"@) {
        assert(index.take(2)[0] == '-');
    }
}

/// A row of four words or more, however they are parted, gives its first word as a number
/// if its third word is `connected`, its last word is neither that of the TUN interface
/// nor has `Loopback` in it, and its first word starts neither with `Idx` nor with two
/// dashes. Else it gives none.
pub proof fn law_any_row(row: Seq<char>, tun_name: Seq<char>)
    requires
        words(row).len() >= 4,
    ensures
        ({
            let w = words(row);
            let name = w[w.len() - 1];
            let listed = w[2] == "connected"@ && name != tun_name && !has_part(
                name,
                "Loopback"@,
            ) && !starts_with(w[0], "Idx"@) && !starts_with(w[0], "--"@);
            if listed {
                physical_index(row, tun_name) == number(w[0])
            } else {
                physical_index(row, tun_name) is None
            }
        }),
{
}

/// A row that ends with the name, but for white space, gives its first word as a number.
pub proof fn law_any_named_row(row: Seq<char>, name: Seq<char>)
    ensures
        ends_with(trim(row), name) && words(row).len() > 0 ==> named_index(row, name) == number(
            words(row)[0],
        ),
        words(row).len() == 0 ==> named_index(row, name) is None,
{
}

/// The texts of a list of characters are those of its elements, in order.
pub proof fn law_texts(v: Seq<Vec<char>>, i: int)
    requires
        0 <= i < v.len(),
    ensures
        texts(v).len() == v.len(),
        texts(v)[i] == v[i]@,
{
}

/// A row with fewer than four words, and one whose first word starts with `Idx` or two
/// dashes, gives no index.
pub proof fn law_headings(row: Seq<char>, tun_name: Seq<char>)
    requires
        words(row).len() < 4 || starts_with(words(row)[0], "Idx"@) || starts_with(
            words(row)[0],
            "--"@,
        ),
    ensures
        physical_index(row, tun_name) is None,
{
}

/// A row that starts with an index and ends, but for white space, with the name gives the
/// index; a row that ends otherwise gives none.
pub proof fn law_named_row(
    n: nat,
    middle: Seq<char>,
    name: Seq<char>,
    end: Seq<char>,
    row: Seq<char>,
)
    requires
        name.len() > 0,
        !is_white(name.last()),
        forall|i: int| 0 <= i < end.len() ==> is_white(#[trigger] end[i]),
    ensures
        named_index(decimal(n) + seq![' '] + (middle + name + end), name) == (if n <= u32::MAX {
            Some(n as u32)
        } else {
            None
        }),
        !ends_with(trim(row), name) ==> named_index(row, name) is None,
{
    lemma_decimal(n);
    let index = decimal(n);
    assert forall|i: int| 0 <= i < index.len() implies !is_white(#[trigger] index[i]) by {
        assert('0' <= decimal(n)[i] <= '9');
    }
    let rest = middle + name + end;
    let row1 = index + seq![' '] + rest;
    law_words(index, ' ', rest, index);
    assert(words(row1)[0] == index);
    let core = index + seq![' '] + middle + name;
    assert(row1 =~= Seq::<char>::empty() + core + end);
    assert(core[0] == index[0]);
    assert(core.last() == name.last());
    law_trim(Seq::empty(), core, end);
    assert(core.skip(core.len() - name.len()) =~= name);
    law_number_is_read(n, 0);
    assert(Seq::new(0, |i: int| '0') + decimal(n) =~= decimal(n));
}

/// Text that is one word.
pub open spec fn is_word(s: Seq<char>) -> bool {
    s.len() > 0 && forall|i: int| 0 <= i < s.len() ==> !is_white(#[trigger] s[i])
}

} // verus!
