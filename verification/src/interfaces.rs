//! Network interfaces, as `netsh interface ip show interface` lists them.
use vstd::prelude::*;
use vstd::utf8::{decode_utf8, valid_utf8};

use crate::text::{
    chars_of, contains, ends_with, has_part, has_prefix, has_suffix, number, parse_number, rows,
    same, split_rows, split_words, starts_with, texts, trim, trimmed, words,
};
use crate::utf8::{lossy_text, text_of};

verus! {

/// The index in a row that lists a connected interface other than a loopback
/// interface and the TUN interface `tun_name`. The row has at least four words;
/// the first is the index, the third is the state, and the last is the name.
pub open spec fn physical_index(row: Seq<char>, tun_name: Seq<char>) -> Option<u32> {
    let w = words(row);
    if w.len() < 4 {
        None
    } else if starts_with(w[0], "Idx"@) || starts_with(w[0], "--"@) {
        None
    } else if has_part(w.last(), "Loopback"@) || w.last() == tun_name || w[2] != "connected"@ {
        None
    } else {
        number(w[0])
    }
}

/// The index in a row that ends with the name of an interface.
pub open spec fn named_index(row: Seq<char>, name: Seq<char>) -> Option<u32> {
    if ends_with(trim(row), name) && words(row).len() > 0 {
        number(words(row)[0])
    } else {
        None
    }
}

/// The first index that `pick` finds in `list`.
pub open spec fn first_index(
    list: Seq<Seq<char>>,
    pick: spec_fn(Seq<char>) -> Option<u32>,
) -> Option<u32>
    decreases list.len(),
{
    if list.len() == 0 {
        None
    } else if pick(list[0]) is Some {
        pick(list[0])
    } else {
        first_index(list.skip(1), pick)
    }
}

/// The index that `physical_index` describes.
fn row_physical_index(row: &[char], tun_name: &[char]) -> (r: Option<u32>)
    ensures
        r == physical_index(row@, tun_name@),
{
    let parts = split_words(row);
    let ghost w = words(row@);
    assert(w == texts(parts@));
    if parts.len() < 4 {
        return None;
    }
    let first = parts[0].as_slice();
    let last = parts[parts.len() - 1].as_slice();
    let state = parts[2].as_slice();
    assert(w[0] == first@ && w.last() == last@ && w[2] == state@);
    let idx_heading = chars_of("Idx");
    let rule = chars_of("--");
    if has_prefix(first, idx_heading.as_slice()) || has_prefix(first, rule.as_slice()) {
        return None;
    }
    let loopback = chars_of("Loopback");
    if contains(last, loopback.as_slice()) || same(last, tun_name) {
        return None;
    }
    let connected = chars_of("connected");
    if !same(state, connected.as_slice()) {
        return None;
    }
    parse_number(first)
}

/// The index that `named_index` describes.
fn row_named_index(row: &[char], name: &[char]) -> (r: Option<u32>)
    ensures
        r == named_index(row@, name@),
{
    if !has_suffix(trimmed(row), name) {
        return None;
    }
    let parts = split_words(row);
    assert(words(row@) == texts(parts@));
    if parts.len() == 0 {
        return None;
    }
    assert(words(row@)[0] == parts@[0]@);
    parse_number(parts[0].as_slice())
}

/// The index of the first connected interface in the listing `text` that is
/// neither a loopback interface nor the TUN interface.
pub fn select_physical_interface(text: &str, tun_name: &str) -> (r: Option<u32>)
    ensures
        r == first_index(rows(text@), |row: Seq<char>| physical_index(row, tun_name@)),
{
    let all = chars_of(text);
    let name = chars_of(tun_name);
    let list = split_rows(all.as_slice());
    let ghost pick = |row: Seq<char>| physical_index(row, tun_name@);
    let ghost every = rows(text@);
    let mut i: usize = 0;
    assert(every.skip(0) =~= every);
    while i < list.len()
        invariant
            i <= list@.len(),
            every == rows(text@),
            every == texts(list@),
            name@ == tun_name@,
            pick == (|row: Seq<char>| physical_index(row, tun_name@)),
            first_index(every, pick) == first_index(every.skip(i as int), pick),
        decreases list@.len() - i,
    {
        let found = row_physical_index(list[i].as_slice(), name.as_slice());
        assert(every.skip(i as int)[0] == list@[i as int]@);
        assert(found == pick(every.skip(i as int)[0]));
        if found.is_some() {
            return found;
        }
        assert(every.skip(i as int).skip(1) =~= every.skip(i + 1));
        i = i + 1;
    }
    None
}

/// The index of the interface `name` in the listing `text`.
pub fn select_named_interface(text: &str, name: &str) -> (r: Option<u32>)
    ensures
        r == first_index(rows(text@), |row: Seq<char>| named_index(row, name@)),
{
    let all = chars_of(text);
    let wanted = chars_of(name);
    let list = split_rows(all.as_slice());
    let ghost pick = |row: Seq<char>| named_index(row, name@);
    let ghost every = rows(text@);
    let mut i: usize = 0;
    assert(every.skip(0) =~= every);
    while i < list.len()
        invariant
            i <= list@.len(),
            every == rows(text@),
            every == texts(list@),
            wanted@ == name@,
            pick == (|row: Seq<char>| named_index(row, name@)),
            first_index(every, pick) == first_index(every.skip(i as int), pick),
        decreases list@.len() - i,
    {
        let found = row_named_index(list[i].as_slice(), wanted.as_slice());
        assert(every.skip(i as int)[0] == list@[i as int]@);
        assert(found == pick(every.skip(i as int)[0]));
        if found.is_some() {
            return found;
        }
        assert(every.skip(i as int).skip(1) =~= every.skip(i + 1));
        i = i + 1;
    }
    None
}

/// The index of the first physical interface in the output `stdout` of `netsh`.
pub fn get_physical_interface_index(stdout: &[u8], tun_name: &str) -> (r: Option<u32>)
    ensures
        r == first_index(
            rows(lossy_text(stdout@)),
            |row: Seq<char>| physical_index(row, tun_name@),
        ),
        valid_utf8(stdout@) ==> r == first_index(
            rows(decode_utf8(stdout@)),
            |row: Seq<char>| physical_index(row, tun_name@),
        ),
{
    let text = text_of(stdout);
    select_physical_interface(text.as_str(), tun_name)
}

/// The index of the interface `name` in the output `stdout` of `netsh`.
pub fn get_tun_interface_index(stdout: &[u8], name: &str) -> (r: Option<u32>)
    ensures
        r == first_index(rows(lossy_text(stdout@)), |row: Seq<char>| named_index(row, name@)),
        valid_utf8(stdout@) ==> r == first_index(
            rows(decode_utf8(stdout@)),
            |row: Seq<char>| named_index(row, name@),
        ),
{
    let text = text_of(stdout);
    select_named_interface(text.as_str(), name)
}

} // verus!
