//! Resource quantities: lines of the shape `key: value` and the integers
//! that their values write.
//!
//! A value that writes no integer counts as 0; nothing here fails.

use crate::number::{all_digits, digits_value, i32_of, i32_or_zero, i64_or_zero, parse_i32, parse_i64};
use crate::text::{
    chars_of, find_char, index_of, lemma_index_of, strip_suffix_bound, trim_bounds, trimmed,
    without_suffix,
};
use vstd::prelude::*;

verus! {

/// The unit suffix that a quantity may carry.
pub open spec fn unit_suffix() -> Seq<char> {
    seq!['K', 'i']
}

/// The key and the value of a line `key: value`, each without the whitespace
/// around it. `None` unless the line holds exactly one colon.
pub open spec fn entry_of(line: Seq<char>) -> Option<(Seq<char>, Seq<char>)> {
    let i = index_of(line, ':');
    if 0 <= i < line.len() && !line.subrange(i + 1, line.len() as int).contains(':') {
        Some((trimmed(line.subrange(0, i)), trimmed(line.subrange(i + 1, line.len() as int))))
    } else {
        None
    }
}

/// The value of the last line among `lines` that is an entry for `key`.
pub open spec fn last_value(lines: Seq<Seq<char>>, key: Seq<char>) -> Option<Seq<char>>
    decreases lines.len(),
{
    if lines.len() == 0 {
        None
    } else {
        match entry_of(lines.last()) {
            Some((k, v)) => if k == key {
                Some(v)
            } else {
                last_value(lines.drop_last(), key)
            },
            None => last_value(lines.drop_last(), key),
        }
    }
}

/// The count that `value` writes once its unit suffix is taken away, or 0
/// where what is left writes no `i32`.
pub open spec fn count_of(value: Seq<char>) -> i32 {
    i32_or_zero(without_suffix(value, unit_suffix()))
}

/// The count that the last entry for `key` gives, or 0 where there is none.
pub open spec fn count_for(lines: Seq<Seq<char>>, key: Seq<char>) -> i32 {
    match last_value(lines, key) {
        Some(v) => count_of(v),
        None => 0,
    }
}

/// The number of bytes that the last entry for `key` gives, its value read
/// as it stands, or 0 where there is none or it writes no `i64`.
pub open spec fn bytes_for(lines: Seq<Seq<char>>, key: Seq<char>) -> i64 {
    match last_value(lines, key) {
        Some(v) => i64_or_zero(v),
        None => 0,
    }
}

/// Whether the last entry for `key` holds a value that, its unit suffix
/// taken away, writes no `i32`.
pub open spec fn writes_no_count(lines: Seq<Seq<char>>, key: Seq<char>) -> bool {
    last_value(lines, key) matches Some(v) && i32_of(without_suffix(v, unit_suffix())) is None
}

/// Whether the last entry for `key` holds a value that writes no `i64`.
pub open spec fn writes_no_bytes(lines: Seq<Seq<char>>, key: Seq<char>) -> bool {
    last_value(lines, key) matches Some(v) && crate::number::i64_of(v) is None
}

/// A value that writes no integer, with or without the unit suffix, counts
/// as 0.
pub proof fn lemma_count_of_non_numeric(value: Seq<char>)
    requires
        i32_of(without_suffix(value, unit_suffix())) is None,
    ensures
        count_of(value) == 0,
{
}

/// Where the last entry for a key holds a value that writes no integer, the
/// count for that key is 0.
pub proof fn lemma_count_for_non_numeric(lines: Seq<Seq<char>>, key: Seq<char>)
    requires
        writes_no_count(lines, key),
    ensures
        count_for(lines, key) == 0,
{
}

/// Digits followed by the unit suffix count as the number that the digits
/// write.
pub proof fn lemma_count_of_with_suffix(digits: Seq<char>)
    requires
        digits.len() > 0,
        all_digits(digits),
        digits_value(digits) <= i32::MAX,
    ensures
        count_of(digits + unit_suffix()) == digits_value(digits),
        count_of(digits) == digits_value(digits),
{
    let suffix = unit_suffix();
    let whole = digits + suffix;
    crate::number::lemma_digits_value_not_negative(digits);
    assert(whole.subrange(whole.len() - 2, whole.len() as int) == suffix);
    assert(whole.subrange(0, whole.len() - 2) == digits);
    lemma_digits_keep_without_suffix(digits);
    assert(without_suffix(whole, suffix) == without_suffix(digits, suffix));
}

/// Text that ends in a digit carries no unit suffix.
pub proof fn lemma_digits_keep_without_suffix(digits: Seq<char>)
    requires
        digits.len() > 0,
        all_digits(digits),
    ensures
        without_suffix(digits, unit_suffix()) == digits,
{
    let suffix = unit_suffix();
    if digits.len() >= 2 {
        let tail = digits.subrange(digits.len() - 2, digits.len() as int);
        assert(crate::number::is_digit(digits[digits.len() - 1]));
        assert(tail[1] == digits[digits.len() - 1]);
        assert(suffix[1] == 'i');
        assert(tail != suffix);
    }
}

/// Where the last entry for a key holds digits followed by the unit suffix,
/// the count for that key is the number that the digits write.
pub proof fn lemma_count_for_with_suffix(lines: Seq<Seq<char>>, key: Seq<char>, digits: Seq<char>)
    requires
        digits.len() > 0,
        all_digits(digits),
        digits_value(digits) <= i32::MAX,
        last_value(lines, key) == Some(digits + unit_suffix()),
    ensures
        count_for(lines, key) == digits_value(digits),
{
    lemma_count_of_with_suffix(digits);
}

/// Where one line of a block is an entry: the bounds of its key and of its
/// value within the line.
pub struct EntryBounds {
    pub key_from: usize,
    pub key_to: usize,
    pub value_from: usize,
    pub value_to: usize,
}

/// Splits a line `key: value` at its one colon.
pub fn split_entry(line: &Vec<char>) -> (bounds: Option<EntryBounds>)
    ensures
        match bounds {
            Some(b) => b.key_from <= b.key_to <= b.value_from <= b.value_to <= line.len()
                && entry_of(line@) == Some(
                (
                    line@.subrange(b.key_from as int, b.key_to as int),
                    line@.subrange(b.value_from as int, b.value_to as int),
                ),
            ),
            None => entry_of(line@) is None,
        },
{
    let n: usize = line.len();
    assert(line@.subrange(0, n as int) == line@);
    let colon: usize = find_char(line, 0, n, ':');
    if colon == n {
        return None;
    }
    let next: usize = find_char(line, colon + 1, n, ':');
    proof {
        let rest = line@.subrange(colon + 1, n as int);
        lemma_index_of(rest, ':');
        if next < n {
            assert(rest[next - colon - 1] == ':');
            assert(rest.contains(':'));
        } else {
            assert(!rest.contains(':'));
        }
    }
    if next < n {
        return None;
    }
    let (key_from, key_to) = trim_bounds(line, 0, colon);
    let (value_from, value_to) = trim_bounds(line, colon + 1, n);
    Some(EntryBounds { key_from, key_to, value_from, value_to })
}

/// Whether `line[from..to]` is the text `word`.
pub fn range_is(line: &Vec<char>, from: usize, to: usize, word: &str) -> (b: bool)
    requires
        from <= to <= line.len(),
    ensures
        b == (line@.subrange(from as int, to as int) == word@),
{
    let w = chars_of(word);
    if w.len() != to - from {
        return false;
    }
    let mut i: usize = 0;
    while i < w.len()
        invariant
            i <= w.len(),
            w.len() == to - from,
            to <= line.len(),
            w@ == word@,
            forall|j: int| 0 <= j < i ==> line@[from + j] == w@[j],
        decreases w.len() - i,
    {
        if line[from + i] != w[i] {
            assert(line@.subrange(from as int, to as int)[i as int] != word@[i as int]);
            return false;
        }
        i += 1;
    }
    assert(line@.subrange(from as int, to as int) =~= word@);
    true
}

/// The count that `line[from..to]` writes.
pub fn read_count(line: &Vec<char>, from: usize, to: usize) -> (count: i32)
    requires
        from <= to <= line.len(),
    ensures
        count == count_of(line@.subrange(from as int, to as int)),
{
    let mut suffix: Vec<char> = Vec::new();
    suffix.push('K');
    suffix.push('i');
    assert(suffix@ =~= unit_suffix());
    let end: usize = strip_suffix_bound(line, from, to, &suffix);
    match parse_i32(line, from, end) {
        Some(v) => v,
        None => 0,
    }
}

/// The number of bytes that `line[from..to]` writes.
pub fn read_bytes(line: &Vec<char>, from: usize, to: usize) -> (bytes: i64)
    requires
        from <= to <= line.len(),
    ensures
        bytes == i64_or_zero(line@.subrange(from as int, to as int)),
{
    match parse_i64(line, from, to) {
        Some(v) => v,
        None => 0,
    }
}

} // verus!
