//! Characters and lines: the primitives on which every extractor rests.
//!
//! Text is modelled as `Seq<char>`. An executable function here returns a
//! part of its argument, or the bounds of a part, and its contract names that
//! part by a spec function of this module.

use vstd::prelude::*;

verus! {

/// Whether `c` carries the Unicode property `White_Space`.
pub open spec fn is_whitespace(c: char) -> bool {
    let n = c as u32;
    (0x09 <= n <= 0x0D) || n == 0x20 || n == 0x85 || n == 0xA0 || n == 0x1680 || (0x2000 <= n
        <= 0x200A) || n == 0x2028 || n == 0x2029 || n == 0x202F || n == 0x205F || n == 0x3000
}

/// `s` without its leading whitespace.
pub open spec fn trim_start(s: Seq<char>) -> Seq<char>
    decreases s.len(),
{
    if s.len() > 0 && is_whitespace(s[0]) {
        trim_start(s.drop_first())
    } else {
        s
    }
}

/// `s` without its trailing whitespace.
pub open spec fn trim_end(s: Seq<char>) -> Seq<char>
    decreases s.len(),
{
    if s.len() > 0 && is_whitespace(s.last()) {
        trim_end(s.drop_last())
    } else {
        s
    }
}

/// `s` without the whitespace at either end.
pub open spec fn trimmed(s: Seq<char>) -> Seq<char> {
    trim_end(trim_start(s))
}

/// Whether `s` neither begins nor ends with whitespace.
pub open spec fn bare(s: Seq<char>) -> bool {
    s.len() > 0 ==> !is_whitespace(s[0]) && !is_whitespace(s.last())
}

/// The position of the first `c` in `s`, or the length of `s` where it holds none.
pub open spec fn index_of(s: Seq<char>, c: char) -> int
    decreases s.len(),
{
    if s.len() == 0 || s[0] == c {
        0
    } else {
        1 + index_of(s.drop_first(), c)
    }
}

/// A line without the carriage return that stood before its line feed.
pub open spec fn strip_carriage_return(line: Seq<char>) -> Seq<char> {
    if line.len() > 0 && line.last() == '\r' {
        line.drop_last()
    } else {
        line
    }
}

/// The lines of `s`. A line ends at a line feed, or at a carriage return
/// directly followed by one; the terminator is no part of the line. The last
/// line needs no terminator, and text that ends in one has no empty line after
/// it.
pub open spec fn lines_of(s: Seq<char>) -> Seq<Seq<char>>
    decreases s.len(),
{
    if s.len() == 0 {
        Seq::empty()
    } else {
        let i = index_of(s, '\n');
        if 0 <= i < s.len() {
            seq![strip_carriage_return(s.subrange(0, i))] + lines_of(
                s.subrange(i + 1, s.len() as int),
            )
        } else {
            seq![s]
        }
    }
}

/// The lines of `s`, each without the whitespace at either end.
pub open spec fn trimmed_lines(s: Seq<char>) -> Seq<Seq<char>> {
    lines_of(s).map_values(|line: Seq<char>| trimmed(line))
}

/// `s` without any number of copies of `suffix` at its end.
pub open spec fn without_suffix(s: Seq<char>, suffix: Seq<char>) -> Seq<char>
    decreases s.len(),
{
    if suffix.len() > 0 && s.len() >= suffix.len() && s.subrange(s.len() - suffix.len(), s.len() as int)
        == suffix {
        without_suffix(s.subrange(0, s.len() - suffix.len()), suffix)
    } else {
        s
    }
}

/// The views of a vector of string slices.
pub open spec fn views_of(v: Seq<&str>) -> Seq<Seq<char>> {
    v.map_values(|s: &str| s@)
}

/// `index_of` is within bounds, points at a `c` unless it is the length, and
/// no `c` stands before it.
pub proof fn lemma_index_of(s: Seq<char>, c: char)
    ensures
        0 <= index_of(s, c) <= s.len(),
        index_of(s, c) < s.len() ==> s[index_of(s, c)] == c,
        forall|j: int| 0 <= j < index_of(s, c) ==> s[j] != c,
    decreases s.len(),
{
    if s.len() == 0 || s[0] == c {
    } else {
        let rest = s.drop_first();
        lemma_index_of(rest, c);
        assert forall|j: int| 0 <= j < index_of(s, c) implies s[j] != c by {
            if j > 0 {
                assert(s[j] == rest[j - 1]);
            }
        }
    }
}

/// The first position that holds `c`, with none before it, is `index_of`.
pub proof fn lemma_index_of_is(s: Seq<char>, c: char, i: int)
    requires
        0 <= i <= s.len(),
        i < s.len() ==> s[i] == c,
        forall|j: int| 0 <= j < i ==> s[j] != c,
    ensures
        index_of(s, c) == i,
{
    lemma_index_of(s, c);
}

/// `trim_start` keeps a suffix of its argument, which is empty or begins with
/// a character that is no whitespace.
pub proof fn lemma_trim_start(s: Seq<char>)
    ensures
        trim_start(s).len() <= s.len(),
        trim_start(s) == s.subrange(s.len() - trim_start(s).len(), s.len() as int),
        trim_start(s).len() > 0 ==> !is_whitespace(trim_start(s)[0]),
        forall|j: int| 0 <= j < s.len() - trim_start(s).len() ==> is_whitespace(s[j]),
    decreases s.len(),
{
    if s.len() > 0 && is_whitespace(s[0]) {
        let rest = s.drop_first();
        lemma_trim_start(rest);
        let k = rest.len() - trim_start(rest).len();
        assert(rest.subrange(k, rest.len() as int) == s.subrange(k + 1, s.len() as int));
        assert forall|j: int| 0 <= j < s.len() - trim_start(s).len() implies is_whitespace(
            s[j],
        ) by {
            if j > 0 {
                assert(s[j] == rest[j - 1]);
            }
        }
    } else {
        assert(s == s.subrange(0, s.len() as int));
    }
}

/// `trim_end` keeps a prefix of its argument, which is empty or ends with a
/// character that is no whitespace.
pub proof fn lemma_trim_end(s: Seq<char>)
    ensures
        trim_end(s).len() <= s.len(),
        trim_end(s) == s.subrange(0, trim_end(s).len() as int),
        trim_end(s).len() > 0 ==> !is_whitespace(trim_end(s).last()),
        forall|j: int| trim_end(s).len() <= j < s.len() ==> is_whitespace(s[j]),
    decreases s.len(),
{
    if s.len() > 0 && is_whitespace(s.last()) {
        let rest = s.drop_last();
        lemma_trim_end(rest);
        let k = trim_end(rest).len() as int;
        assert(rest.subrange(0, k) == s.subrange(0, k));
        assert forall|j: int| trim_end(s).len() <= j < s.len() implies is_whitespace(s[j]) by {
            if j < rest.len() {
                assert(s[j] == rest[j]);
            }
        }
    } else {
        assert(s == s.subrange(0, s.len() as int));
    }
}

/// Trimmed text holds no whitespace at its start or at its end, and is a part
/// of the text it was taken from.
pub proof fn lemma_trimmed_is_bare(s: Seq<char>)
    ensures
        bare(trimmed(s)),
        exists|from: int, to: int|
            0 <= from <= to <= s.len() && trimmed(s) == #[trigger] s.subrange(from, to),
{
    let t = trim_start(s);
    lemma_trim_start(s);
    lemma_trim_end(t);
    let from = s.len() - t.len();
    let to = from + trim_end(t).len();
    assert(t.subrange(0, trim_end(t).len() as int) == s.subrange(from, to));
    if trimmed(s).len() > 0 {
        assert(trimmed(s)[0] == t[0]);
    }
}

/// Tests a character for the property `White_Space`.
pub fn char_is_whitespace(c: char) -> (b: bool)
    ensures
        b == is_whitespace(c),
{
    let n: u32 = c as u32;
    (0x09 <= n && n <= 0x0D) || n == 0x20 || n == 0x85 || n == 0xA0 || n == 0x1680 || (0x2000 <= n
        && n <= 0x200A) || n == 0x2028 || n == 0x2029 || n == 0x202F || n == 0x205F || n == 0x3000
}

/// The characters of `s`, in an indexable form.
pub fn chars_of(s: &str) -> (v: Vec<char>)
    ensures
        v@ == s@,
{
    let mut v: Vec<char> = Vec::new();
    for c in it: s.chars()
        invariant
            v@ == it.seq().take(it.index()),
    {
        v.push(c);
    }
    v
}

/// The bounds of `chars[from..to]` without the whitespace at either end.
pub fn trim_bounds(chars: &Vec<char>, from: usize, to: usize) -> (bounds: (usize, usize))
    requires
        from <= to <= chars.len(),
    ensures
        from <= bounds.0 <= bounds.1 <= to,
        chars@.subrange(bounds.0 as int, bounds.1 as int) == trimmed(
            chars@.subrange(from as int, to as int),
        ),
{
    let ghost whole = chars@.subrange(from as int, to as int);
    let mut start: usize = from;
    while start < to && char_is_whitespace(chars[start])
        invariant
            from <= start <= to <= chars.len(),
            trim_start(whole) == trim_start(chars@.subrange(start as int, to as int)),
            whole == chars@.subrange(from as int, to as int),
        decreases to - start,
    {
        proof {
            let cur = chars@.subrange(start as int, to as int);
            assert(cur.drop_first() == chars@.subrange(start + 1, to as int));
        }
        start += 1;
    }
    let ghost left = chars@.subrange(start as int, to as int);
    assert(trim_start(whole) == left);
    let mut end: usize = to;
    while end > start && char_is_whitespace(chars[end - 1])
        invariant
            start <= end <= to <= chars.len(),
            trim_end(left) == trim_end(chars@.subrange(start as int, end as int)),
            left == chars@.subrange(start as int, to as int),
        decreases end - start,
    {
        proof {
            let cur = chars@.subrange(start as int, end as int);
            assert(cur.drop_last() == chars@.subrange(start as int, end - 1));
        }
        end -= 1;
    }
    (start, end)
}

/// `s` without the whitespace at either end.
pub fn trim<'a>(s: &'a str) -> (t: &'a str)
    ensures
        t@ == trimmed(s@),
{
    let chars = chars_of(s);
    assert(chars@.subrange(0, chars.len() as int) == s@);
    let (start, end) = trim_bounds(&chars, 0, chars.len());
    s.substring_char(start, end)
}

/// The position of the first `c` in `chars[from..to]`, or `to` where that
/// range holds none.
pub fn find_char(chars: &Vec<char>, from: usize, to: usize, c: char) -> (at: usize)
    requires
        from <= to <= chars.len(),
    ensures
        from <= at <= to,
        at - from == index_of(chars@.subrange(from as int, to as int), c),
{
    let mut at: usize = from;
    while at < to && chars[at] != c
        invariant
            from <= at <= to <= chars.len(),
            forall|j: int| from <= j < at ==> chars@[j] != c,
        decreases to - at,
    {
        at += 1;
    }
    proof {
        lemma_index_of_is(chars@.subrange(from as int, to as int), c, at - from);
    }
    at
}

/// The lines of `s`, as `str::lines` yields them.
pub fn lines<'a>(s: &'a str) -> (out: Vec<&'a str>)
    ensures
        views_of(out@) == lines_of(s@),
{
    let chars = chars_of(s);
    let n: usize = chars.len();
    let mut out: Vec<&'a str> = Vec::new();
    let mut pos: usize = 0;
    assert(s@.subrange(0, n as int) == s@);
    while pos < n
        invariant
            pos <= n,
            n == chars.len(),
            chars@ == s@,
            lines_of(s@) == views_of(out@) + lines_of(s@.subrange(pos as int, n as int)),
        decreases n - pos,
    {
        let ghost rest = s@.subrange(pos as int, n as int);
        let ghost before = views_of(out@);
        let at: usize = find_char(&chars, pos, n, '\n');
        if at == n {
            let line = s.substring_char(pos, n);
            out.push(line);
            proof {
                assert(lines_of(rest) == seq![rest]);
                assert(lines_of(s@.subrange(n as int, n as int)) == Seq::<Seq<char>>::empty());
                assert(views_of(out@) == before + seq![rest]);
            }
            pos = n;
        } else {
            let stop: usize = if at > pos && chars[at - 1] == '\r' {
                at - 1
            } else {
                at
            };
            let line = s.substring_char(pos, stop);
            out.push(line);
            proof {
                let raw = rest.subrange(0, at - pos);
                assert(raw == s@.subrange(pos as int, at as int));
                assert(line@ == strip_carriage_return(raw));
                assert(rest.subrange(at - pos + 1, rest.len() as int) == s@.subrange(
                    at + 1,
                    n as int,
                ));
                assert(views_of(out@) == before + seq![line@]);
            }
            pos = at + 1;
        }
    }
    assert(lines_of(s@.subrange(pos as int, n as int)) == Seq::<Seq<char>>::empty());
    out
}

/// Whether `chars[from..to]` ends with `suffix`.
pub fn ends_with(chars: &Vec<char>, from: usize, to: usize, suffix: &Vec<char>) -> (b: bool)
    requires
        from <= to <= chars.len(),
    ensures
        b == (to - from >= suffix.len() && chars@.subrange(to - suffix.len(), to as int)
            == suffix@),
{
    let m: usize = suffix.len();
    if to - from < m {
        return false;
    }
    let base: usize = to - m;
    let mut i: usize = 0;
    while i < m
        invariant
            i <= m,
            m == suffix.len(),
            base + m == to,
            to <= chars.len(),
            forall|j: int| 0 <= j < i ==> chars@[base + j] == suffix@[j],
        decreases m - i,
    {
        if chars[base + i] != suffix[i] {
            assert(chars@.subrange(to - suffix.len(), to as int)[i as int] != suffix@[i as int]);
            return false;
        }
        i += 1;
    }
    assert(chars@.subrange(to - suffix.len(), to as int) =~= suffix@);
    true
}

/// The end of `chars[from..to]` once every copy of `suffix` at its end is
/// taken away.
pub fn strip_suffix_bound(chars: &Vec<char>, from: usize, to: usize, suffix: &Vec<char>) -> (end:
    usize)
    requires
        from <= to <= chars.len(),
    ensures
        from <= end <= to,
        chars@.subrange(from as int, end as int) == without_suffix(
            chars@.subrange(from as int, to as int),
            suffix@,
        ),
{
    let m: usize = suffix.len();
    let mut end: usize = to;
    if m == 0 {
        return end;
    }
    while ends_with(chars, from, end, suffix)
        invariant
            from <= end <= to <= chars.len(),
            m == suffix.len(),
            m > 0,
            without_suffix(chars@.subrange(from as int, to as int), suffix@) == without_suffix(
                chars@.subrange(from as int, end as int),
                suffix@,
            ),
        decreases end - from,
    {
        proof {
            let cur = chars@.subrange(from as int, end as int);
            assert(cur.subrange(cur.len() - m, cur.len() as int) == chars@.subrange(
                end - m,
                end as int,
            ));
            assert(cur.subrange(0, cur.len() - m) == chars@.subrange(from as int, end - m));
        }
        end -= m;
    }
    proof {
        let cur = chars@.subrange(from as int, end as int);
        if cur.len() >= m {
            assert(cur.subrange(cur.len() - m, cur.len() as int) == chars@.subrange(
                end - m,
                end as int,
            ));
        }
    }
    end
}

} // verus!
