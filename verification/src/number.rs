//! Decimal integers in text: an optional sign and at least one ASCII digit.

use vstd::prelude::*;

verus! {

/// Whether `c` is one of the ASCII digits `0` to `9`.
pub open spec fn is_digit(c: char) -> bool {
    0x30 <= c as u32 <= 0x39
}

/// The number that the digit `c` stands for.
pub open spec fn digit_value(c: char) -> int {
    c as u32 - 0x30
}

/// Whether `s` holds ASCII digits only.
pub open spec fn all_digits(s: Seq<char>) -> bool {
    forall|i: int| 0 <= i < s.len() ==> is_digit(#[trigger] s[i])
}

/// The number that the digits of `s` write in base ten (0 for no digits).
pub open spec fn digits_value(s: Seq<char>) -> int
    decreases s.len(),
{
    if s.len() == 0 {
        0
    } else {
        10 * digits_value(s.drop_last()) + digit_value(s.last())
    }
}

/// The integer that `s` writes: `+` or `-` may stand first, and at least one
/// digit follows, with nothing else. `None` for any other text.
pub open spec fn decimal_of(s: Seq<char>) -> Option<int> {
    if s.len() == 0 {
        None
    } else if s[0] == '-' {
        let digits = s.drop_first();
        if digits.len() > 0 && all_digits(digits) {
            Some(-digits_value(digits))
        } else {
            None
        }
    } else {
        let digits = if s[0] == '+' {
            s.drop_first()
        } else {
            s
        };
        if digits.len() > 0 && all_digits(digits) {
            Some(digits_value(digits))
        } else {
            None
        }
    }
}

/// The `i32` that `s` writes, or `None` where it writes none or one out of
/// range.
pub open spec fn i32_of(s: Seq<char>) -> Option<i32> {
    match decimal_of(s) {
        Some(v) => if i32::MIN <= v <= i32::MAX {
            Some(v as i32)
        } else {
            None
        },
        None => None,
    }
}

/// The `i64` that `s` writes, or `None` where it writes none or one out of
/// range.
pub open spec fn i64_of(s: Seq<char>) -> Option<i64> {
    match decimal_of(s) {
        Some(v) => if i64::MIN <= v <= i64::MAX {
            Some(v as i64)
        } else {
            None
        },
        None => None,
    }
}

/// The `i32` that `s` writes, or 0 where it writes none.
pub open spec fn i32_or_zero(s: Seq<char>) -> i32 {
    match i32_of(s) {
        Some(v) => v,
        None => 0,
    }
}

/// The `i64` that `s` writes, or 0 where it writes none.
pub open spec fn i64_or_zero(s: Seq<char>) -> i64 {
    match i64_of(s) {
        Some(v) => v,
        None => 0,
    }
}

/// Digits write a number that is not negative, and more digits never write a
/// smaller one.
pub proof fn lemma_digits_value_grows(s: Seq<char>, k: int)
    requires
        all_digits(s),
        0 <= k <= s.len(),
    ensures
        0 <= digits_value(s.take(k)) <= digits_value(s),
    decreases s.len() - k,
{
    if k == s.len() {
        assert(s.take(k) == s);
        lemma_digits_value_not_negative(s);
    } else {
        lemma_digits_value_grows(s, k + 1);
        let longer = s.take(k + 1);
        assert(longer.drop_last() == s.take(k));
        assert(is_digit(s[k]));
        lemma_digits_value_not_negative(s.take(k));
    }
}

/// Digits write a number that is not negative.
pub proof fn lemma_digits_value_not_negative(s: Seq<char>)
    requires
        all_digits(s),
    ensures
        0 <= digits_value(s),
    decreases s.len(),
{
    if s.len() > 0 {
        lemma_digits_value_not_negative(s.drop_last());
        assert(is_digit(s[s.len() - 1]));
    }
}

/// The number written by the digits of `chars[from..to]`, where there is at
/// least one, all are digits, and the number is at most `limit`.
pub fn parse_digits(chars: &Vec<char>, from: usize, to: usize, limit: u64) -> (value: Option<u64>)
    requires
        from <= to <= chars.len(),
    ensures
        value == ({
            let digits = chars@.subrange(from as int, to as int);
            if digits.len() > 0 && all_digits(digits) && digits_value(digits) <= limit {
                Some(digits_value(digits) as u64)
            } else {
                None
            }
        }),
{
    let ghost digits = chars@.subrange(from as int, to as int);
    if from == to {
        return None;
    }
    let mut acc: u64 = 0;
    let mut i: usize = from;
    while i < to
        invariant
            from <= i <= to <= chars.len(),
            digits == chars@.subrange(from as int, to as int),
            all_digits(digits.take(i - from)),
            acc == digits_value(digits.take(i - from)),
            acc <= limit,
        decreases to - i,
    {
        let c: char = chars[i];
        let n: u32 = c as u32;
        if n < 0x30 || n > 0x39 {
            assert(!is_digit(digits[i - from]));
            return None;
        }
        let d: u64 = (n - 0x30) as u64;
        proof {
            let longer = digits.take(i - from + 1);
            assert(longer.drop_last() == digits.take(i - from));
            assert(longer.last() == c);
            assert(digits_value(longer) == 10 * acc + d);
            assert forall|j: int| 0 <= j < longer.len() implies is_digit(#[trigger] longer[j]) by {
                if j < i - from {
                    assert(longer[j] == digits.take(i - from)[j]);
                }
            }
            if all_digits(digits) {
                lemma_digits_value_grows(digits, i - from + 1);
            }
        }
        if limit < d || acc > (limit - d) / 10 {
            return None;
        }
        acc = acc * 10 + d;
        i += 1;
    }
    assert(digits.take(to - from) == digits);
    Some(acc)
}

/// The magnitude and sign that `chars[from..to]` writes, the magnitude at
/// most `limit` where the number is not negative and at most `limit + 1`
/// where it is.
fn parse_signed(chars: &Vec<char>, from: usize, to: usize, limit: u64) -> (value: Option<
    (bool, u64),
>)
    requires
        from <= to <= chars.len(),
        limit < u64::MAX,
    ensures
        value == (match decimal_of(chars@.subrange(from as int, to as int)) {
            Some(v) => if -(limit + 1) <= v <= limit {
                Some((v < 0, (if v < 0 { -v } else { v }) as u64))
            } else {
                None
            },
            None => None,
        }),
{
    let ghost s = chars@.subrange(from as int, to as int);
    if from == to {
        return None;
    }
    let first: char = chars[from];
    assert(s[0] == first);
    if first == '-' {
        assert(s.drop_first() == chars@.subrange(from + 1, to as int));
        match parse_digits(chars, from + 1, to, limit + 1) {
            Some(m) => {
                proof {
                    lemma_digits_value_not_negative(s.drop_first());
                }
                // A magnitude of zero is written as not negative.
                Some((m > 0, m))
            },
            None => {
                proof {
                    if s.drop_first().len() > 0 && all_digits(s.drop_first()) {
                        lemma_digits_value_not_negative(s.drop_first());
                    }
                }
                None
            },
        }
    } else {
        let start: usize = if first == '+' {
            from + 1
        } else {
            from
        };
        proof {
            if first == '+' {
                assert(s.drop_first() == chars@.subrange(from + 1, to as int));
            }
            let digits = chars@.subrange(start as int, to as int);
            if digits.len() > 0 && all_digits(digits) {
                lemma_digits_value_not_negative(digits);
            }
        }
        match parse_digits(chars, start, to, limit) {
            Some(m) => Some((false, m)),
            None => None,
        }
    }
}

/// Reads `chars[from..to]` as an `i32`.
pub fn parse_i32(chars: &Vec<char>, from: usize, to: usize) -> (value: Option<i32>)
    requires
        from <= to <= chars.len(),
    ensures
        value == i32_of(chars@.subrange(from as int, to as int)),
{
    match parse_signed(chars, from, to, 0x7fff_ffff) {
        Some((negative, m)) => {
            if negative {
                let v: i64 = -(m as i64);
                Some(v as i32)
            } else {
                Some(m as i32)
            }
        },
        None => None,
    }
}

/// Reads `chars[from..to]` as an `i64`.
pub fn parse_i64(chars: &Vec<char>, from: usize, to: usize) -> (value: Option<i64>)
    requires
        from <= to <= chars.len(),
    ensures
        value == i64_of(chars@.subrange(from as int, to as int)),
{
    match parse_signed(chars, from, to, 0x7fff_ffff_ffff_ffff) {
        Some((negative, m)) => {
            if negative {
                if m == 0x8000_0000_0000_0000 {
                    Some(i64::MIN)
                } else {
                    Some(-(m as i64))
                }
            } else {
                Some(m as i64)
            }
        },
        None => None,
    }
}

} // verus!
