//! Decimal numbers: reading one from characters and writing one out.

use vstd::prelude::*;
use crate::text::is_digit;

verus! {

/// The value of the decimal digit `c`.
pub open spec fn digit_value(c: char) -> int {
    c as int - '0' as int
}

/// The decimal digit that stands for `d`, with `0 <= d <= 9`.
pub open spec fn digit_char(d: int) -> char {
    ('0' as int + d) as char
}

/// Whether every character of `s` is a decimal digit.
pub open spec fn all_digits(s: Seq<char>) -> bool {
    forall|i: int| 0 <= i < s.len() ==> is_digit(#[trigger] s[i])
}

/// The number that the decimal digits of `digits` write, the first digit
/// counting most. The empty sequence writes 0.
pub open spec fn decimal_value(digits: Seq<char>) -> int
    decreases digits.len(),
{
    if digits.len() == 0 {
        0
    } else {
        10 * decimal_value(digits.drop_last()) + digit_value(digits.last())
    }
}

/// The integer that `s` writes: an optional sign, `+` or `-`, and then one
/// decimal digit or more, with nothing before, between or after them.
pub open spec fn signed_value(s: Seq<char>) -> Option<int> {
    let signed = s.len() > 0 && (s[0] == '-' || s[0] == '+');
    let digits = if signed {
        s.skip(1)
    } else {
        s
    };
    if digits.len() > 0 && all_digits(digits) {
        if s[0] == '-' {
            Some(-decimal_value(digits))
        } else {
            Some(decimal_value(digits))
        }
    } else {
        None
    }
}

/// The integer that `s` writes, where it fits in 64 bits.
pub open spec fn i64_value(s: Seq<char>) -> Option<i64> {
    match signed_value(s) {
        Some(v) => if i64::MIN <= v <= i64::MAX {
            Some(v as i64)
        } else {
            None
        },
        None => None,
    }
}

/// The integer that `s` writes, where it fits in 32 bits.
pub open spec fn i32_value(s: Seq<char>) -> Option<i32> {
    match signed_value(s) {
        Some(v) => if i32::MIN <= v <= i32::MAX {
            Some(v as i32)
        } else {
            None
        },
        None => None,
    }
}

/// The decimal digits of `n`, without leading zeros; `0` for zero.
pub open spec fn digits_of(n: nat) -> Seq<char>
    decreases n,
{
    if n < 10 {
        seq![digit_char(n as int)]
    } else {
        digits_of(n / 10).push(digit_char((n % 10) as int))
    }
}

/// `n` written in decimal, with a leading `-` where it is negative.
pub open spec fn decimal_text(n: int) -> Seq<char> {
    if n < 0 {
        seq!['-'] + digits_of((-n) as nat)
    } else {
        digits_of(n as nat)
    }
}

/// More digits never write a smaller number: a prefix of a digit sequence
/// writes at most what the whole sequence writes.
pub proof fn lemma_decimal_value_prefix(digits: Seq<char>, k: int)
    requires
        all_digits(digits),
        0 <= k <= digits.len(),
    ensures
        0 <= decimal_value(digits.take(k)) <= decimal_value(digits),
    decreases digits.len(),
{
    if k == digits.len() {
        assert(digits.take(k) == digits);
        if k > 0 {
            lemma_decimal_value_prefix(digits.drop_last(), k - 1);
        }
    } else {
        let init = digits.drop_last();
        assert(init.take(k) == digits.take(k));
        lemma_decimal_value_prefix(init, k);
    }
}

/// What `digits_of` writes is made of digits, at least one, and writes `n`.
pub proof fn lemma_digits_of(n: nat)
    ensures
        digits_of(n).len() > 0,
        all_digits(digits_of(n)),
        decimal_value(digits_of(n)) == n,
        digits_of(n)[0] != '-',
        digits_of(n)[0] != '+',
    decreases n,
{
    if n < 10 {
        let s = digits_of(n);
        assert(s.drop_last().len() == 0);
        assert(decimal_value(s.drop_last()) == 0);
    } else {
        lemma_digits_of(n / 10);
        let init = digits_of(n / 10);
        let s = digits_of(n);
        assert(s.drop_last() == init);
        assert(s[0] == init[0]);
    }
}

/// Reading back what was written gives the number that was written.
pub proof fn lemma_read_written(n: int)
    ensures
        signed_value(decimal_text(n)) == Some(n),
{
    if n < 0 {
        lemma_digits_of((-n) as nat);
        let s = decimal_text(n);
        assert(s.skip(1) == digits_of((-n) as nat));
    } else {
        lemma_digits_of(n as nat);
    }
}

/// Reads the integer that `s` writes, where it fits in 64 bits.
pub fn parse_i64(s: &[char]) -> (r: Option<i64>)
    ensures
        r == i64_value(s@),
{
    if s.len() == 0 {
        return None;
    }
    let negative = s[0] == '-';
    let first: usize = if s[0] == '-' || s[0] == '+' {
        1
    } else {
        0
    };
    if first == s.len() {
        return None;
    }
    let ghost digits = s@.skip(first as int);
    assert(s@.skip(0) == s@);
    let limit: i128 = 0x8000_0000_0000_0000;
    let mut acc: i128 = 0;
    let mut i: usize = first;
    assert(digits.take(0).len() == 0);
    while i < s.len()
        invariant
            first <= i <= s.len(),
            first < s.len(),
            first == 0 ==> digits == s@,
            negative == (s@[0] == '-'),
            first == if s@[0] == '-' || s@[0] == '+' {
                1int
            } else {
                0int
            },
            digits == s@.skip(first as int),
            limit == 0x8000_0000_0000_0000,
            0 <= acc <= limit,
            acc == decimal_value(digits.take(i - first)),
            all_digits(digits.take(i - first)),
        decreases s.len() - i,
    {
        let c = s[i];
        if !('0' <= c && c <= '9') {
            assert(!is_digit(digits[i - first]));
            return None;
        }
        let ghost seen = digits.take(i - first + 1);
        assert(seen.drop_last() == digits.take(i - first));
        assert(seen.last() == c);
        assert(all_digits(seen)) by {
            assert forall|j: int| 0 <= j < seen.len() implies is_digit(#[trigger] seen[j]) by {
                if j < seen.len() - 1 {
                    assert(seen[j] == digits.take(i - first)[j]);
                }
            }
        }
        let d: i128 = (c as u32 - '0' as u32) as i128;
        acc = acc * 10 + d;
        assert(d == digit_value(c));
        assert(acc == decimal_value(seen));
        if acc > limit {
            proof {
                if all_digits(digits) {
                    lemma_decimal_value_prefix(digits, i - first + 1);
                }
            }
            return None;
        }
        i += 1;
    }
    assert(digits.take(i - first) == digits);
    if negative {
        Some((-acc) as i64)
    } else if acc == limit {
        None
    } else {
        Some(acc as i64)
    }
}

/// Reads the integer that `s` writes, where it fits in 32 bits.
pub fn parse_i32(s: &[char]) -> (r: Option<i32>)
    ensures
        r == i32_value(s@),
{
    match parse_i64(s) {
        Some(v) => if -0x8000_0000 <= v && v <= 0x7fff_ffff {
            Some(v as i32)
        } else {
            None
        },
        None => None,
    }
}

/// Appends the decimal digits of `n` to `buf`.
pub fn push_digits(buf: &mut Vec<char>, n: u64)
    ensures
        final(buf)@ == old(buf)@ + digits_of(n as nat),
    decreases n,
{
    if n >= 10 {
        push_digits(buf, n / 10);
    }
    let d: u8 = (n % 10) as u8;
    let c: char = (48u8 + d) as char;
    assert(c == digit_char((n % 10) as int));
    buf.push(c);
    assert(buf@ == old(buf)@ + digits_of(n as nat));
}

/// Appends `n`, written in decimal, to `buf`.
pub fn push_decimal(buf: &mut Vec<char>, n: i64)
    ensures
        final(buf)@ == old(buf)@ + decimal_text(n as int),
{
    if n < 0 {
        buf.push('-');
        let magnitude: u64 = if n == i64::MIN {
            0x8000_0000_0000_0000
        } else {
            (-n) as u64
        };
        push_digits(buf, magnitude);
        assert(buf@ == old(buf)@ + decimal_text(n as int));
    } else {
        push_digits(buf, n as u64);
    }
}

} // verus!
