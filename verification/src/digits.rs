//! Decimal numerals: rendering a `u64` as its decimal digits and parsing
//! a digit string back, both against an exact mathematical model.

use vstd::prelude::*;
use crate::text::push_char;

verus! {

/// The digit character for a value below ten.
pub open spec fn digit_char(d: int) -> char
    recommends
        0 <= d < 10,
{
    if d == 0 {
        '0'
    } else if d == 1 {
        '1'
    } else if d == 2 {
        '2'
    } else if d == 3 {
        '3'
    } else if d == 4 {
        '4'
    } else if d == 5 {
        '5'
    } else if d == 6 {
        '6'
    } else if d == 7 {
        '7'
    } else if d == 8 {
        '8'
    } else {
        '9'
    }
}

/// The decimal numeral of `n`, most significant digit first, with no
/// leading zeros (a lone zero for `n == 0`).
pub open spec fn dec_digits(n: int) -> Seq<char>
    recommends
        n >= 0,
    decreases n,
{
    if n < 10 {
        seq![digit_char(n)]
    } else {
        dec_digits(n / 10).push(digit_char(n % 10))
    }
}

fn digit_char_exec(d: u64) -> (c: char)
    requires
        d < 10,
    ensures
        c == digit_char(d as int),
{
    match d {
        0 => '0',
        1 => '1',
        2 => '2',
        3 => '3',
        4 => '4',
        5 => '5',
        6 => '6',
        7 => '7',
        8 => '8',
        _ => '9',
    }
}

/// Renders `n` as its decimal numeral.
pub fn u64_to_dec(n: u64) -> (r: String)
    ensures
        r@ == dec_digits(n as int),
    decreases n,
{
    if n < 10 {
        let mut s = String::new();
        push_char(&mut s, digit_char_exec(n));
        proof {
            assert(s@ =~= seq![digit_char(n as int)]);
        }
        s
    } else {
        let mut s = u64_to_dec(n / 10);
        push_char(&mut s, digit_char_exec(n % 10));
        s
    }
}

/// `c` is an ASCII decimal digit.
pub open spec fn is_digit_char(c: char) -> bool {
    48 <= c as u32 <= 57
}

/// The value of the digit character `c`.
pub open spec fn digit_val(c: char) -> int {
    c as u32 - 48
}

/// Every character of `s` is an ASCII decimal digit.
pub open spec fn all_digits(s: Seq<char>) -> bool {
    forall|i: int| 0 <= i < s.len() ==> is_digit_char(#[trigger] s[i])
}

/// The value of the digit string `s`, most significant digit first.
pub open spec fn digits_val(s: Seq<char>) -> int
    decreases s.len(),
{
    if s.len() == 0 {
        0
    } else {
        digits_val(s.drop_last()) * 10 + digit_val(s.last())
    }
}

/// `s` without its optional leading `+`.
pub open spec fn parse_digits_of(s: Seq<char>) -> Seq<char> {
    if s.len() > 0 && s[0] == '+' {
        s.subrange(1, s.len() as int)
    } else {
        s
    }
}

/// What `str::parse::<u64>` returns for `s`: the digits' value, after an
/// optional leading `+`; `None` on an empty digit string, a non-digit
/// character, or a value over `u64::MAX`.
pub open spec fn parse_u64_spec(s: Seq<char>) -> Option<u64> {
    let digits = parse_digits_of(s);
    if digits.len() > 0 && all_digits(digits) && digits_val(digits) <= u64::MAX {
        Some(digits_val(digits) as u64)
    } else {
        None
    }
}

proof fn lemma_digits_val_nonneg(s: Seq<char>)
    requires
        all_digits(s),
    ensures
        digits_val(s) >= 0,
    decreases s.len(),
{
    if s.len() > 0 {
        assert(all_digits(s.drop_last()));
        lemma_digits_val_nonneg(s.drop_last());
    }
}

proof fn lemma_digits_val_prefix_le(s: Seq<char>, i: int)
    requires
        all_digits(s),
        0 <= i <= s.len(),
    ensures
        digits_val(s.take(i)) <= digits_val(s),
    decreases s.len() - i,
{
    if i < s.len() {
        lemma_digits_val_prefix_le(s, i + 1);
        assert(s.take(i + 1).drop_last() =~= s.take(i));
        assert(all_digits(s.take(i)));
        lemma_digits_val_nonneg(s.take(i));
        assert(digits_val(s.take(i + 1)) == digits_val(s.take(i)) * 10 + digit_val(s[i]));
    } else {
        assert(s.take(i) =~= s);
    }
}

/// Parses `s` as a decimal `u64`, as `str::parse::<u64>` would: an
/// optional leading `+`, then one or more digits, rejecting overflow.
pub fn parse_u64(s: &str) -> (r: Option<u64>)
    ensures
        r == parse_u64_spec(s@),
{
    let n = s.unicode_len();
    let start: usize = if n > 0 && s.get_char(0) == '+' {
        1
    } else {
        0
    };
    let ghost digits = parse_digits_of(s@);
    proof {
        assert(digits =~= s@.subrange(start as int, s@.len() as int));
    }
    if n == start {
        return None;
    }
    let mut acc: u64 = 0;
    let mut i: usize = start;
    while i < n
        invariant
            start <= i <= n,
            n == s@.len(),
            digits == parse_digits_of(s@),
            digits == s@.subrange(start as int, s@.len() as int),
            digits.len() == n - start,
            all_digits(digits.take(i - start)),
            acc == digits_val(digits.take(i - start)),
        decreases n - i,
    {
        let c = s.get_char(i);
        let u = c as u32;
        proof {
            assert(digits[i - start] == s@[i as int]);
            assert(digits.take(i - start + 1).drop_last() =~= digits.take(i - start));
        }
        if !(48 <= u && u <= 57) {
            proof {
                assert(!all_digits(digits));
            }
            return None;
        }
        let d: u64 = (u - 48) as u64;
        let m = acc.checked_mul(10);
        let next = match m {
            Some(x) => x.checked_add(d),
            None => None,
        };
        match next {
            Some(x) => {
                acc = x;
            },
            None => {
                proof {
                    assert(digits_val(digits.take(i - start + 1)) == acc * 10 + d);
                    assert(digits_val(digits.take(i - start + 1)) > u64::MAX);
                    assert(all_digits(digits.take(i - start + 1)));
                    if all_digits(digits) {
                        lemma_digits_val_prefix_le(digits, i - start + 1);
                    }
                }
                return None;
            },
        }
        i = i + 1;
    }
    proof {
        assert(digits.take(n - start) =~= digits);
    }
    Some(acc)
}

} // verus!
