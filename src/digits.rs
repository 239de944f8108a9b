//! Decimal digits: their values, and the decimal rendering of numbers.

use vstd::prelude::*;
use crate::text::push_char;

verus! {

/// Whether `c` is one of the ASCII digits `0`..`9`.
pub open spec fn is_digit(c: char) -> bool {
    '0' <= c && c <= '9'
}

/// The value of the digit `c`.
pub open spec fn digit_value(c: char) -> nat {
    ((c as u32) as int - 48) as nat
}

/// The digit character for `d`, which is below ten.
pub open spec fn digit_char(d: nat) -> char {
    ((d + 48) as u8) as char
}

/// The value of a sequence of digits read in base ten (zero when empty).
pub open spec fn digits_value(d: Seq<char>) -> nat
    decreases d.len(),
{
    if d.len() == 0 {
        0
    } else {
        digits_value(d.drop_last()) * 10 + digit_value(d.last())
    }
}

/// Whether every character of `d` is a digit.
pub open spec fn all_digits(d: Seq<char>) -> bool {
    forall|i: int| 0 <= i < d.len() ==> is_digit(#[trigger] d[i])
}

/// The usual decimal rendering of `n`, without leading zeros.
pub open spec fn decimal(n: nat) -> Seq<char>
    decreases n,
{
    if n < 10 {
        seq![digit_char(n)]
    } else {
        decimal(n / 10).push(digit_char(n % 10))
    }
}

/// The digit character for `d`.
pub fn digit_char_exec(d: u64) -> (c: char)
    requires
        d < 10,
    ensures
        c == digit_char(d as nat),
        is_digit(c),
{
    let b: u8 = (d as u8) + 48;
    b as char
}

/// The value of the digit `c`.
pub fn digit_value_exec(c: char) -> (d: u64)
    requires
        is_digit(c),
    ensures
        d == digit_value(c),
        d < 10,
{
    ((c as u32) - 48) as u64
}

/// The decimal rendering of `n`.
pub fn decimal_string(n: u64) -> (r: String)
    ensures
        r@ == decimal(n as nat),
    decreases n,
{
    if n < 10 {
        let mut s = String::new();
        push_char(&mut s, digit_char_exec(n));
        assert(s@ =~= seq![digit_char(n as nat)]);
        s
    } else {
        let mut s = decimal_string(n / 10);
        push_char(&mut s, digit_char_exec(n % 10));
        s
    }
}

/// Appends the decimal rendering of `n` to `out`.
pub fn push_decimal(out: &mut String, n: u64)
    ensures
        final(out)@ == old(out)@ + decimal(n as nat),
{
    let d = decimal_string(n);
    out.append(d.as_str());
}

/// The value of the digits `d`, capped at `cap`.
pub fn digits_value_capped(d: &Vec<char>, from: usize, to: usize, cap: u64) -> (r: u64)
    requires
        from <= to <= d@.len(),
        all_digits(d@.subrange(from as int, to as int)),
        cap <= u64::MAX / 16,
    ensures
        r as nat == if digits_value(d@.subrange(from as int, to as int)) < cap {
            digits_value(d@.subrange(from as int, to as int))
        } else {
            cap as nat
        },
{
    let mut acc: u64 = 0;
    let mut k: usize = from;
    assert(d@.subrange(from as int, from as int) =~= Seq::<char>::empty());
    while k < to
        invariant
            from <= k <= to <= d@.len(),
            all_digits(d@.subrange(from as int, to as int)),
            cap <= u64::MAX / 16,
            acc <= cap,
            acc as nat == if digits_value(d@.subrange(from as int, k as int)) < cap {
                digits_value(d@.subrange(from as int, k as int))
            } else {
                cap as nat
            },
        decreases to - k,
    {
        assert(d@.subrange(from as int, to as int)[k - from] == d@[k as int]);
        let v = digit_value_exec(d[k]);
        let ghost prev = d@.subrange(from as int, k as int);
        let ghost next = d@.subrange(from as int, k + 1);
        assert(next.drop_last() =~= prev);
        assert(next.last() == d@[k as int]);
        assert(digits_value(next) == digits_value(prev) * 10 + v);
        let t = acc * 10 + v;
        acc = if t < cap {
            t
        } else {
            cap
        };
        k = k + 1;
    }
    acc
}

} // verus!
