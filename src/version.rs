//! Ordering of date-style version strings (`2024.01.15`, `v2024.01.15`).

use vstd::prelude::*;
use crate::text::chars_of;

verus! {

/// Whether `c` is one of the ASCII digits `0`..`9`.
pub open spec fn is_ascii_digit(c: char) -> bool {
    '0' <= c && c <= '9'
}

/// `v` without its marker: one leading character that is not a digit is dropped.
pub open spec fn strip_marker(v: Seq<char>) -> Seq<char> {
    if v.len() > 0 && !is_ascii_digit(v[0]) {
        v.skip(1)
    } else {
        v
    }
}

/// Strict lexicographic order on character sequences, by code point.
pub open spec fn text_less(a: Seq<char>, b: Seq<char>) -> bool
    decreases a.len(),
{
    if b.len() == 0 {
        false
    } else if a.len() == 0 {
        true
    } else if a[0] != b[0] {
        (a[0] as u32) < (b[0] as u32)
    } else {
        text_less(a.skip(1), b.skip(1))
    }
}

/// Whether `latest` names a newer version than `current`.
pub open spec fn is_newer(current: Seq<char>, latest: Seq<char>) -> bool {
    text_less(strip_marker(current), strip_marker(latest))
}

proof fn lemma_text_less_step(a: Seq<char>, b: Seq<char>, i: int)
    requires
        0 <= i < a.len(),
        i < b.len(),
        a[i] == b[i],
    ensures
        text_less(a.skip(i), b.skip(i)) == text_less(a.skip(i + 1), b.skip(i + 1)),
{
    assert(a.skip(i).skip(1) =~= a.skip(i + 1));
    assert(b.skip(i).skip(1) =~= b.skip(i + 1));
}

/// Whether `a` sorts strictly before `b`.
pub fn less_exec(a: &Vec<char>, b: &Vec<char>) -> (r: bool)
    ensures
        r == text_less(a@, b@),
{
    let mut i: usize = 0;
    assert(a@.skip(0) =~= a@);
    assert(b@.skip(0) =~= b@);
    while i < a.len() && i < b.len()
        invariant
            i <= a@.len(),
            i <= b@.len(),
            text_less(a@, b@) == text_less(a@.skip(i as int), b@.skip(i as int)),
        decreases a.len() - i,
    {
        if a[i] != b[i] {
            return (a[i] as u32) < (b[i] as u32);
        }
        proof {
            lemma_text_less_step(a@, b@, i as int);
        }
        i = i + 1;
    }
    i < b.len()
}

/// `v` without its marker character, as characters.
fn strip_marker_exec(v: &str) -> (r: Vec<char>)
    ensures
        r@ == strip_marker(v@),
{
    let cs = chars_of(v);
    if cs.len() > 0 && !('0' <= cs[0] && cs[0] <= '9') {
        let mut out: Vec<char> = Vec::new();
        let mut i: usize = 1;
        while i < cs.len()
            invariant
                1 <= i <= cs@.len(),
                out@ == cs@.subrange(1, i as int),
            decreases cs.len() - i,
        {
            out.push(cs[i]);
            i = i + 1;
            assert(out@ =~= cs@.subrange(1, i as int));
        }
        assert(out@ =~= cs@.skip(1));
        out
    } else {
        cs
    }
}

/// Whether `latest` is a newer version than `current`; see [`is_newer`].
pub fn is_newer_exec(current: &str, latest: &str) -> (r: bool)
    ensures
        r == is_newer(current@, latest@),
{
    let c = strip_marker_exec(current);
    let l = strip_marker_exec(latest);
    less_exec(&c, &l)
}

proof fn lemma_text_less_irreflexive(a: Seq<char>)
    ensures
        !text_less(a, a),
    decreases a.len(),
{
    if a.len() > 0 {
        lemma_text_less_irreflexive(a.skip(1));
    }
}

proof fn lemma_text_less_asymmetric(a: Seq<char>, b: Seq<char>)
    requires
        text_less(a, b),
    ensures
        !text_less(b, a),
    decreases a.len(),
{
    if a.len() > 0 && b.len() > 0 && a[0] == b[0] {
        lemma_text_less_asymmetric(a.skip(1), b.skip(1));
    }
}

proof fn lemma_text_less_transitive(a: Seq<char>, b: Seq<char>, c: Seq<char>)
    requires
        text_less(a, b),
        text_less(b, c),
    ensures
        text_less(a, c),
    decreases a.len(),
{
    if a.len() > 0 && a[0] == b[0] && b[0] == c[0] {
        lemma_text_less_transitive(a.skip(1), b.skip(1), c.skip(1));
    }
}

/// No version is newer than itself, whether or not it carries a marker.
pub proof fn lemma_not_newer_than_itself(v: Seq<char>)
    ensures
        !is_newer(v, v),
{
    lemma_text_less_irreflexive(strip_marker(v));
}

/// Of two versions, at most one is newer than the other.
pub proof fn lemma_newer_antisymmetric(v1: Seq<char>, v2: Seq<char>)
    ensures
        !(is_newer(v1, v2) && is_newer(v2, v1)),
{
    if is_newer(v1, v2) {
        lemma_text_less_asymmetric(strip_marker(v1), strip_marker(v2));
    }
}

/// Being newer is transitive.
pub proof fn lemma_newer_transitive(v1: Seq<char>, v2: Seq<char>, v3: Seq<char>)
    requires
        is_newer(v1, v2),
        is_newer(v2, v3),
    ensures
        is_newer(v1, v3),
{
    lemma_text_less_transitive(strip_marker(v1), strip_marker(v2), strip_marker(v3));
}

/// A day (or month) written with two digits, as in `2024.01.05`.
pub open spec fn two_digits(n: nat) -> Seq<char> {
    seq![crate::digits::digit_char(n / 10), crate::digits::digit_char(n % 10)]
}

proof fn lemma_text_less_common_prefix(q: Seq<char>, x: Seq<char>, y: Seq<char>)
    ensures
        text_less(q + x, q + y) == text_less(x, y),
    decreases q.len(),
{
    if q.len() > 0 {
        assert((q + x).skip(1) =~= q.skip(1) + x);
        assert((q + y).skip(1) =~= q.skip(1) + y);
        lemma_text_less_common_prefix(q.skip(1), x, y);
    } else {
        assert(q + x =~= x);
        assert(q + y =~= y);
    }
}

/// Of two versions that differ only in their last two digits (the day of
/// `year.month.`, written after the same `prefix`), the later day is newer.
pub proof fn lemma_later_day_is_newer(prefix: Seq<char>, d1: nat, d2: nat)
    requires
        prefix.len() > 0,
        d1 < d2 < 100,
    ensures
        is_newer(prefix + two_digits(d1), prefix + two_digits(d2)),
{
    let x = two_digits(d1);
    let y = two_digits(d2);
    assert(strip_marker(prefix + x) =~= strip_marker(prefix) + x);
    assert(strip_marker(prefix + y) =~= strip_marker(prefix) + y);
    lemma_text_less_common_prefix(strip_marker(prefix), x, y);
    assert(d1 / 10 < 10 && d2 / 10 < 10);
    let c1 = crate::digits::digit_char(d1 / 10);
    let c2 = crate::digits::digit_char(d2 / 10);
    assert(c1 as u32 == d1 / 10 + 48);
    assert(c2 as u32 == d2 / 10 + 48);
    if d1 / 10 != d2 / 10 {
        assert(d1 / 10 < d2 / 10) by (nonlinear_arith)
            requires
                d1 < d2,
                d1 / 10 != d2 / 10,
        ;
        assert(x[0] == c1 && y[0] == c2);
        assert(c1 != c2);
        assert(text_less(x, y));
    } else {
        assert(crate::digits::digit_char(d1 % 10) as u32 == d1 % 10 + 48);
        assert(crate::digits::digit_char(d2 % 10) as u32 == d2 % 10 + 48);
        assert(d1 % 10 < d2 % 10) by (nonlinear_arith)
            requires
                d1 < d2,
                d1 / 10 == d2 / 10,
        ;
        assert(x.skip(1) =~= seq![crate::digits::digit_char(d1 % 10)]);
        assert(y.skip(1) =~= seq![crate::digits::digit_char(d2 % 10)]);
        assert(x[0] == y[0]);
        assert(text_less(x.skip(1), y.skip(1)));
        assert(text_less(x, y));
    }
}

/// Three versions of the same year and month with increasing days are
/// newer in turn, and the last is newer than the first.
pub proof fn lemma_increasing_days_are_newer(prefix: Seq<char>, d1: nat, d2: nat, d3: nat)
    requires
        prefix.len() > 0,
        d1 < d2 < d3 < 100,
    ensures
        is_newer(prefix + two_digits(d1), prefix + two_digits(d2)),
        is_newer(prefix + two_digits(d2), prefix + two_digits(d3)),
        is_newer(prefix + two_digits(d1), prefix + two_digits(d3)),
{
    lemma_later_day_is_newer(prefix, d1, d2);
    lemma_later_day_is_newer(prefix, d2, d3);
    lemma_newer_transitive(prefix + two_digits(d1), prefix + two_digits(d2), prefix + two_digits(d3));
}

} // verus!
