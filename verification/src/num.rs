//! Whole-number arithmetic that the rest of the library shares.

use vstd::prelude::*;

verus! {

/// The larger of two.
pub open spec fn larger(a: int, b: int) -> int {
    if a >= b {
        a
    } else {
        b
    }
}

/// The smaller of two.
pub open spec fn smaller(a: int, b: int) -> int {
    if a <= b {
        a
    } else {
        b
    }
}

pub fn max(a: usize, b: usize) -> (r: usize)
    ensures
        r == larger(a as int, b as int),
{
    if a >= b {
        a
    } else {
        b
    }
}

pub fn min(a: usize, b: usize) -> (r: usize)
    ensures
        r == smaller(a as int, b as int),
{
    if a <= b {
        a
    } else {
        b
    }
}

pub fn max_signed(a: i64, b: i64) -> (r: i64)
    ensures
        r == larger(a as int, b as int),
{
    if a >= b {
        a
    } else {
        b
    }
}

/// `v` held between `lo` and `hi`.
pub open spec fn within(v: int, lo: int, hi: int) -> int {
    if v < lo {
        lo
    } else if v > hi {
        hi
    } else {
        v
    }
}

/// The remainder that is never negative.
pub fn wrap(a: i64, span: i64) -> (r: i64)
    requires
        span > 0,
    ensures
        r == a as int % span as int,
        0 <= r < span,
{
    match a.checked_rem_euclid(span) {
        Some(r) => r,
        None => 0,
    }
}

/// The whole number of spans below `a`, rounding down.
pub fn spans_below(a: i64, span: i64) -> (r: i64)
    requires
        span > 0,
    ensures
        r == a as int / span as int,
{
    proof {
        assert(i64::MIN <= a as int / span as int <= i64::MAX) by (nonlinear_arith)
            requires
                span > 0,
                i64::MIN <= a <= i64::MAX,
        ;
    }
    match a.checked_div_euclid(span) {
        Some(r) => r,
        None => 0,
    }
}

/// The whole number nearest to `a / b`, a half going up.
pub open spec fn nearest(a: int, b: int) -> int {
    (2 * a + b) / (2 * b)
}

/// The nearest whole number is within a half of the ratio.
pub proof fn nearest_is_near(a: int, b: int)
    requires
        a >= 0,
        b > 0,
    ensures
        nearest(a, b) >= 0,
        2 * b * nearest(a, b) <= 2 * a + b,
        2 * a + b < 2 * b * nearest(a, b) + 2 * b,
{
    vstd::arithmetic::div_mod::lemma_fundamental_div_mod(2 * a + b, 2 * b);
    vstd::arithmetic::div_mod::lemma_mod_bound(2 * a + b, 2 * b);
    vstd::arithmetic::div_mod::lemma_div_pos_is_pos(2 * a + b, 2 * b);
    assert((2 * b) * nearest(a, b) == 2 * b * nearest(a, b)) by (nonlinear_arith);
}

/// Whatever whole number is within a half of the ratio is the nearest one.
pub proof fn nearest_is_the_one(a: int, b: int, n: int)
    requires
        b > 0,
        2 * b * n <= 2 * a + b,
        2 * a + b < 2 * b * n + 2 * b,
    ensures
        nearest(a, b) == n,
{
    let r = 2 * a + b - 2 * b * n;
    assert((2 * b) * n + r == 2 * a + b) by (nonlinear_arith)
        requires
            r == 2 * a + b - 2 * b * n,
    ;
    assert(n * (2 * b) == (2 * b) * n) by (nonlinear_arith);
    vstd::arithmetic::div_mod::lemma_fundamental_div_mod_converse(2 * a + b, 2 * b, n, r);
}

/// The whole number nearest to `a / b`, a half going up.
pub fn round_ratio(a: usize, b: usize) -> (r: usize)
    requires
        b > 0,
    ensures
        r == nearest(a as int, b as int),
        r <= a,
{
    let q: usize = a / b;
    let m: usize = a % b;
    proof {
        vstd::arithmetic::div_mod::lemma_fundamental_div_mod(a as int, b as int);
    }
    let n: usize = if m >= b - m {
        assert(q + 1 <= a) by (nonlinear_arith)
            requires
                a == b * q + m,
                m >= b - m,
                m < b,
                b > 0,
                q >= 0,
        ;
        q + 1
    } else {
        assert(q <= a) by (nonlinear_arith)
            requires
                a == b * q + m,
                m >= 0,
                b > 0,
                q >= 0,
        ;
        q
    };
    proof {
        assert(2 * b * n <= 2 * a + b && 2 * a + b < 2 * b * n + 2 * b) by (nonlinear_arith)
            requires
                a == b * q + m,
                0 <= m < b,
                (m >= b - m && n == q + 1) || (m < b - m && n == q),
        ;
        nearest_is_the_one(a as int, b as int, n as int);
    }
    n
}

} // verus!
