//! Beats: how many frames so many of them are, of a bar that a clock says
//! the beats of, or that has four where no clock says.

use crate::bits;
use crate::bits::{INFINITY_WIDE, ONE_WIDE};
use crate::frame;
use crate::num;
use crate::wide;
use crate::wide::{FIRST, PAST};
use vstd::arithmetic::power2::pow2;
use vstd::prelude::*;

verus! {

/// The most beats a launch may wait for.
pub const MAX_BEATS: i64 = 64;

/// Whether a clock says how many beats a bar has: one at least.
pub open spec fn metred(quantum: u64) -> bool {
    bits::up_to_wide(ONE_WIDE, quantum)
}

/// How many whole beats a bar has: the nearest number that a clock says, and
/// four where none does.
pub open spec fn in_bar(quantum: u64) -> int {
    if metred(quantum) {
        num::smaller(
            wide::rounded(wide::significand(quantum), wide::exponent(quantum) - 52),
            usize::MAX as int,
        )
    } else {
        4
    }
}

/// How many whole beats a bar has.
pub fn beats_in_bar(quantum: u64) -> (r: usize)
    ensures
        r == in_bar(quantum),
{
    if bits::at_most_wide(ONE_WIDE, quantum) {
        let b: u64 = FIRST + quantum % FIRST;
        let e: i64 = (quantum / FIRST) as i64 - 1023;
        wide::round(b as u128, e - 52, usize::MAX as u64) as usize
    } else {
        4
    }
}

/// The frames of `n` beats, where a bar of so many frames has as many beats
/// as the clock says.
pub open spec fn counted(bar: int, quantum: u64, n: int) -> int {
    let (a, w) = wide::shortened(bar, 1, 0);
    let (m, s) = wide::quotient(a, wide::significand(quantum), 0);
    let (p, t) = wide::shortened(m * n, 1, 0);
    wide::rounded(p, w + t - s + 52 - wide::exponent(quantum))
}

/// The frames of `n` beats of a bar, to the nearest: quarters of it where no
/// clock says how many it has, one at least, and no more than can be waited
/// for.
pub open spec fn beats(bar: usize, quantum: u64, n: int) -> usize {
    num::within(
        if metred(quantum) {
            counted(bar as int, quantum, n)
        } else {
            (bar * n + 2) / 4
        },
        1,
        frame::furthest(),
    ) as usize
}

/// The frames of `n` beats of a bar.
pub fn frames_of(bar: usize, quantum: u64, n: i64) -> (r: usize)
    requires
        1 <= bar,
        frame::short(bar),
        1 <= n <= MAX_BEATS,
    ensures
        r == beats(bar, quantum, n as int),
        1 <= r <= frame::furthest(),
{
    let far: usize = frame::far();
    let v: u64 = if bits::at_most_wide(ONE_WIDE, quantum) {
        let (a, w) = wide::shorten(bar as u128);
        let b: u64 = FIRST + quantum % FIRST;
        let (m, s) = wide::divide(a, b as u128);
        let e: i64 = (quantum / FIRST) as i64 - 1023;
        proof {
            assert(m * n <= 64 * (2 * PAST) && m * n >= 1) by (nonlinear_arith)
                requires
                    1 <= m <= 2 * PAST,
                    1 <= n <= 64,
            ;
        }
        let (p, t) = wide::shorten(m * n as u128);
        wide::round(p, w as i64 + t as i64 - s as i64 + 52 - e, far as u64)
    } else {
        proof {
            assert(0 <= bar * n <= 64 * bar) by (nonlinear_arith)
                requires
                    0 <= bar,
                    0 <= n <= 64,
            ;
        }
        (bar as u64 * n as u64 + 2) / 4
    };
    if v < 1 {
        1
    } else if v > far as u64 {
        far
    } else {
        v as usize
    }
}

/// A beat means the same in any metre: where a clock says how many beats a
/// bar has, so many of them are that share of the bar, to within a frame.
///
/// The beats of the bar are the significand times two to the exponent, over
/// two to the fifty-second.
pub proof fn a_beat_is_its_share_of_the_bar(bar: int, quantum: u64, n: int)
    requires
        metred(quantum),
        quantum < INFINITY_WIDE,
        1 <= bar,
        1 <= n,
        bar * n <= 0x4_0000_0000_0000,
    ensures
        ({
            let whole = wide::significand(quantum) * pow2(wide::exponent(quantum) as nat);
            let frames = counted(bar, quantum, n);
            -whole <= frames * whole - bar * n * FIRST <= whole
        }),
{
    let b = wide::significand(quantum);
    let e = wide::exponent(quantum);
    assert(bar <= 0x4_0000_0000_0000 && n <= 0x4_0000_0000_0000) by (nonlinear_arith)
        requires
            bar * n <= 0x4_0000_0000_0000,
            bar >= 1,
            n >= 1,
    ;
    vstd::arithmetic::power2::lemma2_to64();
    two_to_the_fifty_second();
    wide::shortened_is_near(bar, 1, 0);
    assert(wide::shortened(bar, 1, 0) == (bar, 0nat)) by {
        assert(bar / 1 == bar && bar % 1 == 0);
    }
    let (m, s) = wide::quotient(bar, b, 0);
    assert(bar < b * PAST) by (nonlinear_arith)
        requires
            bar <= 0x4_0000_0000_0000,
            b >= FIRST,
    ;
    assert(bar * pow2(0) == bar) by (nonlinear_arith)
        requires
            pow2(0) == 1,
    ;
    wide::quotient_is_near(bar, bar, b, 0);
    let (p, t) = wide::shortened(m * n, 1, 0);
    wide::shortened_is_near(m * n, 1, 0);
    vstd::arithmetic::power2::lemma_pow2_pos(s);
    vstd::arithmetic::power2::lemma_pow2_pos(t);
    vstd::arithmetic::power2::lemma_pow2_pos(e as nat);
    let big = pow2(s) as int;
    let last = pow2(t) as int;
    let k = pow2(e as nat) as int;
    assert(0 <= m <= PAST) by (nonlinear_arith)
        requires
            2 * wide::apart(b * m, bar * big) <= b,
            b * FIRST <= bar * big < b * PAST,
            b > 0,
            FIRST > 1,
    ;
    assert(m * n >= 0) by (nonlinear_arith)
        requires
            m >= 0,
            n >= 1,
    ;
    assert(p >= 0) by (nonlinear_arith)
        requires
            2 * wide::apart(last * p, m * n) <= last,
            m * n >= 0,
            last > 0,
    ;
    // The last place of the product is two parts of the count at most.
    assert(last <= 2 * n) by (nonlinear_arith)
        requires
            last == 1 || last * FIRST <= m * n,
            m <= PAST,
            PAST == 2 * FIRST,
            n >= 1,
    ;
    assert(FIRST * (last + n) <= k * big) by (nonlinear_arith)
        requires
            last <= 2 * n,
            b * FIRST <= bar * big,
            b >= FIRST,
            bar * n <= 0x4_0000_0000_0000,
            bar >= 1,
            n >= 1,
            k >= 1,
            big >= 1,
            FIRST == 0x10_0000_0000_0000,
    ;
    wide::rounded_is_near(p, t + 52, s + e as nat);
    let r = counted(bar, quantum, n);
    assert(r == wide::rounded(p, (t + 52) - (s + e as nat)));
    vstd::arithmetic::power2::lemma_pow2_adds(t, 52);
    vstd::arithmetic::power2::lemma_pow2_adds(s, e as nat);
    gathered(r, b, m, p, n, bar, big, last, k);
}

proof fn two_to_the_fifty_second()
    ensures
        pow2(52) == FIRST,
{
    vstd::arithmetic::power2::lemma2_to64();
    vstd::arithmetic::power2::lemma_pow2_adds(32, 20);
}

/// The three roundings of a count of beats, gathered.
proof fn gathered(
    r: int,
    b: int,
    m: int,
    p: int,
    n: int,
    bar: int,
    big: int,
    last: int,
    k: int,
)
    requires
        b > 0,
        n >= 1,
        big >= 1,
        last >= 1,
        k >= 1,
        2 * wide::apart(r * (big * k), p * (last * FIRST)) <= big * k,
        2 * wide::apart(last * p, m * n) <= last,
        2 * wide::apart(b * m, bar * big) <= b,
        FIRST * (last + n) <= k * big,
    ensures
        -(b * k) <= r * (b * k) - bar * n * FIRST <= b * k,
{
    let w = FIRST as int;
    let x = r * (big * k) - p * (last * w);
    let y = (last * p - m * n) * w;
    let z = (b * m - bar * big) * (n * w);
    assert(-(big * k) <= 2 * x <= big * k);
    assert(-(last * w) <= 2 * y <= last * w) by (nonlinear_arith)
        requires
            -last <= 2 * (last * p - m * n) <= last,
            y == (last * p - m * n) * w,
            w > 0,
    ;
    assert(-(b * (n * w)) <= 2 * z <= b * (n * w)) by (nonlinear_arith)
        requires
            -b <= 2 * (b * m - bar * big) <= b,
            z == (b * m - bar * big) * (n * w),
            n >= 1,
            w > 0,
    ;
    let whole = r * (b * k) - bar * n * w;
    let first = b * (r * (big * k));
    let second = b * (p * (last * w));
    let third = b * ((m * n) * w);
    let fourth = (bar * big) * (n * w);
    assert(b * x == first - second) by (nonlinear_arith)
        requires
            x == r * (big * k) - p * (last * w),
            first == b * (r * (big * k)),
            second == b * (p * (last * w)),
    ;
    assert(y == p * (last * w) - (m * n) * w) by (nonlinear_arith)
        requires
            y == (last * p - m * n) * w,
    ;
    assert(b * y == second - third) by (nonlinear_arith)
        requires
            y == p * (last * w) - (m * n) * w,
            second == b * (p * (last * w)),
            third == b * ((m * n) * w),
    ;
    assert(z == third - fourth) by (nonlinear_arith)
        requires
            z == (b * m - bar * big) * (n * w),
            third == b * ((m * n) * w),
            fourth == (bar * big) * (n * w),
    ;
    assert((r * (b * k)) * big == first) by (nonlinear_arith)
        requires
            first == b * (r * (big * k)),
    ;
    assert((bar * n * w) * big == fourth) by (nonlinear_arith)
        requires
            fourth == (bar * big) * (n * w),
    ;
    assert(whole * big == (r * (b * k)) * big - (bar * n * w) * big) by (nonlinear_arith)
        requires
            whole == r * (b * k) - bar * n * w,
    ;
    assert(b * (x + y) == b * x + b * y) by (nonlinear_arith);
    assert(-(b * (big * k + last * w)) <= 2 * (b * (x + y)) <= b * (big * k + last * w)) by (
    nonlinear_arith)
        requires
            -(big * k + last * w) <= 2 * (x + y) <= big * k + last * w,
            b > 0,
    ;
    assert(b * (big * k + last * w) + b * (n * w) == b * (big * k) + b * (w * (last + n)))
        by (nonlinear_arith);
    assert(b * (w * (last + n)) <= b * (k * big)) by (nonlinear_arith)
        requires
            w * (last + n) <= k * big,
            b > 0,
    ;
    assert(b * (k * big) == b * (big * k) && b * (big * k) == (b * k) * big) by (nonlinear_arith);
    assert(-(2 * ((b * k) * big)) <= 2 * (whole * big) <= 2 * ((b * k) * big));
    assert(-(b * k) <= whole <= b * k) by (nonlinear_arith)
        requires
            -((b * k) * big) <= whole * big <= (b * k) * big,
            big >= 1,
    ;
}

/// Where no clock says how many beats a bar has, a bar has four: so many
/// beats are that many quarters of it, to the nearest frame.
pub proof fn a_bar_has_four_beats_where_no_clock_says(bar: usize, quantum: u64, n: int)
    requires
        !metred(quantum),
        1 <= n,
        2 <= bar * n,
        bar * n + 2 <= frame::furthest(),
    ensures
        -2 <= 4 * beats(bar, quantum, n) - bar * n <= 2,
        in_bar(quantum) == 4,
        n == 4 ==> beats(bar, quantum, n) == bar,
{
}

} // verus!
