//! Real numbers of sixty-four bits, worked on as whole numbers: fifty-three
//! bits times a power of two, each step taken to the nearest and a half to
//! the even one, as the bits of a real number are.

use crate::frame::LIMIT;
use crate::num;
use vstd::arithmetic::power2::pow2;
use vstd::prelude::*;

verus! {

/// Two to the fifty-second, where a number of fifty-three bits begins.
pub const FIRST: u64 = 0x10_0000_0000_0000;

/// Two to the fifty-third, where it ends.
pub const PAST: u64 = 0x20_0000_0000_0000;

/// The whole number a real number that is not tiny is, but for its power of
/// two.
pub open spec fn significand(b: u64) -> int {
    FIRST + b as int % FIRST as int
}

/// The power of two of such a number, beside the fifty-two bits after its
/// point.
pub open spec fn exponent(b: u64) -> int {
    b as int / FIRST as int - 1023
}

/// The whole number nearest to `a / b`, a half going to the even one.
pub open spec fn even_nearest(a: int, b: int) -> int {
    let q = a / b;
    let r = a % b;
    if 2 * r < b || (2 * r == b && q % 2 == 0) {
        q
    } else {
        q + 1
    }
}

/// `m / d` in fifty-three bits at most, and how many times `d` was doubled
/// for that, from `t` on.
pub open spec fn shortened(m: int, d: int, t: nat) -> (int, nat)
    decreases m - d,
{
    if d <= 0 || m < d * PAST {
        (even_nearest(m, d), t)
    } else {
        shortened(m, 2 * d, t + 1)
    }
}

/// `a / b` in fifty-three bits, and how many times `a` was doubled for that,
/// from `s` on.
pub open spec fn quotient(a: int, b: int, s: nat) -> (int, nat)
    decreases
            (if a < b * FIRST {
                b * FIRST - a
            } else {
                0
            }),
{
    if a <= 0 || a >= b * FIRST {
        (even_nearest(a, b), s)
    } else {
        quotient(2 * a, b, s + 1)
    }
}

/// The whole number nearest to `p` times two to the `x`.
pub open spec fn rounded(p: int, x: int) -> int {
    if x >= 0 {
        p * pow2(x as nat)
    } else {
        num::nearest(p, pow2((-x) as nat) as int)
    }
}

/// The whole number nearest to `a` over a real number that is not tiny.
pub open spec fn over(a: int, b: u64) -> int {
    let (a, w) = shortened(a, 1, 0);
    let (m, s) = quotient(a, significand(b), 0);
    rounded(m, w - s + 52 - exponent(b))
}

/// A whole number doubled until it has fifty-three bits, and how often, from
/// `s` on.
pub open spec fn lifted(m: int, s: nat) -> (int, nat)
    decreases
            (if m < FIRST {
                FIRST - m
            } else {
                0
            }),
{
    if m <= 0 || m >= FIRST {
        (m, s)
    } else {
        lifted(2 * m, s + 1)
    }
}

/// The bits of a whole number as a real one.
pub open spec fn of_whole(n: int) -> u64 {
    if n <= 0 {
        0
    } else {
        let (m, w) = shortened(n, 1, 0);
        let (l, s) = lifted(m, 0);
        ((1023 + 52 + w - s) * FIRST + (l - FIRST)) as u64
    }
}

fn to_even(a: u128, b: u128) -> (r: u128)
    requires
        b > 0,
        b <= 0x4000_0000_0000_0000_0000_0000_0000_0000,
    ensures
        r == even_nearest(a as int, b as int),
        b * r <= a + b,
        a < b * r + b,
{
    let q: u128 = a / b;
    let m: u128 = a % b;
    proof {
        vstd::arithmetic::div_mod::lemma_fundamental_div_mod(a as int, b as int);
        assert(b * (q + 1) == b * q + b) by (nonlinear_arith);
        assert(q <= a) by (nonlinear_arith)
            requires
                a == b * q + m,
                b >= 1,
                m >= 0,
                q >= 0,
        ;
    }
    if 2 * m < b || (2 * m == b && q % 2 == 0) {
        q
    } else {
        assert(q < u128::MAX) by (nonlinear_arith)
            requires
                a == b * q + m,
                2 * m >= b,
                m < b,
                a <= u128::MAX,
                b >= 1,
        ;
        q + 1
    }
}

pub fn shorten(m: u128) -> (r: (u128, u32))
    requires
        m <= 0x1000_0000_0000_0000,
    ensures
        (r.0 as int, r.1 as nat) == shortened(m as int, 1, 0),
        r.0 <= PAST,
        r.1 <= 8,
        m >= 1 ==> r.0 >= 1,
{
    let mut d: u128 = 1;
    let mut t: u32 = 0;
    proof {
        vstd::arithmetic::power2::lemma2_to64();
    }
    while m >= d * PAST as u128
        invariant
            m <= 0x1000_0000_0000_0000,
            1 <= d <= 256,
            d == 1 || 2 * m >= d * PAST,
            d == pow2(t as nat),
            t <= 8,
            shortened(m as int, 1, 0) == shortened(m as int, d as int, t as nat),
        decreases 256 - d,
    {
        proof {
            vstd::arithmetic::power2::lemma_pow2_unfold((t + 1) as nat);
            vstd::arithmetic::power2::lemma2_to64();
        }
        d = 2 * d;
        t = t + 1;
    }
    let r: u128 = to_even(m, d);
    proof {
        assert(r <= PAST) by (nonlinear_arith)
            requires
                d * r <= m + d,
                m < d * PAST,
                d >= 1,
        ;
        assert(m >= 1 ==> r >= 1) by (nonlinear_arith)
            requires
                m < d * r + d,
                d == 1 || 2 * m >= d * PAST,
                d >= 1,
                r >= 0,
        ;
    }
    (r, t)
}

pub fn divide(a: u128, b: u128) -> (r: (u128, u32))
    requires
        1 <= a <= PAST,
        FIRST <= b <= PAST,
    ensures
        (r.0 as int, r.1 as nat) == quotient(a as int, b as int, 0),
        1 <= r.0 <= 2 * PAST,
        r.1 <= 128,
{
    let ghost first = a as int;
    let mut a: u128 = a;
    let mut s: u32 = 0;
    proof {
        vstd::arithmetic::power2::lemma2_to64();
        vstd::arithmetic::power2::lemma_pow2_adds(64, 64);
    }
    while a < b * FIRST as u128
        invariant
            FIRST <= b <= PAST,
            1 <= a,
            a <= 2 * (b * FIRST),
            a >= pow2(s as nat),
            s <= 128,
            pow2(128) > PAST * PAST,
            quotient(first, b as int, 0) == quotient(a as int, b as int, s as nat),
        decreases 2 * (b * FIRST) - a,
    {
        proof {
            vstd::arithmetic::power2::lemma_pow2_unfold((s + 1) as nat);
            assert(b * FIRST <= PAST * FIRST) by (nonlinear_arith)
                requires
                    b <= PAST,
            ;
        }
        a = 2 * a;
        s = s + 1;
    }
    proof {
        assert(b * FIRST <= PAST * FIRST) by (nonlinear_arith)
            requires
                b <= PAST,
        ;
    }
    let r: u128 = to_even(a, b);
    proof {
        assert(1 <= r <= 2 * PAST) by (nonlinear_arith)
            requires
                b * r <= a + b,
                a < b * r + b,
                a <= 2 * (b * FIRST),
                a >= b * FIRST,
                2 * FIRST == PAST,
                FIRST > 1,
                b >= 1,
        ;
    }
    (r, s)
}

/// Two to a power.
pub fn two_to(n: u32) -> (r: u128)
    requires
        n <= 64,
    ensures
        r == pow2(n as nat),
        1 <= r <= 0x1_0000_0000_0000_0000,
{
    let mut r: u128 = 1;
    let mut i: u32 = 0;
    proof {
        vstd::arithmetic::power2::lemma2_to64();
    }
    while i < n
        invariant
            i <= n <= 64,
            r == pow2(i as nat),
            pow2(64) == 0x1_0000_0000_0000_0000,
        decreases n - i,
    {
        proof {
            vstd::arithmetic::power2::lemma_pow2_unfold((i + 1) as nat);
            if i + 1 < 64 {
                vstd::arithmetic::power2::lemma_pow2_strictly_increases((i + 1) as nat, 64);
            }
        }
        r = 2 * r;
        i = i + 1;
    }
    proof {
        vstd::arithmetic::power2::lemma_pow2_pos(n as nat);
        if n < 64 {
            vstd::arithmetic::power2::lemma_pow2_strictly_increases(n as nat, 64);
        }
    }
    r
}

/// The nearest whole number, up to `most`.
pub fn round(p: u128, x: i64, most: u64) -> (r: u64)
    requires
        p <= 2 * PAST,
    ensures
        r == num::smaller(rounded(p as int, x as int), most as int),
{
    proof {
        vstd::arithmetic::power2::lemma2_to64();
    }
    let v: u128 = if x >= 64 {
        proof {
            if x > 64 {
                vstd::arithmetic::power2::lemma_pow2_strictly_increases(64, x as nat);
            }
            assert(p >= 1 ==> p * pow2(x as nat) >= pow2(64)) by (nonlinear_arith)
                requires
                    pow2(x as nat) >= pow2(64),
            ;
            assert(p == 0 ==> p * pow2(x as nat) == 0) by (nonlinear_arith);
        }
        if p == 0 {
            0
        } else {
            most as u128
        }
    } else if x >= 0 {
        let d: u128 = two_to(x as u32);
        proof {
            assert(p * d <= 2 * PAST * 0x1_0000_0000_0000_0000) by (nonlinear_arith)
                requires
                    p <= 2 * PAST,
                    d <= 0x1_0000_0000_0000_0000,
            ;
        }
        p * d
    } else if x <= -64 {
        proof {
            let k = -x as nat;
            if k > 64 {
                vstd::arithmetic::power2::lemma_pow2_strictly_increases(64, k);
            }
            num::nearest_is_the_one(p as int, pow2(k) as int, 0);
        }
        0
    } else {
        let d: u128 = two_to((-x) as u32);
        (2 * p + d) / (2 * d)
    };
    if v > most as u128 {
        most
    } else {
        v as u64
    }
}

/// The whole number nearest to `a` over a real number that is not tiny, up
/// to `most`.
pub fn divided(a: u64, b: u64, most: u64) -> (r: u64)
    requires
        a <= LIMIT,
        FIRST <= b < 0x8000_0000_0000_0000,
    ensures
        r == num::smaller(over(a as int, b), most as int),
{
    let (n, w) = shorten(a as u128);
    let d: u64 = FIRST + b % FIRST;
    let (m, s): (u128, u32) = if n == 0 {
        assert(even_nearest(0, significand(b)) == 0) by {
            vstd::arithmetic::div_mod::lemma_fundamental_div_mod_converse(0, significand(b), 0, 0);
        }
        (0, 0)
    } else {
        divide(n, d as u128)
    };
    let e: i64 = (b / FIRST) as i64 - 1023;
    round(m, w as i64 - s as i64 + 52 - e, most)
}

fn lift(m: u128) -> (r: (u128, u32))
    requires
        1 <= m <= PAST,
    ensures
        (r.0 as int, r.1 as nat) == lifted(m as int, 0),
        FIRST <= r.0 <= PAST,
        r.1 <= 64,
{
    let ghost first = m as int;
    let mut m: u128 = m;
    let mut s: u32 = 0;
    proof {
        vstd::arithmetic::power2::lemma2_to64();
    }
    while m < FIRST as u128
        invariant
            1 <= m <= PAST,
            m >= pow2(s as nat),
            s <= 64,
            pow2(64) > PAST,
            lifted(first, 0) == lifted(m as int, s as nat),
        decreases PAST - m,
    {
        proof {
            vstd::arithmetic::power2::lemma_pow2_unfold((s + 1) as nat);
        }
        m = 2 * m;
        s = s + 1;
    }
    (m, s)
}

/// The bits of a whole number as a real one.
pub fn whole(n: u64) -> (r: u64)
    requires
        n <= LIMIT,
    ensures
        r == of_whole(n as int),
{
    if n == 0 {
        return 0;
    }
    let (m, w) = shorten(n as u128);
    let (l, s) = lift(m);
    let e: u64 = 1075 + w as u64 - s as u64;
    e * FIRST + (l as u64 - FIRST)
}

/// How far apart two numbers are.
pub open spec fn apart(a: int, b: int) -> int {
    if a < b {
        b - a
    } else {
        a - b
    }
}

/// The nearest whole number is within a half.
pub proof fn even_nearest_is_near(a: int, b: int)
    requires
        b > 0,
    ensures
        2 * apart(b * even_nearest(a, b), a) <= b,
{
    let q = a / b;
    vstd::arithmetic::div_mod::lemma_fundamental_div_mod(a, b);
    vstd::arithmetic::div_mod::lemma_mod_bound(a, b);
    assert(b * (q + 1) == b * q + b) by (nonlinear_arith);
}

/// What is shortened is off by half of its last place at most, and only what
/// is long is shortened.
pub proof fn shortened_is_near(m: int, d: int, t: nat)
    requires
        d == pow2(t),
        t == 0 || d * FIRST <= m,
    ensures
        ({
            let (p, u) = shortened(m, d, t);
            &&& 2 * apart(pow2(u) * p, m) <= pow2(u)
            &&& u == 0 || pow2(u) * FIRST <= m
            &&& u == 0 ==> p == m
        }),
    decreases m - d,
{
    vstd::arithmetic::power2::lemma_pow2_pos(t);
    if m < d * PAST {
        even_nearest_is_near(m, d);
        if t == 0 {
            vstd::arithmetic::power2::lemma2_to64();
            assert(m / 1 == m && m % 1 == 0);
        }
    } else {
        vstd::arithmetic::power2::lemma_pow2_unfold(t + 1);
        assert((2 * d) * FIRST == d * PAST) by (nonlinear_arith)
            requires
                2 * FIRST == PAST,
        ;
        shortened_is_near(m, 2 * d, t + 1);
    }
}

/// A quotient is off by half of its last place at most, and has fifty-three
/// bits.
pub proof fn quotient_is_near(first: int, a: int, b: int, s: nat)
    requires
        0 < first,
        0 < b,
        a == first * pow2(s),
        a < b * PAST,
    ensures
        ({
            let (m, u) = quotient(a, b, s);
            &&& 2 * apart(b * m, first * pow2(u)) <= b
            &&& b * FIRST <= first * pow2(u) < b * PAST
        }),
    decreases
            (if a < b * FIRST {
                b * FIRST - a
            } else {
                0
            }),
{
    vstd::arithmetic::power2::lemma_pow2_pos(s);
    assert(a > 0) by (nonlinear_arith)
        requires
            a == first * pow2(s),
            first > 0,
            pow2(s) > 0,
    ;
    if a >= b * FIRST {
        even_nearest_is_near(a, b);
    } else {
        vstd::arithmetic::power2::lemma_pow2_unfold(s + 1);
        assert(2 * a == first * pow2(s + 1)) by (nonlinear_arith)
            requires
                a == first * pow2(s),
                pow2(s + 1) == 2 * pow2(s),
        ;
        assert(b * PAST == 2 * (b * FIRST)) by (nonlinear_arith)
            requires
                2 * FIRST == PAST,
        ;
        quotient_is_near(first, 2 * a, b, s + 1);
    }
}

/// A rounded number is off by a half at most: `up` and `down` are how far its
/// power of two goes either way.
pub proof fn rounded_is_near(p: int, up: nat, down: nat)
    requires
        p >= 0,
    ensures
        2 * apart(rounded(p, up - down) * pow2(down), p * pow2(up)) <= pow2(down),
{
    vstd::arithmetic::power2::lemma_pow2_pos(down);
    vstd::arithmetic::power2::lemma_pow2_pos(up);
    if up >= down {
        let x = (up - down) as nat;
        vstd::arithmetic::power2::lemma_pow2_adds(x, down);
        assert(p * pow2(x) * pow2(down) == p * pow2(up)) by (nonlinear_arith)
            requires
                pow2(x) * pow2(down) == pow2(up),
        ;
    } else {
        let k = (down - up) as nat;
        vstd::arithmetic::power2::lemma_pow2_pos(k);
        vstd::arithmetic::power2::lemma_pow2_adds(k, up);
        num::nearest_is_near(p, pow2(k) as int);
        let r = num::nearest(p, pow2(k) as int);
        let d = pow2(k) as int;
        let u = pow2(up) as int;
        assert(r * pow2(down) == r * d * u && 2 * d * r == 2 * (r * d)) by (nonlinear_arith)
            requires
                d * u == pow2(down),
        ;
        assert(-d * u <= 2 * (r * d * u - p * u) <= d * u) by (nonlinear_arith)
            requires
                -d <= 2 * (r * d - p) <= d,
                u > 0,
        ;
        assert(-d * u == -(d * u)) by (nonlinear_arith);
    }
}

/// A whole number is held exactly: of fifty-three bits at most, what it is held
/// as is that number, a power of two to the one side.
pub proof fn a_whole_number_is_held_exactly(n: int)
    requires
        0 < n < PAST,
    ensures
        ({
            let b = of_whole(n);
            &&& 0 <= exponent(b) <= 52
            &&& significand(b) == n * pow2((52 - exponent(b)) as nat)
        }),
        of_whole(0) == 0,
{
    assert(n / 1 == n && n % 1 == 0);
    assert(shortened(n, 1, 0) == (n, 0nat));
    vstd::arithmetic::power2::lemma2_to64();
    lifted_is_doubled(n, n, 0);
    let (l, s) = lifted(n, 0);
    assert(s <= 52) by {
        if s > 52 {
            vstd::arithmetic::power2::lemma_pow2_unfold(53);
            if s > 53 {
                vstd::arithmetic::power2::lemma_pow2_strictly_increases(53, s);
            }
            assert(pow2(52) == FIRST) by {
                vstd::arithmetic::power2::lemma_pow2_adds(26, 26);
            }
            assert(n * pow2(s) >= 2 * FIRST) by (nonlinear_arith)
                requires
                    n >= 1,
                    pow2(s) >= 2 * pow2(52),
                    pow2(52) == FIRST,
            ;
        }
    }
    let e = 1075 - s;
    let m = l - FIRST;
    vstd::arithmetic::div_mod::lemma_fundamental_div_mod_converse(
        e * FIRST + m,
        FIRST as int,
        e,
        m,
    );
    assert(0 <= e * FIRST + m < 0x1_0000_0000_0000_0000) by (nonlinear_arith)
        requires
            0 <= e <= 1075,
            0 <= m < FIRST,
            FIRST == 0x10_0000_0000_0000,
    ;
}

proof fn lifted_is_doubled(first: int, m: int, s: nat)
    requires
        0 < first,
        m == first * pow2(s),
        m < PAST,
    ensures
        ({
            let (l, t) = lifted(m, s);
            &&& l == first * pow2(t)
            &&& FIRST <= l < PAST
            &&& t == s || l < PAST
        }),
    decreases
            (if m < FIRST {
                FIRST - m
            } else {
                0
            }),
{
    vstd::arithmetic::power2::lemma_pow2_pos(s);
    assert(m > 0) by (nonlinear_arith)
        requires
            m == first * pow2(s),
            first > 0,
            pow2(s) > 0,
    ;
    if m < FIRST {
        vstd::arithmetic::power2::lemma_pow2_unfold(s + 1);
        assert(2 * m == first * pow2(s + 1)) by (nonlinear_arith)
            requires
                m == first * pow2(s),
                pow2(s + 1) == 2 * pow2(s),
        ;
        lifted_is_doubled(first, 2 * m, s + 1);
    }
}

/// A real number is its significand times two to its exponent, over two to the
/// fifty-second: what is above the line, and what is below it.
pub open spec fn above(b: u64) -> int {
    if exponent(b) >= 0 {
        significand(b) * pow2(exponent(b) as nat)
    } else {
        significand(b)
    }
}

pub open spec fn beneath(b: u64) -> int {
    if exponent(b) >= 0 {
        FIRST as int
    } else {
        FIRST * pow2((-exponent(b)) as nat)
    }
}

/// A whole number over a real one is what comes back, to within one of the
/// real one, when it is taken that many times.
pub proof fn what_is_divided_comes_back(a: int, b: u64)
    requires
        1 <= a,
        FIRST <= significand(b) < PAST,
        a * beneath(b) <= FIRST * FIRST,
    ensures
        -above(b) <= over(a, b) * above(b) - a * beneath(b) <= above(b),
{
    let sig = significand(b);
    let e = exponent(b);
    vstd::arithmetic::power2::lemma2_to64();
    vstd::arithmetic::power2::lemma_pow2_adds(32, 20);
    assert(pow2(52) == FIRST);
    let up: nat = if e >= 0 {
        52
    } else {
        (52 - e) as nat
    };
    if e < 0 {
        vstd::arithmetic::power2::lemma_pow2_adds(52, (-e) as nat);
        vstd::arithmetic::power2::lemma_pow2_pos((-e) as nat);
    } else {
        vstd::arithmetic::power2::lemma_pow2_pos(e as nat);
    }
    let j = beneath(b);
    assert(j == pow2(up));
    assert(j >= FIRST) by {
        if e < 0 {
            assert(FIRST * pow2((-e) as nat) >= FIRST) by (nonlinear_arith)
                requires
                    pow2((-e) as nat) >= 1,
            ;
        }
    }
    assert(a <= FIRST) by (nonlinear_arith)
        requires
            a * j <= FIRST * FIRST,
            j >= FIRST,
            a >= 1,
            FIRST > 0,
    ;
    assert(a / 1 == a && a % 1 == 0);
    assert(shortened(a, 1, 0) == (a, 0nat));
    let (m, s) = quotient(a, sig, 0);
    assert(a * pow2(0) == a) by (nonlinear_arith)
        requires
            pow2(0) == 1,
    ;
    assert(a < sig * PAST) by (nonlinear_arith)
        requires
            a <= FIRST,
            sig >= FIRST,
            PAST > 1,
            FIRST >= 1,
    ;
    quotient_is_near(a, a, sig, 0);
    vstd::arithmetic::power2::lemma_pow2_pos(s);
    let big = pow2(s) as int;
    let down: nat = if e >= 0 {
        s + e as nat
    } else {
        s
    };
    let k: int = if e >= 0 {
        pow2(e as nat) as int
    } else {
        1
    };
    if e >= 0 {
        vstd::arithmetic::power2::lemma_pow2_adds(s, e as nat);
    }
    assert(pow2(down) == big * k);
    assert(above(b) == sig * k);
    assert(m >= 0) by (nonlinear_arith)
        requires
            2 * apart(sig * m, a * big) <= sig,
            sig * FIRST <= a * big,
            sig > 0,
            FIRST > 1,
    ;
    rounded_is_near(m, up, down);
    let r = over(a, b);
    assert(r == rounded(m, up - down));
    assert(j <= big) by (nonlinear_arith)
        requires
            a * j <= FIRST * FIRST,
            sig * FIRST <= a * big,
            sig >= FIRST,
            a >= 1,
            FIRST > 0,
    ;
    brought_back(r, sig, m, a, big, j, k);
}

/// The two roundings of a quotient, gathered.
proof fn brought_back(r: int, b: int, m: int, a: int, big: int, j: int, k: int)
    requires
        b > 0,
        big >= 1,
        k >= 1,
        0 < j <= big,
        2 * apart(r * (big * k), m * j) <= big * k,
        2 * apart(b * m, a * big) <= b,
    ensures
        -(b * k) <= r * (b * k) - a * j <= b * k,
{
    let x = r * (big * k) - m * j;
    let y = b * m - a * big;
    let whole = r * (b * k) - a * j;
    assert(b * x == b * (r * (big * k)) - b * (m * j)) by (nonlinear_arith)
        requires
            x == r * (big * k) - m * j,
    ;
    assert(y * j == (b * m) * j - (a * big) * j) by (nonlinear_arith)
        requires
            y == b * m - a * big,
    ;
    assert(big * whole == big * (r * (b * k)) - big * (a * j)) by (nonlinear_arith)
        requires
            whole == r * (b * k) - a * j,
    ;
    assert(b * (r * (big * k)) == big * (r * (b * k))) by (nonlinear_arith);
    assert(b * (m * j) == (b * m) * j) by (nonlinear_arith);
    assert((a * big) * j == big * (a * j)) by (nonlinear_arith);
    assert(big * whole == b * x + y * j);
    assert(-(b * (big * k)) <= 2 * (b * x) <= b * (big * k)) by (nonlinear_arith)
        requires
            -(big * k) <= 2 * x <= big * k,
            b > 0,
    ;
    assert(-(b * j) <= 2 * (y * j) <= b * j) by (nonlinear_arith)
        requires
            -b <= 2 * y <= b,
            j > 0,
    ;
    assert(b * j <= b * (big * k)) by (nonlinear_arith)
        requires
            j <= big,
            k >= 1,
            b > 0,
            big >= 1,
    ;
    assert(-(b * (big * k)) <= big * whole <= b * (big * k));
    assert(-(b * k) <= whole <= b * k) by (nonlinear_arith)
        requires
            -(b * (big * k)) <= big * whole <= b * (big * k),
            big >= 1,
    ;
}

} // verus!
