//! Samples and parameters as the bits that carry them.
//!
//! A level, a speed, a probability: each is held as the bits of its IEEE 754
//! form. What the logic asks of one is how it compares with another, and
//! that is a comparison of whole numbers: the magnitude is the bits below
//! the sign, and the sign decides which way it counts.

use vstd::prelude::*;

verus! {

/// One, in the 32-bit form.
pub const ONE: u32 = 0x3F80_0000;

/// One, in the 64-bit form.
pub const ONE_WIDE: u64 = 0x3FF0_0000_0000_0000;

/// Minus one, in the 64-bit form.
pub const MINUS_ONE_WIDE: u64 = 0xBFF0_0000_0000_0000;

/// The sign bit of the 32-bit form.
pub const SIGN: u32 = 0x8000_0000;

/// The sign bit of the 64-bit form.
pub const SIGN_WIDE: u64 = 0x8000_0000_0000_0000;

/// Infinity, in the 32-bit form: magnitudes above it are not numbers.
pub const INFINITY: u32 = 0x7F80_0000;

/// Infinity, in the 64-bit form: magnitudes above it are not numbers.
pub const INFINITY_WIDE: u64 = 0x7FF0_0000_0000_0000;

/// The bits below the sign.
pub open spec fn magnitude(b: u32) -> int {
    b as int % 0x8000_0000
}

/// The bits below the sign.
pub open spec fn magnitude_wide(b: u64) -> int {
    b as int % 0x8000_0000_0000_0000
}

/// Whether the bits are a number at all.
pub open spec fn is_number(b: u32) -> bool {
    magnitude(b) <= INFINITY
}

/// Whether the bits are a number at all.
pub open spec fn is_number_wide(b: u64) -> bool {
    magnitude_wide(b) <= INFINITY_WIDE
}

/// Where a number stands in the order: its magnitude, counted down where
/// the sign is set. Both zeros stand at zero.
pub open spec fn rank(b: u32) -> int {
    if b < SIGN {
        magnitude(b)
    } else {
        -magnitude(b)
    }
}

/// Where a number stands in the order.
pub open spec fn rank_wide(b: u64) -> int {
    if b < SIGN_WIDE {
        magnitude_wide(b)
    } else {
        -magnitude_wide(b)
    }
}

/// `a < b`, as numbers; never where either is not one.
pub open spec fn below(a: u32, b: u32) -> bool {
    is_number(a) && is_number(b) && rank(a) < rank(b)
}

/// `a <= b`, as numbers; never where either is not one.
pub open spec fn up_to(a: u32, b: u32) -> bool {
    is_number(a) && is_number(b) && rank(a) <= rank(b)
}

/// `a < b`, as numbers; never where either is not one.
pub open spec fn below_wide(a: u64, b: u64) -> bool {
    is_number_wide(a) && is_number_wide(b) && rank_wide(a) < rank_wide(b)
}

/// `a <= b`, as numbers; never where either is not one.
pub open spec fn up_to_wide(a: u64, b: u64) -> bool {
    is_number_wide(a) && is_number_wide(b) && rank_wide(a) <= rank_wide(b)
}

fn place(b: u32) -> (r: i64)
    ensures
        r == rank(b),
{
    let m: i64 = (b % 0x8000_0000) as i64;
    if b < SIGN {
        m
    } else {
        -m
    }
}

fn place_wide(b: u64) -> (r: i64)
    ensures
        r == rank_wide(b),
{
    let m: i64 = (b % 0x8000_0000_0000_0000) as i64;
    if b < SIGN_WIDE {
        m
    } else {
        -m
    }
}

/// Whether the bits are a number at all.
pub fn number(b: u32) -> (r: bool)
    ensures
        r == is_number(b),
{
    b % 0x8000_0000 <= INFINITY
}

/// Whether the bits are a number at all.
pub fn number_wide(b: u64) -> (r: bool)
    ensures
        r == is_number_wide(b),
{
    b % 0x8000_0000_0000_0000 <= INFINITY_WIDE
}

/// `a < b`.
pub fn less(a: u32, b: u32) -> (r: bool)
    ensures
        r == below(a, b),
{
    number(a) && number(b) && place(a) < place(b)
}

/// `a <= b`.
pub fn at_most(a: u32, b: u32) -> (r: bool)
    ensures
        r == up_to(a, b),
{
    number(a) && number(b) && place(a) <= place(b)
}

/// `a < b`.
pub fn less_wide(a: u64, b: u64) -> (r: bool)
    ensures
        r == below_wide(a, b),
{
    number_wide(a) && number_wide(b) && place_wide(a) < place_wide(b)
}

/// `a <= b`.
pub fn at_most_wide(a: u64, b: u64) -> (r: bool)
    ensures
        r == up_to_wide(a, b),
{
    number_wide(a) && number_wide(b) && place_wide(a) <= place_wide(b)
}

/// The bits without their sign.
pub open spec fn unsigned(b: u32) -> u32 {
    magnitude(b) as u32
}

pub fn absolute(b: u32) -> (r: u32)
    ensures
        r == unsigned(b),
{
    b % 0x8000_0000
}

/// The bits without their sign.
pub open spec fn unsigned_wide(b: u64) -> u64 {
    magnitude_wide(b) as u64
}

pub fn absolute_wide(b: u64) -> (r: u64)
    ensures
        r == unsigned_wide(b),
{
    b % 0x8000_0000_0000_0000
}

/// Zero, of either sign.
pub open spec fn is_zero_wide(b: u64) -> bool {
    magnitude_wide(b) == 0
}

pub fn zero_wide(b: u64) -> (r: bool)
    ensures
        r == is_zero_wide(b),
{
    b % 0x8000_0000_0000_0000 == 0
}

/// The louder of a peak and a sample: the sample's magnitude where it is a
/// number above the peak.
pub open spec fn louder(peak: u32, v: u32) -> u32 {
    if is_number(v) && magnitude(v) > peak {
        unsigned(v)
    } else {
        peak
    }
}

pub fn loudest(peak: u32, v: u32) -> (r: u32)
    ensures
        r == louder(peak, v),
{
    let m: u32 = v % 0x8000_0000;
    if m <= INFINITY && m > peak {
        m
    } else {
        peak
    }
}

/// Among numbers, exactly one of less, equal in rank and greater holds.
pub proof fn order_is_total(a: u32, b: u32)
    requires
        is_number(a),
        is_number(b),
    ensures
        below(a, b) <==> !up_to(b, a),
        up_to(a, b) || up_to(b, a),
{
}

/// Where bits are not a number, no comparison with them holds.
pub proof fn not_a_number_compares_with_nothing(a: u32, b: u32)
    requires
        !is_number(a),
    ensures
        !below(a, b),
        !below(b, a),
        !up_to(a, b),
        !up_to(b, a),
{
}

} // verus!
