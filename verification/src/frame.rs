//! Frames, positions and lengths that arithmetic is safe on.

use crate::next_take::NEVER;
use crate::num;
use vstd::prelude::*;

verus! {

/// No frame count or position passes this, nor a quarter of what a `usize`
/// holds: at any rate a converter runs at it is more than a hundred thousand
/// years.
pub const LIMIT: i64 = 0x0FFF_FFFF_FFFF_FFFF;

/// A frame or position that arithmetic is safe on.
pub open spec fn safe(t: int) -> bool {
    &&& -LIMIT <= t <= LIMIT
    &&& -usize::MAX <= 4 * t <= usize::MAX
}

/// A frame or position that arithmetic is safe on.
pub open spec fn in_range(t: i64) -> bool {
    safe(t as int)
}

/// A frame that a length can be added to: a quarter of the way at most.
pub open spec fn near(t: i64) -> bool {
    safe(4 * t)
}

/// Such a frame, or none.
pub open spec fn maybe_near(t: i64) -> bool {
    t == NEVER || near(t)
}

/// A length, or a clock, that has far to go: a sixteenth of the way at most.
pub open spec fn short(n: usize) -> bool {
    safe(16 * n)
}

/// A frame that a clock that has far to go can show.
pub open spec fn shortly(t: i64) -> bool {
    safe(16 * t)
}

/// A frame from the start on that arithmetic is safe on, or none.
pub open spec fn coming(t: i64) -> bool {
    t == NEVER || (0 <= t && in_range(t))
}

/// The furthest from a clock that a frame is waited for, which no clock that
/// has far to go comes to.
pub open spec fn furthest() -> int {
    num::smaller(LIMIT as int / 8, usize::MAX as int / 32)
}

/// The furthest that a frame is waited for.
pub fn far() -> (r: usize)
    ensures
        r == furthest(),
        r >= 1,
        8 * r <= LIMIT,
        32 * r <= usize::MAX,
{
    let most: usize = usize::MAX / 32;
    if most as u64 <= LIMIT as u64 / 8 {
        most
    } else {
        (LIMIT as u64 / 8) as usize
    }
}

fn is_safe(t: i128) -> (r: bool)
    ensures
        r == safe(t as int),
{
    -(LIMIT as i128) <= t && t <= LIMIT as i128 && -(usize::MAX as i128) <= 4 * t && 4 * t
        <= usize::MAX as i128
}

/// Whether arithmetic is safe on a frame or position.
pub fn is_in_range(t: i64) -> (r: bool)
    ensures
        r == in_range(t),
{
    is_safe(t as i128)
}

/// Whether a length can be added to a frame.
pub fn is_near(t: i64) -> (r: bool)
    ensures
        r == near(t),
{
    is_safe(4 * (t as i128))
}

/// Whether a length, or a clock, has far to go.
pub fn is_short(n: usize) -> (r: bool)
    ensures
        r == short(n),
{
    is_safe(16 * (n as i128))
}

/// A length that arithmetic is safe on.
pub open spec fn fits(n: usize) -> bool {
    n <= LIMIT && 4 * n <= usize::MAX
}

} // verus!
