//! Pairing the two streams: which output frame an input frame belongs to.
//!
//! Each stream counts its own frames. What the device says of the first
//! buffer it plays and of the first it records is all that ties them
//! together, and until both are known nothing that arrives can be placed.

use crate::frame;
use crate::shared::{Clock, Shared};
use vstd::prelude::*;

verus! {

/// A buffer is about to be played. Whether it is the one whose moment is
/// wanted, in which case it is noted which frame it starts at.
pub fn note_first(sh: &mut Shared) -> (r: bool)
    requires
        old(sh).wf(),
    ensures
        final(sh).wf(),
        r == old(sh).clock.p0_needed,
        *final(sh) == (if r {
            Shared {
                clock: Clock {
                    p0_needed: false,
                    p0_frame: old(sh).clock.out_frames,
                    ..old(sh).clock
                },
                ..*old(sh)
            }
        } else {
            *old(sh)
        }),
{
    if !sh.clock.p0_needed {
        return false;
    }
    sh.clock.p0_needed = false;
    sh.clock.p0_frame = sh.clock.out_frames;
    assert(sh.arena_ok() && sh.ring_ok() && sh.loops_ok());
    true
}

/// The streams pair: input frame `f` is output frame `f + k`.
pub fn pair(sh: &mut Shared, k: i64)
    requires
        old(sh).wf(),
        frame::shortly(k),
    ensures
        final(sh).wf(),
        *final(sh) == (Shared { clock: Clock { k, k_set: true, ..old(sh).clock }, ..*old(sh) }),
{
    sh.clock.k = k;
    sh.clock.k_set = true;
    assert(sh.arena_ok() && sh.ring_ok() && sh.loops_ok());
}

/// Let a buffer of input go by that cannot be placed. It is counted and
/// nothing else.
pub fn pass_by(sh: &mut Shared, frames: usize)
    requires
        old(sh).wf(),
        frame::safe(16 * (old(sh).clock.in_frames + frames)),
    ensures
        final(sh).wf(),
        *final(sh) == (Shared {
            clock: Clock {
                in_frames: (old(sh).clock.in_frames + frames) as usize,
                ..old(sh).clock
            },
            ..*old(sh)
        }),
{
    sh.clock.in_frames = sh.clock.in_frames + frames;
    assert(sh.arena_ok() && sh.ring_ok() && sh.loops_ok());
}

/// Forget how the two streams pair: both start again, each on its own.
pub fn unpair(sh: &mut Shared)
    requires
        old(sh).wf(),
    ensures
        final(sh).wf(),
        *final(sh) == (Shared {
            clock: Clock { k_set: false, p0_needed: true, ..old(sh).clock },
            ..*old(sh)
        }),
{
    sh.clock.k_set = false;
    sh.clock.p0_needed = true;
    assert(sh.arena_ok() && sh.ring_ok() && sh.loops_ok());
}

} // verus!
