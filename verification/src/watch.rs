//! Watching the device, and what happens to the rig when it goes.

use crate::audio;
use crate::loop_state;
use crate::loop_state::Loop;
use crate::phase;
use crate::phase::Phase;
use crate::shared;
use crate::shared::{Clock, Shared};
use vstd::prelude::*;

verus! {

/// How often the device is looked at, in milliseconds.
pub const TICK_MS: u64 = 250;

/// How many looks a clock may stand still for.
pub const STALL_TICKS: u32 = 8;

/// How long to wait between attempts to open the device again, in
/// milliseconds.
pub const REOPEN_MS: u64 = 750;

/// What was last seen of the clock, and for how many looks it has stood
/// still.
#[derive(Clone, Copy, Debug, PartialEq, Eq, Structural)]
pub struct Watch {
    pub last: usize,
    pub still: u32,
}

/// How a device is found to be gone.
#[derive(Clone, Copy, Debug, PartialEq, Eq, Structural)]
pub enum Loss {
    /// It said so.
    Reported,
    /// It stopped answering.
    Stalled,
}

/// What is known after a look.
pub open spec fn looked(w: Watch, frames: usize) -> Watch {
    if frames != w.last {
        Watch { last: frames, still: 0 }
    } else if w.still < STALL_TICKS {
        Watch { still: (w.still + 1) as u32, ..w }
    } else {
        w
    }
}

/// Whether the device is gone, and how that is known.
pub open spec fn gone(w: Watch, reported: bool) -> Option<Loss> {
    if reported {
        Some(Loss::Reported)
    } else if w.still >= STALL_TICKS {
        Some(Loss::Stalled)
    } else {
        None
    }
}

/// A watch that begins.
pub fn watch(frames: usize) -> (r: Watch)
    ensures
        r == (Watch { last: frames, still: 0 }),
{
    Watch { last: frames, still: 0 }
}

/// Look at the clock and at what was reported.
pub fn supervise(w: Watch, frames: usize, reported: bool) -> (r: (Watch, Option<Loss>))
    ensures
        r.0 == looked(w, frames),
        r.1 == gone(r.0, reported),
{
    let mut w = w;
    if frames != w.last {
        w.last = frames;
        w.still = 0;
    } else if w.still < STALL_TICKS {
        w.still = w.still + 1;
    }
    let loss: Option<Loss> = if reported {
        Some(Loss::Reported)
    } else if w.still >= STALL_TICKS {
        Some(Loss::Stalled)
    } else {
        None
    };
    (w, loss)
}

/// What is known after `n` looks at a clock that stands still.
pub open spec fn still_for(w: Watch, n: nat) -> Watch
    decreases n,
{
    if n == 0 {
        w
    } else {
        looked(still_for(w, (n - 1) as nat), w.last)
    }
}

/// A clock that stands still is found out after so many looks and no sooner.
pub proof fn a_stalled_clock_is_found_out(w: Watch, n: nat)
    requires
        w.still == 0,
    ensures
        gone(still_for(w, n), false) is Some <==> n >= STALL_TICKS,
        still_for(w, n).last == w.last,
        still_for(w, n).still == if n <= STALL_TICKS {
            n as int
        } else {
            STALL_TICKS as int
        },
    decreases n,
{
    if n > 0 {
        a_stalled_clock_is_found_out(w, (n - 1) as nat);
    }
}

/// What the phase of a loop is once its take is dropped: it plays where it
/// has a length, and else it is idle.
pub open spec fn dropped_phase(lp: Loop) -> Phase {
    if lp.body.loop_len > 0 {
        Phase::Playing
    } else {
        Phase::Idle
    }
}

/// A loop once every take is dropped.
pub open spec fn dropped_loop(lp: Loop, was: bool) -> Loop {
    Loop {
        next: loop_state::no_plan(),
        state: if was {
            dropped_phase(lp)
        } else {
            lp.state
        },
        ..lp
    }
}

/// Every take is dropped: the loop that recorded stops and the layer it was
/// writing is silent, and whatever any loop had been asked is forgotten.
pub open spec fn dropped(pre: Shared, r: Option<usize>, post: Shared) -> bool {
    &&& pre.first_recording(r)
    &&& post == (Shared { arena: post.arena, loops: post.loops, ..pre })
    &&& post.loops@.len() == pre.loops@.len()
    &&& forall|i: int|
        0 <= i < pre.size.n_loops ==> #[trigger] post.loops@[i] == dropped_loop(
            pre.loops@[i],
            r == Some(i as usize),
        )
    &&& post.audio() == (match r {
        Some(li) => {
            let n = pre.loops@[li as int].body.n_layers;
            if n < pre.size.max_layers {
                pre.audio_with(li as int, n as int, audio::silence(2 * pre.size.max_frames))
            } else {
                pre.audio()
            }
        },
        None => pre.audio(),
    })
}

proof fn dropped_sound(lp: Loop, was: bool, max_layers: usize, max_frames: usize)
    requires
        shared::sound(lp, max_layers, max_frames),
    ensures
        shared::sound(dropped_loop(lp, was), max_layers, max_frames),
{
    reveal(shared::sound);
    reveal(Loop::wf);
}

/// Drop every take: one that spans an outage has a hole in it, which is
/// worse than no layer. Which loop was recording is what comes back.
pub fn drop_takes(sh: &mut Shared) -> (r: Option<usize>)
    requires
        old(sh).wf(),
    ensures
        final(sh).wf(),
        dropped(*old(sh), r, *final(sh)),
{
    let r: Option<usize> = sh.recording_loop();
    if let Some(li) = r {
        let n: usize = sh.loops[li].body.n_layers;
        if n < sh.size.max_layers {
            sh.zero_layer(li, n);
        }
    }
    let n: usize = sh.size.n_loops;
    let ghost zeroed = *sh;
    let mut i: usize = 0;
    while i < n
        invariant
            zeroed.wf(),
            zeroed.loops == old(sh).loops,
            zeroed.size == old(sh).size,
            sh.wf(),
            n == zeroed.size.n_loops,
            i <= n,
            *sh == (Shared { loops: sh.loops, ..zeroed }),
            sh.loops@.len() == n,
            forall|k: int|
                0 <= k < i ==> #[trigger] sh.loops@[k] == dropped_loop(
                    zeroed.loops@[k],
                    r == Some(k as usize),
                ),
            forall|k: int| i <= k < n ==> #[trigger] sh.loops@[k] == zeroed.loops@[k],
        decreases n - i,
    {
        let ghost before = *sh;
        let ghost lp0 = sh.loops@[i as int];
        let was: bool = match r {
            Some(li) => li == i,
            None => false,
        };
        let lp = &mut sh.loops[i];
        lp.next.clear();
        if was {
            let to = if lp.body.loop_len > 0 {
                Phase::Playing
            } else {
                Phase::Idle
            };
            lp.enter(to);
        }
        proof {
            assert(before.loop_ok(lp0));
            dropped_sound(lp0, was, before.size.max_layers, before.size.max_frames);
            shared::loop_exchanged(before, *sh, i as int, sh.loops@[i as int]);
        }
        i = i + 1;
    }
    r
}

/// The device is back.
pub fn reopened(sh: &mut Shared)
    requires
        old(sh).wf(),
        old(sh).clock.reopens < usize::MAX,
    ensures
        final(sh).wf(),
        *final(sh) == (Shared {
            clock: Clock {
                device_lost: false,
                reopens: (old(sh).clock.reopens + 1) as usize,
                ..old(sh).clock
            },
            ..*old(sh)
        }),
{
    sh.clock.device_lost = false;
    sh.clock.reopens = sh.clock.reopens + 1;
    assert(sh.arena_ok() && sh.ring_ok() && sh.loops_ok());
}

/// After an outage the loop that recorded no longer does, and every layer
/// that had been laid is as it was.
pub proof fn an_outage_keeps_what_was_laid(pre: Shared, r: Option<usize>, post: Shared, li: int, l: int)
    requires
        pre.wf(),
        dropped(pre, r, post),
        0 <= li < pre.size.n_loops,
        0 <= l < pre.loops@[li].body.n_layers,
    ensures
        post.audio()[li][l] == pre.audio()[li][l],
        post.loops@[li].layers == pre.loops@[li].layers,
        post.loops@[li].body == pre.loops@[li].body,
        r == Some(li as usize) ==> !post.loops@[li].recording() && phase::may_go(
            pre.loops@[li].state,
            post.loops@[li].state,
        ),
{
    shared::sized(pre.loops@[li], pre.size.max_layers, pre.size.max_frames);
}

/// After an outage nothing is planned for any loop, the loop that recorded
/// plays where it has a length and is idle where it has none, and the layer it
/// was writing is silent; no other loop leaves its phase.
pub proof fn an_outage_drops_what_was_being_recorded(
    pre: Shared,
    r: Option<usize>,
    post: Shared,
    li: int,
    i: int,
)
    requires
        pre.wf(),
        dropped(pre, r, post),
        0 <= li < pre.size.n_loops,
        0 <= i < 2 * pre.size.max_frames,
    ensures
        post.loops@[li].next.empty(),
        r == Some(li as usize) ==> {
            &&& post.loops@[li].state == (if pre.loops@[li].body.loop_len > 0 {
                Phase::Playing
            } else {
                Phase::Idle
            })
            &&& pre.loops@[li].body.n_layers < pre.size.max_layers
                ==> post.audio()[li][pre.loops@[li].body.n_layers as int][i] == 0
        },
        r != Some(li as usize) ==> post.loops@[li].state == pre.loops@[li].state
            && post.audio()[li] == pre.audio()[li],
        r is None ==> forall|j: int|
            0 <= j < pre.size.n_loops ==> (#[trigger] pre.loops@[j]).state != Phase::First
                && pre.loops@[j].state != Phase::Overdub && pre.loops@[j].state != Phase::Multiply,
{
    assert(pre.arena@[li]@.len() == pre.size.max_layers);
}

/// A clock that moves is not lost: whenever it has moved since the last look
/// the count of looks without a move starts over, and where it has not the
/// count goes on, as far as it goes.
pub proof fn a_clock_that_moves_starts_the_count_over(w: Watch, frames: usize)
    ensures
        looked(w, frames).last == frames,
        frames != w.last ==> looked(w, frames).still == 0 && gone(looked(w, frames), false) is None,
        frames == w.last && w.still < STALL_TICKS ==> looked(w, frames).still == w.still + 1,
        gone(w, true) is Some,
{
}

} // verus!
