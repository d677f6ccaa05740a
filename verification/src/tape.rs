//! A loop as a tape: threading an empty one, and recording over it.

use crate::ack::Said;
use crate::clear;
use crate::commit;
use crate::edit;
use crate::guards;
use crate::loop_state::{Habit, Loop};
use crate::num;
use crate::shared;
use crate::shared::Shared;
use vstd::prelude::*;

verus! {

/// How long the tape is that is threaded: what was asked for, or the nearest
/// number of grid cycles where the loop follows the grid; and how many of
/// those, or zero.
pub open spec fn tape_len(sh: Shared, li: int, frames: usize) -> (int, int) {
    match sh.the_grid() {
        Some((_, bar)) if sh.loops@[li].habit.quant => {
            let n = num::larger(num::nearest(frames as int, bar as int), 1);
            (n * bar, n)
        },
        _ => (frames as int, 0),
    }
}

/// Threading an empty tape onto a loop that holds nothing but a tape, and
/// that no take is on its way to. `asked` is the length as it was asked for,
/// in seconds as bits.
pub open spec fn blank_step(
    pre: Shared,
    li: int,
    frames: usize,
    asked: u64,
    post: Shared,
    r: Said,
) -> bool {
    let lp = pre.loops@[li];
    let (len, cycles) = tape_len(pre, li, frames);
    match guards::in_hand(lp, li) {
        Some(why) => post == pre && r == why,
        None => if lp.body.n_layers > 0 && !lp.body.threaded {
            post == pre && r == (Said::HasMaterial { li: li as usize })
        } else if frames > pre.size.max_frames || len > pre.size.max_frames {
            post == pre && r == (Said::TapePast { asked, max_frames: pre.size.max_frames })
        } else {
            &&& edit::threaded(pre, li, len as usize, post)
            &&& r == (Said::Threaded {
                li: li as usize,
                len: len as usize,
                cycles: cycles as usize,
            })
        },
    }
}

pub fn blank(sh: &mut Shared, li: usize, frames: usize, asked: u64) -> (r: Said)
    requires
        old(sh).wf(),
        li < old(sh).size.n_loops,
    ensures
        final(sh).wf(),
        blank_step(*old(sh), li as int, frames, asked, *final(sh), r),
{
    if let Some(why) = guards::still_recording(&sh.loops[li], li) {
        return why;
    }
    if sh.loops[li].body.n_layers > 0 && !sh.loops[li].body.threaded {
        return Said::HasMaterial { li };
    }
    if frames > sh.size.max_frames {
        return Said::TapePast { asked, max_frames: sh.size.max_frames };
    }
    let mut len: usize = frames;
    let mut cycles: usize = 0;
    if sh.loops[li].habit.quant {
        if let Some((_, bar)) = sh.grid() {
            cycles = num::max(num::round_ratio(frames, bar), 1);
            proof {
                commit::cycles_fit(frames as int, bar as int);
                assert(0 <= cycles * bar) by (nonlinear_arith);
            }
            len = cycles * bar;
        }
    }
    if len > sh.size.max_frames {
        return Said::TapePast { asked, max_frames: sh.size.max_frames };
    }
    edit::thread_blank(sh, li, len);
    Said::Threaded { li, len, cycles }
}

/// A loop that records over itself, or in layers.
pub open spec fn as_tape(lp: Loop, on: bool) -> Loop {
    Loop { habit: Habit { revox: on, ..lp.habit }, ..lp }
}

/// How many layers were folded, or zero where there was one or none.
pub open spec fn folded_of(lp: Loop) -> usize {
    if clear::foldable(lp) && lp.body.n_layers > 1 {
        lp.body.n_layers
    } else {
        0
    }
}

/// Making a loop a tape, which folds it into one layer, or letting it record
/// in layers again, which folds nothing out.
pub open spec fn revox_step(
    pre: Shared,
    li: int,
    flag: Option<bool>,
    folded: Seq<u32>,
    post: Shared,
    r: Said,
) -> bool {
    let lp = pre.loops@[li];
    let on = flag.unwrap_or(!lp.habit.revox);
    if lp.recording() {
        post == pre && r == (Said::Recording { li: li as usize })
    } else if !on {
        &&& pre.but_loop(li, as_tape(lp, false), post)
        &&& r == (Said::LayersAgain { li: li as usize })
    } else {
        &&& r == (Said::TapeNow { li: li as usize, folded: folded_of(lp) })
        &&& exists|mid: Shared|
            pre.but_loop(li, as_tape(lp, true), mid) && #[trigger] clear::flattened(
                mid,
                li,
                folded,
                post,
            )
    }
}

proof fn as_tape_sound(lp: Loop, on: bool, max_layers: usize, max_frames: usize)
    requires
        shared::sound(lp, max_layers, max_frames),
    ensures
        shared::sound(as_tape(lp, on), max_layers, max_frames),
{
    reveal(shared::sound);
    reveal(Loop::wf);
}

pub fn revox(sh: &mut Shared, li: usize, flag: Option<bool>, folded: &Vec<u32>) -> (r: Said)
    requires
        old(sh).wf(),
        li < old(sh).size.n_loops,
    ensures
        final(sh).wf(),
        revox_step(*old(sh), li as int, flag, folded@, *final(sh), r),
{
    let ghost a = sh.loops@[li as int];
    assert(sh.loop_ok(a));
    if sh.loops[li].is_recording() {
        return Said::Recording { li };
    }
    let on = match flag {
        Some(on) => on,
        None => !sh.loops[li].habit.revox,
    };
    let n: usize = sh.loops[li].body.n_layers;
    let len: usize = sh.loops[li].body.loop_len;
    let lp = &mut sh.loops[li];
    lp.habit.revox = on;
    proof {
        as_tape_sound(a, on, sh.size.max_layers, sh.size.max_frames);
        shared::loop_exchanged(*old(sh), *sh, li as int, sh.loops@[li as int]);
    }
    if !on {
        return Said::LayersAgain { li };
    }
    let ghost mid = *sh;
    sh.flatten(li, folded);
    assert(old(sh).but_loop(li as int, as_tape(a, true), mid) && clear::flattened(
        mid,
        li as int,
        folded@,
        *sh,
    ));
    Said::TapeNow {
        li,
        folded: if n > 1 && len > 0 {
            n
        } else {
            0
        },
    }
}

/// A tape is threaded as long as was asked, or on the grid as the nearest whole
/// number of bars to it, one at least, on a loop that holds nothing but a
/// tape; one that does not fit is refused.
pub proof fn a_tape_is_as_long_as_was_asked(
    pre: Shared,
    li: int,
    frames: usize,
    asked: u64,
    post: Shared,
    r: Said,
)
    requires
        pre.wf(),
        0 <= li < pre.size.n_loops,
        blank_step(pre, li, frames, asked, post, r),
    ensures
        r is Threaded ==> {
            let b = post.loops@[li];
            &&& pre.loops@[li].body.n_layers == 0 || pre.loops@[li].body.threaded
            &&& b.body.threaded
            &&& b.body.n_layers == 1
            &&& b.body.origin == pre.clock.out_frames
            &&& b.body.loop_len <= pre.size.max_frames
            &&& !pre.loops@[li].habit.quant || pre.the_grid() is None ==> b.body.loop_len
                == frames
            &&& pre.loops@[li].habit.quant && pre.the_grid() is Some
                && pre.the_grid().unwrap().1 > 0 ==> {
                let bar = pre.the_grid().unwrap().1 as int;
                let len = b.body.loop_len as int;
                &&& len % bar == 0
                &&& len >= bar
                &&& len == bar || 2 * len <= 2 * frames + bar
                &&& 2 * frames < 2 * len + bar
            }
        },
        !(r is Threaded) ==> post == pre,
{
    if pre.loops@[li].habit.quant && pre.the_grid() is Some && pre.the_grid().unwrap().1 > 0 {
        let bar = pre.the_grid().unwrap().1 as int;
        let m = num::nearest(frames as int, bar);
        let n = num::larger(m, 1);
        num::nearest_is_near(frames as int, bar);
        assert(2 * bar * m == 2 * (m * bar)) by (nonlinear_arith);
        vstd::arithmetic::div_mod::lemma_mod_multiples_basic(n, bar);
        assert(n * bar >= bar) by (nonlinear_arith)
            requires
                n >= 1,
                bar > 0,
        ;
        assert(1 * bar == bar);
        assert(m < 1 ==> m * bar <= 0) by (nonlinear_arith)
            requires
                bar > 0,
        ;
    }
}

/// A loop that becomes a tape records over itself from then on and is one
/// layer; one that is let go records in layers, and keeps what it holds.
pub proof fn a_tape_is_one_layer_that_is_recorded_over(
    pre: Shared,
    li: int,
    flag: Option<bool>,
    folded: Seq<u32>,
    post: Shared,
    r: Said,
)
    requires
        0 <= li < pre.loops@.len(),
        revox_step(pre, li, flag, folded, post, r),
        !pre.loops@[li].recording(),
    ensures
        flag is Some ==> post.loops@[li].habit.revox == flag.unwrap(),
        flag is None ==> post.loops@[li].habit.revox != pre.loops@[li].habit.revox,
        post.loops@[li].body.loop_len == pre.loops@[li].body.loop_len,
        post.loops@[li].body.origin == pre.loops@[li].body.origin,
        post.loops@[li].habit.revox && pre.loops@[li].body.n_layers > 0
            && pre.loops@[li].body.loop_len > 0 ==> post.loops@[li].body.n_layers == 1,
        !post.loops@[li].habit.revox ==> post.loops@[li].body == pre.loops@[li].body && post.arena
            == pre.arena,
{
}

/// What is said of a loop that becomes a tape is how many layers were folded
/// into one: all of them where there was more than one, and else none.
pub proof fn a_tape_says_what_was_folded(
    pre: Shared,
    li: int,
    flag: Option<bool>,
    folded: Seq<u32>,
    post: Shared,
    r: Said,
    n: usize,
)
    requires
        0 <= li < pre.loops@.len(),
        li <= usize::MAX,
        revox_step(pre, li, flag, folded, post, r),
        r == (Said::TapeNow { li: li as usize, folded: n }),
        pre.loops@[li].body.loop_len > 0,
    ensures
        pre.loops@[li].body.n_layers >= 2 ==> n == pre.loops@[li].body.n_layers,
        pre.loops@[li].body.n_layers <= 1 ==> n == 0,
{
}

/// An empty tape is threaded wherever nothing was recorded, be the loop empty
/// or a tape that nothing is on yet, and there is room for it; what holds
/// something keeps it.
pub proof fn a_tape_is_threaded_where_nothing_is_lost(
    pre: Shared,
    li: int,
    frames: usize,
    asked: u64,
    post: Shared,
    r: Said,
)
    requires
        0 <= li < pre.loops@.len(),
        blank_step(pre, li, frames, asked, post, r),
        guards::in_hand(pre.loops@[li], li) is None,
        !pre.loops@[li].habit.quant,
    ensures
        pre.loops@[li].body.n_layers == 0 && frames <= pre.size.max_frames ==> r is Threaded
            && post.loops@[li].body.loop_len == frames,
        pre.loops@[li].body.threaded && frames <= pre.size.max_frames ==> r is Threaded
            && post.loops@[li].body.loop_len == frames,
        pre.loops@[li].body.n_layers > 0 && !pre.loops@[li].body.threaded ==> post == pre,
        frames > pre.size.max_frames ==> post == pre,
{
}

} // verus!
