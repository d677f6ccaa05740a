//! A loop's cycle: how long it is, and where its layers land in it.

use crate::ack::Said;
use crate::finish;
use crate::frame;
use crate::layer::Layer;
use crate::loop_state;
use crate::loop_state::{Body, Loop, Progress};
use crate::next_take::{NextTake, NEVER};
use crate::phase::Phase;
use crate::shared;
use crate::shared::{Desk, Shared};
use vstd::prelude::*;

verus! {

/// The most bars a loop may be said to be.
pub const MAX_BARS: usize = 32;

/// The most slots a layer may be spread over.
pub const MAX_PERIOD: usize = 32;

/// One layer of a loop exchanged and nothing else changed.
pub open spec fn relayered(pre: Shared, li: int, l: int, layer: Layer, post: Shared) -> bool {
    let a = pre.loops@[li];
    let b = post.loops@[li];
    &&& finish::others_kept(pre, li, post)
    &&& b == (Loop { layers: b.layers, ..a })
    &&& b.layers@ == a.layers@.update(l, layer)
    &&& post == (Shared { loops: post.loops, ..pre })
}

/// Put a layer in a slot of a period.
pub fn spread(sh: &mut Shared, li: usize, l: usize, period: usize, slot: usize)
    requires
        old(sh).wf(),
        li < old(sh).size.n_loops,
        l < old(sh).size.max_layers,
        frame::fits(period),
        frame::fits(slot),
    ensures
        final(sh).wf(),
        relayered(
            *old(sh),
            li as int,
            l as int,
            (Layer { period, phase: slot, ..old(sh).loops@[li as int].layers@[l as int] }),
            *final(sh),
        ),
{
    let ghost a = sh.loops@[li as int];
    assert(sh.loop_ok(a));
    proof {
        reveal(shared::sound);
        reveal(Loop::wf);
    }
    let lp = &mut sh.loops[li];
    let layer = &mut lp.layers[l];
    layer.period = period;
    layer.phase = slot;
    proof {
        let b = sh.loops@[li as int];
        assert forall|k: int| 0 <= k < b.layers@.len() implies loop_state::layer_wf(
            #[trigger] b.layers@[k],
        ) && b.layers@[k].len <= sh.size.max_frames by {
            assert(loop_state::layer_wf(a.layers@[k]));
            assert(a.layers@[k].len <= sh.size.max_frames);
        }
        shared::loop_exchanged(*old(sh), *sh, li as int, b);
    }
}

/// The newest layer of a loop.
fn newest(sh: &Shared, li: usize) -> (r: Option<usize>)
    requires
        sh.wf(),
        li < sh.size.n_loops,
    ensures
        r is None <==> sh.loops@[li as int].body.n_layers == 0,
        r matches Some(l) ==> l == sh.loops@[li as int].body.n_layers - 1 && l < sh.size.max_layers
            && l < sh.loops@[li as int].layers@.len() && loop_state::layer_wf(
            sh.loops@[li as int].layers@[l as int],
        ),
{
    proof {
        assert(sh.loop_ok(sh.loops@[li as int]));
        reveal(shared::sound);
        reveal(Loop::wf);
    }
    let n: usize = sh.loops[li].body.n_layers;
    if n == 0 {
        None
    } else {
        Some(n - 1)
    }
}

/// Spreading the newest layer over a period: it sounds once in so many slots,
/// in the one it was in as far as there is still one.
pub open spec fn sparse_step(pre: Shared, li: int, n: usize, post: Shared, r: Said) -> bool {
    let lp = pre.loops@[li];
    let l = lp.body.n_layers - 1;
    let layer = lp.layers@[l];
    if lp.body.n_layers == 0 {
        post == pre && r == Said::NothingToSpread
    } else if n < 1 || n > MAX_PERIOD {
        post == pre && r == (Said::EveryRange { asked: n })
    } else if layer.len == 0 {
        post == pre && r == Said::LayerHasNoLength
    } else {
        &&& relayered(
            pre,
            li,
            l,
            (Layer { period: n, phase: (layer.phase as int % n as int) as usize, ..layer }),
            post,
        )
        &&& r == spread_said(l as usize, n, (layer.phase as int % n as int) as usize)
    }
}

/// What is said of a layer that sounds once in so many slots.
pub open spec fn spread_said(l: usize, n: usize, slot: usize) -> Said {
    if n == 1 {
        Said::EveryTime { layer: l }
    } else {
        Said::OnceEvery { layer: l, period: n, slot }
    }
}

pub fn sparse(sh: &mut Shared, li: usize, n: usize) -> (r: Said)
    requires
        old(sh).wf(),
        li < old(sh).size.n_loops,
    ensures
        final(sh).wf(),
        sparse_step(*old(sh), li as int, n, *final(sh), r),
{
    let l: usize = match newest(sh, li) {
        None => {
            return Said::NothingToSpread;
        },
        Some(l) => l,
    };
    if n < 1 || n > MAX_PERIOD {
        return Said::EveryRange { asked: n };
    }
    if sh.loops[li].layers[l].len == 0 {
        return Said::LayerHasNoLength;
    }
    let slot: usize = sh.loops[li].layers[l].phase % n;
    spread(sh, li, l, n, slot);
    if n == 1 {
        Said::EveryTime { layer: l }
    } else {
        Said::OnceEvery { layer: l, period: n, slot }
    }
}

/// Placing the newest layer in a slot of its period, coming round past the
/// last one.
pub open spec fn place_step(pre: Shared, li: int, n: usize, post: Shared, r: Said) -> bool {
    let lp = pre.loops@[li];
    let l = lp.body.n_layers - 1;
    let layer = lp.layers@[l];
    let slot = (n as int % layer.every()) as usize;
    if lp.body.n_layers == 0 {
        post == pre && r == Said::NothingToPlace
    } else {
        &&& relayered(pre, li, l, (Layer { phase: slot, ..layer }), post)
        &&& r == (if layer.every() <= 1 {
            Said::OneSlot { li: li as usize, layer: l as usize }
        } else {
            Said::OnSlot { layer: l as usize, slot, period: layer.every() as usize }
        })
    }
}

pub fn place_at(sh: &mut Shared, li: usize, n: usize) -> (r: Said)
    requires
        old(sh).wf(),
        li < old(sh).size.n_loops,
    ensures
        final(sh).wf(),
        place_step(*old(sh), li as int, n, *final(sh), r),
{
    let l: usize = match newest(sh, li) {
        None => {
            return Said::NothingToPlace;
        },
        Some(l) => l,
    };
    let (_, every, _) = sh.loops[li].layer_shape(l);
    let period: usize = sh.loops[li].layers[l].period;
    let slot: usize = n % every;
    spread(sh, li, l, period, slot);
    if every <= 1 {
        Said::OneSlot { li, layer: l }
    } else {
        Said::OnSlot { layer: l, slot, period: every }
    }
}

/// Moving the newest layer on by one slot.
pub open spec fn rotate_step(pre: Shared, li: int, post: Shared, r: Said) -> bool {
    let lp = pre.loops@[li];
    let l = lp.body.n_layers - 1;
    let layer = lp.layers@[l];
    let slot = ((layer.phase + 1) % layer.every()) as usize;
    if lp.body.n_layers == 0 {
        post == pre && r == Said::NothingToMove
    } else if layer.every() <= 1 {
        post == pre && r == Said::AlreadyEverywhere
    } else {
        &&& relayered(pre, li, l, (Layer { phase: slot, ..layer }), post)
        &&& r == (Said::Moved { layer: l as usize, slot, period: layer.every() as usize })
    }
}

pub fn rotate(sh: &mut Shared, li: usize) -> (r: Said)
    requires
        old(sh).wf(),
        li < old(sh).size.n_loops,
    ensures
        final(sh).wf(),
        rotate_step(*old(sh), li as int, *final(sh), r),
{
    let l: usize = match newest(sh, li) {
        None => {
            return Said::NothingToMove;
        },
        Some(l) => l,
    };
    let (_, every, slot) = sh.loops[li].layer_shape(l);
    if every <= 1 {
        return Said::AlreadyEverywhere;
    }
    let period: usize = sh.loops[li].layers[l].period;
    let next: usize = (slot + 1) % every;
    spread(sh, li, l, period, next);
    Said::Moved { layer: l, slot: next, period: every }
}

/// Putting the newest layer back to sounding every time round.
pub open spec fn dense_step(pre: Shared, li: int, post: Shared, r: Said) -> bool {
    let lp = pre.loops@[li];
    let l = lp.body.n_layers - 1;
    if lp.body.n_layers == 0 {
        post == pre && r == Said::NothingToFill
    } else {
        &&& relayered(pre, li, l, (Layer { period: 1, phase: 0, ..lp.layers@[l] }), post)
        &&& r == (Said::EveryTimeAgain { layer: l as usize })
    }
}

pub fn dense(sh: &mut Shared, li: usize) -> (r: Said)
    requires
        old(sh).wf(),
        li < old(sh).size.n_loops,
    ensures
        final(sh).wf(),
        dense_step(*old(sh), li as int, *final(sh), r),
{
    match newest(sh, li) {
        None => Said::NothingToFill,
        Some(l) => {
            spread(sh, li, l, 1, 0);
            Said::EveryTimeAgain { layer: l }
        },
    }
}

/// Forgetting a loop's length, which only one without layers can.
pub open spec fn free_step(pre: Shared, li: int, post: Shared, r: Said) -> bool {
    let lp = pre.loops@[li];
    if lp.body.n_layers > 0 {
        post == pre && r == (Said::StillPlaying { n: lp.body.n_layers })
    } else if lp.body.loop_len == 0 {
        post == pre && r == Said::NoLengthSet
    } else {
        &&& post.loops@ == pre.loops@.update(li, freed(lp))
        &&& post == (Shared {
            loops: post.loops,
            desk: Desk { anchor: shared::released(pre.desk.anchor, li as usize), ..pre.desk },
            ..pre
        })
        &&& r == (Said::LengthForgotten { was: lp.body.loop_len })
    }
}

/// A loop that has forgotten its length, and what was planned for it.
pub open spec fn freed(lp: Loop) -> Loop {
    Loop {
        state: Phase::Idle,
        body: Body { loop_len: 0, ..lp.body },
        take: Progress { reached: 0, ..lp.take },
        next: loop_state::no_plan(),
        ..lp
    }
}

proof fn freed_sound(lp: Loop, max_layers: usize, max_frames: usize)
    requires
        shared::sound(lp, max_layers, max_frames),
    ensures
        shared::sound(freed(lp), max_layers, max_frames),
{
    reveal(shared::sound);
    reveal(Loop::wf);
}

pub fn free_length(sh: &mut Shared, li: usize) -> (r: Said)
    requires
        old(sh).wf(),
        li < old(sh).size.n_loops,
    ensures
        final(sh).wf(),
        free_step(*old(sh), li as int, *final(sh), r),
{
    let n: usize = sh.loops[li].body.n_layers;
    if n > 0 {
        return Said::StillPlaying { n };
    }
    let was: usize = sh.loops[li].body.loop_len;
    if was == 0 {
        return Said::NoLengthSet;
    }
    assert(sh.loop_ok(sh.loops@[li as int]));
    sh.release_anchor(li);
    let ghost mid = *sh;
    let lp = &mut sh.loops[li];
    lp.body.loop_len = 0;
    lp.take.reached = 0;
    lp.enter(Phase::Idle);
    lp.next.clear();
    proof {
        freed_sound(old(sh).loops@[li as int], sh.size.max_layers, sh.size.max_frames);
        assert(mid.wf());
        shared::loop_exchanged(mid, *sh, li as int, sh.loops@[li as int]);
    }
    Said::LengthForgotten { was }
}

/// Saying how long the next take of a loop is. An empty loop takes a length
/// and records to it; one with something in it keeps its own, and its next
/// take is one pass that closes itself. `asked` is the length as it was
/// asked for, in seconds as bits.
pub open spec fn fix_step(
    pre: Shared,
    li: int,
    frames: usize,
    asked: u64,
    post: Shared,
    r: Said,
) -> bool {
    let lp = pre.loops@[li];
    if lp.claims() {
        post == pre && r == (Said::Recording { li: li as usize })
    } else if lp.body.n_layers > 0 {
        &&& pre.but_loop(li, Loop { next: NextTake { one_pass: true, ..lp.next }, ..lp }, post)
        &&& r == (Said::FixOnePass { li: li as usize, len: lp.body.loop_len, asked })
    } else if frames > pre.size.max_frames {
        post == pre && r == (Said::FixPast { asked, max_frames: pre.size.max_frames })
    } else {
        &&& pre.but_loop(li, sized_to(lp, pre.now(), frames), post)
        &&& r == (Said::Fixed { li: li as usize, len: frames })
    }
}

/// An empty loop with a length.
pub open spec fn sized_to(lp: Loop, now: int, frames: usize) -> Loop {
    Loop {
        body: Body { origin: now as i64, loop_len: frames, threaded: false, ..lp.body },
        ..lp
    }
}

/// A sound loop with another sound body is sound.
pub proof fn resized_sound(lp: Loop, body: Body, max_layers: usize, max_frames: usize)
    requires
        shared::sound(lp, max_layers, max_frames),
        body.n_layers == lp.body.n_layers,
        body.redo_to == lp.body.redo_to,
        body.loop_len <= max_frames,
        frame::short(max_frames),
        frame::near(body.origin),
        frame::fits(body.cycles),
    ensures
        shared::sound(Loop { body, ..lp }, max_layers, max_frames),
{
    reveal(shared::sound);
    reveal(Loop::wf);
}

/// A sound loop with another sound plan is sound.
pub proof fn planned_sound(lp: Loop, next: NextTake, max_layers: usize, max_frames: usize)
    requires
        shared::sound(lp, max_layers, max_frames),
        frame::maybe_near(next.request_at),
        next.arm_from == lp.next.arm_from || next.arm_from == NEVER,
    ensures
        shared::sound(Loop { next, ..lp }, max_layers, max_frames),
{
    reveal(shared::sound);
    reveal(Loop::wf);
}

pub fn fix_next(sh: &mut Shared, li: usize, frames: usize, asked: u64) -> (r: Said)
    requires
        old(sh).wf(),
        li < old(sh).size.n_loops,
    ensures
        final(sh).wf(),
        fix_step(*old(sh), li as int, frames, asked, *final(sh), r),
{
    let ghost a = sh.loops@[li as int];
    assert(sh.loop_ok(a));
    assert(frame::near(a.body.origin) && frame::maybe_near(a.next.request_at) && frame::fits(
        a.body.cycles,
    )) by {
        reveal(shared::sound);
        reveal(Loop::wf);
    }
    if sh.loops[li].wants_input() {
        return Said::Recording { li };
    }
    if sh.loops[li].body.n_layers > 0 {
        let len: usize = sh.loops[li].body.loop_len;
        let mut next = sh.loops[li].next;
        next.plan_one_pass();
        let lp = &mut sh.loops[li];
        lp.next = next;
        proof {
            planned_sound(a, next, sh.size.max_layers, sh.size.max_frames);
            shared::loop_exchanged(*old(sh), *sh, li as int, sh.loops@[li as int]);
        }
        return Said::FixOnePass { li, len, asked };
    }
    if frames > sh.size.max_frames {
        return Said::FixPast { asked, max_frames: sh.size.max_frames };
    }
    let mut body = sh.loops[li].body;
    body.origin = sh.clock.out_frames as i64;
    body.loop_len = frames;
    body.threaded = false;
    let lp = &mut sh.loops[li];
    lp.body = body;
    proof {
        resized_sound(a, body, sh.size.max_layers, sh.size.max_frames);
        shared::loop_exchanged(*old(sh), *sh, li as int, sh.loops@[li as int]);
    }
    Said::Fixed { li, len: frames }
}

/// Spreading a layer, placing it and moving it are ways of looking at it:
/// none of them touches the audio, and made dense again the layer is what it
/// was before it was spread.
pub proof fn a_layer_made_dense_again_is_what_it_was(
    pre: Shared,
    li: int,
    n: usize,
    slot: usize,
    spread: Shared,
    placed: Shared,
    post: Shared,
    a: Said,
    b: Said,
    c: Said,
)
    requires
        pre.wf(),
        0 <= li < pre.size.n_loops,
        pre.loops@[li].body.n_layers > 0,
        pre.loops@[li].layers@[pre.loops@[li].body.n_layers - 1].period == 1,
        pre.loops@[li].layers@[pre.loops@[li].body.n_layers - 1].phase == 0,
        sparse_step(pre, li, n, spread, a),
        place_step(spread, li, slot, placed, b),
        dense_step(placed, li, post, c),
    ensures
        spread.arena == pre.arena,
        placed.arena == pre.arena,
        post.arena == pre.arena,
        post.loops@[li].body == pre.loops@[li].body,
        post.loops@[li].layers@ == pre.loops@[li].layers@,
        forall|i: int|
            0 <= i < pre.size.n_loops && i != li ==> #[trigger] post.loops@[i] == pre.loops@[i],
{
    assert(pre.loop_ok(pre.loops@[li]));
    shared::sized(pre.loops@[li], pre.size.max_layers, pre.size.max_frames);
    assert(post.loops@[li].layers@ =~= pre.loops@[li].layers@);
}

/// The newest layer is spread over so many of its own lengths, in the slot it
/// was in as far as there is one, placed in the one that is asked for, and
/// moved on by one, always coming round; no other layer and no audio changes.
pub proof fn the_newest_layer_is_placed_in_a_slot(
    pre: Shared,
    li: int,
    n: usize,
    post: Shared,
    r: Said,
    l: int,
)
    requires
        pre.wf(),
        0 <= li < pre.size.n_loops,
        pre.loops@[li].body.n_layers > 0,
        0 <= l < pre.size.max_layers,
    ensures
        ({
            let top = pre.loops@[li].body.n_layers - 1;
            let a = pre.loops@[li].layers@[top];
            let b = post.loops@[li].layers@[top];
            &&& sparse_step(pre, li, n, post, r) && 1 <= n <= 32 && a.len > 0 ==> {
                &&& b.period == n
                &&& b.phase == a.phase as int % n as int
                &&& b.len == a.len
                &&& l != top ==> post.loops@[li].layers@[l] == pre.loops@[li].layers@[l]
                &&& post.arena == pre.arena
            }
            &&& sparse_step(pre, li, n, post, r) && !(1 <= n <= 32) ==> post == pre
            &&& place_step(pre, li, n, post, r) && a.period > 1 ==> {
                &&& b.period == a.period
                &&& b.phase == n as int % a.period as int
                &&& post.arena == pre.arena
            }
            &&& rotate_step(pre, li, post, r) && a.period > 1 ==> {
                &&& b.period == a.period
                &&& b.phase == (a.phase + 1) % a.period as int
                &&& post.arena == pre.arena
            }
            &&& rotate_step(pre, li, post, r) && a.period <= 1 ==> post == pre
            &&& dense_step(pre, li, post, r) ==> {
                &&& b.period == 1
                &&& b.phase == 0
                &&& b.len == a.len
                &&& post.arena == pre.arena
            }
        }),
{
    let lp = pre.loops@[li];
    assert(pre.loop_ok(lp));
    shared::sized(lp, pre.size.max_layers, pre.size.max_frames);
    let a = lp.layers@[lp.body.n_layers - 1];
    if a.period > 1 {
        vstd::arithmetic::div_mod::lemma_mod_bound(n as int, a.period as int);
        vstd::arithmetic::div_mod::lemma_mod_bound(a.phase + 1, a.period as int);
    }
    if n > 0 {
        vstd::arithmetic::div_mod::lemma_mod_bound(a.phase as int, n as int);
    }
}

/// Saying how long the next take is gives an empty loop that length, from now
/// on; a loop that has layers keeps its own, and its next take is one pass of
/// it.
pub proof fn the_next_take_is_as_long_as_it_is_told(
    pre: Shared,
    li: int,
    frames: usize,
    asked: u64,
    post: Shared,
    r: Said,
)
    requires
        0 <= li < pre.loops@.len(),
        fix_step(pre, li, frames, asked, post, r),
        pre.loops@[li].state == Phase::Idle || pre.loops@[li].state == Phase::Playing,
    ensures
        pre.loops@[li].body.n_layers > 0 ==> {
            &&& post.loops@[li].next.one_pass
            &&& post.loops@[li].next.request == pre.loops@[li].next.request
            &&& post.loops@[li].body == pre.loops@[li].body
        },
        pre.loops@[li].body.n_layers == 0 && frames <= pre.size.max_frames ==> {
            &&& post.loops@[li].body.loop_len == frames
            &&& post.loops@[li].body.origin == pre.clock.out_frames as i64
            &&& post.loops@[li].body.n_layers == 0
            &&& !post.loops@[li].body.threaded
            &&& post.loops@[li].next == pre.loops@[li].next
        },
        pre.loops@[li].body.n_layers == 0 && frames > pre.size.max_frames ==> post == pre,
{
}

/// A loop forgets its length only where it has no layers; it lets go of the
/// grid with it, and of what was planned for it.
pub proof fn a_loop_forgets_its_length_without_layers(pre: Shared, li: int, post: Shared, r: Said)
    requires
        0 <= li < pre.loops@.len(),
        li != shared::NO_ANCHOR,
        li <= usize::MAX,
        free_step(pre, li, post, r),
    ensures
        pre.loops@[li].body.n_layers > 0 ==> post == pre,
        pre.loops@[li].body.n_layers == 0 && pre.loops@[li].body.loop_len > 0 ==> {
            &&& post.loops@[li].body.loop_len == 0
            &&& post.loops@[li].state == Phase::Idle
            &&& post.loops@[li].next.empty()
            &&& post.loops@[li].take.reached == 0
            &&& post.desk.anchor != li
            &&& pre.desk.anchor != li ==> post.desk.anchor == pre.desk.anchor
        },
{
}

} // verus!
