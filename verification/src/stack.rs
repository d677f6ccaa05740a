//! The stack of layers: taking the last one off, putting it back, and what
//! is set of a layer.

use crate::ack::Said;
use crate::cycle;
use crate::frame;
use crate::guards;
use crate::layer::Layer;
use crate::loop_state;
use crate::loop_state::{Body, Loop};
use crate::next_take::{ARMED, NEVER};
use crate::phase::Phase;
use crate::shared;
use crate::shared::Shared;
use vstd::prelude::*;

verus! {

/// A loop with so many layers playing.
pub open spec fn playing(lp: Loop, n: int) -> Loop {
    Loop { body: Body { n_layers: n as usize, ..lp.body }, ..lp }
}

proof fn recounted_sound(lp: Loop, n: int, max_layers: usize, max_frames: usize)
    requires
        shared::sound(lp, max_layers, max_frames),
        0 <= n <= max_layers,
    ensures
        shared::sound(playing(lp, n), max_layers, max_frames),
{
    reveal(shared::sound);
    reveal(Loop::wf);
}

fn recount(sh: &mut Shared, li: usize, n: usize)
    requires
        old(sh).wf(),
        li < old(sh).size.n_loops,
        n <= old(sh).size.max_layers,
    ensures
        final(sh).wf(),
        old(sh).but_loop(
            li as int,
            playing(old(sh).loops@[li as int], n as int),
            *final(sh),
        ),
{
    let ghost a = sh.loops@[li as int];
    assert(sh.loop_ok(a));
    let lp = &mut sh.loops[li];
    lp.body.n_layers = n;
    proof {
        recounted_sound(a, n as int, sh.size.max_layers, sh.size.max_frames);
        shared::loop_exchanged(*old(sh), *sh, li as int, sh.loops@[li as int]);
    }
}

/// Taking the last layer off. Its audio stays, for redo, and so does the
/// length of the loop.
pub open spec fn undo_step(pre: Shared, li: int, post: Shared, r: Said) -> bool {
    let lp = pre.loops@[li];
    let n = lp.body.n_layers;
    match guards::in_hand(lp, li) {
        Some(why) => post == pre && r == why,
        None => if n == 0 {
            post == pre && r == (Said::NothingToUndo { li: li as usize })
        } else {
            &&& pre.but_loop(li, playing(lp, n - 1), post)
            &&& r == (if n == 1 {
                Said::EmptyNow { li: li as usize, len: lp.body.loop_len }
            } else {
                Said::Removed { li: li as usize, layer: n, left: (n - 1) as usize }
            })
        },
    }
}

pub fn undo(sh: &mut Shared, li: usize) -> (r: Said)
    requires
        old(sh).wf(),
        li < old(sh).size.n_loops,
    ensures
        final(sh).wf(),
        undo_step(*old(sh), li as int, *final(sh), r),
{
    proof {
        assert(sh.loop_ok(sh.loops@[li as int]));
        shared::sized(sh.loops@[li as int], sh.size.max_layers, sh.size.max_frames);
    }
    if let Some(why) = guards::still_recording(&sh.loops[li], li) {
        return why;
    }
    let n: usize = sh.loops[li].body.n_layers;
    if n == 0 {
        return Said::NothingToUndo { li };
    }
    let len: usize = sh.loops[li].body.loop_len;
    recount(sh, li, n - 1);
    if n == 1 {
        Said::EmptyNow { li, len }
    } else {
        Said::Removed { li, layer: n, left: n - 1 }
    }
}

/// Taking an undo back, as far up as the stack still holds audio.
pub open spec fn redo_step(pre: Shared, li: int, post: Shared, r: Said) -> bool {
    let lp = pre.loops@[li];
    let n = lp.body.n_layers;
    if n < lp.body.redo_to {
        &&& pre.but_loop(li, playing(lp, n + 1), post)
        &&& r == (Said::Redone { li: li as usize, n: (n + 1) as usize })
    } else {
        &&& post == pre
        &&& r == (if lp.body.redo_to == 0 {
            Said::NothingToRedo { li: li as usize }
        } else {
            Said::AtLastTake { li: li as usize }
        })
    }
}

pub fn redo(sh: &mut Shared, li: usize) -> (r: Said)
    requires
        old(sh).wf(),
        li < old(sh).size.n_loops,
    ensures
        final(sh).wf(),
        redo_step(*old(sh), li as int, *final(sh), r),
{
    proof {
        assert(sh.loop_ok(sh.loops@[li as int]));
        shared::sized(sh.loops@[li as int], sh.size.max_layers, sh.size.max_frames);
    }
    let n: usize = sh.loops[li].body.n_layers;
    let top: usize = sh.loops[li].body.redo_to;
    if n >= top {
        return if top == 0 {
            Said::NothingToRedo { li }
        } else {
            Said::AtLastTake { li }
        };
    }
    recount(sh, li, n + 1);
    Said::Redone { li, n: n + 1 }
}

/// Switching a layer on or off. Layers count from one here.
pub open spec fn switch_step(
    pre: Shared,
    li: int,
    k: usize,
    on: bool,
    post: Shared,
    r: Said,
) -> bool {
    let lp = pre.loops@[li];
    if 1 <= k <= lp.body.n_layers {
        &&& cycle::relayered(pre, li, k - 1, (Layer { on, ..lp.layers@[k - 1] }), post)
        &&& r == (Said::LayerIs { li: li as usize, layer: k, on })
    } else {
        &&& post == pre
        &&& r == (Said::NoSuchLayer { li: li as usize, n: lp.body.n_layers, layer: k })
    }
}

proof fn layer_set_sound(a: Loop, b: Loop, l: int, layer: Layer, max_layers: usize, max_frames: usize)
    requires
        shared::sound(a, max_layers, max_frames),
        0 <= l < max_layers,
        loop_state::layer_wf(layer),
        layer.len <= max_frames,
        b == (Loop { layers: b.layers, ..a }),
        b.layers@ == a.layers@.update(l, layer),
    ensures
        shared::sound(b, max_layers, max_frames),
{
    reveal(shared::sound);
    reveal(Loop::wf);
    assert forall|k: int| 0 <= k < b.layers@.len() implies loop_state::layer_wf(
        #[trigger] b.layers@[k],
    ) && b.layers@[k].len <= max_frames by {
        assert(loop_state::layer_wf(a.layers@[k]));
        assert(a.layers@[k].len <= max_frames);
    }
}

proof fn layer_bounds(lp: Loop, l: int, max_layers: usize, max_frames: usize)
    requires
        shared::sound(lp, max_layers, max_frames),
        0 <= l < max_layers,
    ensures
        loop_state::layer_wf(lp.layers@[l]),
        lp.layers@[l].len <= max_frames,
{
    reveal(shared::sound);
    reveal(Loop::wf);
}

pub fn switch_layer(sh: &mut Shared, li: usize, k: usize, on: bool) -> (r: Said)
    requires
        old(sh).wf(),
        li < old(sh).size.n_loops,
    ensures
        final(sh).wf(),
        switch_step(*old(sh), li as int, k, on, *final(sh), r),
{
    let ghost a = sh.loops@[li as int];
    proof {
        assert(sh.loop_ok(a));
        shared::sized(a, sh.size.max_layers, sh.size.max_frames);
    }
    let n: usize = sh.loops[li].body.n_layers;
    if k < 1 || k > n {
        return Said::NoSuchLayer { li, n, layer: k };
    }
    proof {
        layer_bounds(a, k - 1, sh.size.max_layers, sh.size.max_frames);
    }
    let lp = &mut sh.loops[li];
    let layer = &mut lp.layers[k - 1];
    layer.on = on;
    proof {
        let b = sh.loops@[li as int];
        layer_set_sound(
            a,
            b,
            k - 1,
            b.layers@[k - 1],
            sh.size.max_layers,
            sh.size.max_frames,
        );
        shared::loop_exchanged(*old(sh), *sh, li as int, b);
    }
    Said::LayerIs { li, layer: k, on }
}

/// Whether a stretch is one a layer can play: it ends after it starts, meets
/// the layer, and is no longer than a layer may become.
pub open spec fn playable(from: int, to: int, len: int, max_frames: int) -> bool {
    from < to && from < len && to > 0 && to - from <= max_frames
}

/// Giving a layer a window of its own, or none. Layers count from one here.
pub open spec fn stretch_step(
    pre: Shared,
    li: int,
    k: usize,
    win: Option<(i64, i64)>,
    post: Shared,
    r: Said,
) -> bool {
    let lp = pre.loops@[li];
    let layer = lp.layers@[k - 1];
    if !(1 <= k <= lp.body.n_layers) {
        &&& post == pre
        &&& r == (Said::NoSuchLayer { li: li as usize, n: lp.body.n_layers, layer: k })
    } else {
        match win {
            None => {
                &&& cycle::relayered(
                    pre,
                    li,
                    k - 1,
                    (Layer { win_in: 0, win_out: 0, ..layer }),
                    post,
                )
                &&& r == (Said::LayerWhole { li: li as usize, layer: k })
            },
            Some((from, to)) => if playable(
                from as int,
                to as int,
                layer.len as int,
                pre.size.max_frames as int,
            ) {
                &&& cycle::relayered(
                    pre,
                    li,
                    k - 1,
                    (Layer { win_in: from, win_out: to, ..layer }),
                    post,
                )
                &&& r == (Said::LayerPlays { li: li as usize, layer: k, from, to, len: layer.len })
            } else {
                post == pre && r == (Said::LayerWindowBad { li: li as usize, layer: k })
            },
        }
    }
}

fn put_window(sh: &mut Shared, li: usize, l: usize, from: i64, to: i64)
    requires
        old(sh).wf(),
        li < old(sh).size.n_loops,
        l < old(sh).size.max_layers,
        frame::near(from),
        frame::near(to),
    ensures
        final(sh).wf(),
        cycle::relayered(
            *old(sh),
            li as int,
            l as int,
            (Layer {
                win_in: from,
                win_out: to,
                ..old(sh).loops@[li as int].layers@[l as int]
            }),
            *final(sh),
        ),
{
    let ghost a = sh.loops@[li as int];
    proof {
        assert(sh.loop_ok(a));
        shared::sized(a, sh.size.max_layers, sh.size.max_frames);
        layer_bounds(a, l as int, sh.size.max_layers, sh.size.max_frames);
    }
    let lp = &mut sh.loops[li];
    let layer = &mut lp.layers[l];
    layer.win_in = from;
    layer.win_out = to;
    proof {
        let b = sh.loops@[li as int];
        layer_set_sound(
            a,
            b,
            l as int,
            b.layers@[l as int],
            sh.size.max_layers,
            sh.size.max_frames,
        );
        shared::loop_exchanged(*old(sh), *sh, li as int, b);
    }
}

pub fn window_layer(sh: &mut Shared, li: usize, k: usize, win: Option<(i64, i64)>) -> (r: Said)
    requires
        old(sh).wf(),
        li < old(sh).size.n_loops,
    ensures
        final(sh).wf(),
        stretch_step(*old(sh), li as int, k, win, *final(sh), r),
{
    let ghost a = sh.loops@[li as int];
    proof {
        assert(sh.loop_ok(a));
        shared::sized(a, sh.size.max_layers, sh.size.max_frames);
    }
    let n: usize = sh.loops[li].body.n_layers;
    if k < 1 || k > n {
        return Said::NoSuchLayer { li, n, layer: k };
    }
    let (from, to) = match win {
        None => {
            put_window(sh, li, k - 1, 0, 0);
            return Said::LayerWhole { li, layer: k };
        },
        Some(w) => w,
    };
    let max: i64 = sh.size.max_frames as i64;
    assert(a.layers@[k - 1].len <= sh.size.max_frames);
    let len: usize = sh.loops[li].layers[k - 1].len;
    if from < to && from < len as i64 && to > 0 && from >= -max && to <= from + max {
        put_window(sh, li, k - 1, from, to);
        return Said::LayerPlays { li, layer: k, from, to, len };
    }
    Said::LayerWindowBad { li, layer: k }
}

/// An undo that is taken back leaves every loop as it was, with the audio it
/// had, where the stack holds audio up to the layer that was taken off.
pub proof fn a_redo_takes_an_undo_back(
    pre: Shared,
    li: int,
    mid: Shared,
    undone: Said,
    post: Shared,
    redone: Said,
)
    requires
        0 <= li < pre.loops@.len(),
        undo_step(pre, li, mid, undone),
        redo_step(mid, li, post, redone),
        guards::in_hand(pre.loops@[li], li) is None,
        0 < pre.loops@[li].body.n_layers <= pre.loops@[li].body.redo_to,
    ensures
        post.loops@ == pre.loops@,
        post.audio() == pre.audio(),
        redone == (Said::Redone { li: li as usize, n: pre.loops@[li].body.n_layers }),
{
    let lp = pre.loops@[li];
    assert(playing(playing(lp, lp.body.n_layers - 1), lp.body.n_layers as int) == lp);
    assert(post.loops@ =~= pre.loops@);
}

/// An undo keeps the length of the loop, its place and all its audio.
pub proof fn an_undo_keeps_the_grid(pre: Shared, li: int, post: Shared, r: Said)
    requires
        0 <= li < pre.loops@.len(),
        undo_step(pre, li, post, r),
    ensures
        post.loops@[li].body.loop_len == pre.loops@[li].body.loop_len,
        post.loops@[li].body.origin == pre.loops@[li].body.origin,
        post.loops@[li].layers == pre.loops@[li].layers,
        post.audio() == pre.audio(),
{
}

/// An undo takes the newest layer off and no other, and leaves it for redo; a
/// redo puts the next one back. Neither touches a sample.
pub proof fn an_undo_takes_one_layer_off(pre: Shared, li: int, post: Shared, r: Said)
    requires
        0 <= li < pre.loops@.len(),
        undo_step(pre, li, post, r),
        pre.loops@[li].state == Phase::Idle || pre.loops@[li].state == Phase::Playing,
        pre.loops@[li].next.request != ARMED || pre.loops@[li].next.request_at == NEVER,
    ensures
        pre.loops@[li].body.n_layers == 0 ==> post == pre,
        pre.loops@[li].body.n_layers > 0 ==> {
            &&& post.loops@[li].body.n_layers == pre.loops@[li].body.n_layers - 1
            &&& post.loops@[li].body.redo_to == pre.loops@[li].body.redo_to
            &&& post.loops@[li].state == pre.loops@[li].state
            &&& post.loops@[li].layers == pre.loops@[li].layers
            &&& post.arena == pre.arena
        },
{
}

/// A redo puts back the layer above those that play, where one is kept.
pub proof fn a_redo_puts_one_layer_back(pre: Shared, li: int, post: Shared, r: Said)
    requires
        0 <= li < pre.loops@.len(),
        redo_step(pre, li, post, r),
        pre.loops@[li].body.n_layers < usize::MAX,
    ensures
        pre.loops@[li].body.n_layers >= pre.loops@[li].body.redo_to ==> post == pre,
        pre.loops@[li].body.n_layers < pre.loops@[li].body.redo_to ==> {
            &&& post.loops@[li].body.n_layers == pre.loops@[li].body.n_layers + 1
            &&& post.loops@[li].body.redo_to == pre.loops@[li].body.redo_to
            &&& post.loops@[li].layers == pre.loops@[li].layers
            &&& post.arena == pre.arena
        },
{
}

/// Switching a layer switches that one, counted from one, and it is heard or
/// not as it is switched; its audio stays.
pub proof fn a_switch_switches_one_layer(
    pre: Shared,
    li: int,
    k: usize,
    on: bool,
    post: Shared,
    r: Said,
    l: int,
)
    requires
        pre.wf(),
        0 <= li < pre.size.n_loops,
        switch_step(pre, li, k, on, post, r),
        0 <= l < pre.size.max_layers,
    ensures
        1 <= k <= pre.loops@[li].body.n_layers ==> {
            &&& l == k - 1 ==> post.loops@[li].layers@[l].on == on
                && post.loops@[li].layers@[l].gain == pre.loops@[li].layers@[l].gain
                && post.loops@[li].layers@[l].len == pre.loops@[li].layers@[l].len
            &&& l != k - 1 ==> post.loops@[li].layers@[l] == pre.loops@[li].layers@[l]
            &&& post.loops@[li].body == pre.loops@[li].body
            &&& post.arena == pre.arena
        },
        !(1 <= k <= pre.loops@[li].body.n_layers) ==> post == pre,
{
    assert(pre.loop_ok(pre.loops@[li]));
    shared::sized(pre.loops@[li], pre.size.max_layers, pre.size.max_frames);
}

/// A layer that is given a window goes round it from then on, and one that is
/// given none is whole again. What is not a stretch of it is refused.
pub proof fn a_layer_goes_round_the_window_it_is_given(
    pre: Shared,
    li: int,
    k: usize,
    win: Option<(i64, i64)>,
    post: Shared,
    r: Said,
)
    requires
        pre.wf(),
        0 <= li < pre.size.n_loops,
        stretch_step(pre, li, k, win, post, r),
        1 <= k <= pre.loops@[li].body.n_layers,
    ensures
        win is None ==> post.loops@[li].layers@[k - 1].windowed() is None
            && post.loops@[li].layers@[k - 1].win_out == 0,
        win matches Some((from, to)) ==> {
            if from < to && from < pre.loops@[li].layers@[k - 1].len && to > 0 && to - from
                <= pre.size.max_frames {
                &&& post.loops@[li].layers@[k - 1].win_in == from
                &&& post.loops@[li].layers@[k - 1].win_out == to
                &&& post.loops@[li].layers@[k - 1].windowed() == Some((from, to))
            } else {
                post == pre
            }
        },
        post.arena == pre.arena,
        post.loops@[li].body == pre.loops@[li].body,
{
    assert(pre.loop_ok(pre.loops@[li]));
    shared::sized(pre.loops@[li], pre.size.max_layers, pre.size.max_frames);
}

} // verus!
