//! Edits that take effect on a restart: a blank tape, and the window and
//! rotation once they have settled.

use crate::audio;
use crate::finish;
use crate::frame;
use crate::layer::{Layer, Shape};
use crate::loop_state;
use crate::loop_state::{Body, Edit, Loop};
use crate::phase::Phase;
use crate::shared;
use crate::shared::Shared;
use vstd::prelude::*;

verus! {

/// How long edits have to stop for before the pass restarts, in frames.
pub const EDIT_SETTLE_FRAMES: i64 = 7200;

/// What is in a loop that is an empty tape.
pub open spec fn blank_body(b: Body, now: int, len: usize) -> Body {
    Body { origin: now as i64, loop_len: len, n_layers: 1, threaded: true, ..b }
}

/// A loop has become an empty tape: one silent layer that plays.
pub open spec fn blanked(a: Loop, now: int, len: usize, tape: Seq<u32>, b: Loop) -> bool {
    &&& b == (Loop {
        state: Phase::Playing,
        body: blank_body(a.body, now, len),
        layers: b.layers,
        ..a
    })
    &&& b.layers@.len() == a.layers@.len()
    &&& forall|l: int| 0 < l < a.layers@.len() ==> #[trigger] b.layers@[l] == a.layers@[l]
    &&& b.layers@[0] == (Layer {
        env: b.layers@[0].env,
        ..a.layers@[0].shaped(Shape { len, tail: 0, born: 0 })
    })
    &&& b.layers@[0].env@ == audio::picture(tape, len as int)
}

/// An empty tape is threaded onto a loop and nothing else changed.
pub open spec fn threaded(pre: Shared, li: int, len: usize, post: Shared) -> bool {
    let silence = audio::silence(2 * pre.size.max_frames);
    &&& post.audio() == pre.audio_with(li, 0, silence)
    &&& finish::others_kept(pre, li, post)
    &&& blanked(pre.loops@[li], pre.now(), len, silence, post.loops@[li])
    &&& post == (Shared { arena: post.arena, loops: post.loops, ..pre })
}

proof fn blanked_sound(
    a: Loop,
    b: Loop,
    now: int,
    len: usize,
    max_layers: usize,
    max_frames: usize,
)
    requires
        shared::sound(a, max_layers, max_frames),
        max_layers >= 1,
        len <= max_frames,
        frame::short(max_frames),
        frame::safe(4 * now),
        b.layers@ == a.layers@.update(
            0,
            a.layers@[0].shaped(Shape { len, tail: 0, born: 0 }),
        ),
        b == (Loop {
            state: Phase::Playing,
            body: blank_body(a.body, now, len),
            layers: b.layers,
            ..a
        }),
    ensures
        shared::sound(b, max_layers, max_frames),
{
    reveal(shared::sound);
    reveal(Loop::wf);
    assert forall|l: int| 0 <= l < b.layers@.len() implies loop_state::layer_wf(
        #[trigger] b.layers@[l],
    ) && b.layers@[l].len <= max_frames by {
        assert(loop_state::layer_wf(a.layers@[l]));
        assert(a.layers@[l].len <= max_frames);
    }
}

/// Thread an empty tape onto a loop.
pub fn thread_blank(sh: &mut Shared, li: usize, len: usize)
    requires
        old(sh).wf(),
        li < old(sh).size.n_loops,
        len <= old(sh).size.max_frames,
    ensures
        final(sh).wf(),
        threaded(*old(sh), li as int, len, *final(sh)),
{
    let ghost a = sh.loops@[li as int];
    assert(sh.loop_ok(a));
    assert(a.layers@.len() == sh.size.max_layers) by {
        shared::sized(a, sh.size.max_layers, sh.size.max_frames);
    }
    sh.zero_layer(li, 0);
    let ghost zeroed = *sh;
    let now: i64 = sh.clock.out_frames as i64;
    let mut body: Body = sh.loops[li].body;
    body.origin = now;
    body.loop_len = len;
    body.n_layers = 1;
    body.threaded = true;
    let lp = &mut sh.loops[li];
    lp.body = body;
    lp.set_layer_shape(0, Shape { len, tail: 0, born: 0 });
    lp.enter(Phase::Playing);
    proof {
        blanked_sound(
            a,
            sh.loops@[li as int],
            now as int,
            len,
            sh.size.max_layers,
            sh.size.max_frames,
        );
        shared::loop_exchanged(zeroed, *sh, li as int, sh.loops@[li as int]);
    }
    let ghost mid = *sh;
    sh.rebuild_env(li, 0);
    assert(sh.audio() =~= zeroed.audio());
    assert(mid.tape(li as int, 0) == zeroed.tape(li as int, 0));
}

/// When an edit restarts the pass: once it has settled, and on the grid
/// where the loop is on it or gives it.
pub open spec fn restart_at(sh: Shared, li: int) -> int {
    let soon = sh.now() + EDIT_SETTLE_FRAMES;
    if sh.loops@[li].habit.quant || sh.desk.anchor == li {
        match sh.boundary(soon) {
            Some(t) => t,
            None => soon,
        }
    } else {
        soon
    }
}

/// An edit that waits.
pub open spec fn pending(e: Edit, win_in: i64, win_out: i64, rot: usize, at: int) -> Edit {
    Edit {
        pend_in: win_in,
        pend_out: win_out,
        pend_rot: rot,
        pend_set: true,
        edit_restart: at as i64,
        ..e
    }
}

/// An edit is scheduled and nothing else changed.
pub open spec fn scheduled(
    pre: Shared,
    li: int,
    win_in: i64,
    win_out: i64,
    rot: usize,
    post: Shared,
) -> bool {
    let lp = pre.loops@[li];
    pre.but_loop(
        li,
        Loop { edit: pending(lp.edit, win_in, win_out, rot, restart_at(pre, li)), ..lp },
        post,
    )
}

proof fn edited_sound(lp: Loop, e: Edit, max_layers: usize, max_frames: usize)
    requires
        shared::sound(lp, max_layers, max_frames),
        frame::near(e.win_in),
        frame::near(e.win_out),
        frame::fits(e.rot),
        frame::near(e.edit_restart),
        frame::near(e.pend_in),
        frame::near(e.pend_out),
        frame::fits(e.pend_rot),
    ensures
        shared::sound(Loop { edit: e, ..lp }, max_layers, max_frames),
{
    reveal(shared::sound);
    reveal(Loop::wf);
}

/// Schedule the restart an edit asks for.
pub fn schedule_restart(sh: &mut Shared, li: usize, win_in: i64, win_out: i64, rot: usize)
    requires
        old(sh).wf(),
        li < old(sh).size.n_loops,
        frame::near(win_in),
        frame::near(win_out),
        frame::fits(rot),
    ensures
        final(sh).wf(),
        scheduled(*old(sh), li as int, win_in, win_out, rot, *final(sh)),
{
    let ghost a = sh.loops@[li as int];
    assert(sh.loop_ok(a));
    let soon: i64 = sh.clock.out_frames as i64 + EDIT_SETTLE_FRAMES;
    let at: i64 = if sh.loops[li].habit.quant || sh.desk.anchor == li {
        match sh.next_boundary(soon) {
            Some(t) => t,
            None => soon,
        }
    } else {
        soon
    };
    let mut e: Edit = sh.loops[li].edit;
    e.pend_in = win_in;
    e.pend_out = win_out;
    e.pend_rot = rot;
    e.pend_set = true;
    e.edit_restart = at;
    let lp = &mut sh.loops[li];
    lp.edit = e;
    proof {
        assert(frame::near(a.edit.win_in) && frame::near(a.edit.win_out) && frame::fits(
            a.edit.rot,
        )) by {
            reveal(shared::sound);
            reveal(Loop::wf);
        }
        edited_sound(a, e, sh.size.max_layers, sh.size.max_frames);
        shared::loop_exchanged(*old(sh), *sh, li as int, sh.loops@[li as int]);
    }
}

/// An edit waits until edits have stopped for a while, and where the loop is
/// on the grid or gives it until the next line after that. What it is to be is
/// held until then; what is live, and all the audio, stay.
pub proof fn an_edit_waits_until_it_has_settled(
    pre: Shared,
    li: int,
    win_in: i64,
    win_out: i64,
    rot: usize,
    post: Shared,
)
    requires
        pre.wf(),
        0 <= li < pre.size.n_loops,
        scheduled(pre, li, win_in, win_out, rot, post),
    ensures
        ({
            let a = pre.loops@[li];
            let b = post.loops@[li];
            let soon = pre.clock.out_frames + 7200;
            &&& b.edit.pend_set
            &&& b.edit.pend_in == win_in
            &&& b.edit.pend_out == win_out
            &&& b.edit.pend_rot == rot
            &&& b.edit.win_in == a.edit.win_in
            &&& b.edit.win_out == a.edit.win_out
            &&& b.edit.rot == a.edit.rot
            &&& b.edited() == (win_in, win_out, rot)
            &&& !a.habit.quant && pre.desk.anchor != li || pre.boundary(soon) is None
                ==> b.edit.edit_restart == soon as i64
            &&& (a.habit.quant || pre.desk.anchor == li) && pre.boundary(soon) is Some
                ==> b.edit.edit_restart == pre.boundary(soon).unwrap() as i64
            &&& post.arena == pre.arena
        }),
{
}

/// A tape is threaded empty: one silent layer, as long as asked, that begins
/// now and plays.
pub proof fn a_blank_tape_is_silent_and_begins_now(pre: Shared, li: int, len: usize, post: Shared, i: int)
    requires
        pre.wf(),
        0 <= li < pre.size.n_loops,
        threaded(pre, li, len, post),
        0 <= i < 2 * pre.size.max_frames,
    ensures
        ({
            let b = post.loops@[li];
            &&& b.state == Phase::Playing
            &&& b.body.origin == pre.clock.out_frames
            &&& b.body.loop_len == len
            &&& b.body.n_layers == 1
            &&& b.body.threaded
            &&& b.layers@[0].len == len
            &&& b.layers@[0].on
            &&& post.audio()[li][0][i] == 0
        }),
{
    assert(pre.arena@[li]@.len() == pre.size.max_layers);
}

} // verus!
