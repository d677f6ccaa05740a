//! The window and the rotation: what of a loop is played, and where a pass
//! starts in it. All in frames from the start of the loop.

use crate::ack::Said;
use crate::edit;
use crate::frame;
use crate::loop_state::Loop;
use crate::num;
use crate::shared;
use crate::shared::Shared;
use vstd::prelude::*;

verus! {

/// What is edited of a loop is within what arithmetic is safe on.
proof fn edited_bounds(lp: Loop, max_layers: usize, max_frames: usize)
    requires
        shared::sound(lp, max_layers, max_frames),
    ensures
        frame::near(lp.edited().0),
        frame::near(lp.edited().1),
        frame::fits(lp.edited().2),
        frame::short(lp.body.loop_len),
{
    reveal(shared::sound);
    reveal(Loop::wf);
}

/// Playing the whole loop again. The rotation stays, inside the loop.
pub open spec fn whole_step(pre: Shared, li: int, post: Shared, r: Said) -> bool {
    let lp = pre.loops@[li];
    let rot = lp.edited().2 as int % num::larger(lp.body.loop_len as int, 1);
    &&& edit::scheduled(pre, li, 0, 0, rot as usize, post)
    &&& r == (Said::WholeAgain { li: li as usize })
}

pub fn whole(sh: &mut Shared, li: usize) -> (r: Said)
    requires
        old(sh).wf(),
        li < old(sh).size.n_loops,
    ensures
        final(sh).wf(),
        whole_step(*old(sh), li as int, *final(sh), r),
{
    proof {
        assert(sh.loop_ok(sh.loops@[li as int]));
        edited_bounds(sh.loops@[li as int], sh.size.max_layers, sh.size.max_frames);
    }
    let len: usize = num::max(sh.loops[li].body.loop_len, 1);
    let (_, _, rot) = sh.loops[li].edit_view();
    edit::schedule_restart(sh, li, 0, 0, rot % len);
    Said::WholeAgain { li }
}

/// The window with one edge moved: against the one that was last set, which
/// is the whole loop where there is none.
pub open spec fn moved_edge(lp: Loop, is_in: bool, f: i64) -> (int, int) {
    let (vi, vo, _) = lp.edited();
    let (i, o) = if vi == 0 && vo == 0 {
        (0int, lp.body.loop_len as int)
    } else {
        (vi as int, vo as int)
    };
    if is_in {
        (f as int, o)
    } else {
        (i, f as int)
    }
}

/// Moving one edge of the window: to at most one length past either end,
/// and so that it ends after it starts. The whole loop is no window.
pub open spec fn edge_step(
    pre: Shared,
    li: int,
    is_in: bool,
    f: Option<i64>,
    post: Shared,
    r: Option<Said>,
) -> bool {
    let lp = pre.loops@[li];
    let len = lp.body.loop_len as int;
    let (i, o) = moved_edge(lp, is_in, f.unwrap_or(0));
    let rot = lp.edited().2 as int % (o - i);
    if len == 0 {
        post == pre && r == Some(Said::NoLengthToWindow { li: li as usize })
    } else if f is None {
        post == pre && r is None
    } else if i < -len || o > 2 * len {
        &&& post == pre
        &&& r == Some(
            Said::WindowReach {
                li: li as usize,
                len: lp.body.loop_len,
                asked: if is_in {
                    i as i64
                } else {
                    o as i64
                },
            },
        )
    } else if i >= o {
        &&& post == pre
        &&& r == Some(Said::WindowOrder { li: li as usize, from: i as i64, to: o as i64 })
    } else if i == 0 && o == len {
        &&& edit::scheduled(pre, li, 0, 0, rot as usize, post)
        &&& r == Some(Said::WholeAgain { li: li as usize })
    } else {
        &&& edit::scheduled(pre, li, i as i64, o as i64, rot as usize, post)
        &&& r == Some(
            Said::Windows {
                li: li as usize,
                from: i as i64,
                to: o as i64,
                len: lp.body.loop_len,
                padded: i < 0 || o > len,
            },
        )
    }
}

/// Move one edge of the window to a frame, where one could be read.
pub fn set_edge(sh: &mut Shared, li: usize, is_in: bool, f: Option<i64>) -> (r: Option<Said>)
    requires
        old(sh).wf(),
        li < old(sh).size.n_loops,
    ensures
        final(sh).wf(),
        edge_step(*old(sh), li as int, is_in, f, *final(sh), r),
{
    proof {
        assert(sh.loop_ok(sh.loops@[li as int]));
        edited_bounds(sh.loops@[li as int], sh.size.max_layers, sh.size.max_frames);
    }
    let len: usize = sh.loops[li].body.loop_len;
    if len == 0 {
        return Some(Said::NoLengthToWindow { li });
    }
    let f: i64 = match f {
        None => {
            return None;
        },
        Some(f) => f,
    };
    let l: i64 = len as i64;
    let (vi, vo, vr) = sh.loops[li].edit_view();
    let (i, o): (i64, i64) = if vi == 0 && vo == 0 {
        (0, l)
    } else {
        (vi, vo)
    };
    let (i, o): (i64, i64) = if is_in {
        (f, o)
    } else {
        (i, f)
    };
    if i < -l || o > 2 * l {
        return Some(
            Said::WindowReach {
                li,
                len,
                asked: if is_in {
                    i
                } else {
                    o
                },
            },
        );
    }
    if i >= o {
        return Some(Said::WindowOrder { li, from: i, to: o });
    }
    let rot: usize = vr % ((o - i) as usize);
    if i == 0 && o == l {
        edit::schedule_restart(sh, li, 0, 0, rot);
        return Some(Said::WholeAgain { li });
    }
    edit::schedule_restart(sh, li, i, o, rot);
    Some(Said::Windows { li, from: i, to: o, len, padded: i < 0 || o > l })
}

/// How long what is played of a loop is, as it was last set.
pub open spec fn edited_span(lp: Loop) -> int {
    let (vi, vo, _) = lp.edited();
    num::larger(
        if vi == 0 && vo == 0 {
            lp.body.loop_len as int
        } else {
            vo - vi
        },
        1,
    )
}

/// Moving where a pass starts by so many frames, round what is played.
pub open spec fn turn_step(
    pre: Shared,
    li: int,
    k: Option<i64>,
    post: Shared,
    r: Option<Said>,
) -> bool {
    let lp = pre.loops@[li];
    let (vi, vo, vr) = lp.edited();
    if lp.body.loop_len == 0 {
        post == pre && r == Some(Said::NothingToRotate { li: li as usize })
    } else {
        match k {
            None => post == pre && r is None,
            Some(k) => {
                let next = ((vr + k) % edited_span(lp)) as usize;
                &&& edit::scheduled(pre, li, vi, vo, next, post)
                &&& r == Some(Said::Rotated { li: li as usize, next, by: k })
            },
        }
    }
}

/// Move where a pass starts by so many frames, where a number could be read.
pub fn turn(sh: &mut Shared, li: usize, k: Option<i64>) -> (r: Option<Said>)
    requires
        old(sh).wf(),
        li < old(sh).size.n_loops,
    ensures
        final(sh).wf(),
        turn_step(*old(sh), li as int, k, *final(sh), r),
{
    proof {
        assert(sh.loop_ok(sh.loops@[li as int]));
        edited_bounds(sh.loops@[li as int], sh.size.max_layers, sh.size.max_frames);
    }
    let len: usize = sh.loops[li].body.loop_len;
    if len == 0 {
        return Some(Said::NothingToRotate { li });
    }
    let k: i64 = match k {
        None => {
            return None;
        },
        Some(k) => k,
    };
    let (vi, vo, vr) = sh.loops[li].edit_view();
    let span: i64 = num::max_signed(
        if vi == 0 && vo == 0 {
            len as i64
        } else {
            vo - vi
        },
        1,
    );
    let by: i64 = num::wrap(k, span);
    let next: i64 = num::wrap(vr as i64 + by, span);
    proof {
        vstd::arithmetic::div_mod::lemma_add_mod_noop_right(vr as int, k as int, span as int);
    }
    edit::schedule_restart(sh, li, vi, vo, next as usize);
    Some(Said::Rotated { li, next: next as usize, by: k })
}

/// A window and a rotation move nothing: the audio, the length and the
/// layers are what they were, and what plays goes on until the edit has
/// settled.
pub proof fn an_edit_moves_nothing(pre: Shared, li: int, from: i64, to: i64, rot: usize, post: Shared)
    requires
        0 <= li < pre.loops@.len(),
        edit::scheduled(pre, li, from, to, rot, post),
    ensures
        post.arena == pre.arena,
        post.loops@[li].body == pre.loops@[li].body,
        post.loops@[li].layers == pre.loops@[li].layers,
        forall|raw: int, len: int|
            #![trigger post.loops@[li].heard(raw, len)]
            post.loops@[li].heard(raw, len) == pre.loops@[li].heard(raw, len),
{
}

/// Moving the start of a window moves it there and leaves its end, and moving
/// its end leaves its start; a loop without a window has the whole of it for
/// one. A window that ends before it starts or reaches more than a length past
/// either end is refused.
pub proof fn an_edge_moves_to_where_it_is_asked(
    pre: Shared,
    li: int,
    is_in: bool,
    f: i64,
    post: Shared,
    r: Option<Said>,
    from: int,
    to: int,
)
    requires
        pre.wf(),
        0 <= li < pre.size.n_loops,
        edge_step(pre, li, is_in, Some(f), post, r),
        pre.loops@[li].body.loop_len > 0,
        !pre.loops@[li].edit.pend_set,
        ({
            let a = pre.loops@[li];
            let none = a.edit.win_in == 0 && a.edit.win_out == 0;
            &&& is_in ==> from == f && (none ==> to == a.body.loop_len) && (!none ==> to
                == a.edit.win_out)
            &&& !is_in ==> to == f && from == a.edit.win_in
        }),
    ensures
        ({
            let a = pre.loops@[li];
            let b = post.loops@[li];
            let len = a.body.loop_len;
            if -len <= from < to <= 2 * len {
                &&& b.edit.pend_set
                &&& from == 0 && to == len ==> b.edit.pend_in == 0 && b.edit.pend_out == 0
                &&& from != 0 || to != len ==> b.edit.pend_in == from && b.edit.pend_out == to
                &&& b.edit.pend_rot == a.edit.rot as int % (to - from)
            } else {
                post == pre
            }
        }),
{
    let rot = pre.loops@[li].edit.rot;
    assert(pre.loop_ok(pre.loops@[li]));
    edited_bounds(pre.loops@[li], pre.size.max_layers, pre.size.max_frames);
    if from < to {
        vstd::arithmetic::div_mod::lemma_mod_bound(rot as int, to - from);
        vstd::arithmetic::div_mod::lemma_mod_decreases(rot as nat, (to - from) as nat);
    }
}

/// A pass starts so many frames further on, round what is played: it goes on
/// by what was asked, comes round, and a turn back undoes it.
pub proof fn a_turn_goes_round_what_is_played(
    pre: Shared,
    li: int,
    k: i64,
    post: Shared,
    r: Option<Said>,
    span: int,
)
    requires
        0 <= li < pre.loops@.len(),
        turn_step(pre, li, Some(k), post, r),
        pre.loops@[li].body.loop_len > 0,
        !pre.loops@[li].edit.pend_set,
        ({
            let a = pre.loops@[li];
            let none = a.edit.win_in == 0 && a.edit.win_out == 0;
            &&& none ==> span == a.body.loop_len
            &&& !none ==> span == a.edit.win_out - a.edit.win_in
            &&& span > 0
            &&& span <= usize::MAX
        }),
    ensures
        ({
            let a = pre.loops@[li];
            let b = post.loops@[li];
            &&& b.edit.pend_set
            &&& b.edit.pend_in == a.edit.win_in
            &&& b.edit.pend_out == a.edit.win_out
            &&& b.edit.pend_rot < span
            &&& (b.edit.pend_rot - a.edit.rot - k) % span == 0
        }),
{
    let v = pre.loops@[li].edit.rot + k;
    vstd::arithmetic::div_mod::lemma_mod_bound(v, span);
    vstd::arithmetic::div_mod::lemma_fundamental_div_mod(v, span);
    assert(v % span - v == (-(v / span)) * span) by (nonlinear_arith)
        requires
            v == span * (v / span) + v % span,
    ;
    vstd::arithmetic::div_mod::lemma_mod_multiples_basic(-(v / span), span);
}

/// Playing the whole loop again lets the window go and keeps the rotation, as
/// far as the loop goes.
pub proof fn a_loop_is_whole_again(pre: Shared, li: int, post: Shared, r: Said)
    requires
        0 <= li < pre.loops@.len(),
        whole_step(pre, li, post, r),
        pre.loops@[li].body.loop_len > 0,
    ensures
        post.loops@[li].edit.pend_set,
        post.loops@[li].edit.pend_in == 0,
        post.loops@[li].edit.pend_out == 0,
        post.loops@[li].edit.pend_rot == pre.loops@[li].edited().2 as int
            % pre.loops@[li].body.loop_len as int,
{
}

} // verus!
