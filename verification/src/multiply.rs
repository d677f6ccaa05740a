//! Multiplying: recording across several cycles while the loop goes on
//! underneath.

use crate::ack::Said;
use crate::audio;
use crate::closing::{Caller, Closing, Filed, Take};
use crate::commit;
use crate::commit::Closed;
use crate::finish;
use crate::frame;
use crate::loop_state::{Body, Loop, Progress};
use crate::num;
use crate::past;
use crate::phase::Phase;
use crate::shared;
use crate::shared::Shared;
use vstd::prelude::*;

verus! {

/// The top of the cycle a loop is in at a frame.
pub open spec fn cycle_top(lp: Loop, cur: int) -> int {
    lp.body.origin + (cur - lp.body.origin) / lp.body.loop_len as int * lp.body.loop_len
}

/// A loop that multiplies from a frame, with so much of it recovered. The
/// layer it writes, and those above, are no longer kept for redo.
pub open spec fn multiplying(lp: Loop, from: int, got: int) -> Loop {
    Loop {
        state: Phase::Multiply,
        body: Body { redo_to: lp.body.n_layers, ..lp.body },
        take: Progress { rec_from: from as i64, reached: got as usize, ..lp.take },
        ..lp
    }
}

/// Beginning a multiply: it starts at the top of the cycle it is pressed in,
/// and what has gone by of that cycle comes from the past.
pub open spec fn start_step(pre: Shared, li: int, post: Shared, r: Said) -> bool {
    let lp = pre.loops@[li];
    let from = cycle_top(lp, pre.now());
    let behind = pre.now() - from;
    let got = past::held(pre, pre.source_of(li), from, behind);
    if lp.body.loop_len == 0 {
        post == pre && r == (Said::NothingToMultiply { li: li as usize })
    } else if lp.body.n_layers >= pre.size.max_layers {
        post == pre && r == (Said::Ceiling { li: li as usize, max_layers: pre.size.max_layers })
    } else {
        &&& post.audio() == pre.audio_with(
            li,
            lp.body.n_layers as int,
            past::filled(
                audio::silence(2 * pre.size.max_frames),
                pre,
                pre.source_of(li),
                from,
                behind,
                0,
            ),
        )
        &&& post.loops@ == pre.loops@.update(li, multiplying(lp, from, got as int))
        &&& post == (Shared { arena: post.arena, loops: post.loops, ..pre })
        &&& r == (Said::Multiplying {
            li: li as usize,
            behind: behind as usize,
            recovered: got as usize,
        })
    }
}

/// The top of a cycle is at most a cycle ago.
pub proof fn top_is_near(lp: Loop, cur: int)
    requires
        lp.body.loop_len > 0,
    ensures
        cycle_top(lp, cur) <= cur < cycle_top(lp, cur) + lp.body.loop_len,
{
    let e = cur - lp.body.origin;
    let len = lp.body.loop_len as int;
    vstd::arithmetic::div_mod::lemma_fundamental_div_mod(e, len);
    assert(e / len * len == len * (e / len)) by (nonlinear_arith);
}

proof fn multiplying_sound(lp: Loop, from: int, got: int, max_layers: usize, max_frames: usize)
    requires
        shared::sound(lp, max_layers, max_frames),
        frame::safe(4 * from),
        0 <= got <= max_frames,
        frame::short(max_frames),
    ensures
        shared::sound(multiplying(lp, from, got), max_layers, max_frames),
{
    reveal(shared::sound);
    reveal(Loop::wf);
}

/// Begin a multiply.
pub fn multiply_start(sh: &mut Shared, li: usize) -> (r: Said)
    requires
        old(sh).wf(),
        li < old(sh).size.n_loops,
    ensures
        final(sh).wf(),
        start_step(*old(sh), li as int, *final(sh), r),
{
    let ghost lp = sh.loops@[li as int];
    assert(sh.loop_ok(lp));
    assert(frame::near(lp.body.origin) && lp.body.loop_len <= sh.size.max_frames) by {
        reveal(shared::sound);
        reveal(Loop::wf);
    }
    let len: usize = sh.loops[li].body.loop_len;
    if len == 0 {
        return Said::NothingToMultiply { li };
    }
    let layer: usize = sh.loops[li].body.n_layers;
    if layer >= sh.size.max_layers {
        return Said::Ceiling { li, max_layers: sh.size.max_layers };
    }
    let origin: i64 = sh.loops[li].body.origin;
    let cur: i64 = sh.clock.out_frames as i64;
    let into: i64 = num::wrap(cur - origin, len as i64);
    let from: i64 = cur - into;
    proof {
        top_is_near(lp, cur as int);
        vstd::arithmetic::div_mod::lemma_fundamental_div_mod(cur - origin, len as int);
        let q = (cur - origin) / (len as int);
        assert(q * len == len * q) by (nonlinear_arith);
        assert(from == cycle_top(lp, cur as int));
    }
    let src: usize = sh.src_of(li);
    let mut tape = audio::silent(2 * sh.size.max_frames);
    let got: usize = past::fill(&mut tape, sh, src, from, into as usize, 0);
    sh.set_tape(li, layer, tape);
    let ghost mid = *sh;
    let lp = &mut sh.loops[li];
    lp.body.redo_to = layer;
    lp.take.rec_from = from;
    lp.take.reached = got;
    lp.enter(Phase::Multiply);
    proof {
        multiplying_sound(
            old(sh).loops@[li as int],
            from as int,
            got as int,
            sh.size.max_layers,
            sh.size.max_frames,
        );
        shared::loop_exchanged(mid, *sh, li as int, sh.loops@[li as int]);
    }
    Said::Multiplying { li, behind: into as usize, recovered: got }
}

/// How many cycles a multiply is at a frame: the nearest number, and one at
/// least.
pub open spec fn cycles_at(lp: Loop, cur: int) -> int {
    commit::grid_cycles(lp.take.rec_from as int, cur, lp.body.loop_len as int)
}

/// The press that ends a multiply of so many cycles.
pub open spec fn end_press(now: int, cycles: int, from: Caller) -> Filed {
    Filed { pressed: now as i64, late: 0, cycles: cycles as usize, from }
}

/// A multiply that ends at a press whose boundary is not ahead.
pub open spec fn ended_take(now: int, cycles: int, from: Caller, clock_ms: u64) -> Take {
    Take {
        was: Phase::Multiply,
        closed_at: now as i64,
        late: 0,
        quantised_len: None,
        cycles: cycles as usize,
        waited: 0,
        due: commit::drain_due(clock_ms),
        from,
    }
}

/// Ending a multiply: it stops where so many cycles do not fit, is filed
/// where the last of them is not over, and else is done.
pub open spec fn end_step(
    pre: Shared,
    li: int,
    from: Caller,
    clock_ms: u64,
    post: Shared,
    r: Closed,
) -> bool {
    let lp = pre.loops@[li];
    let n = cycles_at(lp, pre.now());
    let target = lp.take.rec_from + n * lp.body.loop_len;
    if lp.body.loop_len == 0 {
        post == pre && r == Closed::Said(Said::NothingToMultiply { li: li as usize })
    } else if n * lp.body.loop_len > pre.size.max_frames {
        &&& pre.but_loop(li, Loop { state: Phase::Playing, ..lp }, post)
        &&& r == Closed::Said(
            Said::MultiplyPast {
                li: li as usize,
                cycles: n as usize,
                len: lp.body.loop_len,
                max_frames: pre.size.max_frames,
            },
        )
    } else if target > pre.now() {
        &&& pre.but_loop(
            li,
            commit::filed_for(lp, target as i64, end_press(pre.now(), n, from)),
            post,
        )
        &&& r == Closed::Filed(
            Said::MultiplyEndsOnBoundary {
                li: li as usize,
                wait: (target - pre.now()) as i64,
                cycles: n as usize,
            },
        )
    } else {
        &&& pre.but_loop(li, commit::drained(lp, ended_take(pre.now(), n, from, clock_ms)), post)
        &&& r == Closed::Draining
    }
}

/// End a multiply: round to whole cycles, and grow the loop to fit.
pub fn multiply_end(sh: &mut Shared, li: usize, from: Caller, clock_ms: u64) -> (r: Closed)
    requires
        old(sh).wf(),
        li < old(sh).size.n_loops,
    ensures
        final(sh).wf(),
        end_step(*old(sh), li as int, from, clock_ms, *final(sh), r),
{
    let ghost lp = sh.loops@[li as int];
    assert(sh.loop_ok(lp));
    assert(frame::near(lp.take.rec_from) && lp.body.loop_len <= sh.size.max_frames) by {
        reveal(shared::sound);
        reveal(Loop::wf);
    }
    let len: usize = sh.loops[li].body.loop_len;
    if len == 0 {
        return Closed::Said(Said::NothingToMultiply { li });
    }
    let rec_from: i64 = sh.loops[li].take.rec_from;
    let cur: i64 = sh.clock.out_frames as i64;
    let elapsed: usize = num::max_signed(cur - rec_from, 0) as usize;
    let n: usize = num::max(num::round_ratio(elapsed, len), 1);
    proof {
        commit::cycles_fit(elapsed as int, len as int);
        assert(0 <= n * len) by (nonlinear_arith);
    }
    let grown: usize = n * len;
    if grown > sh.size.max_frames {
        let lp = &mut sh.loops[li];
        lp.enter(Phase::Playing);
        proof {
            finish::playing_sound(
                old(sh).loops@[li as int],
                sh.size.max_layers,
                sh.size.max_frames,
            );
            shared::loop_exchanged(*old(sh), *sh, li as int, sh.loops@[li as int]);
        }
        return Closed::Said(
            Said::MultiplyPast { li, cycles: n, len, max_frames: sh.size.max_frames },
        );
    }
    let target: i64 = rec_from + grown as i64;
    if target > cur {
        commit::file(sh, li, target, Filed { pressed: cur, late: 0, cycles: n, from });
        return Closed::Filed(
            Said::MultiplyEndsOnBoundary { li, wait: target - cur, cycles: n },
        );
    }
    commit::drain(
        sh,
        li,
        Take {
            was: Phase::Multiply,
            closed_at: cur,
            late: 0,
            quantised_len: None,
            cycles: n,
            waited: 0,
            due: commit::due_at(clock_ms),
            from,
        },
    );
    Closed::Draining
}

/// A multiply begins at the top of the cycle it is pressed in, and what has
/// gone by of that cycle is on its layer already, as it came in; the rest of
/// the layer is silent, and the loop goes on as it was.
pub proof fn a_multiply_begins_at_the_top_of_its_cycle(
    pre: Shared,
    li: int,
    post: Shared,
    r: Said,
    i: int,
    ch: int,
)
    requires
        pre.wf(),
        0 <= li < pre.size.n_loops,
        start_step(pre, li, post, r),
        pre.loops@[li].body.loop_len > 0,
        pre.loops@[li].body.n_layers < pre.size.max_layers,
        0 <= i < pre.size.max_frames,
        0 <= ch < 2,
    ensures
        r is Multiplying,
        ({
            let a = pre.loops@[li];
            let b = post.loops@[li];
            let len = a.body.loop_len as int;
            let n = a.body.n_layers as int;
            let from = b.take.rec_from;
            let new = post.audio()[li][n][2 * i + ch];
            &&& b.state == Phase::Multiply
            &&& (from - a.body.origin) % len == 0
            &&& from <= pre.clock.out_frames < from + len
            &&& b.body.origin == a.body.origin
            &&& b.body.loop_len == a.body.loop_len
            &&& b.body.n_layers == n
            &&& b.layers == a.layers
            &&& if i < pre.clock.out_frames - from {
                match pre.recalled(pre.source_of(li), from + i - pre.clock.k, ch) {
                    Some(v) => new == v,
                    None => new == 0,
                }
            } else {
                new == 0
            }
        }),
{
    let a = pre.loops@[li];
    let len = a.body.loop_len as int;
    let e = pre.now() - a.body.origin;
    assert(pre.loop_ok(a));
    shared::sized(a, pre.size.max_layers, pre.size.max_frames);
    assert(frame::near(a.body.origin)) by {
        reveal(shared::sound);
        reveal(Loop::wf);
    }
    top_is_near(a, pre.now());
    vstd::arithmetic::div_mod::lemma_mod_multiples_basic(e / len, len);
    assert(pre.arena@[li]@.len() == pre.size.max_layers);
    let j = 2 * i + ch;
    assert(j / 2 == i && j % 2 == ch);
}

/// A multiply that ends is the nearest whole number of cycles to what was
/// played, and one at least. Where the last of them is not over it goes on to
/// the frame at which it is, and where so many do not fit the loop stays as
/// long as it was.
pub proof fn a_multiply_ends_on_a_whole_number_of_cycles(
    pre: Shared,
    li: int,
    from: Caller,
    clock_ms: u64,
    post: Shared,
    r: Closed,
    n: int,
)
    requires
        pre.wf(),
        0 <= li < pre.size.n_loops,
        end_step(pre, li, from, clock_ms, post, r),
        pre.loops@[li].body.loop_len > 0,
        pre.clock.out_frames >= pre.loops@[li].take.rec_from,
        ({
            let len = pre.loops@[li].body.loop_len;
            let played = pre.clock.out_frames - pre.loops@[li].take.rec_from;
            &&& n >= 1
            &&& 2 * (n * len) <= 2 * played + len || n == 1
            &&& 2 * played + len < 2 * (n * len) + 2 * len
        }),
    ensures
        ({
            let a = pre.loops@[li];
            let b = post.loops@[li];
            let end = a.take.rec_from + n * a.body.loop_len;
            &&& b.body == a.body
            &&& if n * a.body.loop_len > pre.size.max_frames {
                &&& b.state == Phase::Playing
                &&& b.closing == a.closing
            } else if end > pre.clock.out_frames {
                &&& b.state == a.state
                &&& b.take.close_at == end
                &&& b.closing matches Some(Closing::Filed(f)) && f.cycles == n && f.pressed
                    == pre.clock.out_frames
            } else {
                &&& b.state == Phase::Playing
                &&& b.closing matches Some(Closing::Draining(t)) && t.was == Phase::Multiply
                    && t.cycles == n && t.late == 0 && t.closed_at == pre.clock.out_frames
            }
        }),
{
    let a = pre.loops@[li];
    let len = a.body.loop_len as int;
    let played = pre.clock.out_frames - a.take.rec_from;
    let m = num::nearest(played, len);
    assert(pre.loop_ok(a));
    shared::sized(a, pre.size.max_layers, pre.size.max_frames);
    assert(frame::near(a.take.rec_from)) by {
        reveal(shared::sound);
        reveal(Loop::wf);
    }
    commit::cycles_fit(played, len);
    num::nearest_is_near(played, len);
    assert(2 * len * m == 2 * (m * len)) by (nonlinear_arith);
    let k = num::larger(m, 1);
    assert(2 * played + len < 2 * (m * len) + 2 * len);
    if n > k {
        assert(n * len >= k * len + len) by (nonlinear_arith)
            requires
                n >= k + 1,
                len > 0,
        ;
        assert(k * len >= m * len) by (nonlinear_arith)
            requires
                k >= m,
                len > 0,
        ;
        assert(false);
    }
    if n < k {
        assert(k == m);
        assert(m * len >= n * len + len) by (nonlinear_arith)
            requires
                m >= n + 1,
                len > 0,
        ;
        assert(false);
    }
    assert(0 <= n * len) by (nonlinear_arith)
        requires
            n >= 1,
            len > 0,
    ;
}

/// A multiply that begins has nothing above its layer kept for redo, and has
/// reached as much as was recovered of its cycle.
pub proof fn a_multiply_begins_with_what_was_recovered(pre: Shared, li: int, post: Shared, r: Said)
    requires
        pre.wf(),
        0 <= li < pre.size.n_loops,
        start_step(pre, li, post, r),
        r is Multiplying,
    ensures
        post.loops@[li].body.redo_to == pre.loops@[li].body.n_layers,
        r matches Said::Multiplying { li: _, behind, recovered } && post.loops@[li].take.reached
            == recovered && post.loops@[li].take.rec_from + behind == pre.clock.out_frames,
{
    let a = pre.loops@[li];
    let len = a.body.loop_len as int;
    assert(pre.loop_ok(a));
    shared::sized(a, pre.size.max_layers, pre.size.max_frames);
    assert(frame::near(a.body.origin) && a.body.loop_len <= pre.size.max_frames) by {
        reveal(shared::sound);
        reveal(Loop::wf);
    }
    top_is_near(a, pre.now());
    let from = cycle_top(a, pre.now());
    past::what_is_held_is_counted(pre, pre.source_of(li), from, pre.now() - from);
    assert(0 <= pre.now() - from <= usize::MAX);
    assert(i64::MIN <= from <= i64::MAX);
}

} // verus!
