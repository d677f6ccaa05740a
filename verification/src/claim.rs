//! Claiming the recent past, as a loop or as a layer.

use crate::ack::Said;
use crate::audio;
use crate::finish;
use crate::frame;
use crate::layer::Shape;
use crate::loop_state::{Body, Loop};
use crate::num;
use crate::past;
use crate::phase::Phase;
use crate::shared;
use crate::shared::{Desk, Shared};
use vstd::prelude::*;

verus! {

/// The frame a claim is made as of: the press.
pub open spec fn as_of(sh: Shared, late: i64) -> int {
    sh.now() - num::larger(late as int, 0)
}

/// How long the claim is: the cycle where the loop has one, and else what
/// was asked for, as far as there is room.
pub open spec fn claim_len(sh: Shared, lp: Loop, asked: usize) -> int {
    if lp.body.loop_len == 0 {
        num::smaller(asked as int, sh.size.max_frames as int)
    } else {
        lp.body.loop_len as int
    }
}

/// How many cycles have gone by.
pub open spec fn cycles_done(lp: Loop, cur: int) -> int {
    (cur - lp.body.origin) / lp.body.loop_len as int
}

/// Where the claim starts: so much before the press where the loop has no
/// cycle, and else at the top of the last cycle that has gone by whole.
pub open spec fn claim_from(sh: Shared, lp: Loop, asked: usize, cur: int) -> int {
    if lp.body.loop_len == 0 {
        cur - claim_len(sh, lp, asked)
    } else {
        lp.body.origin + (cycles_done(lp, cur) - 1) * lp.body.loop_len
    }
}

/// How much past the end of the claim is kept for the wrap.
pub open spec fn beyond(sh: Shared, len: int) -> int {
    num::smaller(sh.size.max_fade as int, sh.size.max_frames - len)
}

/// The audio of the claim.
pub open spec fn claim_tape(sh: Shared, li: int, from: int, len: int) -> Seq<u32> {
    past::filled(
        past::filled(
            audio::silence(2 * sh.size.max_frames),
            sh,
            sh.source_of(li),
            from,
            len,
            0,
        ),
        sh,
        sh.source_of(li),
        from + len,
        beyond(sh, len),
        len,
    )
}

/// The loop a claim makes, before it has a layer more: one that had no
/// cycle has one now, and plays.
pub open spec fn claimed_loop(lp: Loop, from: int, len: int) -> Loop {
    Loop {
        state: if lp.body.loop_len == 0 {
            Phase::Playing
        } else {
            lp.state
        },
        body: if lp.body.loop_len == 0 {
            Body { loop_len: len as usize, origin: from as i64, ..lp.body }
        } else {
            lp.body
        },
        ..lp
    }
}

/// Who gives the grid after a claim.
pub open spec fn claimed_desk(d: Desk, lp: Loop, li: int) -> Desk {
    Desk {
        anchor: if lp.body.loop_len == 0 {
            shared::claimed(d.anchor, li as usize)
        } else {
            d.anchor
        },
        ..d
    }
}

/// What is said of a claim that was granted.
pub open spec fn claim_said(lp: Loop, li: int, len: int, got: int) -> Said {
    if lp.body.loop_len == 0 {
        Said::TookLoop {
            li: li as usize,
            len: len as usize,
            got: got as usize,
            layers: (lp.body.n_layers + 1) as usize,
        }
    } else {
        Said::TookLayer {
            li: li as usize,
            len: len as usize,
            got: got as usize,
            layers: (lp.body.n_layers + 1) as usize,
        }
    }
}

/// Why a claim is not granted, or nothing.
pub open spec fn claim_refused(sh: Shared, li: int, asked: usize, late: i64) -> Option<Said> {
    let lp = sh.loops@[li];
    let cur = as_of(sh, late);
    if !sh.clock.k_set {
        Some(Said::NoInputYet)
    } else if lp.body.n_layers >= sh.size.max_layers {
        Some(Said::Ceiling { li: li as usize, max_layers: sh.size.max_layers })
    } else if lp.body.loop_len > 0 && cycles_done(lp, cur) < 1 {
        Some(Said::NoCycleYet { li: li as usize })
    } else if claim_from(sh, lp, asked, cur) < 0 {
        Some(Said::BeforeStart)
    } else {
        None
    }
}

/// A loop with nothing above its layers that is kept for redo.
pub open spec fn nothing_above(lp: Loop) -> Loop {
    Loop { body: Body { redo_to: lp.body.n_layers, ..lp.body }, ..lp }
}

proof fn nothing_above_sound(lp: Loop, max_layers: usize, max_frames: usize)
    requires
        shared::sound(lp, max_layers, max_frames),
    ensures
        shared::sound(nothing_above(lp), max_layers, max_frames),
{
    reveal(shared::sound);
    reveal(Loop::wf);
}

/// Claiming the past: refused, or found empty, or a loop or a layer.
pub open spec fn take_step(
    pre: Shared,
    li: int,
    asked: usize,
    late: i64,
    post: Shared,
    r: Said,
) -> bool {
    let lp = pre.loops@[li];
    let n = lp.body.n_layers as int;
    let cur = as_of(pre, late);
    let len = claim_len(pre, lp, asked);
    let from = claim_from(pre, lp, asked, cur);
    let got = past::held(pre, pre.source_of(li), from, len);
    let a = claimed_loop(lp, from, len);
    match claim_refused(pre, li, asked, late) {
        Some(why) => post == pre && r == why,
        None => if got == 0 {
            &&& r == Said::PastTooShort
            &&& post.audio() == pre.audio_with(li, n, audio::silence(2 * pre.size.max_frames))
            &&& post.loops@ == pre.loops@.update(li, nothing_above(lp))
            &&& post == (Shared { arena: post.arena, loops: post.loops, ..pre })
        } else {
            &&& r == claim_said(lp, li, len, got as int)
            &&& post.audio() == pre.audio_with(li, n, claim_tape(pre, li, from, len))
            &&& finish::others_kept(pre, li, post)
            &&& finish::new_layer(
                a,
                Shape {
                    len: len as usize,
                    tail: past::held(
                        pre,
                        pre.source_of(li),
                        from + len,
                        beyond(pre, len),
                    ) as usize,
                    born: finish::born_of(a, cur, len),
                },
                claim_tape(pre, li, from, len),
                post.loops@[li],
            )
            &&& post == (Shared {
                arena: post.arena,
                loops: post.loops,
                desk: claimed_desk(pre.desk, lp, li),
                ..pre
            })
        },
    }
}

/// The top of the last whole cycle is after the origin and a cycle before
/// now.
proof fn top_bounds(origin: int, cur: int, len: int)
    requires
        len > 0,
        (cur - origin) / len >= 1,
    ensures
        origin <= origin + ((cur - origin) / len - 1) * len <= cur - len,
{
    let e = cur - origin;
    let q = e / len;
    vstd::arithmetic::div_mod::lemma_fundamental_div_mod(e, len);
    assert(0 <= (q - 1) * len <= e - len) by (nonlinear_arith)
        requires
            q >= 1,
            len > 0,
            e == len * q + e % len,
            0 <= e % len,
    ;
}

proof fn claimed_sound(lp: Loop, from: int, len: int, max_layers: usize, max_frames: usize)
    requires
        shared::sound(lp, max_layers, max_frames),
        0 <= len <= max_frames,
        frame::short(max_frames),
        frame::safe(4 * from),
    ensures
        shared::sound(claimed_loop(lp, from, len), max_layers, max_frames),
{
    reveal(shared::sound);
    reveal(Loop::wf);
}

/// The stretch that a claim takes: where it starts and how long it is, or
/// why it is not granted.
fn stretch(sh: &Shared, li: usize, asked: usize, late: i64) -> (r: Result<(i64, usize), Said>)
    requires
        sh.wf(),
        li < sh.size.n_loops,
        frame::near(late),
    ensures
        match r {
            Err(why) => claim_refused(*sh, li as int, asked, late) == Some(why),
            Ok((from, len)) => {
                let lp = sh.loops@[li as int];
                &&& claim_refused(*sh, li as int, asked, late) is None
                &&& from == claim_from(*sh, lp, asked, as_of(*sh, late))
                &&& len == claim_len(*sh, lp, asked)
                &&& len <= sh.size.max_frames
                &&& 0 <= from <= as_of(*sh, late) - len
            },
        },
{
    let ghost lp = sh.loops@[li as int];
    assert(sh.loop_ok(lp));
    assert(frame::near(lp.body.origin) && lp.body.loop_len <= sh.size.max_frames) by {
        reveal(shared::sound);
        reveal(Loop::wf);
    }
    if !sh.clock.k_set {
        return Err(Said::NoInputYet);
    }
    if sh.loops[li].body.n_layers >= sh.size.max_layers {
        return Err(Said::Ceiling { li, max_layers: sh.size.max_layers });
    }
    let cur: i64 = sh.clock.out_frames as i64 - num::max_signed(late, 0);
    let loop_len: usize = sh.loops[li].body.loop_len;
    if loop_len == 0 {
        let len: usize = num::min(asked, sh.size.max_frames);
        let from: i64 = cur - len as i64;
        if from < 0 {
            return Err(Said::BeforeStart);
        }
        return Ok((from, len));
    }
    let origin: i64 = sh.loops[li].body.origin;
    let done: i64 = num::spans_below(cur - origin, loop_len as i64);
    if done < 1 {
        return Err(Said::NoCycleYet { li });
    }
    proof {
        top_bounds(origin as int, cur as int, loop_len as int);
        assert(((cur - origin) / (loop_len as int) - 1) * loop_len == (done - 1) * loop_len);
    }
    let from: i64 = origin + (done - 1) * loop_len as i64;
    if from < 0 {
        return Err(Said::BeforeStart);
    }
    Ok((from, loop_len))
}

/// Give a loop the claim as its cycle, where it had none.
fn adopt_claim(sh: &mut Shared, li: usize, from: i64, len: usize)
    requires
        old(sh).wf(),
        li < old(sh).size.n_loops,
        len <= old(sh).size.max_frames,
        frame::near(from),
    ensures
        final(sh).wf(),
        *final(sh) == (Shared {
            loops: final(sh).loops,
            desk: claimed_desk(old(sh).desk, old(sh).loops@[li as int], li as int),
            ..*old(sh)
        }),
        final(sh).loops@ == old(sh).loops@.update(
            li as int,
            claimed_loop(old(sh).loops@[li as int], from as int, len as int),
        ),
{
    let ghost pre = *sh;
    let ghost lp = sh.loops@[li as int];
    assert(sh.loop_ok(lp));
    if sh.loops[li].body.loop_len != 0 {
        assert(sh.loops@ =~= sh.loops@.update(li as int, lp));
        return;
    }
    sh.claim_anchor(li);
    let ghost mid = *sh;
    let lp = &mut sh.loops[li];
    lp.body.loop_len = len;
    lp.body.origin = from;
    lp.enter(Phase::Playing);
    proof {
        claimed_sound(
            pre.loops@[li as int],
            from as int,
            len as int,
            sh.size.max_layers,
            sh.size.max_frames,
        );
        assert(mid.wf());
        shared::loop_exchanged(mid, *sh, li as int, sh.loops@[li as int]);
    }
}

/// Claim the past as of a press `late` frames ago: `asked` frames of it as
/// the loop where it has no cycle, and else its last whole cycle as a layer.
pub fn take(sh: &mut Shared, li: usize, asked: usize, late: i64) -> (r: Said)
    requires
        old(sh).wf(),
        li < old(sh).size.n_loops,
        frame::near(late),
    ensures
        final(sh).wf(),
        take_step(*old(sh), li as int, asked, late, *final(sh), r),
{
    let ghost lp = sh.loops@[li as int];
    assert(sh.loop_ok(lp));
    let (from, len) = match stretch(sh, li, asked, late) {
        Err(why) => {
            return why;
        },
        Ok(x) => x,
    };
    let layer: usize = sh.loops[li].body.n_layers;
    let first = sh.loops[li].body.loop_len == 0;
    let src: usize = sh.src_of(li);
    let mut tape = audio::silent(2 * sh.size.max_frames);
    let got: usize = past::fill(&mut tape, sh, src, from, len, 0);
    if got == 0 {
        sh.zero_layer(li, layer);
        let ghost mid = *sh;
        let lp = &mut sh.loops[li];
        lp.body.redo_to = layer;
        proof {
            nothing_above_sound(
                old(sh).loops@[li as int],
                sh.size.max_layers,
                sh.size.max_frames,
            );
            shared::loop_exchanged(mid, *sh, li as int, sh.loops@[li as int]);
            assert(sh.audio() =~= mid.audio());
        }
        return Said::PastTooShort;
    }
    let more: usize = num::min(sh.size.max_fade, sh.size.max_frames - len);
    let tail: usize = past::fill(&mut tape, sh, src, from + len as i64, more, len);
    sh.set_tape(li, layer, tape);
    let ghost mid = *sh;
    adopt_claim(sh, li, from, len);
    let ghost done = *sh;
    assert(done.loop_ok(done.loops@[li as int]));
    assert(done.loops@[li as int].wf()) by {
        reveal(shared::sound);
    }
    let cur: i64 = sh.clock.out_frames as i64 - num::max_signed(late, 0);
    let born: i64 = finish::birth(&sh.loops[li], cur, len);
    finish::lay(sh, li, Shape { len, tail, born });
    assert(sh.audio() =~= mid.audio());
    if first {
        Said::TookLoop { li, len, got, layers: layer + 1 }
    } else {
        Said::TookLayer { li, len, got, layers: layer + 1 }
    }
}

/// A claim on a loop without a length is the last so many frames before the
/// press, as they came in: the loop is that long, begins that much before the
/// press, and plays.
pub proof fn a_claim_is_the_past_before_the_press(
    pre: Shared,
    li: int,
    asked: usize,
    late: i64,
    post: Shared,
    r: Said,
    len: int,
    i: int,
    ch: int,
)
    requires
        pre.wf(),
        0 <= li < pre.size.n_loops,
        frame::near(late),
        0 <= late,
        take_step(pre, li, asked, late, post, r),
        pre.loops@[li].body.loop_len == 0,
        r is TookLoop,
        len <= asked,
        len <= pre.size.max_frames,
        len == asked || len == pre.size.max_frames,
        0 <= i < len,
        0 <= ch < 2,
    ensures
        ({
            let a = pre.loops@[li];
            let b = post.loops@[li];
            let n = a.body.n_layers as int;
            let from = pre.clock.out_frames - late - len;
            let new = post.audio()[li][n][2 * i + ch];
            &&& from >= 0
            &&& b.body.origin == from
            &&& b.body.loop_len == len
            &&& b.state == Phase::Playing
            &&& b.body.n_layers == n + 1
            &&& b.layers@[n].len == len
            &&& b.layers@[n].placed(i) == Some(i)
            &&& b.layers@[n].on
            &&& match pre.recalled(pre.source_of(li), from + i - pre.clock.k, ch) {
                Some(v) => new == v,
                None => new == 0,
            }
            &&& pre.desk.anchor == shared::NO_ANCHOR ==> post.desk.anchor == li
            &&& pre.desk.anchor != shared::NO_ANCHOR ==> post.desk.anchor == pre.desk.anchor
        }),
{
    let a = pre.loops@[li];
    assert(pre.loop_ok(a));
    shared::sized(a, pre.size.max_layers, pre.size.max_frames);
    assert(pre.arena@[li]@.len() == pre.size.max_layers);
    let j = 2 * i + ch;
    assert(j / 2 == i && j % 2 == ch);
    vstd::arithmetic::div_mod::lemma_small_mod(i as nat, len as nat);
}

/// A claim on a loop with a length is its last whole cycle, laid as a layer in
/// phase with the loop, which goes on as it was.
pub proof fn a_claim_is_the_last_whole_cycle(
    pre: Shared,
    li: int,
    asked: usize,
    late: i64,
    post: Shared,
    r: Said,
    i: int,
    ch: int,
) -> (from: int)
    requires
        pre.wf(),
        0 <= li < pre.size.n_loops,
        frame::near(late),
        0 <= late,
        take_step(pre, li, asked, late, post, r),
        r is TookLayer,
        0 <= i < pre.loops@[li].body.loop_len,
        0 <= ch < 2,
    ensures
        ({
            let a = pre.loops@[li];
            let b = post.loops@[li];
            let n = a.body.n_layers as int;
            let len = a.body.loop_len as int;
            let press = pre.clock.out_frames - late;
            let new = post.audio()[li][n][2 * i + ch];
            &&& (from - a.body.origin) % len == 0
            &&& from + len <= press < from + 2 * len
            &&& b.body.origin == a.body.origin
            &&& b.body.loop_len == a.body.loop_len
            &&& b.state == a.state
            &&& b.body.n_layers == n + 1
            &&& b.layers@[n].len == len
            &&& b.layers@[n].placed(i) == Some(i)
            &&& b.layers@[n].on
            &&& match pre.recalled(pre.source_of(li), from + i - pre.clock.k, ch) {
                Some(v) => new == v,
                None => new == 0,
            }
            &&& post.desk.anchor == pre.desk.anchor
        }),
{
    let a = pre.loops@[li];
    let len = a.body.loop_len as int;
    let press = pre.clock.out_frames - late;
    let from = claim_from(pre, a, asked, press);
    assert(pre.loop_ok(a));
    shared::sized(a, pre.size.max_layers, pre.size.max_frames);
    assert(pre.arena@[li]@.len() == pre.size.max_layers);
    let j = 2 * i + ch;
    assert(j / 2 == i && j % 2 == ch);
    vstd::arithmetic::div_mod::lemma_small_mod(i as nat, len as nat);
    let e = press - a.body.origin;
    let q = e / len;
    vstd::arithmetic::div_mod::lemma_fundamental_div_mod(e, len);
    vstd::arithmetic::div_mod::lemma_mod_multiples_basic(q - 1, len);
    assert((q - 1) * len == len * q - len) by (nonlinear_arith);
    from
}

/// What is claimed has past its end what came in there, as much as is kept for
/// a wrap and as there is room and past for.
pub proof fn a_claim_keeps_what_followed_it(
    pre: Shared,
    li: int,
    asked: usize,
    late: i64,
    post: Shared,
    r: Said,
    i: int,
    ch: int,
)
    requires
        pre.wf(),
        0 <= li < pre.size.n_loops,
        frame::near(late),
        0 <= late,
        take_step(pre, li, asked, late, post, r),
        r is TookLoop,
        pre.loops@[li].body.loop_len == 0,
        0 <= ch < 2,
        0 <= i < pre.size.max_fade,
        post.loops@[li].body.loop_len + i < pre.size.max_frames,
    ensures
        ({
            let b = post.loops@[li];
            let n = pre.loops@[li].body.n_layers as int;
            let p = b.body.loop_len + i;
            pre.recalled(pre.source_of(li), b.body.origin + p - pre.clock.k, ch) matches Some(v)
                ==> post.audio()[li][n][2 * p + ch] == v
        }),
{
    let a = pre.loops@[li];
    assert(pre.loop_ok(a));
    shared::sized(a, pre.size.max_layers, pre.size.max_frames);
    assert(pre.arena@[li]@.len() == pre.size.max_layers);
    let p = post.loops@[li].body.loop_len + i;
    let j = 2 * p + ch;
    assert(j / 2 == p && j % 2 == ch);
}

/// A claim is refused before the input has come, where the stack is full,
/// before the first cycle is over, and where it would reach back before the
/// start; and only then, or where the past holds none of it.
pub proof fn a_claim_is_granted_where_there_is_a_past(
    pre: Shared,
    li: int,
    asked: usize,
    late: i64,
    post: Shared,
    r: Said,
)
    requires
        pre.wf(),
        0 <= li < pre.size.n_loops,
        frame::near(late),
        0 <= late,
        take_step(pre, li, asked, late, post, r),
    ensures
        r is TookLoop || r is TookLayer || r == Said::PastTooShort <==> {
            let a = pre.loops@[li];
            let press = pre.clock.out_frames - late;
            &&& pre.clock.k_set
            &&& a.body.n_layers < pre.size.max_layers
            &&& a.body.loop_len == 0 ==> press >= asked || press >= pre.size.max_frames
            &&& a.body.loop_len > 0 ==> press >= a.body.origin + a.body.loop_len && a.body.origin
                + ((press - a.body.origin) / a.body.loop_len as int - 1) * a.body.loop_len >= 0
        },
        !(r is TookLoop || r is TookLayer || r == Said::PastTooShort) ==> post == pre,
{
    let a = pre.loops@[li];
    let len = a.body.loop_len as int;
    let press = pre.clock.out_frames - late;
    let e = press - a.body.origin;
    if len > 0 {
        vstd::arithmetic::div_mod::lemma_fundamental_div_mod(e, len);
        let q = e / len;
        assert(q >= 1 <==> e >= len) by (nonlinear_arith)
            requires
                len > 0,
                e == len * q + e % len,
                0 <= e % len < len,
        ;
    }
}

/// A claim is born on the pass it was made on, as a take is: on a loop that
/// plays plainly, as many whole lengths after its zero.
pub proof fn a_claim_is_born_on_the_pass_it_was_made_on(
    pre: Shared,
    li: int,
    asked: usize,
    late: i64,
    post: Shared,
    r: Said,
)
    requires
        pre.wf(),
        0 <= li < pre.size.n_loops,
        frame::near(late),
        0 <= late,
        take_step(pre, li, asked, late, post, r),
        r is TookLayer,
        pre.loops@[li].is_plain(),
    ensures
        ({
            let b = post.loops@[li];
            let born = b.layers@[pre.loops@[li].body.n_layers as int].born;
            let since = pre.clock.out_frames - late - b.body.origin;
            born * b.body.loop_len <= since < (born + 1) * b.body.loop_len
        }),
{
    let a = pre.loops@[li];
    assert(pre.loop_ok(a));
    shared::sized(a, pre.size.max_layers, pre.size.max_frames);
    let len = a.body.loop_len as int;
    let since = as_of(pre, late) - a.body.origin;
    vstd::arithmetic::div_mod::lemma_fundamental_div_mod(since, len);
    vstd::arithmetic::div_mod::lemma_mod_bound(since, len);
    let q = since / len;
    assert(q * len == len * q && (q + 1) * len == len * q + len) by (nonlinear_arith);
    assert(frame::near(a.body.origin)) by {
        reveal(shared::sound);
        reveal(Loop::wf);
    }
    assert(i64::MIN <= q <= i64::MAX) by (nonlinear_arith)
        requires
            len >= 1,
            since == len * q + since % len,
            0 <= since % len < len,
            -0x7000_0000_0000_0000 <= since <= 0x7000_0000_0000_0000,
    ;
}

} // verus!
