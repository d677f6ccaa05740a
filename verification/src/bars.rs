//! How many bars a loop is, the tempo that is in it, and starting every
//! loop together.

use crate::ack::Said;
use crate::cycle;
use crate::cycle::MAX_BARS;
use crate::frame;
use crate::loop_state::{Body, Loop};
use crate::next_take::{NextTake, FIRE, NEVER};
use crate::num;
use crate::phase::Phase;
use crate::shared;
use crate::shared::{Desk, Shared};
use vstd::prelude::*;

verus! {

/// The longest of the first `n` layers of a loop.
pub open spec fn longest(lp: Loop, n: int) -> int
    decreases n,
{
    if n <= 0 {
        0
    } else {
        num::larger(longest(lp, n - 1), lp.layers@[n - 1].len as int)
    }
}

fn longest_layer(sh: &Shared, li: usize) -> (r: usize)
    requires
        sh.wf(),
        li < sh.size.n_loops,
    ensures
        r == longest(sh.loops@[li as int], sh.loops@[li as int].body.n_layers as int),
{
    let ghost lp = sh.loops@[li as int];
    proof {
        assert(sh.loop_ok(lp));
        shared::sized(lp, sh.size.max_layers, sh.size.max_frames);
    }
    let n: usize = sh.loops[li].body.n_layers;
    let mut r: usize = 0;
    let mut l: usize = 0;
    while l < n
        invariant
            sh.wf(),
            li < sh.size.n_loops,
            lp == sh.loops@[li as int],
            l <= n <= lp.layers@.len(),
            r == longest(lp, l as int),
        decreases n - l,
    {
        r = num::max(r, sh.loops[li].layers[l].len);
        l = l + 1;
    }
    r
}

/// Where a loop that is given a length starts: on the next line of the grid
/// where it follows it, and else now.
pub open spec fn bars_start(lp: Loop, origin: int, bar: int, now: int) -> int {
    if lp.habit.quant {
        origin + ((now - origin) / bar + 1) * bar
    } else {
        now
    }
}

/// Saying how many bars a loop is. The loop that gives the grid keeps its
/// audio, and its bar is what changes; an empty loop takes a length from the
/// grid; and any other is made that long, where none of its layers is
/// longer.
pub open spec fn bars_step(pre: Shared, li: int, n: usize, post: Shared, r: Said) -> bool {
    let lp = pre.loops@[li];
    let gives = lp.body.n_layers > 0 && li == pre.desk.anchor && pre.link.link_bar_frames == 0;
    let (origin, bar) = pre.the_grid().unwrap_or((0i64, 0usize));
    let want = n * bar;
    let long = longest(lp, lp.body.n_layers as int);
    if n < 1 || n > MAX_BARS {
        post == pre && r == (Said::BarsRange { asked: n })
    } else if lp.recording() {
        post == pre && r == (Said::Recording { li: li as usize })
    } else if gives {
        &&& pre.but_loop(li, Loop { body: Body { cycles: n, ..lp.body }, ..lp }, post)
        &&& r == (Said::BarsDeclared { li: li as usize, bars: n, len: lp.body.loop_len })
    } else if pre.the_grid() is None {
        post == pre && r == Said::NoBarYet
    } else if want > pre.size.max_frames {
        &&& post == pre
        &&& r == (Said::BarsPast {
            bars: n,
            len: want as usize,
            max_frames: pre.size.max_frames,
        })
    } else if lp.body.n_layers == 0 {
        &&& post.loops@ == pre.loops@.update(
            li,
            Loop {
                body: Body {
                    origin: bars_start(lp, origin as int, bar as int, pre.now()) as i64,
                    loop_len: want as usize,
                    cycles: n,
                    ..lp.body
                },
                ..lp
            },
        )
        &&& post == (Shared {
            loops: post.loops,
            desk: Desk { anchor: shared::claimed(pre.desk.anchor, li as usize), ..pre.desk },
            ..pre
        })
        &&& r == (Said::BarsSized { li: li as usize, bars: n, len: want as usize })
    } else if want < long {
        &&& post == pre
        &&& r == (Said::LayerTooLong {
            li: li as usize,
            longest: long as usize,
            bars: n,
            len: want as usize,
        })
    } else {
        &&& pre.but_loop(
            li,
            Loop { body: Body { loop_len: want as usize, cycles: n, ..lp.body }, ..lp },
            post,
        )
        &&& r == (Said::BarsResized { li: li as usize, bars: n, len: want as usize })
    }
}

/// The line after now is no further than a bar.
proof fn next_line(origin: int, bar: int, now: int)
    requires
        bar > 0,
    ensures
        now < origin + ((now - origin) / bar + 1) * bar <= now + bar,
        origin + ((now - origin) / bar + 1) * bar == now - (now - origin) % bar + bar,
{
    let e = now - origin;
    vstd::arithmetic::div_mod::lemma_fundamental_div_mod(e, bar);
    assert((e / bar + 1) * bar == bar * (e / bar) + bar) by (nonlinear_arith);
}

fn put_body(sh: &mut Shared, li: usize, body: Body)
    requires
        old(sh).wf(),
        li < old(sh).size.n_loops,
        body.n_layers == old(sh).loops@[li as int].body.n_layers,
        body.redo_to == old(sh).loops@[li as int].body.redo_to,
        body.loop_len <= old(sh).size.max_frames,
        frame::near(body.origin),
        frame::fits(body.cycles),
    ensures
        final(sh).wf(),
        old(sh).but_loop(
            li as int,
            Loop { body, ..old(sh).loops@[li as int] },
            *final(sh),
        ),
{
    let ghost a = sh.loops@[li as int];
    assert(sh.loop_ok(a));
    let lp = &mut sh.loops[li];
    lp.body = body;
    proof {
        cycle::resized_sound(a, body, sh.size.max_layers, sh.size.max_frames);
        shared::loop_exchanged(*old(sh), *sh, li as int, sh.loops@[li as int]);
    }
}

/// Say how many bars a loop is.
pub fn set_bars(sh: &mut Shared, li: usize, n: usize) -> (r: Said)
    requires
        old(sh).wf(),
        li < old(sh).size.n_loops,
    ensures
        final(sh).wf(),
        bars_step(*old(sh), li as int, n, *final(sh), r),
{
    let ghost a = sh.loops@[li as int];
    assert(sh.loop_ok(a));
    assert(frame::near(a.body.origin) && a.body.loop_len <= sh.size.max_frames && frame::fits(
        a.body.cycles,
    )) by {
        reveal(shared::sound);
        reveal(Loop::wf);
    }
    if n < 1 || n > MAX_BARS {
        return Said::BarsRange { asked: n };
    }
    if sh.loops[li].is_recording() {
        return Said::Recording { li };
    }
    let mut body = sh.loops[li].body;
    if body.n_layers > 0 && li == sh.desk.anchor && sh.link.link_bar_frames == 0 {
        body.cycles = n;
        put_body(sh, li, body);
        return Said::BarsDeclared { li, bars: n, len: body.loop_len };
    }
    let (origin, bar) = match sh.grid() {
        None => {
            return Said::NoBarYet;
        },
        Some(g) => g,
    };
    proof {
        assert(0 <= n * bar && n * bar <= 32 * bar) by (nonlinear_arith)
            requires
                0 <= n <= 32,
                0 <= bar,
        ;
    }
    let want: usize = n * bar;
    if want > sh.size.max_frames {
        return Said::BarsPast { bars: n, len: want, max_frames: sh.size.max_frames };
    }
    if body.n_layers == 0 {
        let now: i64 = sh.clock.out_frames as i64;
        let start: i64 = if sh.loops[li].habit.quant {
            proof {
                next_line(origin as int, bar as int, now as int);
            }
            now - num::wrap(now - origin, bar as i64) + bar as i64
        } else {
            now
        };
        body.origin = start;
        body.loop_len = want;
        body.cycles = n;
        sh.claim_anchor(li);
        assert(sh.wf());
        put_body(sh, li, body);
        return Said::BarsSized { li, bars: n, len: want };
    }
    let long: usize = longest_layer(sh, li);
    if want < long {
        return Said::LayerTooLong { li, longest: long, bars: n, len: want };
    }
    body.loop_len = want;
    body.cycles = n;
    put_body(sh, li, body);
    Said::BarsResized { li, bars: n, len: want }
}

/// A loop that is told its bars is that many bars of the grid long, and the
/// bar is what it was. The loop that gives the grid keeps its length, and the
/// bar becomes its share of it.
pub proof fn a_loop_is_as_long_as_its_bars(pre: Shared, li: int, n: usize, post: Shared, r: Said)
    requires
        pre.wf(),
        0 <= li < pre.size.n_loops,
        bars_step(pre, li, n, post, r),
    ensures
        r is BarsSized || r is BarsResized ==> {
            &&& pre.the_grid() is Some
            &&& post.the_grid() is Some
            &&& post.the_grid().unwrap().1 == pre.the_grid().unwrap().1
            &&& post.loops@[li].body.cycles == n
            &&& post.loops@[li].body.loop_len == n * post.the_grid().unwrap().1
        },
        r is BarsDeclared && post.loops@[li].body.loop_len >= n ==> {
            &&& post.loops@[li].body.loop_len == pre.loops@[li].body.loop_len
            &&& post.the_grid() is Some
            &&& post.loops@[li].body.cycles == n
            &&& n * post.the_grid().unwrap().1 <= post.loops@[li].body.loop_len
            &&& post.loops@[li].body.loop_len < n * (post.the_grid().unwrap().1 + 1)
        },
{
    let len = pre.loops@[li].body.loop_len as int;
    if r is BarsDeclared && len >= n {
        let bar = len / n as int;
        vstd::arithmetic::div_mod::lemma_fundamental_div_mod(len, n as int);
        vstd::arithmetic::div_mod::lemma_div_non_zero(len, n as int);
        assert(n * (bar + 1) == n * bar + n) by (nonlinear_arith);
    } else if r is BarsSized || r is BarsResized {
        let bar = pre.the_grid().unwrap().1 as int;
        vstd::arithmetic::div_mod::lemma_div_multiples_vanish(bar, n as int);
        assert(n * bar > 0) by (nonlinear_arith)
            requires
                n > 0,
                bar > 0,
        ;
    }
}

/// How many of the first `n` loops other than `li` hold something.
pub open spec fn others(sh: Shared, li: int, n: int) -> nat
    decreases n,
{
    if n <= 0 {
        0
    } else {
        let rest = others(sh, li, n - 1);
        if n - 1 != li && sh.loops@[n - 1].body.n_layers > 0 {
            rest + 1
        } else {
            rest
        }
    }
}

/// The tempo that is in a loop: why there is none, or its length, its bars
/// and how many other loops there are that it was not taken from.
pub open spec fn tempo_from(sh: Shared, li: int) -> Said {
    let lp = sh.loops@[li];
    if lp.claims() {
        Said::StillWritten { li: li as usize }
    } else if lp.body.loop_len == 0 {
        Said::NoTempo { li: li as usize }
    } else if lp.body.cycles == 0 {
        Said::NoBars { li: li as usize }
    } else {
        Said::TempoFrom {
            li: li as usize,
            len: lp.body.loop_len,
            bars: lp.body.cycles,
            others: others(sh, li, sh.size.n_loops as int) as usize,
            heard: sh.link.link_anchors > 0,
        }
    }
}

/// Take the tempo from a loop. What comes back is what it is worked out
/// from.
pub fn take_tempo(sh: &Shared, li: usize) -> (r: Said)
    requires
        sh.wf(),
        li < sh.size.n_loops,
    ensures
        r == tempo_from(*sh, li as int),
{
    if sh.loops[li].wants_input() {
        return Said::StillWritten { li };
    }
    let len: usize = sh.loops[li].body.loop_len;
    if len == 0 {
        return Said::NoTempo { li };
    }
    let bars: usize = sh.loops[li].body.cycles;
    if bars == 0 {
        return Said::NoBars { li };
    }
    let mut n: usize = 0;
    let mut i: usize = 0;
    while i < sh.size.n_loops
        invariant
            sh.wf(),
            i <= sh.size.n_loops,
            n <= i,
            n == others(*sh, li as int, i as int),
        decreases sh.size.n_loops - i,
    {
        if i != li && sh.loops[i].body.n_layers > 0 {
            n = n + 1;
        }
        i = i + 1;
    }
    Said::TempoFrom { li, len, bars, others: n, heard: sh.link.link_anchors > 0 }
}

/// Whether a loop starts with the rest: it has a length, and no take is on
/// the way.
pub open spec fn starts(lp: Loop) -> bool {
    lp.body.loop_len > 0 && !lp.claims()
}

/// How many of the first `n` loops start, or have a length and do not.
pub open spec fn counted(loops: Seq<Loop>, n: int, starting: bool) -> nat
    decreases n,
{
    if n <= 0 {
        0
    } else {
        let rest = counted(loops, n - 1, starting);
        let lp = loops[n - 1];
        if lp.body.loop_len > 0 && starts(lp) == starting {
            rest + 1
        } else {
            rest
        }
    }
}

/// The plan of a loop that is to start at a frame with the rest.
pub open spec fn start_plan(lp: Loop, at: i64) -> NextTake {
    if starts(lp) {
        NextTake { request: FIRE, request_at: at, ..lp.next }
    } else {
        lp.next
    }
}

/// Starting every loop from the top together, on one frame for all of them.
pub open spec fn go_step(pre: Shared, post: Shared, r: Said) -> bool {
    let at = pre.boundary(pre.now());
    let n = counted(pre.loops@, pre.size.n_loops as int, true);
    let busy = counted(pre.loops@, pre.size.n_loops as int, false);
    let frame = match at {
        Some(t) => t as i64,
        None => NEVER,
    };
    &&& post.loops@.len() == pre.loops@.len()
    &&& forall|i: int|
        0 <= i < pre.loops@.len() ==> #[trigger] post.loops@[i] == (Loop {
            next: start_plan(pre.loops@[i], frame),
            ..pre.loops@[i]
        })
    &&& post == (Shared { loops: post.loops, ..pre })
    &&& r == (if n == 0 {
        Said::NothingToStart { busy: busy > 0 }
    } else {
        Said::Started {
            n: n as usize,
            wait: match at {
                Some(t) => Some((t - pre.now()) as i64),
                None => None,
            },
            busy: busy as usize,
        }
    })
}

fn plan_start(sh: &mut Shared, li: usize, at: i64)
    requires
        old(sh).wf(),
        li < old(sh).size.n_loops,
        frame::maybe_near(at),
        starts(old(sh).loops@[li as int]),
    ensures
        final(sh).wf(),
        old(sh).but_loop(
            li as int,
            Loop {
                next: start_plan(old(sh).loops@[li as int], at),
                ..old(sh).loops@[li as int]
            },
            *final(sh),
        ),
{
    let ghost a = sh.loops@[li as int];
    assert(sh.loop_ok(a));
    let mut next = sh.loops[li].next;
    next.set(FIRE, at);
    let lp = &mut sh.loops[li];
    lp.next = next;
    proof {
        cycle::planned_sound(a, next, sh.size.max_layers, sh.size.max_frames);
        shared::loop_exchanged(*old(sh), *sh, li as int, sh.loops@[li as int]);
    }
}

/// Start every loop that holds something from the top, together.
pub fn start_all(sh: &mut Shared) -> (r: Said)
    requires
        old(sh).wf(),
    ensures
        final(sh).wf(),
        go_step(*old(sh), *final(sh), r),
{
    let now: i64 = sh.clock.out_frames as i64;
    let at = sh.next_boundary(now);
    let frame: i64 = match at {
        Some(t) => t,
        None => NEVER,
    };
    let ghost pre = *sh;
    let m: usize = sh.size.n_loops;
    let mut n: usize = 0;
    let mut busy: usize = 0;
    let mut i: usize = 0;
    while i < m
        invariant
            sh.wf(),
            pre.wf(),
            m == pre.size.n_loops,
            *sh == (Shared { loops: sh.loops, ..pre }),
            i <= m,
            n <= i,
            busy <= i,
            frame::maybe_near(frame),
            sh.loops@.len() == pre.loops@.len(),
            n == counted(pre.loops@, i as int, true),
            busy == counted(pre.loops@, i as int, false),
            forall|j: int|
                0 <= j < i ==> #[trigger] sh.loops@[j] == (Loop {
                    next: start_plan(pre.loops@[j], frame),
                    ..pre.loops@[j]
                }),
            forall|j: int| i <= j < m ==> #[trigger] sh.loops@[j] == pre.loops@[j],
        decreases m - i,
    {
        assert(sh.loops@[i as int] == pre.loops@[i as int]);
        if sh.loops[i].body.loop_len != 0 {
            if sh.loops[i].wants_input() {
                busy = busy + 1;
            } else {
                plan_start(sh, i, frame);
                n = n + 1;
            }
        }
        i = i + 1;
    }
    if n == 0 {
        return Said::NothingToStart { busy: busy > 0 };
    }
    let wait: Option<i64> = match at {
        Some(t) => Some(t - now),
        None => None,
    };
    Said::Started { n, wait, busy }
}

/// Every loop that holds a length starts together: on one frame for all of
/// them, which is the next line of the grid where there is one to wait for. A
/// loop that a take is on its way to, and one without a length, is left alone.
pub proof fn every_loop_starts_on_one_frame(pre: Shared, post: Shared, r: Said, i: int)
    requires
        go_step(pre, post, r),
        0 <= i < pre.loops@.len(),
    ensures
        ({
            let a = pre.loops@[i];
            let b = post.loops@[i];
            if a.body.loop_len > 0 && (a.state == Phase::Idle || a.state == Phase::Playing) {
                &&& b.next.request == FIRE
                &&& pre.boundary(pre.now()) is Some ==> b.next.request_at == pre.boundary(
                    pre.now(),
                ).unwrap() as i64
                &&& pre.boundary(pre.now()) is None ==> b.next.request_at == NEVER
                &&& b.next.one_pass == a.next.one_pass
                &&& b.body == a.body
                &&& b.play == a.play
            } else {
                b == a
            }
        }),
        post.arena == pre.arena,
{
}

/// A loop that is empty and told its bars begins on the next line of the grid
/// where it follows it, and else now, and gives the grid where none does. One
/// with layers begins where it did, and is never made shorter than a layer.
pub proof fn a_loop_told_its_bars_begins_on_a_line(
    pre: Shared,
    li: int,
    n: usize,
    post: Shared,
    r: Said,
    l: int,
)
    requires
        pre.wf(),
        0 <= li < pre.size.n_loops,
        bars_step(pre, li, n, post, r),
        0 <= l < pre.loops@[li].body.n_layers,
    ensures
        r is BarsResized ==> post.loops@[li].body.origin == pre.loops@[li].body.origin
            && post.loops@[li].body.loop_len >= pre.loops@[li].layers@[l].len
            && post.loops@[li].layers == pre.loops@[li].layers,
        r is BarsDeclared ==> post.loops@[li].body.origin == pre.loops@[li].body.origin
            && post.loops@[li].body.loop_len == pre.loops@[li].body.loop_len,
        !(r is BarsResized || r is BarsDeclared) ==> post == pre,
{
    longest_is_longest(pre.loops@[li], pre.loops@[li].body.n_layers as int, l);
}

proof fn longest_is_longest(lp: Loop, n: int, l: int)
    requires
        0 <= l < n,
    ensures
        longest(lp, n) >= lp.layers@[l].len,
    decreases n,
{
    if l < n - 1 {
        longest_is_longest(lp, n - 1, l);
    }
}

/// An empty loop that is told its bars begins on a line of the grid that is
/// still to come, the first there is, where it follows the grid, and else now.
pub proof fn an_empty_loop_told_its_bars_begins_on_a_line(
    pre: Shared,
    li: int,
    n: usize,
    post: Shared,
    r: Said,
)
    requires
        pre.wf(),
        0 <= li < pre.size.n_loops,
        bars_step(pre, li, n, post, r),
        r is BarsSized,
        pre.the_grid().unwrap().1 > 0,
        frame::near(pre.the_grid().unwrap().0),
        frame::short(pre.the_grid().unwrap().1),
    ensures
        ({
            let (origin, bar) = pre.the_grid().unwrap();
            let b = post.loops@[li];
            &&& pre.loops@[li].body.n_layers == 0
            &&& !pre.loops@[li].habit.quant ==> b.body.origin == pre.clock.out_frames
            &&& pre.loops@[li].habit.quant ==> (b.body.origin - origin) % bar as int == 0
                && pre.clock.out_frames < b.body.origin <= pre.clock.out_frames + bar
            &&& b.body.cycles == n
            &&& b.body.loop_len == n * bar
            &&& pre.desk.anchor == shared::NO_ANCHOR ==> post.desk.anchor == li
            &&& pre.desk.anchor != shared::NO_ANCHOR ==> post.desk.anchor == pre.desk.anchor
        }),
{
    let (origin, bar) = pre.the_grid().unwrap();
    let now = pre.now();
    next_line(origin as int, bar as int, now);
    vstd::arithmetic::div_mod::lemma_mod_multiples_basic(
        (now - origin) / bar as int + 1,
        bar as int,
    );
    assert(0 <= n * bar) by (nonlinear_arith);
}

/// An empty loop is sized by the grid wherever there is one and the bars fit,
/// whether it gives the grid or not; and only a loop that gives it says what
/// a bar is.
pub proof fn an_empty_loop_is_sized_by_the_grid(
    pre: Shared,
    li: int,
    n: usize,
    post: Shared,
    r: Said,
)
    requires
        bars_step(pre, li, n, post, r),
        0 <= li < pre.loops@.len(),
        1 <= n <= MAX_BARS,
        !pre.loops@[li].recording(),
    ensures
        pre.loops@[li].body.n_layers == 0 && pre.the_grid() is Some && n
            * pre.the_grid().unwrap().1 <= pre.size.max_frames ==> r is BarsSized,
        pre.loops@[li].body.n_layers == 0 && pre.the_grid() is None ==> post == pre,
        r is BarsDeclared ==> li == pre.desk.anchor && pre.loops@[li].body.n_layers > 0
            && pre.link.link_bar_frames == 0 && post.loops@[li].body.cycles == n
            && post.loops@[li].body.loop_len == pre.loops@[li].body.loop_len,
{
}

proof fn others_are_counted(sh: Shared, li: int, n: int, i: int)
    requires
        0 <= i < n,
        i != li,
        sh.loops@[i].body.n_layers > 0,
    ensures
        others(sh, li, n) >= 1,
    decreases n,
{
    if i < n - 1 {
        others_are_counted(sh, li, n - 1, i);
    }
}

proof fn no_others_are_counted(sh: Shared, li: int, n: int)
    requires
        forall|i: int| 0 <= i < n && i != li ==> (#[trigger] sh.loops@[i]).body.n_layers == 0,
    ensures
        others(sh, li, n) == 0,
    decreases n,
{
    if n > 0 {
        no_others_are_counted(sh, li, n - 1);
    }
}

/// The tempo of a loop is told from its length and its bars, once it is
/// written; what else plays is the other loops and not this one, and a clock
/// has been heard where it has sent anything.
pub proof fn a_tempo_is_told_from_a_loop(sh: Shared, li: int, i: int)
    requires
        0 <= li < sh.size.n_loops,
        0 <= i < sh.size.n_loops,
        i != li,
        sh.size.n_loops <= usize::MAX,
        others(sh, li, sh.size.n_loops as int) <= usize::MAX,
    ensures
        ({
            let lp = sh.loops@[li];
            let told = lp.state == Phase::Idle || lp.state == Phase::Playing;
            &&& told && lp.body.loop_len > 0 && lp.body.cycles > 0 ==> {
                &&& tempo_from(sh, li) matches Said::TempoFrom { li: l, len, bars, others, heard }
                    && l == li && len == lp.body.loop_len && bars == lp.body.cycles && (heard
                    <==> sh.link.link_anchors > 0) && (sh.loops@[i].body.n_layers > 0 ==> others
                    >= 1) && ((forall|k: int|
                    0 <= k < sh.size.n_loops && k != li ==> (#[trigger] sh.loops@[k]).body.n_layers
                        == 0) ==> others == 0)
            }
            &&& !told || lp.body.loop_len == 0 || lp.body.cycles == 0 ==> !(tempo_from(
                sh,
                li,
            ) is TempoFrom)
        }),
{
    let n = sh.size.n_loops as int;
    if sh.loops@[i].body.n_layers > 0 {
        others_are_counted(sh, li, n, i);
    }
    if forall|k: int|
        0 <= k < n && k != li ==> (#[trigger] sh.loops@[k]).body.n_layers == 0 {
        no_others_are_counted(sh, li, n);
    }
}

} // verus!
