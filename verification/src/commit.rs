//! Closing a recording.
//!
//! A close has two halves. The first decides the frame the take closes as of
//! and stops the writing. The second comes when the last frames have
//! arrived: what was captured is read, and becomes a layer. A close on the
//! grid whose line is still ahead is filed for it, with the press it came
//! from.

use crate::ack::Said;
use crate::closing;
use crate::closing::{Caller, Closing, Filed, Take};
use crate::frame;
use crate::loop_state::{Loop, Progress};
use crate::next_take::NEVER;
use crate::num;
use crate::phase::Phase;
use crate::shared;
use crate::shared::Shared;
use vstd::prelude::*;

verus! {

/// How long the last frames of a take are waited for, in milliseconds.
pub const DRAIN_MS: u64 = 60;

/// How many grid cycles a take is that began at `origin` and closes as of
/// `closed_at`: the nearest number, and one at least.
pub open spec fn grid_cycles(origin: int, closed_at: int, bar: int) -> int {
    num::larger(num::nearest(num::larger(closed_at - origin, 0), bar), 1)
}

/// The length a first take on the grid closes at, and its cycles: nothing
/// off the grid, and nothing where that many would not fit.
pub open spec fn on_grid(sh: Shared, li: int, closed_at: int) -> Option<(int, int)> {
    let lp = sh.loops@[li];
    if lp.state != Phase::First || !lp.habit.quant {
        None
    } else {
        match sh.the_grid() {
            None => None,
            Some((_, bar)) => {
                let n = grid_cycles(lp.body.origin as int, closed_at, bar as int);
                if n * bar > sh.size.max_frames {
                    None
                } else {
                    Some((n, n * bar))
                }
            },
        }
    }
}

/// The nearest number of cycles of a time that is short is not far.
pub proof fn cycles_fit(elapsed: int, bar: int)
    requires
        elapsed >= 0,
        bar >= 1,
    ensures
        0 <= num::nearest(elapsed, bar) <= elapsed,
        num::larger(num::nearest(elapsed, bar), 1) * bar <= 2 * elapsed + bar,
{
    num::nearest_is_near(elapsed, bar);
    let n = num::nearest(elapsed, bar);
    assert(n <= elapsed) by (nonlinear_arith)
        requires
            2 * bar * n <= 2 * elapsed + bar,
            bar >= 1,
            n >= 0,
            elapsed >= 0,
    ;
    assert(n * bar <= 2 * elapsed + bar) by (nonlinear_arith)
        requires
            2 * bar * n <= 2 * elapsed + bar,
            bar >= 1,
            n >= 0,
            elapsed >= 0,
    ;
    assert(1 * bar == bar);
}

fn quantised(sh: &Shared, li: usize, closed_at: i64) -> (r: Option<(usize, usize)>)
    requires
        sh.wf(),
        li < sh.size.n_loops,
        frame::near(closed_at),
    ensures
        r is Some <==> on_grid(*sh, li as int, closed_at as int) is Some,
        r matches Some((n, len)) ==> on_grid(*sh, li as int, closed_at as int) == Some(
            (n as int, len as int),
        ) && 0 < len <= sh.size.max_frames && n >= 1,
{
    proof {
        assert(sh.loop_ok(sh.loops@[li as int]));
        reveal(shared::sound);
        reveal(Loop::wf);
    }
    let lp = &sh.loops[li];
    if lp.state != Phase::First || !lp.habit.quant {
        return None;
    }
    let bar: usize = match sh.grid() {
        None => {
            return None;
        },
        Some((_, bar)) => bar,
    };
    let elapsed: usize = num::max_signed(closed_at - lp.body.origin, 0) as usize;
    let n: usize = num::max(num::round_ratio(elapsed, bar), 1);
    proof {
        cycles_fit(elapsed as int, bar as int);
        assert(n >= 1 && bar >= 1 ==> n * bar >= 1) by (nonlinear_arith);
    }
    let len: usize = n * bar;
    if len > sh.size.max_frames {
        return None;
    }
    Some((n, len))
}

/// What closing a take comes to.
#[derive(Clone, Copy, Debug)]
pub enum Closed {
    /// There was none, or it is over already.
    Said(Said),
    /// It is filed for a frame.
    Filed(Said),
    /// Its last frames are waited for.
    Draining,
}

/// A loop whose take is over and whose last frames are waited for.
pub open spec fn drained(lp: Loop, t: Take) -> Loop {
    Loop { state: Phase::Playing, closing: Some(Closing::Draining(t)), ..lp }
}

/// A loop whose close is filed for a frame.
pub open spec fn filed_for(lp: Loop, at: i64, f: Filed) -> Loop {
    Loop {
        closing: Some(Closing::Filed(f)),
        take: Progress { close_at: at, ..lp.take },
        ..lp
    }
}

/// Closing the take of a loop as of a frame: refused where none is running,
/// filed where it is on the grid and the line is ahead, and else done.
pub open spec fn closed_off(
    pre: Shared,
    li: int,
    lp: Loop,
    press: Filed,
    clock_ms: u64,
    post: Shared,
    r: Closed,
) -> bool {
    let on = on_grid(pre, li, press.pressed as int);
    let given = on.unwrap_or((0, 0));
    if lp.state != Phase::First && lp.state != Phase::Overdub {
        &&& pre.but_loop(li, lp, post)
        &&& r == Closed::Said(Said::NotRecording { li: li as usize })
    } else if on is Some && lp.body.origin + given.1 > pre.now() {
        let target = lp.body.origin + given.1;
        &&& pre.but_loop(li, filed_for(lp, target as i64, press), post)
        &&& r == Closed::Filed(
            Said::ClosesOnBar {
                li: li as usize,
                wait: (target - pre.now()) as i64,
                cycles: given.0 as usize,
            },
        )
    } else {
        &&& pre.but_loop(li, drained(lp, take_of(lp.state, press, on, clock_ms)), post)
        &&& r == Closed::Draining
    }
}

/// The take a press closes.
pub open spec fn take_of(
    was: Phase,
    press: Filed,
    on: Option<(int, int)>,
    clock_ms: u64,
) -> Take {
    Take {
        was,
        closed_at: press.pressed,
        late: press.late,
        quantised_len: match on {
            Some((_, len)) => Some(len as usize),
            None => None,
        },
        cycles: 0,
        waited: 0,
        due: drain_due(clock_ms),
        from: press.from,
    }
}

/// When the last frames will have arrived.
pub open spec fn drain_due(clock_ms: u64) -> u64 {
    if clock_ms + DRAIN_MS <= u64::MAX {
        (clock_ms + DRAIN_MS) as u64
    } else {
        u64::MAX
    }
}

proof fn drained_sound(lp: Loop, t: Take, max_layers: usize, max_frames: usize)
    requires
        shared::sound(lp, max_layers, max_frames),
        closing::take_wf(t, max_frames),
    ensures
        shared::sound(drained(lp, t), max_layers, max_frames),
{
    reveal(shared::sound);
    reveal(Loop::wf);
}

proof fn filed_sound(lp: Loop, at: i64, f: Filed, max_layers: usize, max_frames: usize)
    requires
        shared::sound(lp, max_layers, max_frames),
        0 <= at,
        frame::in_range(at),
        closing::closing_wf(Some(Closing::Filed(f)), max_frames),
    ensures
        shared::sound(filed_for(lp, at, f), max_layers, max_frames),
{
    reveal(shared::sound);
    reveal(Loop::wf);
}

/// When the last frames will have arrived.
pub fn due_at(clock_ms: u64) -> (r: u64)
    ensures
        r == drain_due(clock_ms),
{
    clock_ms.saturating_add(DRAIN_MS)
}

/// File a close for a frame.
pub fn file(sh: &mut Shared, li: usize, at: i64, f: Filed)
    requires
        old(sh).wf(),
        li < old(sh).size.n_loops,
        0 <= at,
        frame::in_range(at),
        closing::closing_wf(Some(Closing::Filed(f)), old(sh).size.max_frames),
    ensures
        final(sh).wf(),
        old(sh).but_loop(
            li as int,
            filed_for(old(sh).loops@[li as int], at, f),
            *final(sh),
        ),
{
    proof {
        assert(sh.loop_ok(sh.loops@[li as int]));
        filed_sound(sh.loops@[li as int], at, f, sh.size.max_layers, sh.size.max_frames);
    }
    let lp = &mut sh.loops[li];
    lp.closing = Some(Closing::Filed(f));
    lp.take.close_at = at;
    proof {
        shared::loop_exchanged(*old(sh), *sh, li as int, sh.loops@[li as int]);
    }
}

/// Stop the writing, and wait for the last frames.
pub fn drain(sh: &mut Shared, li: usize, t: Take)
    requires
        old(sh).wf(),
        li < old(sh).size.n_loops,
        closing::take_wf(t, old(sh).size.max_frames),
    ensures
        final(sh).wf(),
        old(sh).but_loop(li as int, drained(old(sh).loops@[li as int], t), *final(sh)),
{
    proof {
        assert(sh.loop_ok(sh.loops@[li as int]));
        drained_sound(sh.loops@[li as int], t, sh.size.max_layers, sh.size.max_frames);
    }
    let lp = &mut sh.loops[li];
    lp.enter(Phase::Playing);
    lp.closing = Some(Closing::Draining(t));
    proof {
        shared::loop_exchanged(*old(sh), *sh, li as int, sh.loops@[li as int]);
    }
}

/// A press that closes a take.
pub open spec fn press_of(closed_at: i64, late: i64, from: Caller) -> Filed {
    Filed { pressed: closed_at, late, cycles: 0, from }
}

/// Close a take as of the frame `closed_at`, `late` frames before the
/// command.
pub fn close_take(
    sh: &mut Shared,
    li: usize,
    closed_at: i64,
    late: i64,
    from: Caller,
    clock_ms: u64,
) -> (r: Closed)
    requires
        old(sh).wf(),
        li < old(sh).size.n_loops,
        frame::near(closed_at),
        frame::near(late),
    ensures
        final(sh).wf(),
        closed_off(
            *old(sh),
            li as int,
            old(sh).loops@[li as int],
            press_of(closed_at, late, from),
            clock_ms,
            *final(sh),
            r,
        ),
{
    let state = sh.loops[li].state;
    assert(sh.loops@ =~= sh.loops@.update(li as int, sh.loops@[li as int]));
    if state != Phase::First && state != Phase::Overdub {
        return Closed::Said(Said::NotRecording { li });
    }
    let on = quantised(sh, li, closed_at);
    let now: i64 = sh.clock.out_frames as i64;
    let origin: i64 = sh.loops[li].body.origin;
    assert(frame::near(origin)) by {
        assert(sh.loop_ok(sh.loops@[li as int]));
        reveal(shared::sound);
        reveal(Loop::wf);
    }
    let mut quantised_len: Option<usize> = None;
    if let Some((n, len)) = on {
        let target: i64 = origin + len as i64;
        if target > now {
            file(sh, li, target, Filed { pressed: closed_at, late, cycles: 0, from });
            return Closed::Filed(Said::ClosesOnBar { li, wait: target - now, cycles: n });
        }
        quantised_len = Some(len);
    }
    drain(
        sh,
        li,
        Take {
            was: state,
            closed_at,
            late,
            quantised_len,
            cycles: 0,
            waited: 0,
            due: due_at(clock_ms),
            from,
        },
    );
    Closed::Draining
}

/// Whether a loop's take has come to the frame it closes at.
pub open spec fn close_due(lp: Loop, now: int) -> bool {
    lp.take.close_at != NEVER && lp.take.close_at <= now
}

/// The press that was filed for a loop's close, if one was.
pub open spec fn filed_press(lp: Loop) -> Option<Filed> {
    match lp.closing {
        Some(Closing::Filed(f)) => Some(f),
        _ => None,
    }
}

/// A loop with nothing filed.
pub open spec fn unfiled(lp: Loop) -> Loop {
    Loop {
        take: Progress { close_at: NEVER, ..lp.take },
        closing: match lp.closing {
            Some(Closing::Filed(_)) => None,
            c => c,
        },
        ..lp
    }
}

/// The press a close that falls due closes with: the one that filed it, or
/// the frame itself, which is as long ago as the clock has gone past it.
pub open spec fn due_press(sh: Shared, lp: Loop, now: int) -> Filed {
    match filed_press(lp) {
        Some(f) => press_of(f.pressed, f.late, f.from),
        None => press_of(
            (sh.now() - (now - lp.take.close_at)) as i64,
            (now - lp.take.close_at) as i64,
            Caller::Engine,
        ),
    }
}

/// A multiply whose boundary has come.
pub open spec fn multiply_take(lp: Loop, f: Filed, clock_ms: u64) -> Take {
    Take {
        was: Phase::Multiply,
        closed_at: lp.take.close_at,
        late: f.late,
        quantised_len: None,
        cycles: f.cycles,
        waited: (lp.take.close_at - f.pressed) as i64,
        due: drain_due(clock_ms),
        from: f.from,
    }
}

/// What comes of a close at frame `now`: nothing before its frame; a take
/// closes and a multiply ends; and where neither is running any more, what
/// was filed is forgotten.
pub open spec fn fire_step(
    pre: Shared,
    li: int,
    now: int,
    clock_ms: u64,
    post: Shared,
    r: Option<Closed>,
) -> bool {
    let lp = pre.loops@[li];
    if !close_due(lp, now) {
        post == pre && r is None
    } else if lp.state == Phase::First || lp.state == Phase::Overdub {
        &&& r is Some
        &&& closed_off(pre, li, unfiled(lp), due_press(pre, lp, now), clock_ms, post, r->0)
    } else if lp.state == Phase::Multiply {
        match filed_press(lp) {
            Some(f) => {
                &&& r == Some(Closed::Draining)
                &&& pre.but_loop(li, drained(unfiled(lp), multiply_take(lp, f, clock_ms)), post)
            },
            None => r == Some(Closed::Draining) && pre.but_loop(li, unfiled(lp), post),
        }
    } else {
        r is None && pre.but_loop(li, unfiled(lp), post)
    }
}

proof fn unfiled_sound(lp: Loop, max_layers: usize, max_frames: usize)
    requires
        shared::sound(lp, max_layers, max_frames),
    ensures
        shared::sound(unfiled(lp), max_layers, max_frames),
{
    reveal(shared::sound);
    reveal(Loop::wf);
}

fn unfile(sh: &mut Shared, li: usize) -> (r: Option<Filed>)
    requires
        old(sh).wf(),
        li < old(sh).size.n_loops,
    ensures
        final(sh).wf(),
        old(sh).but_loop(li as int, unfiled(old(sh).loops@[li as int]), *final(sh)),
        r == filed_press(old(sh).loops@[li as int]),
{
    proof {
        assert(sh.loop_ok(sh.loops@[li as int]));
        unfiled_sound(sh.loops@[li as int], sh.size.max_layers, sh.size.max_frames);
    }
    let filed: Option<Filed> = match sh.loops[li].closing {
        Some(Closing::Filed(f)) => Some(f),
        _ => None,
    };
    let lp = &mut sh.loops[li];
    lp.take.close_at = NEVER;
    if filed.is_some() {
        lp.closing = None;
    }
    proof {
        shared::loop_exchanged(*old(sh), *sh, li as int, sh.loops@[li as int]);
    }
    filed
}

/// The grid does not depend on what is filed.
proof fn grid_kept(pre: Shared, li: int, mid: Shared, at: int)
    requires
        pre.wf(),
        0 <= li < pre.size.n_loops,
        pre.but_loop(li, unfiled(pre.loops@[li]), mid),
    ensures
        on_grid(mid, li, at) == on_grid(pre, li, at),
{
    assert(forall|i: int|
        0 <= i < pre.size.n_loops ==> (#[trigger] mid.loops@[i]).body == pre.loops@[i].body);
}

/// Let the close of a loop take place, where its frame has come.
pub fn fire_due(sh: &mut Shared, li: usize, now: i64, clock_ms: u64) -> (r: Option<Closed>)
    requires
        old(sh).wf(),
        li < old(sh).size.n_loops,
        0 <= now,
        frame::shortly(now),
    ensures
        final(sh).wf(),
        fire_step(*old(sh), li as int, now as int, clock_ms, *final(sh), r),
{
    let ghost lp = sh.loops@[li as int];
    assert(sh.loop_ok(lp));
    assert(frame::coming(lp.take.close_at) && closing::closing_wf(lp.closing, sh.size.max_frames))
        by {
        reveal(shared::sound);
        reveal(Loop::wf);
    }
    let at: i64 = sh.loops[li].take.close_at;
    if at == NEVER || now < at {
        return None;
    }
    let state = sh.loops[li].state;
    let filed = unfile(sh, li);
    let ghost mid = *sh;
    assert(mid.loops@[li as int] == unfiled(lp));
    if state == Phase::First || state == Phase::Overdub {
        let (closed_at, late, from) = match filed {
            Some(f) => (f.pressed, f.late, f.from),
            None => (sh.clock.out_frames as i64 - (now - at), now - at, Caller::Engine),
        };
        let r = close_take(sh, li, closed_at, late, from, clock_ms);
        proof {
            grid_kept(*old(sh), li as int, mid, closed_at as int);
            assert forall|x: Loop| mid.but_loop(li as int, x, *sh) implies #[trigger] old(
                sh,
            ).but_loop(li as int, x, *sh) by {
                assert(mid.loops@.update(li as int, x) =~= old(sh).loops@.update(li as int, x));
            }
        }
        return Some(r);
    }
    if state == Phase::Multiply {
        if let Some(f) = filed {
            let t = Take {
                was: Phase::Multiply,
                closed_at: at,
                late: f.late,
                quantised_len: None,
                cycles: f.cycles,
                waited: at - f.pressed,
                due: due_at(clock_ms),
                from: f.from,
            };
            drain(sh, li, t);
            assert(mid.loops@.update(li as int, drained(unfiled(lp), t)) =~= old(
                sh,
            ).loops@.update(li as int, drained(unfiled(lp), t)));
        }
        return Some(Closed::Draining);
    }
    None
}

/// A take that closes on the grid is a whole number of grid cycles long, one
/// at least, and no other number is nearer to what was played.
pub proof fn a_take_on_the_grid_is_whole_cycles(sh: Shared, li: int, closed_at: int, other: int)
    requires
        sh.wf(),
        0 <= li < sh.size.n_loops,
        on_grid(sh, li, closed_at) is Some,
        other >= 1,
    ensures
        ({
            let bar = sh.the_grid().unwrap().1 as int;
            let (n, len) = on_grid(sh, li, closed_at).unwrap();
            let played = num::larger(closed_at - sh.loops@[li].body.origin, 0);
            &&& n >= 1
            &&& len == n * bar
            &&& len <= sh.size.max_frames
            &&& distance(n * bar, played) <= distance(other * bar, played)
        }),
{
    let bar = sh.the_grid().unwrap().1 as int;
    let (n, _) = on_grid(sh, li, closed_at).unwrap();
    let played = num::larger(closed_at - sh.loops@[li].body.origin, 0);
    let m = num::nearest(played, bar);
    num::nearest_is_near(played, bar);
    assert(2 * bar * m == 2 * (m * bar)) by (nonlinear_arith);
    if other > n {
        assert(other * bar >= n * bar + bar) by (nonlinear_arith)
            requires
                other >= n + 1,
                bar > 0,
        ;
    } else if other < n {
        assert(other * bar <= n * bar - bar) by (nonlinear_arith)
            requires
                other <= n - 1,
                bar > 0,
        ;
    }
    if m < 1 {
        assert(m * bar == 0) by (nonlinear_arith)
            requires
                m == 0,
        ;
        assert(n * bar == bar) by (nonlinear_arith)
            requires
                n == 1,
        ;
    }
}

/// How far apart two frames are.
pub open spec fn distance(a: int, b: int) -> int {
    if a < b {
        b - a
    } else {
        a - b
    }
}

/// A first take that follows the grid goes on to the line its length comes out
/// at where that is still ahead, and closes there with the press it was closed
/// by; where it is not, it is done, and that long.
pub proof fn a_take_on_the_grid_closes_on_its_line(
    pre: Shared,
    li: int,
    press: Filed,
    clock_ms: u64,
    post: Shared,
    r: Closed,
    n: int,
)
    requires
        pre.wf(),
        0 <= li < pre.size.n_loops,
        closed_off(pre, li, pre.loops@[li], press, clock_ms, post, r),
        pre.loops@[li].state == Phase::First,
        pre.loops@[li].habit.quant,
        pre.the_grid() is Some,
        ({
            let bar = pre.the_grid().unwrap().1;
            let played = press.pressed - pre.loops@[li].body.origin;
            &&& bar > 0
            &&& n >= 1
            &&& 2 * (n * bar) <= 2 * played + bar || n == 1
            &&& 2 * played + bar < 2 * (n * bar) + 2 * bar
            &&& played >= 0
            &&& n * bar <= pre.size.max_frames
        }),
    ensures
        ({
            let b = post.loops@[li];
            let len = n * pre.the_grid().unwrap().1;
            let line = pre.loops@[li].body.origin + len;
            &&& b.body == pre.loops@[li].body
            &&& if line > pre.clock.out_frames {
                &&& b.state == Phase::First
                &&& b.take.close_at == line
                &&& b.closing matches Some(Closing::Filed(f)) && f.pressed == press.pressed
                    && f.late == press.late
            } else {
                &&& b.state == Phase::Playing
                &&& b.closing matches Some(Closing::Draining(t)) && t.was == Phase::First
                    && t.closed_at == press.pressed && t.late == press.late
                    && t.quantised_len == Some(len as usize)
            }
        }),
{
    let bar = pre.the_grid().unwrap().1 as int;
    let a = pre.loops@[li];
    let played = press.pressed - a.body.origin;
    let m = num::nearest(played, bar);
    assert(pre.loop_ok(a));
    assert(frame::near(a.body.origin)) by {
        reveal(shared::sound);
        reveal(Loop::wf);
    }
    num::nearest_is_near(played, bar);
    assert(2 * bar * m == 2 * (m * bar)) by (nonlinear_arith);
    let k = num::larger(m, 1);
    if n > k {
        assert(n * bar >= k * bar + bar) by (nonlinear_arith)
            requires
                n >= k + 1,
                bar > 0,
        ;
        assert(k * bar >= m * bar) by (nonlinear_arith)
            requires
                k >= m,
                bar > 0,
        ;
        assert(false);
    }
    if n < k {
        assert(m * bar >= n * bar + bar) by (nonlinear_arith)
            requires
                m >= n + 1,
                bar > 0,
        ;
        assert(false);
    }
    assert(0 <= n * bar) by (nonlinear_arith)
        requires
            n >= 1,
            bar > 0,
    ;
}

/// A close waits for its frame, and takes place then: with the press it was
/// filed by, or where nobody pressed as of the frame itself.
pub proof fn a_close_takes_place_on_its_frame(
    pre: Shared,
    li: int,
    clock_ms: u64,
    post: Shared,
    r: Option<Closed>,
)
    requires
        pre.wf(),
        0 <= li < pre.size.n_loops,
        fire_step(pre, li, pre.now(), clock_ms, post, r),
    ensures
        pre.loops@[li].take.close_at == NEVER || pre.loops@[li].take.close_at
            > pre.clock.out_frames ==> post == pre,
        pre.loops@[li].take.close_at != NEVER && pre.loops@[li].take.close_at
            <= pre.clock.out_frames ==> {
            let a = pre.loops@[li];
            let b = post.loops@[li];
            &&& b.body == a.body
            &&& post.audio() == pre.audio()
            &&& a.state == Phase::Overdub ==> {
                &&& b.take.close_at == NEVER
                &&& b.state == Phase::Playing
                &&& b.closing matches Some(Closing::Draining(t)) && t.was == Phase::Overdub
                    && match a.closing {
                    Some(Closing::Filed(f)) => t.closed_at == f.pressed && t.late == f.late
                        && t.from == f.from,
                    _ => t.closed_at == a.take.close_at && t.late == pre.clock.out_frames
                        - a.take.close_at && t.from == Caller::Engine,
                }
            }
            &&& a.state == Phase::First && !a.habit.quant ==> {
                &&& b.state == Phase::Playing
                &&& b.closing matches Some(Closing::Draining(t)) && t.was == Phase::First
                    && t.quantised_len is None && match a.closing {
                    Some(Closing::Filed(f)) => t.closed_at == f.pressed,
                    _ => t.closed_at == a.take.close_at,
                }
            }
            &&& a.state == Phase::Multiply ==> match a.closing {
                Some(Closing::Filed(f)) => {
                    &&& b.state == Phase::Playing
                    &&& b.closing matches Some(Closing::Draining(t)) && t.was == Phase::Multiply
                        && t.cycles == f.cycles && t.closed_at == a.take.close_at && t.waited
                        == a.take.close_at - f.pressed
                },
                _ => b.state == a.state,
            }
            &&& a.state == Phase::Idle || a.state == Phase::Playing || a.state == Phase::Armed
                ==> b.state == a.state && b.take.close_at == NEVER
        },
{
    assert(pre.loop_ok(pre.loops@[li]));
    assert(frame::coming(pre.loops@[li].take.close_at) && closing::closing_wf(
        pre.loops@[li].closing,
        pre.size.max_frames,
    )) by {
        reveal(shared::sound);
        reveal(Loop::wf);
    }
}

/// The last frames of a take are waited for before it is read.
pub proof fn a_take_drains_before_it_is_read(
    pre: Shared,
    li: int,
    press: Filed,
    clock_ms: u64,
    post: Shared,
    r: Closed,
)
    requires
        0 <= li < pre.loops@.len(),
        closed_off(pre, li, pre.loops@[li], press, clock_ms, post, r),
        r is Draining,
        clock_ms <= u64::MAX - DRAIN_MS,
    ensures
        post.loops@[li].closing matches Some(Closing::Draining(t)) && t.due == clock_ms + 60,
{
}

} // verus!
