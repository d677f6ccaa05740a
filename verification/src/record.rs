//! The presses: recording, firing and multiplying.

use crate::ack::Said;
use crate::audio;
use crate::closing::{Caller, Closing, Filed};
use crate::commit;
use crate::commit::Closed;
use crate::cycle;
use crate::finish;
use crate::frame;
use crate::guards;
use crate::layer::Layer;
use crate::loop_state;
use crate::loop_state::{Body, Loop, Progress};
use crate::multiply;
use crate::next_take::{NextTake, ARMED, FIRE, NEVER};
use crate::num;
use crate::phase::Phase;
use crate::shared;
use crate::shared::Shared;
use crate::stamp;
use vstd::prelude::*;

verus! {

/// Why a press does not begin a recording, or nothing.
pub open spec fn press_refused(sh: Shared, li: int) -> Option<Said> {
    let lp = sh.loops@[li];
    match guards::taken(sh, li) {
        Some(why) => Some(why),
        None => match guards::unwritable(lp, li) {
            Some(why) => Some(why),
            None => if lp.body.n_layers >= sh.size.max_layers {
                Some(Said::Ceiling { li: li as usize, max_layers: sh.size.max_layers })
            } else {
                None
            },
        },
    }
}

/// The frame a recording begins at: on the grid for a first one that follows
/// it, and else at once.
pub open spec fn begin_at(sh: Shared, li: int) -> Option<int> {
    let lp = sh.loops@[li];
    if lp.habit.quant && lp.body.n_layers == 0 {
        sh.boundary(sh.now())
    } else {
        None
    }
}

/// The plan of a loop that is to record: to listen, or to begin at a frame
/// or at once.
pub open spec fn press_plan(sh: Shared, li: int) -> NextTake {
    let lp = sh.loops@[li];
    if lp.habit.level_arm {
        NextTake { request_at: NEVER, arm_from: NEVER, ..lp.next }
    } else {
        NextTake {
            request: ARMED,
            request_at: match begin_at(sh, li) {
                Some(t) => t as i64,
                None => NEVER,
            },
            ..lp.next
        }
    }
}

/// A loop that is to record: the layer it will write has nothing above it to
/// redo, and it listens or waits.
pub open spec fn pressed(sh: Shared, li: int, late: i64, b: Loop) -> bool {
    let lp = sh.loops@[li];
    let n = lp.body.n_layers as int;
    &&& b == (Loop {
        state: if lp.habit.level_arm {
            Phase::Armed
        } else {
            lp.state
        },
        body: Body { redo_to: lp.body.n_layers, ..lp.body },
        take: Progress {
            started_late: if lp.habit.level_arm {
                0
            } else {
                late
            },
            ..lp.take
        },
        next: press_plan(sh, li),
        layers: b.layers,
        ..lp
    })
    &&& b.layers@.len() == lp.layers@.len()
    &&& forall|l: int|
        0 <= l < lp.layers@.len() && l != n ==> #[trigger] b.layers@[l] == lp.layers@[l]
    &&& b.layers@[n] == (Layer { env: b.layers@[n].env, ..lp.layers@[n] })
    &&& b.layers@[n].env@ == audio::picture(
        audio::silence(2 * sh.size.max_frames),
        lp.layers@[n].len as int,
    )
}

/// What is said of a press that begins a recording.
pub open spec fn press_said(sh: Shared, li: int) -> Said {
    let lp = sh.loops@[li];
    let n = lp.body.n_layers;
    if lp.habit.level_arm {
        Said::NowListening { li: li as usize }
    } else if begin_at(sh, li) is Some {
        Said::StartsOnGrid {
            li: li as usize,
            wait: (begin_at(sh, li).unwrap_or(0) - sh.now()) as i64,
        }
    } else if lp.habit.revox {
        Said::OverTape { li: li as usize }
    } else if stamp::one_round(lp, lp.next.one_pass) && n > 0 {
        Said::OnePass { li: li as usize, layer: (n + 1) as usize }
    } else if n == 0 {
        Said::FirstTake { li: li as usize }
    } else {
        Said::Overdubbing { li: li as usize, layer: (n + 1) as usize }
    }
}

/// A press that begins a recording: refused, or the layer it will write is
/// silenced and the loop listens or waits.
pub open spec fn begin_step(pre: Shared, li: int, late: i64, post: Shared, r: Said) -> bool {
    let lp = pre.loops@[li];
    match press_refused(pre, li) {
        Some(why) => post == pre && r == why,
        None => {
            &&& post.audio() == pre.audio_with(
                li,
                lp.body.n_layers as int,
                audio::silence(2 * pre.size.max_frames),
            )
            &&& finish::others_kept(pre, li, post)
            &&& pressed(pre, li, late, post.loops@[li])
            &&& post == (Shared { arena: post.arena, loops: post.loops, ..pre })
            &&& r == press_said(pre, li)
        },
    }
}

proof fn pressed_sound(sh: Shared, li: int, late: i64, mid: Loop, b: Loop)
    requires
        sh.wf(),
        0 <= li < sh.size.n_loops,
        shared::sound(mid, sh.size.max_layers, sh.size.max_frames),
        frame::safe(2 * late),
        frame::maybe_near(press_plan(sh, li).request_at),
        mid.body == sh.loops@[li].body,
        mid.take == sh.loops@[li].take,
        mid.next == sh.loops@[li].next,
        b.state == mid.state || b.state == Phase::Armed,
        b == (Loop {
            state: b.state,
            body: Body { redo_to: mid.body.n_layers, ..mid.body },
            take: Progress { started_late: b.take.started_late, ..mid.take },
            next: press_plan(sh, li),
            ..mid
        }),
        b.take.started_late == late || b.take.started_late == 0,
    ensures
        shared::sound(b, sh.size.max_layers, sh.size.max_frames),
{
    reveal(shared::sound);
    reveal(Loop::wf);
}

/// Begin a recording.
pub fn begin(sh: &mut Shared, li: usize, late: i64) -> (r: Said)
    requires
        old(sh).wf(),
        li < old(sh).size.n_loops,
        frame::safe(2 * late),
    ensures
        final(sh).wf(),
        begin_step(*old(sh), li as int, late, *final(sh), r),
{
    let ghost pre = *sh;
    let ghost a = sh.loops@[li as int];
    assert(sh.loop_ok(a));
    proof {
        shared::sized(a, sh.size.max_layers, sh.size.max_frames);
    }
    if let Some(why) = guards::busy_elsewhere(sh, li) {
        return why;
    }
    if let Some(why) = guards::not_writable(&sh.loops[li], li) {
        return why;
    }
    let n: usize = sh.loops[li].body.n_layers;
    if n >= sh.size.max_layers {
        return Said::Ceiling { li, max_layers: sh.size.max_layers };
    }
    let now: i64 = sh.clock.out_frames as i64;
    let quant = sh.loops[li].habit.quant;
    let listens = sh.loops[li].habit.level_arm;
    let tape = sh.loops[li].habit.revox;
    let one_pass = (sh.loops[li].next.is_one_pass() || sh.loops[li].body.threaded) && n > 0;
    let at: Option<i64> = if quant && n == 0 {
        sh.next_boundary(now)
    } else {
        None
    };
    sh.zero_layer(li, n);
    let ghost zeroed = *sh;
    sh.rebuild_env(li, n);
    let ghost mid = *sh;
    assert(mid.audio() =~= zeroed.audio());
    assert(mid.loop_ok(mid.loops@[li as int]));
    let mut next: NextTake = sh.loops[li].next;
    if listens {
        next.listen();
    } else {
        next.set(
            ARMED,
            match at {
                Some(t) => t,
                None => NEVER,
            },
        );
    }
    let lp = &mut sh.loops[li];
    lp.body.redo_to = n;
    lp.take.started_late = if listens {
        0
    } else {
        late
    };
    lp.next = next;
    if listens {
        lp.enter(Phase::Armed);
    }
    proof {
        let b = sh.loops@[li as int];
        pressed_sound(pre, li as int, late, mid.loops@[li as int], b);
        shared::loop_exchanged(mid, *sh, li as int, b);
        assert(sh.audio() =~= zeroed.audio());
    }
    if listens {
        return Said::NowListening { li };
    }
    if let Some(t) = at {
        return Said::StartsOnGrid { li, wait: t - now };
    }
    if tape {
        Said::OverTape { li }
    } else if one_pass {
        Said::OnePass { li, layer: n + 1 }
    } else if n == 0 {
        Said::FirstTake { li }
    } else {
        Said::Overdubbing { li, layer: n + 1 }
    }
}

/// What is said of a close.
pub open spec fn closing_said(r: Closed, li: int) -> Said {
    match r {
        Closed::Said(s) => s,
        Closed::Filed(s) => s,
        Closed::Draining => Said::Draining { li: li as usize },
    }
}

fn said_of(r: Closed, li: usize) -> (s: Said)
    ensures
        s == closing_said(r, li as int),
{
    match r {
        Closed::Said(s) => s,
        Closed::Filed(s) => s,
        Closed::Draining => Said::Draining { li },
    }
}

/// A loop that has stopped listening: it is what it was before.
pub open spec fn disarmed(lp: Loop) -> Loop {
    Loop { state: lp.resting(), next: loop_state::no_plan(), ..lp }
}

/// The press that closes a take, so long ago.
pub open spec fn close_press(sh: Shared, late: i64, from: Caller) -> Filed {
    commit::press_of((sh.now() - num::larger(late as int, 0)) as i64, late, from)
}

/// The press: it ends a multiply, closes a take, takes an arm back, or
/// begins a recording.
pub open spec fn press_step(
    pre: Shared,
    li: int,
    late: i64,
    from: Caller,
    clock_ms: u64,
    post: Shared,
    r: Said,
) -> bool {
    let lp = pre.loops@[li];
    match lp.state {
        Phase::Multiply => exists|c: Closed| #[trigger]
            multiply::end_step(pre, li, from, clock_ms, post, c) && r == closing_said(c, li),
        Phase::First | Phase::Overdub => exists|c: Closed| #[trigger]
            commit::closed_off(
                pre,
                li,
                lp,
                close_press(pre, late, from),
                clock_ms,
                post,
                c,
            ) && r == closing_said(c, li),
        Phase::Armed => {
            &&& pre.but_loop(li, disarmed(lp), post)
            &&& r == (Said::StoppedListening { li: li as usize })
        },
        _ => begin_step(pre, li, late, post, r),
    }
}

proof fn disarmed_sound(lp: Loop, max_layers: usize, max_frames: usize)
    requires
        shared::sound(lp, max_layers, max_frames),
    ensures
        shared::sound(disarmed(lp), max_layers, max_frames),
{
    reveal(shared::sound);
    reveal(Loop::wf);
}

/// Take an arm back.
pub fn disarm(sh: &mut Shared, li: usize)
    requires
        old(sh).wf(),
        li < old(sh).size.n_loops,
    ensures
        final(sh).wf(),
        old(sh).but_loop(li as int, disarmed(old(sh).loops@[li as int]), *final(sh)),
{
    assert(sh.loop_ok(sh.loops@[li as int]));
    let lp = &mut sh.loops[li];
    lp.disarm();
    proof {
        disarmed_sound(old(sh).loops@[li as int], sh.size.max_layers, sh.size.max_frames);
        shared::loop_exchanged(*old(sh), *sh, li as int, sh.loops@[li as int]);
    }
}

/// Press record on a loop.
pub fn press(sh: &mut Shared, li: usize, late: i64, from: Caller, clock_ms: u64) -> (r: Said)
    requires
        old(sh).wf(),
        li < old(sh).size.n_loops,
        frame::near(late),
    ensures
        final(sh).wf(),
        press_step(*old(sh), li as int, late, from, clock_ms, *final(sh), r),
{
    match sh.loops[li].phase() {
        Phase::Multiply => {
            let c = multiply::multiply_end(sh, li, from, clock_ms);
            assert(multiply::end_step(*old(sh), li as int, from, clock_ms, *sh, c));
            said_of(c, li)
        },
        Phase::First | Phase::Overdub => {
            let closed_at: i64 = sh.clock.out_frames as i64 - num::max_signed(late, 0);
            let c = commit::close_take(sh, li, closed_at, late, from, clock_ms);
            assert(commit::closed_off(
                *old(sh),
                li as int,
                old(sh).loops@[li as int],
                close_press(*old(sh), late, from),
                clock_ms,
                *sh,
                c,
            ));
            said_of(c, li)
        },
        Phase::Armed => {
            disarm(sh, li);
            Said::StoppedListening { li }
        },
        _ => begin(sh, li, late),
    }
}

/// The multiply press: it ends a multiply or begins one, where the loop is
/// whole, no take is on the way, no other loop has the input, and it plays
/// plainly.
pub open spec fn multiply_step(
    pre: Shared,
    li: int,
    from: Caller,
    clock_ms: u64,
    post: Shared,
    r: Said,
) -> bool {
    let lp = pre.loops@[li];
    if lp.windowed() is Some {
        post == pre && r == (Said::WindowFirst { li: li as usize })
    } else if lp.state == Phase::Multiply {
        exists|c: Closed| #[trigger]
            multiply::end_step(pre, li, from, clock_ms, post, c) && r == closing_said(c, li)
    } else if lp.state == Phase::First || lp.state == Phase::Overdub {
        post == pre && r == (Said::FinishTakeFirst { li: li as usize })
    } else {
        match multiply_refused(pre, li) {
            Some(why) => post == pre && r == why,
            None => multiply::start_step(pre, li, post, r),
        }
    }
}

/// Why a multiply does not begin, or nothing.
pub open spec fn multiply_refused(sh: Shared, li: int) -> Option<Said> {
    let lp = sh.loops@[li];
    match guards::in_hand(lp, li) {
        Some(why) => Some(why),
        None => match guards::taken(sh, li) {
            Some(why) => Some(why),
            None => guards::unplain(lp, li),
        },
    }
}

/// Press multiply on a loop.
pub fn press_multiply(sh: &mut Shared, li: usize, from: Caller, clock_ms: u64) -> (r: Said)
    requires
        old(sh).wf(),
        li < old(sh).size.n_loops,
    ensures
        final(sh).wf(),
        multiply_step(*old(sh), li as int, from, clock_ms, *final(sh), r),
{
    if sh.loops[li].window().is_some() {
        return Said::WindowFirst { li };
    }
    match sh.loops[li].phase() {
        Phase::Multiply => {
            let c = multiply::multiply_end(sh, li, from, clock_ms);
            assert(multiply::end_step(*old(sh), li as int, from, clock_ms, *sh, c));
            return said_of(c, li);
        },
        Phase::First | Phase::Overdub => {
            return Said::FinishTakeFirst { li };
        },
        _ => {},
    }
    if let Some(why) = guards::still_recording(&sh.loops[li], li) {
        return why;
    }
    if let Some(why) = guards::busy_elsewhere(sh, li) {
        return why;
    }
    if let Some(why) = guards::not_plain(&sh.loops[li], li) {
        return why;
    }
    multiply::multiply_start(sh, li)
}

/// The frame a one-shot fires at: on the grid where the loop follows it, and
/// else at once.
pub open spec fn fire_at(sh: Shared, li: int) -> Option<int> {
    if sh.loops@[li].habit.quant {
        sh.boundary(sh.now())
    } else {
        None
    }
}

/// Firing a one-shot.
pub open spec fn fire_step(pre: Shared, li: int, post: Shared, r: Said) -> bool {
    let lp = pre.loops@[li];
    let at = fire_at(pre, li);
    if lp.body.loop_len == 0 {
        post == pre && r == (Said::NothingToFire { li: li as usize })
    } else if !lp.play.one_shot {
        post == pre && r == (Said::NotOneShot { li: li as usize })
    } else {
        &&& pre.but_loop(
            li,
            Loop {
                next: NextTake {
                    request: FIRE,
                    request_at: match at {
                        Some(t) => t as i64,
                        None => NEVER,
                    },
                    ..lp.next
                },
                ..lp
            },
            post,
        )
        &&& r == (match at {
            Some(t) => Said::FiresOnGrid { li: li as usize, wait: (t - pre.now()) as i64 },
            None => Said::Fires { li: li as usize },
        })
    }
}

/// Fire a one-shot.
pub fn fire(sh: &mut Shared, li: usize) -> (r: Said)
    requires
        old(sh).wf(),
        li < old(sh).size.n_loops,
    ensures
        final(sh).wf(),
        fire_step(*old(sh), li as int, *final(sh), r),
{
    let ghost a = sh.loops@[li as int];
    assert(sh.loop_ok(a));
    if sh.loops[li].body.loop_len == 0 {
        return Said::NothingToFire { li };
    }
    if !sh.loops[li].play.one_shot {
        return Said::NotOneShot { li };
    }
    let now: i64 = sh.clock.out_frames as i64;
    let at: Option<i64> = if sh.loops[li].habit.quant {
        sh.next_boundary(now)
    } else {
        None
    };
    let mut next: NextTake = sh.loops[li].next;
    next.set(
        FIRE,
        match at {
            Some(t) => t,
            None => NEVER,
        },
    );
    let lp = &mut sh.loops[li];
    lp.next = next;
    proof {
        cycle::planned_sound(a, next, sh.size.max_layers, sh.size.max_frames);
        shared::loop_exchanged(*old(sh), *sh, li as int, sh.loops@[li as int]);
    }
    match at {
        Some(t) => Said::FiresOnGrid { li, wait: t - now },
        None => Said::Fires { li },
    }
}

/// A press that begins a recording asks for it on the next buffer, or on the
/// next line of the grid where it is the first of a loop that follows it, and
/// notes how late the press was. A loop that waits for a sound listens for it
/// and is not late. Either way the layer it will write is silent, the layers
/// beneath are as they were, and nothing above is left to redo.
pub proof fn a_press_asks_for_a_recording(
    pre: Shared,
    li: int,
    late: i64,
    post: Shared,
    r: Said,
    l: int,
    i: int,
)
    requires
        pre.wf(),
        0 <= li < pre.size.n_loops,
        pre.loops@[li].state == Phase::Idle || pre.loops@[li].state == Phase::Playing,
        forall|j: int|
            0 <= j < pre.size.n_loops ==> (#[trigger] pre.loops@[j]).state == Phase::Idle
                || pre.loops@[j].state == Phase::Playing,
        pre.loops@[li].is_plain(),
        pre.loops@[li].body.n_layers < pre.size.max_layers,
        begin_step(pre, li, late, post, r),
        0 <= l < pre.size.max_layers,
        0 <= i < 2 * pre.size.max_frames,
    ensures
        ({
            let a = pre.loops@[li];
            let b = post.loops@[li];
            let n = a.body.n_layers;
            &&& b.body.n_layers == n
            &&& b.body.redo_to == n
            &&& b.body.loop_len == a.body.loop_len
            &&& b.body.origin == a.body.origin
            &&& l == n ==> post.audio()[li][l][i] == 0
            &&& l != n ==> post.audio()[li][l][i] == pre.audio()[li][l][i]
            &&& if a.habit.level_arm {
                &&& b.state == Phase::Armed
                &&& b.next.request == a.next.request
                &&& b.next.request_at == NEVER
                &&& b.next.arm_from == NEVER
                &&& b.take.started_late == 0
            } else {
                &&& b.state == a.state
                &&& b.next.request == ARMED
                &&& b.take.started_late == late
                &&& b.next.arm_from == a.next.arm_from
                &&& if a.habit.quant && n == 0 && pre.boundary(pre.now()) is Some {
                    b.next.request_at == pre.boundary(pre.now()).unwrap() as i64
                } else {
                    b.next.request_at == NEVER
                }
            }
            &&& b.next.one_pass == a.next.one_pass
        }),
{
    guards::the_input_is_refused_while_another_has_it(pre, li, 0);
    if let Some(why) = guards::taken(pre, li) {
        if let Said::InputHeld { other, .. } = why {
            assert(pre.loops@[other as int].state == Phase::Idle || pre.loops@[other as int].state
                == Phase::Playing);
        }
        assert(false);
    }
    assert(pre.arena@[li]@.len() == pre.size.max_layers);
}

/// A press on a loop that records closes the take as of when it was made: as
/// long ago as it was late, and never in the future.
pub proof fn a_press_closes_as_of_when_it_was_made(
    pre: Shared,
    li: int,
    late: i64,
    from: Caller,
    clock_ms: u64,
    post: Shared,
    r: Said,
)
    requires
        pre.wf(),
        0 <= li < pre.size.n_loops,
        press_step(pre, li, late, from, clock_ms, post, r),
        pre.loops@[li].state == Phase::Overdub || (pre.loops@[li].state == Phase::First
            && !pre.loops@[li].habit.quant),
        frame::near(late),
    ensures
        r is Draining,
        post.loops@[li].state == Phase::Playing,
        post.loops@[li].body == pre.loops@[li].body,
        post.audio() == pre.audio(),
        post.loops@[li].closing matches Some(Closing::Draining(t)) && {
            &&& t.was == pre.loops@[li].state
            &&& t.quantised_len is None
            &&& t.late == late
            &&& late >= 0 ==> t.closed_at == pre.clock.out_frames - late
            &&& late < 0 ==> t.closed_at == pre.clock.out_frames
            &&& t.from == from
        },
{
}

/// A press on a loop that listens takes the arm back: the loop is what it was,
/// and nothing is planned for it.
pub proof fn a_press_takes_an_arm_back(
    pre: Shared,
    li: int,
    late: i64,
    from: Caller,
    clock_ms: u64,
    post: Shared,
    r: Said,
)
    requires
        0 <= li < pre.loops@.len(),
        press_step(pre, li, late, from, clock_ms, post, r),
        pre.loops@[li].state == Phase::Armed,
    ensures
        post.loops@[li].state == (if pre.loops@[li].body.n_layers > 0
            || pre.loops@[li].body.threaded {
            Phase::Playing
        } else {
            Phase::Idle
        }),
        post.loops@[li].next.empty(),
        post.loops@[li].body == pre.loops@[li].body,
        post.loops@[li].layers == pre.loops@[li].layers,
        post.audio() == pre.audio(),
{
}

/// A one-shot that has a length fires on the next buffer, or on the next line
/// of the grid where it follows it; nothing else fires.
pub proof fn only_a_one_shot_fires(pre: Shared, li: int, post: Shared, r: Said)
    requires
        0 <= li < pre.loops@.len(),
        fire_step(pre, li, post, r),
    ensures
        pre.loops@[li].body.loop_len == 0 || !pre.loops@[li].play.one_shot ==> post == pre,
        pre.loops@[li].body.loop_len > 0 && pre.loops@[li].play.one_shot ==> {
            let b = post.loops@[li];
            &&& b.next.request == FIRE
            &&& b.next.one_pass == pre.loops@[li].next.one_pass
            &&& b.next.arm_from == pre.loops@[li].next.arm_from
            &&& pre.loops@[li].habit.quant && pre.boundary(pre.now()) is Some
                ==> b.next.request_at == pre.boundary(pre.now()).unwrap() as i64
            &&& !pre.loops@[li].habit.quant || pre.boundary(pre.now()) is None
                ==> b.next.request_at == NEVER
        },
{
}

} // verus!
