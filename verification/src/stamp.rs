//! What happens at the start of a buffer: every move that falls due in it
//! takes place, at its own frame.

use crate::bits;
use crate::bits::{MINUS_ONE_WIDE, ONE_WIDE};
use crate::frame;
use crate::loop_state::{Body, Edit, Loop, Play, Progress, ENV_BUCKETS};
use crate::next_take::{Taken, ARMED, FIRE, NEVER, PLAYING};
use crate::num;
use crate::phase;
use crate::phase::Phase;
use crate::shared;
use crate::shared::{Clock, Shared};
use crate::wide;
use vstd::prelude::*;

verus! {

/// The frame a move takes place on: the one it was asked for, or the start
/// of the buffer where that is past or none was named.
pub open spec fn stamp_frame(asked: i64, base: i64) -> i64 {
    if asked == NEVER || asked < base {
        base
    } else {
        asked
    }
}

/// How late a take began: after the frame it is dated back to, where there
/// is one.
pub open spec fn late_by(arm_from: i64, at: i64, was: i64) -> i64 {
    if arm_from == NEVER {
        was
    } else {
        num::larger(at - arm_from, 0) as i64
    }
}

/// The frame a take that begins at `at` closes itself on: a length later
/// where it is to be that long.
pub open spec fn closes_at(at: i64, len: usize, by_itself: bool) -> i64 {
    if by_itself && len > 0 {
        (at + len) as i64
    } else {
        NEVER
    }
}

/// Where a one-shot's play head starts: at the top, which backwards is the
/// last position.
pub open spec fn top_of(speed: u64, len: usize) -> u64 {
    if bits::below_wide(speed, 0) {
        wide::of_whole(len - 1)
    } else {
        0
    }
}

/// A take that has nothing yet.
pub open spec fn restarted(p: Progress, late: i64) -> Progress {
    Progress { reached: 0, rec_reached: 0, started_late: late, ..p }
}

/// A loop in which a recording has begun at frame `at`: the first take of
/// one with no layers, an overdub of any other, and nothing at the ceiling.
#[verifier::opaque]
pub open spec fn begun(pre: Loop, max_layers: usize, t: Taken, at: i64, post: Loop) -> bool {
    let late = late_by(t.arm_from, at, pre.take.started_late);
    if pre.body.n_layers >= max_layers {
        post == (Loop { take: restarted(pre.take, late), ..pre })
    } else if pre.body.n_layers == 0 {
        first_begun(pre, at, late, post)
    } else {
        overdub_begun(pre, at, late, t.one_pass, post)
    }
}

/// A loop whose first take begins at frame `at`. A loop that has a length
/// closes the take itself when it is that long.
#[verifier::opaque]
pub open spec fn first_begun(pre: Loop, at: i64, late: i64, post: Loop) -> bool {
    &&& post.rec_env@ == Seq::new(ENV_BUCKETS as nat, |i: int| 0u32)
    &&& post == (Loop {
        rec_env: post.rec_env,
        state: Phase::First,
        body: Body { origin: at, threaded: false, ..pre.body },
        take: Progress {
            rec_from: at,
            rec_len: pre.body.loop_len,
            close_at: closes_at(at, pre.body.loop_len, true),
            ..restarted(pre.take, late)
        },
        ..pre
    })
}

/// Whether an overdub closes itself: one planned as one pass does, and so
/// does the first on an empty tape, which is as long as the tape. On a loop
/// that records over itself the tape comes round until it is stopped.
pub open spec fn one_round(pre: Loop, one_pass: bool) -> bool {
    one_pass || (pre.body.threaded && !pre.habit.revox)
}

/// A loop whose overdub begins at frame `at`. Where it closes itself it does
/// a loop length on.
#[verifier::opaque]
pub open spec fn overdub_begun(
    pre: Loop,
    at: i64,
    late: i64,
    one_pass: bool,
    post: Loop,
) -> bool {
    &&& post.rec_env@ == Seq::new(ENV_BUCKETS as nat, |i: int| 0u32)
    &&& post == (Loop {
        rec_env: post.rec_env,
        state: Phase::Overdub,
        body: Body { threaded: false, ..pre.body },
        take: Progress {
            rec_from: pre.body.origin,
            close_at: closes_at(at, pre.body.loop_len, one_round(pre, one_pass)),
            ..restarted(pre.take, late)
        },
        ..pre
    })
}

/// A loop that fires at frame `at`: one pass from the top, audible.
pub open spec fn fired(pre: Loop, at: i64) -> Loop {
    Loop {
        body: Body { origin: at, ..pre.body },
        play: Play {
            warp: top_of(pre.play.speed, pre.body.loop_len),
            shot_end: (at + pre.pass_time(pre.body.loop_len as int)) as i64,
            muted: false,
            ..pre.play
        },
        ..pre
    }
}

/// A loop to which what was planned has happened at frame `at`.
#[verifier::opaque]
pub open spec fn carried_out(
    pre: Loop,
    max_layers: usize,
    t: Taken,
    at: i64,
    post: Loop,
) -> bool {
    if t.phase == ARMED {
        begun(pre, max_layers, t, at, post)
    } else if t.phase == PLAYING {
        post == (Loop { state: Phase::Playing, ..pre })
    } else if t.phase == FIRE && pre.body.loop_len > 0 {
        post == fired(pre, at)
    } else {
        post == pre
    }
}

/// A loop after the move that falls due before `before` has taken place, in
/// a buffer that starts at `base`.
pub open spec fn stamped(
    pre: Loop,
    max_layers: usize,
    base: i64,
    before: i64,
    post: Loop,
) -> bool {
    if !pre.next.due(before) {
        post == pre
    } else {
        let t = pre.next.handed();
        carried_out(
            Loop { next: pre.next.left(), ..pre },
            max_layers,
            t,
            stamp_frame(t.at, base),
            post,
        )
    }
}

/// A window and rotation that were held, live.
pub open spec fn applied(e: Edit) -> Edit {
    if e.pend_set {
        Edit {
            win_in: e.pend_in,
            win_out: e.pend_out,
            rot: e.pend_rot,
            pend_set: false,
            edit_restart: 0,
            ..e
        }
    } else {
        Edit { edit_restart: 0, ..e }
    }
}

/// A loop after an edit that has settled before `before` has been applied:
/// the window and rotation that were held are live, and the pass starts over
/// at the frame it was due.
pub open spec fn settled(pre: Loop, before: i64) -> Loop {
    if pre.edit.edit_restart == 0 || before <= pre.edit.edit_restart {
        pre
    } else {
        Loop {
            edit: applied(pre.edit),
            body: Body { origin: pre.edit.edit_restart, ..pre.body },
            play: Play { warp: 0, ..pre.play },
            ..pre
        }
    }
}

/// A loop after everything that falls due before `before` has happened.
pub open spec fn turned_over(
    pre: Loop,
    max_layers: usize,
    base: i64,
    before: i64,
    post: Loop,
) -> bool {
    exists|mid: Loop| #[trigger]
        stamped(pre, max_layers, base, before, mid) && post == settled(mid, before)
}

fn stamp_of(asked: i64, base: i64) -> (r: i64)
    ensures
        r == stamp_frame(asked, base),
{
    if asked == NEVER || asked < base {
        base
    } else {
        asked
    }
}

fn lateness(arm_from: i64, at: i64, was: i64) -> (r: i64)
    requires
        frame::maybe_near(arm_from),
        frame::near(at),
        0 <= at,
        frame::in_range(was),
    ensures
        r == late_by(arm_from, at, was),
        frame::in_range(r),
{
    if arm_from == NEVER {
        was
    } else {
        num::max_signed(at - arm_from, 0)
    }
}

fn closing_frame(at: i64, len: usize, by_itself: bool) -> (r: i64)
    requires
        frame::near(at),
        0 <= at,
        frame::short(len),
    ensures
        r == closes_at(at, len, by_itself),
        frame::coming(r),
{
    if by_itself && len > 0 {
        at + len as i64
    } else {
        NEVER
    }
}

fn top(speed: u64, len: usize) -> (r: u64)
    requires
        1 <= len,
        frame::short(len),
    ensures
        r == top_of(speed, len),
{
    if bits::less_wide(speed, 0) {
        wide::whole(len as u64 - 1)
    } else {
        0
    }
}

proof fn first_wf(pre: Loop, at: i64, late: i64, post: Loop)
    requires
        pre.wf(),
        frame::near(at),
        0 <= at,
        frame::safe(2 * late),
        first_begun(pre, at, late, post),
    ensures
        post.wf(),
{
    reveal(Loop::wf);
    reveal(first_begun);
}

proof fn overdub_wf(pre: Loop, at: i64, late: i64, one_pass: bool, post: Loop)
    requires
        pre.wf(),
        frame::near(at),
        0 <= at,
        frame::safe(2 * late),
        overdub_begun(pre, at, late, one_pass, post),
    ensures
        post.wf(),
{
    reveal(Loop::wf);
    reveal(overdub_begun);
}

proof fn refused_wf(pre: Loop, late: i64)
    requires
        pre.wf(),
        frame::safe(2 * late),
    ensures
        (Loop { take: restarted(pre.take, late), ..pre }).wf(),
{
    reveal(Loop::wf);
}

proof fn entered_wf(pre: Loop, to: Phase)
    requires
        pre.wf(),
    ensures
        (Loop { state: to, ..pre }).wf(),
{
    reveal(Loop::wf);
}

fn begin_first(lp: &mut Loop, at: i64, late: i64)
    requires
        old(lp).wf(),
        frame::near(at),
        0 <= at,
        frame::safe(2 * late),
    ensures
        final(lp).wf(),
        first_begun(*old(lp), at, late, *final(lp)),
{
    assert(frame::short(lp.body.loop_len)) by {
        reveal(Loop::wf);
    }
    let close: i64 = closing_frame(at, lp.body.loop_len, true);
    lp.take.reached = 0;
    lp.take.rec_reached = 0;
    lp.take.started_late = late;
    lp.body.origin = at;
    lp.take.rec_from = at;
    lp.clear_rec_env();
    lp.body.threaded = false;
    lp.enter(Phase::First);
    lp.take.rec_len = lp.body.loop_len;
    lp.take.close_at = close;
    proof {
        reveal(first_begun);
        first_wf(*old(lp), at, late, *lp);
    }
}

fn begin_overdub(lp: &mut Loop, at: i64, late: i64, one_pass: bool)
    requires
        old(lp).wf(),
        frame::near(at),
        0 <= at,
        frame::safe(2 * late),
    ensures
        final(lp).wf(),
        overdub_begun(*old(lp), at, late, one_pass, *final(lp)),
{
    assert(frame::short(lp.body.loop_len)) by {
        reveal(Loop::wf);
    }
    let by_itself = one_pass || (lp.body.threaded && !lp.habit.revox);
    let close: i64 = closing_frame(at, lp.body.loop_len, by_itself);
    lp.take.reached = 0;
    lp.take.rec_reached = 0;
    lp.take.started_late = late;
    lp.take.rec_from = lp.body.origin;
    lp.clear_rec_env();
    lp.body.threaded = false;
    lp.take.close_at = close;
    lp.enter(Phase::Overdub);
    proof {
        reveal(overdub_begun);
        overdub_wf(*old(lp), at, late, one_pass, *lp);
    }
}

fn begin(lp: &mut Loop, max_layers: usize, t: Taken, at: i64)
    requires
        old(lp).wf(),
        frame::near(at),
        0 <= at,
        frame::maybe_near(t.arm_from),
    ensures
        final(lp).wf(),
        begun(*old(lp), max_layers, t, at, *final(lp)),
{
    proof {
        reveal(begun);
    }
    assert(frame::safe(2 * lp.take.started_late)) by {
        reveal(Loop::wf);
    }
    let late: i64 = lateness(t.arm_from, at, lp.take.started_late);
    if lp.body.n_layers >= max_layers {
        proof {
            refused_wf(*lp, late);
        }
        lp.take.reached = 0;
        lp.take.rec_reached = 0;
        lp.take.started_late = late;
        return;
    }
    if lp.body.n_layers == 0 {
        begin_first(lp, at, late);
        return;
    }
    begin_overdub(lp, at, late, t.one_pass);
}

proof fn fired_wf(pre: Loop, at: i64)
    requires
        pre.wf(),
        frame::near(at),
        0 <= at,
    ensures
        fired(pre, at).wf(),
{
    reveal(Loop::wf);
}

fn fire(lp: &mut Loop, at: i64)
    requires
        old(lp).wf(),
        frame::near(at),
        0 <= at,
        old(lp).body.loop_len > 0,
    ensures
        final(lp).wf(),
        *final(lp) == fired(*old(lp), at),
{
    assert(frame::short(lp.body.loop_len)) by {
        reveal(Loop::wf);
    }
    let warp: u64 = top(lp.play.speed, lp.body.loop_len);
    let pass: i64 = lp.pass_frames(lp.body.loop_len);
    lp.body.origin = at;
    lp.play.warp = warp;
    lp.play.shot_end = at + pass;
    lp.play.muted = false;
    proof {
        fired_wf(*old(lp), at);
    }
}

/// Let what was planned happen at frame `at`.
fn carry_out(lp: &mut Loop, max_layers: usize, t: Taken, at: i64)
    requires
        old(lp).wf(),
        frame::near(at),
        0 <= at,
        frame::maybe_near(t.arm_from),
    ensures
        final(lp).wf(),
        carried_out(*old(lp), max_layers, t, at, *final(lp)),
{
    proof {
        reveal(carried_out);
        entered_wf(*lp, Phase::Playing);
    }
    if t.phase == ARMED {
        begin(lp, max_layers, t, at);
        return;
    }
    if t.phase == PLAYING {
        lp.enter(Phase::Playing);
        return;
    }
    if t.phase == FIRE && lp.body.loop_len > 0 {
        fire(lp, at);
    }
}

proof fn taken_wf(pre: Loop)
    requires
        pre.wf(),
    ensures
        (Loop { next: pre.next.left(), ..pre }).wf(),
{
    reveal(Loop::wf);
}

/// Let the move that falls due before `before` take place.
pub fn stamp_loop(lp: &mut Loop, max_layers: usize, base: i64, before: i64)
    requires
        old(lp).wf(),
        frame::shortly(base),
        0 <= base,
    ensures
        final(lp).wf(),
        stamped(*old(lp), max_layers, base, before, *final(lp)),
{
    let mut next = lp.next;
    let t = match next.take(before) {
        None => {
            return;
        },
        Some(t) => t,
    };
    lp.next = next;
    let at: i64 = stamp_of(t.at, base);
    proof {
        taken_wf(*old(lp));
        assert(frame::maybe_near(t.at) && frame::maybe_near(t.arm_from)) by {
            reveal(Loop::wf);
        }
    }
    carry_out(lp, max_layers, t, at);
}

proof fn settled_wf(pre: Loop, before: i64)
    requires
        pre.wf(),
    ensures
        settled(pre, before).wf(),
{
    reveal(Loop::wf);
}

/// Apply an edit that has settled before `before`.
pub fn settle_edit(lp: &mut Loop, before: i64)
    requires
        old(lp).wf(),
    ensures
        final(lp).wf(),
        *final(lp) == settled(*old(lp), before),
{
    proof {
        settled_wf(*lp, before);
    }
    let at: i64 = lp.edit.edit_restart;
    if at == 0 || before <= at {
        return;
    }
    let mut e = lp.edit;
    if e.pend_set {
        e.win_in = e.pend_in;
        e.win_out = e.pend_out;
        e.rot = e.pend_rot;
        e.pend_set = false;
    }
    e.edit_restart = 0;
    lp.edit = e;
    lp.body.origin = at;
    lp.play.warp = 0;
}

/// A move leaves a loop's layers and length alone.
proof fn stamped_sound(
    pre: Loop,
    max_layers: usize,
    max_frames: usize,
    base: i64,
    before: i64,
    post: Loop,
)
    requires
        shared::sound(pre, max_layers, max_frames),
        post.wf(),
        stamped(pre, max_layers, base, before, post),
    ensures
        shared::sound(post, max_layers, max_frames),
{
    reveal(shared::sound);
    reveal(carried_out);
    reveal(begun);
    reveal(first_begun);
    reveal(overdub_begun);
}

proof fn settled_sound(pre: Loop, before: i64, max_layers: usize, max_frames: usize)
    requires
        shared::sound(pre, max_layers, max_frames),
    ensures
        shared::sound(settled(pre, before), max_layers, max_frames),
{
    reveal(shared::sound);
    settled_wf(pre, before);
}

/// Let what falls due for one loop in a buffer of `frames` from `base`
/// happen.
pub fn stamp(sh: &mut Shared, li: usize, base: usize, frames: usize)
    requires
        old(sh).wf(),
        li < old(sh).size.n_loops,
        frame::safe(16 * (base + frames)),
    ensures
        final(sh).wf(),
        stamped(
            old(sh).loops@[li as int],
            old(sh).size.max_layers,
            base as i64,
            (base + frames) as i64,
            final(sh).loops@[li as int],
        ),
        old(sh).but_loop(li as int, final(sh).loops@[li as int], *final(sh)),
{
    assert(sh.loop_ok(sh.loops@[li as int]));
    assert(sh.loops@[li as int].wf()) by {
        reveal(shared::sound);
    }
    let max_layers: usize = sh.size.max_layers;
    let lp = &mut sh.loops[li];
    stamp_loop(lp, max_layers, base as i64, (base + frames) as i64);
    proof {
        stamped_sound(
            old(sh).loops@[li as int],
            max_layers,
            sh.size.max_frames,
            base as i64,
            (base + frames) as i64,
            sh.loops@[li as int],
        );
        shared::one_loop_changed(*old(sh), *sh, li as int);
    }
}

/// Let what falls due for every loop in a buffer of `frames` from now
/// happen: first the moves, then the edits that have settled.
pub fn output(sh: &mut Shared, frames: usize)
    requires
        old(sh).wf(),
        frame::safe(16 * (old(sh).clock.out_frames + frames)),
        frames <= u32::MAX,
    ensures
        final(sh).wf(),
        final(sh).loops@.len() == old(sh).loops@.len(),
        forall|i: int|
            0 <= i < old(sh).size.n_loops ==> turned_over(
                #[trigger] old(sh).loops@[i],
                old(sh).size.max_layers,
                old(sh).clock.out_frames as i64,
                (old(sh).clock.out_frames + frames) as i64,
                final(sh).loops@[i],
            ),
        *final(sh) == (Shared {
            loops: final(sh).loops,
            clock: Clock { buffer_frames: frames as u32, ..old(sh).clock },
            ..*old(sh)
        }),
{
    let base: i64 = sh.clock.out_frames as i64;
    let before: i64 = base + frames as i64;
    let max_layers: usize = sh.size.max_layers;
    let max_frames: usize = sh.size.max_frames;
    turn_loops(&mut sh.loops, max_layers, max_frames, base, before);
    sh.clock.buffer_frames = frames as u32;
    proof {
        assert(sh.loops_ok());
        assert(sh.arena_ok());
        assert(sh.ring_ok());
    }
}

fn turn_loops(
    loops: &mut Vec<Loop>,
    max_layers: usize,
    max_frames: usize,
    base: i64,
    before: i64,
)
    requires
        forall|i: int|
            0 <= i < old(loops)@.len() ==> shared::sound(
                #[trigger] old(loops)@[i],
                max_layers,
                max_frames,
            ),
        frame::shortly(base),
        0 <= base,
    ensures
        final(loops)@.len() == old(loops)@.len(),
        forall|i: int|
            0 <= i < old(loops)@.len() ==> shared::sound(
                #[trigger] final(loops)@[i],
                max_layers,
                max_frames,
            ),
        forall|i: int|
            0 <= i < old(loops)@.len() ==> turned_over(
                #[trigger] old(loops)@[i],
                max_layers,
                base,
                before,
                final(loops)@[i],
            ),
{
    let ghost pre = loops@;
    let n: usize = loops.len();
    let mut li: usize = 0;
    while li < n
        invariant
            n == pre.len(),
            li <= n,
            loops@.len() == n,
            frame::shortly(base),
        0 <= base,
            forall|i: int|
                0 <= i < n ==> shared::sound(#[trigger] loops@[i], max_layers, max_frames),
            forall|i: int| li <= i < n ==> #[trigger] loops@[i] == pre[i],
            forall|i: int|
                0 <= i < li ==> turned_over(
                    #[trigger] pre[i],
                    max_layers,
                    base,
                    before,
                    loops@[i],
                ),
        decreases n - li,
    {
        turn_loop(&mut loops[li], max_layers, max_frames, base, before);
        li = li + 1;
    }
}

fn turn_loop(
    lp: &mut Loop,
    max_layers: usize,
    max_frames: usize,
    base: i64,
    before: i64,
)
    requires
        shared::sound(*old(lp), max_layers, max_frames),
        frame::shortly(base),
        0 <= base,
    ensures
        shared::sound(*final(lp), max_layers, max_frames),
        turned_over(*old(lp), max_layers, base, before, *final(lp)),
{
    assert(lp.wf()) by {
        reveal(shared::sound);
    }
    stamp_loop(lp, max_layers, base, before);
    proof {
        stamped_sound(*old(lp), max_layers, max_frames, base, before, *lp);
        settled_sound(*lp, before, max_layers, max_frames);
    }
    settle_edit(lp, before);
}

/// A first take that waits for a frame begins on it: it is neither early nor
/// late, and the loop has its zero there.
pub proof fn a_take_begins_on_its_frame(
    pre: Loop,
    max_layers: usize,
    base: i64,
    before: i64,
    post: Loop,
)
    requires
        stamped(pre, max_layers, base, before, post),
        pre.next.request == ARMED,
        pre.next.request_at != NEVER,
        base <= pre.next.request_at,
        pre.body.n_layers == 0,
        max_layers > 0,
    ensures
        pre.next.request_at >= before ==> post == pre,
        pre.next.request_at < before ==> post.state == Phase::First && post.take.rec_from
            == pre.next.request_at && post.body.origin == pre.next.request_at,
{
    reveal(carried_out);
    reveal(begun);
    reveal(first_begun);
}

/// A loop that has a length before anything is recorded, whether it is sized
/// and empty or an empty tape, closes its first recording when that is as
/// long.
pub proof fn a_sized_loop_closes_its_first_recording(
    pre: Loop,
    max_layers: usize,
    t: Taken,
    at: i64,
    post: Loop,
)
    requires
        carried_out(pre, max_layers, t, at, post),
        t.phase == ARMED,
        pre.body.n_layers < max_layers,
        pre.body.loop_len > 0,
        at + pre.body.loop_len <= i64::MAX,
        pre.body.n_layers == 0 || (pre.body.threaded && !pre.habit.revox),
    ensures
        post.recording(),
        post.take.close_at == at + pre.body.loop_len,
        !post.body.threaded,
{
    reveal(carried_out);
    reveal(begun);
    reveal(first_begun);
    reveal(overdub_begun);
}

/// What falls due moves a loop as it may go, where it is not recording
/// already and is idle only without layers.
pub proof fn a_stamp_makes_only_legal_moves(
    pre: Loop,
    max_layers: usize,
    base: i64,
    before: i64,
    post: Loop,
)
    requires
        stamped(pre, max_layers, base, before, post),
        !pre.recording(),
        pre.state == Phase::Idle ==> pre.body.n_layers == 0,
    ensures
        post.state == pre.state || phase::may_go(pre.state, post.state),
{
    reveal(carried_out);
    reveal(begun);
    reveal(first_begun);
    reveal(overdub_begun);
}

/// An overdub that was planned as one pass closes itself a loop length after
/// it begins, whatever the loop is; one that was not, on a loop that holds
/// more than an empty tape, goes on until somebody closes it. Either way it
/// leaves where the loop has its zero alone, and is written from there.
pub proof fn an_overdub_of_one_pass_closes_itself(
    pre: Loop,
    max_layers: usize,
    t: Taken,
    at: i64,
    post: Loop,
)
    requires
        carried_out(pre, max_layers, t, at, post),
        t.phase == ARMED,
        0 < pre.body.n_layers < max_layers,
        pre.body.loop_len > 0,
        at + pre.body.loop_len <= i64::MAX,
    ensures
        post.state == Phase::Overdub,
        post.body.origin == pre.body.origin,
        post.body.loop_len == pre.body.loop_len,
        post.body.n_layers == pre.body.n_layers,
        post.take.rec_from == pre.body.origin,
        post.take.reached == 0,
        t.one_pass ==> post.take.close_at == at + pre.body.loop_len,
        !t.one_pass && !pre.body.threaded ==> post.take.close_at == NEVER,
        !t.one_pass && pre.habit.revox ==> post.take.close_at == NEVER,
{
    reveal(carried_out);
    reveal(begun);
    reveal(overdub_begun);
}

/// A take that is dated back is late by as much as it began after the frame it
/// is dated back to, and one that is not keeps what was measured of its press:
/// so the first take of a loop that waited for a sound has its zero, less how
/// late it was, where the sound was heard.
pub proof fn a_take_dated_back_is_late_by_that_much(
    pre: Loop,
    max_layers: usize,
    t: Taken,
    at: i64,
    post: Loop,
)
    requires
        carried_out(pre, max_layers, t, at, post),
        t.phase == ARMED,
        pre.body.n_layers < max_layers,
        frame::near(at),
        frame::maybe_near(t.arm_from),
    ensures
        t.arm_from == NEVER ==> post.take.started_late == pre.take.started_late,
        t.arm_from != NEVER && t.arm_from <= at ==> post.take.started_late == at - t.arm_from,
        t.arm_from != NEVER && t.arm_from > at ==> post.take.started_late == 0,
        pre.body.n_layers == 0 ==> post.state == Phase::First && post.body.origin == at
            && post.take.rec_from == at && post.take.reached == 0,
        pre.body.n_layers == 0 && t.arm_from != NEVER && t.arm_from <= at ==> post.body.origin
            - post.take.started_late == t.arm_from,
{
    reveal(carried_out);
    reveal(begun);
    reveal(first_begun);
    reveal(overdub_begun);
}

/// A loop that fires plays from the top: with no window, no rotation and no
/// swing, the position heard `j` frames after it fires is the `j`th, and
/// backwards the `j`th from the end. It is heard for that one pass, and loops
/// that fire on one frame have one zero.
pub proof fn a_loop_fires_from_the_top(
    pre: Loop,
    max_layers: usize,
    t: Taken,
    at: i64,
    post: Loop,
    j: int,
)
    requires
        carried_out(pre, max_layers, t, at, post),
        t.phase == FIRE,
        pre.wf(),
        frame::near(at),
        0 <= at,
        0 <= j < pre.body.loop_len,
        !pre.play.pendulum,
        pre.edit.win_in == 0,
        pre.edit.win_out == 0,
        pre.edit.rot == 0,
    ensures
        post.body.origin == at,
        post.body.loop_len == pre.body.loop_len,
        post.play.speed == pre.play.speed,
        !post.play.muted,
        pre.play.speed == ONE_WIDE ==> {
            &&& post.whole_travel(at + j) == Some(j)
            &&& post.heard(j, pre.body.loop_len as int) == j
            &&& post.play.shot_end == at + pre.body.loop_len
        },
        pre.play.speed == MINUS_ONE_WIDE ==> {
            let last = pre.body.loop_len - 1;
            &&& post.offset_travel(at + j, last) == Some(last - j)
            &&& post.heard(last - j, pre.body.loop_len as int) == last - j
            &&& post.play.shot_end == at + pre.body.loop_len
        },
{
    reveal(carried_out);
    reveal(Loop::wf);
    let len = pre.body.loop_len as int;
    vstd::arithmetic::div_mod::lemma_small_mod(j as nat, len as nat);
    vstd::arithmetic::div_mod::lemma_small_mod((len - 1 - j) as nat, len as nat);
    vstd::arithmetic::div_mod::lemma_small_mod(0, len as nat);
    assert(bits::below_wide(MINUS_ONE_WIDE, 0));
    assert(!bits::below_wide(ONE_WIDE, 0));
}

/// What a loop is asked for happens on the frame it was asked for, or at the
/// start of the buffer where that has gone by or none was named; and nothing
/// happens that is not due.
pub proof fn a_move_takes_place_on_its_frame(
    pre: Loop,
    max_layers: usize,
    base: i64,
    before: i64,
    post: Loop,
)
    requires
        stamped(pre, max_layers, base, before, post),
        pre.next.request == FIRE,
        pre.body.loop_len > 0,
        base < before,
    ensures
        pre.next.request_at != NEVER && pre.next.request_at >= before ==> post == pre,
        pre.next.request_at != NEVER && base <= pre.next.request_at < before ==> post.body.origin
            == pre.next.request_at && post.next.request == 0,
        pre.next.request_at == NEVER || pre.next.request_at < base ==> post.body.origin == base
            && post.next.request == 0,
{
    reveal(carried_out);
}

/// An edit that has settled is live from its frame: the window and rotation
/// that were held are the loop's, and the pass starts over there, from the
/// top. Before its frame nothing has changed.
pub proof fn an_edit_settles_on_its_frame(pre: Loop, before: i64)
    requires
        pre.edit.edit_restart != 0,
    ensures
        before <= pre.edit.edit_restart ==> settled(pre, before) == pre,
        before > pre.edit.edit_restart ==> {
            let post = settled(pre, before);
            &&& post.body.origin == pre.edit.edit_restart
            &&& post.play.warp == 0
            &&& post.edit.edit_restart == 0
            &&& !post.edit.pend_set
            &&& pre.edit.pend_set ==> post.edit.win_in == pre.edit.pend_in && post.edit.win_out
                == pre.edit.pend_out && post.edit.rot == pre.edit.pend_rot
            &&& !pre.edit.pend_set ==> post.edit.win_in == pre.edit.win_in && post.edit.win_out
                == pre.edit.win_out && post.edit.rot == pre.edit.rot
            &&& post.body.loop_len == pre.body.loop_len
            &&& post.layers@ == pre.layers@
        },
{
}

/// A recording begins with nothing: what the one before it had reached and
/// heard is not counted, and its picture is blank.
pub proof fn a_recording_begins_with_nothing(
    pre: Loop,
    max_layers: usize,
    t: Taken,
    at: i64,
    post: Loop,
    b: int,
)
    requires
        begun(pre, max_layers, t, at, post),
        0 <= b < ENV_BUCKETS,
    ensures
        post.take.reached == 0,
        post.take.rec_reached == 0,
        pre.body.n_layers < max_layers ==> post.recording() && post.rec_env@[b] == 0
            && !post.body.threaded,
        post.body.n_layers == pre.body.n_layers,
        post.body.loop_len == pre.body.loop_len,
        post.layers == pre.layers,
{
    reveal(begun);
    reveal(first_begun);
    reveal(overdub_begun);
}

/// A take that is planned as one pass closes itself a loop length after it
/// begins, and one that is dated back is late by as much, from the plan on.
pub proof fn a_plan_is_carried_out_as_it_was_made(
    pre: Loop,
    max_layers: usize,
    base: i64,
    before: i64,
    post: Loop,
)
    requires
        pre.wf(),
        0 <= base,
        frame::shortly(base),
        stamped(pre, max_layers, base, before, post),
        pre.next.request == ARMED,
        pre.next.request_at == NEVER,
        0 < pre.body.n_layers < max_layers,
        pre.body.loop_len > 0,
    ensures
        post.state == Phase::Overdub,
        pre.next.one_pass ==> post.take.close_at == base + pre.body.loop_len,
        !pre.next.one_pass && !pre.body.threaded ==> post.take.close_at == NEVER,
        pre.next.arm_from != NEVER && pre.next.arm_from <= base ==> post.take.started_late
            == base - pre.next.arm_from,
        post.next.empty(),
{
    reveal(carried_out);
    reveal(begun);
    reveal(overdub_begun);
    reveal(Loop::wf);
}

} // verus!
