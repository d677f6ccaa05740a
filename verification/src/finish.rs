//! The second half of a close: what was captured becomes a layer.

use crate::ack::Said;
use crate::audio;
use crate::bits;
use crate::bits::{MINUS_ONE_WIDE, ONE_WIDE};
use crate::closing;
use crate::closing::{Closing, Take};
use crate::frame;
use crate::input;
use crate::layer::{Layer, Shape};
use crate::loop_state;
use crate::loop_state::{Body, Loop, Progress};
use crate::num;
use crate::past;
use crate::phase::Phase;
use crate::shared;
use crate::shared::{Desk, Shared};
use vstd::prelude::*;

verus! {

/// How long a first take is before any front is recovered: what the grid
/// gave it, or what it was told to be, or else what was played. A late press
/// keeps what was played up to it, and never more than was captured.
pub open spec fn first_len(lp: Loop, t: Take) -> int {
    match t.quantised_len {
        Some(n) => n as int,
        None => if lp.take.rec_len > 0 {
            lp.take.rec_len as int
        } else if t.late <= 0 {
            lp.take.reached as int
        } else {
            num::smaller(
                num::larger(t.closed_at - lp.body.origin, 0),
                lp.take.reached as int,
            )
        },
    }
}

/// How much of the time before a first take is claimed for its front: none
/// on the grid, and else how late the press was measured to be, or what the
/// rig assumes where nothing measured it.
pub open spec fn front(lp: Loop, t: Take, preroll: usize) -> int {
    if t.quantised_len is Some {
        0
    } else if lp.take.started_late > 0 {
        lp.take.started_late as int
    } else {
        preroll as int
    }
}

/// Everything that was captured, or the length where that is more.
pub open spec fn extent(lp: Loop, t: Take) -> int {
    num::larger(lp.take.reached as int, first_len(lp, t))
}

/// Whether the front is claimed: where there is one, where it fits, and
/// where it does not reach back before the start.
pub open spec fn claims_front(lp: Loop, t: Take, preroll: usize, max_frames: usize) -> bool {
    let pre = front(lp, t, preroll);
    pre > 0 && extent(lp, t) + pre <= max_frames && lp.body.origin - pre >= 0
}

/// A tape whose first `moved` frames have been moved up by `pre`, with
/// silence in front of them.
pub open spec fn moved_up(tape: Seq<u32>, pre: int, moved: int) -> Seq<u32> {
    Seq::new(
        tape.len(),
        |i: int|
            if i < 2 * pre {
                0u32
            } else if i < 2 * (pre + moved) {
                tape[i - 2 * pre]
            } else {
                tape[i]
            },
    )
}

/// The audio of a first take.
pub open spec fn first_tape(sh: Shared, li: int, t: Take) -> Seq<u32> {
    let lp = sh.loops@[li];
    let tape = sh.tape(li, lp.body.n_layers as int);
    if claims_front(lp, t, sh.desk.preroll, sh.size.max_frames) {
        let pre = front(lp, t, sh.desk.preroll);
        past::filled(
            moved_up(tape, pre, extent(lp, t)),
            sh,
            sh.source_of(li),
            lp.body.origin - pre,
            pre,
            0,
        )
    } else {
        tape
    }
}

/// How long a first take is: one that was told its length keeps it, and any
/// other grows by the front it claims.
pub open spec fn final_len(lp: Loop, t: Take, preroll: usize, max_frames: usize) -> int {
    if claims_front(lp, t, preroll, max_frames) && lp.take.rec_len == 0 {
        first_len(lp, t) + front(lp, t, preroll)
    } else {
        first_len(lp, t)
    }
}

/// How many bars a first take is: the nearest number where a clock says what
/// a bar is, and one at least.
pub open spec fn bars_of(cycles: usize, len: int, bar: usize) -> usize {
    if bar > 0 {
        num::larger(num::nearest(len, bar as int), 1) as usize
    } else {
        cycles
    }
}

/// Where a first take has its zero.
pub open spec fn first_origin(lp: Loop, t: Take, preroll: usize, max_frames: usize) -> i64 {
    if claims_front(lp, t, preroll, max_frames) {
        (lp.body.origin - front(lp, t, preroll)) as i64
    } else {
        lp.body.origin
    }
}

/// What is in a loop whose first take is done.
pub open spec fn first_body(sh: Shared, li: int, t: Take) -> Body {
    let lp = sh.loops@[li];
    let len = final_len(lp, t, sh.desk.preroll, sh.size.max_frames);
    Body {
        loop_len: len as usize,
        cycles: bars_of(lp.body.cycles, len, sh.link.link_bar_frames),
        origin: first_origin(lp, t, sh.desk.preroll, sh.size.max_frames),
        ..lp.body
    }
}

/// How far what was recorded of a first take has been moved up: by the front,
/// where it is claimed.
pub open spec fn moved_by(lp: Loop, t: Take, preroll: usize, max_frames: usize) -> int {
    if claims_front(lp, t, preroll, max_frames) {
        front(lp, t, preroll)
    } else {
        0
    }
}

/// How much a first take has past its end: what was recorded there, and no
/// silence.
pub open spec fn first_tail(sh: Shared, li: int, t: Take) -> int {
    let lp = sh.loops@[li];
    let len = final_len(lp, t, sh.desk.preroll, sh.size.max_frames);
    num::larger(
        lp.take.reached + moved_by(lp, t, sh.desk.preroll, sh.size.max_frames) - len,
        0,
    )
}

/// How many frames an overdub wrote past a late press, as far as there is
/// room for them past the end of the layer.
pub open spec fn overrun(sh: Shared, li: int, t: Take) -> int {
    let lp = sh.loops@[li];
    if lp.body.loop_len == 0 {
        0
    } else {
        num::smaller(
            num::larger(lp.take.rec_reached - t.closed_at, 0),
            sh.size.max_frames - lp.body.loop_len,
        )
    }
}

/// The audio of an overdub that was closed late: what came after the press
/// is kept past its end.
pub open spec fn over_tape(sh: Shared, li: int, t: Take) -> Seq<u32> {
    let lp = sh.loops@[li];
    past::filled(
        sh.tape(li, lp.body.n_layers as int),
        sh,
        sh.source_of(li),
        t.closed_at as int,
        overrun(sh, li, t),
        lp.body.loop_len as int,
    )
}

/// The audio of the layer a take made.
pub open spec fn taken_tape(sh: Shared, li: int, t: Take) -> Seq<u32> {
    if t.was == Phase::First {
        first_tape(sh, li, t)
    } else if t.late > 0 {
        over_tape(sh, li, t)
    } else {
        sh.tape(li, sh.loops@[li].body.n_layers as int)
    }
}

/// What is in a loop once a take is read, before it is a layer.
pub open spec fn taken_body(sh: Shared, li: int, t: Take) -> Body {
    if t.was == Phase::First {
        first_body(sh, li, t)
    } else {
        sh.loops@[li].body
    }
}

/// How much the layer has past its end.
pub open spec fn taken_tail(sh: Shared, li: int, t: Take) -> int {
    if t.was == Phase::First {
        first_tail(sh, li, t)
    } else if t.late > 0 {
        past::held(sh, sh.source_of(li), t.closed_at as int, overrun(sh, li, t)) as int
    } else {
        0
    }
}

/// The length the take was told to be, which a first take spends.
pub open spec fn told(p: Progress, was: Phase) -> Progress {
    if was == Phase::First {
        Progress { rec_len: 0, ..p }
    } else {
        p
    }
}

/// Who gives the grid once a take is done: the first loop to have a length.
pub open spec fn grid_giver(d: Desk, was: Phase, li: int) -> Desk {
    if was == Phase::First {
        Desk { anchor: shared::claimed(d.anchor, li as usize), ..d }
    } else {
        d
    }
}

/// The take is read: its audio, its length and its tail are what they are
/// going to be.
#[verifier::opaque]
pub open spec fn read_out(pre: Shared, li: int, t: Take, post: Shared) -> bool {
    let lp = pre.loops@[li];
    &&& post.audio() == audio_out(pre, li, t)
    &&& post.loops@ == pre.loops@.update(
        li,
        Loop { body: taken_body(pre, li, t), take: told(lp.take, t.was), ..lp },
    )
    &&& post == (Shared {
        arena: post.arena,
        loops: post.loops,
        desk: grid_giver(pre.desk, t.was, li),
        ..pre
    })
}

/// The audio once a take is read. An overdub that writes over a tape with no
/// layer to spare leaves it alone.
pub open spec fn audio_out(pre: Shared, li: int, t: Take) -> Seq<Seq<Seq<u32>>> {
    let n = pre.loops@[li].body.n_layers as int;
    if n < pre.size.max_layers {
        pre.audio_with(li, n, taken_tape(pre, li, t))
    } else {
        pre.audio()
    }
}

pub proof fn front_fits(lp: Loop, t: Take, preroll: usize, max_layers: usize, max_frames: usize)
    requires
        shared::sound(lp, max_layers, max_frames),
        closing::take_wf(t, max_frames),
        frame::short(preroll),
        frame::short(max_frames),
    ensures
        0 <= first_len(lp, t) <= max_frames,
        0 <= front(lp, t, preroll),
        frame::safe(2 * front(lp, t, preroll)),
        extent(lp, t) <= max_frames,
        frame::near(lp.body.origin),
        lp.take.reached <= max_frames,
{
    reveal(shared::sound);
    reveal(Loop::wf);
}

pub(crate) fn length_of(lp: &Loop, t: &Take) -> (r: usize)
    requires
        frame::near(lp.body.origin),
        frame::near(t.closed_at),
    ensures
        r == first_len(*lp, *t),
{
    match t.quantised_len {
        Some(n) => n,
        None => {
            if lp.take.rec_len > 0 {
                lp.take.rec_len
            } else if t.late <= 0 {
                lp.take.reached
            } else {
                num::min(
                    num::max_signed(t.closed_at - lp.body.origin, 0) as usize,
                    lp.take.reached,
                )
            }
        },
    }
}

pub(crate) fn front_of(lp: &Loop, t: &Take, preroll: usize) -> (r: usize)
    requires
        frame::safe(2 * front(*lp, *t, preroll)),
    ensures
        r == front(*lp, *t, preroll),
{
    if t.quantised_len.is_some() {
        0
    } else if lp.take.started_late > 0 {
        lp.take.started_late as usize
    } else {
        preroll
    }
}

/// Move the first `moved` frames of a tape up by `pre`.
fn move_up(tape: &Vec<u32>, pre: usize, moved: usize) -> (r: Vec<u32>)
    requires
        2 * (pre + moved) <= tape@.len(),
    ensures
        r@ == moved_up(tape@, pre as int, moved as int),
{
    let n: usize = tape.len();
    let mut r: Vec<u32> = Vec::new();
    let mut i: usize = 0;
    while i < n
        invariant
            n == tape@.len(),
            2 * (pre + moved) <= n,
            i <= n,
            r@.len() == i,
            forall|j: int|
                0 <= j < i ==> #[trigger] r@[j] == moved_up(tape@, pre as int, moved as int)[j],
        decreases n - i,
    {
        let v: u32 = if i < 2 * pre {
            0
        } else if i < 2 * (pre + moved) {
            tape[i - 2 * pre]
        } else {
            tape[i]
        };
        r.push(v);
        i = i + 1;
    }
    assert(r@ =~= moved_up(tape@, pre as int, moved as int));
    r
}

proof fn first_sound(sh: Shared, li: int, t: Take)
    requires
        sh.wf(),
        0 <= li < sh.size.n_loops,
        closing::take_wf(t, sh.size.max_frames),
    ensures
        ({
            let lp = sh.loops@[li];
            shared::sound(
                Loop { body: taken_body(sh, li, t), take: told(lp.take, t.was), ..lp },
                sh.size.max_layers,
                sh.size.max_frames,
            )
        }),
        frame::short(taken_body(sh, li, t).loop_len),
        0 <= taken_tail(sh, li, t),
        t.was == Phase::First ==> taken_tail(sh, li, t) <= frame::LIMIT && 4 * taken_tail(sh, li, t)
            <= usize::MAX,
        t.was == Phase::First ==> first_body(sh, li, t).loop_len == final_len(
            sh.loops@[li],
            t,
            sh.desk.preroll,
            sh.size.max_frames,
        ),
{
    let lp = sh.loops@[li];
    assert(sh.loop_ok(lp));
    front_fits(lp, t, sh.desk.preroll, sh.size.max_layers, sh.size.max_frames);
    let len = final_len(lp, t, sh.desk.preroll, sh.size.max_frames);
    if sh.link.link_bar_frames > 0 {
        num::nearest_is_near(len, sh.link.link_bar_frames as int);
        bars_bounded(len, sh.link.link_bar_frames as int);
    }
    reveal(shared::sound);
    reveal(Loop::wf);
}

proof fn bars_bounded(len: int, bar: int)
    requires
        len >= 0,
        bar >= 1,
    ensures
        0 <= num::nearest(len, bar) <= len + 1,
{
    num::nearest_is_near(len, bar);
    let n = num::nearest(len, bar);
    assert(n <= len + 1) by (nonlinear_arith)
        requires
            2 * bar * n <= 2 * len + bar,
            bar >= 1,
            len >= 0,
    ;
}

/// What a first take keeps past its end fits on the tape, and is what was
/// recorded there, moved up by the front where that was claimed: its wrap
/// never fades in from silence that nobody played.
pub proof fn what_carries_on_was_recorded(sh: Shared, li: int, t: Take, i: int)
    requires
        sh.wf(),
        0 <= li < sh.size.n_loops,
        sh.loops@[li].body.n_layers < sh.size.max_layers,
        closing::take_wf(t, sh.size.max_frames),
        t.was == Phase::First,
    ensures
        taken_body(sh, li, t).loop_len + taken_tail(sh, li, t) <= sh.size.max_frames,
        ({
            let lp = sh.loops@[li];
            let moved = moved_by(lp, t, sh.desk.preroll, sh.size.max_frames);
            let len = taken_body(sh, li, t).loop_len;
            moved <= i / 2 && len <= i / 2 < len + taken_tail(sh, li, t) ==> {
                &&& i / 2 - moved < lp.take.reached
                &&& taken_tape(sh, li, t)[i] == sh.tape(li, lp.body.n_layers as int)[i - 2 * moved]
            }
        }),
{
    let lp = sh.loops@[li];
    assert(sh.loop_ok(lp));
    front_fits(lp, t, sh.desk.preroll, sh.size.max_layers, sh.size.max_frames);
    first_sound(sh, li, t);
    assert(lp.body.n_layers < sh.arena@[li]@.len());
    assert(sh.tape(li, lp.body.n_layers as int).len() == 2 * sh.size.max_frames);
}

/// Read a first take.
fn read_first(sh: &mut Shared, li: usize, t: &Take) -> (r: usize)
    requires
        old(sh).wf(),
        li < old(sh).size.n_loops,
        old(sh).loops@[li as int].body.n_layers < old(sh).size.max_layers,
        closing::take_wf(*t, old(sh).size.max_frames),
        t.was == Phase::First,
    ensures
        final(sh).wf(),
        read_out(*old(sh), li as int, *t, *final(sh)),
        r == taken_tail(*old(sh), li as int, *t),
{
    let ghost lp = sh.loops@[li as int];
    proof {
        assert(sh.loop_ok(lp));
        front_fits(lp, *t, sh.desk.preroll, sh.size.max_layers, sh.size.max_frames);
        first_sound(*sh, li as int, *t);
        reveal(read_out);
    }
    let declared: usize = sh.loops[li].take.rec_len;
    let reached: usize = sh.loops[li].take.reached;
    let layer: usize = sh.loops[li].body.n_layers;
    let mut len: usize = length_of(&sh.loops[li], t);
    let pre: usize = front_of(&sh.loops[li], t, sh.desk.preroll);
    let extent: usize = num::max(reached, len);
    let mut origin: i64 = sh.loops[li].body.origin;
    let mut moved: usize = 0;
    let tape = past::copy_tape(sh, li, layer);
    if pre > 0 && pre <= sh.size.max_frames && extent <= sh.size.max_frames - pre && origin
        >= pre as i64 {
        let src: usize = sh.src_of(li);
        let mut tape = move_up(&tape, pre, extent);
        origin = origin - pre as i64;
        past::fill(&mut tape, sh, src, origin, pre, 0);
        sh.set_tape(li, layer, tape);
        moved = pre;
        if declared == 0 {
            len = len + pre;
        }
    } else {
        sh.set_tape(li, layer, tape);
    }
    let bar: usize = sh.link.link_bar_frames;
    let mut body: Body = sh.loops[li].body;
    if bar > 0 {
        body.cycles = num::max(num::round_ratio(len, bar), 1);
    }
    body.loop_len = len;
    body.origin = origin;
    let tail: usize = num::max(reached + moved, len) - len;
    sh.claim_anchor(li);
    let lp = &mut sh.loops[li];
    lp.take.rec_len = 0;
    lp.body = body;
    proof {
        let mid = Shared { desk: sh.desk, arena: sh.arena, ..*old(sh) };
        assert(mid.wf());
        shared::loop_exchanged(mid, *sh, li as int, sh.loops@[li as int]);
    }
    tail
}

/// Read a take. Of an overdub that was closed late, what came after the
/// press is kept past the end; what it added to the head of its layer is
/// what [`overhang`] says, and is off it already.
fn read_take(sh: &mut Shared, li: usize, t: &Take) -> (r: usize)
    requires
        old(sh).wf(),
        li < old(sh).size.n_loops,
        old(sh).loops@[li as int].body.n_layers < old(sh).size.max_layers || t.was != Phase::First,
        closing::take_wf(*t, old(sh).size.max_frames),
    ensures
        final(sh).wf(),
        read_out(*old(sh), li as int, *t, *final(sh)),
        old(sh).loops@[li as int].body.n_layers < old(sh).size.max_layers ==> r == taken_tail(
            *old(sh),
            li as int,
            *t,
        ),
        frame::fits(r),
{
    if t.was == Phase::First {
        proof {
            first_sound(*sh, li as int, *t);
        }
        return read_first(sh, li, t);
    }
    let ghost lp = sh.loops@[li as int];
    proof {
        assert(sh.loop_ok(lp));
        assert(sh.loops@ =~= sh.loops@.update(li as int, lp));
        reveal(read_out);
    }
    assert(frame::near(lp.take.rec_reached) && lp.body.loop_len <= sh.size.max_frames) by {
        reveal(shared::sound);
        reveal(Loop::wf);
    }
    let layer: usize = sh.loops[li].body.n_layers;
    if layer >= sh.size.max_layers {
        return 0;
    }
    assert(sh.audio() =~= sh.audio_with(li as int, layer as int, sh.tape(li as int, layer as int)))
        by {
        assert(sh.arena@[li as int]@.len() == sh.size.max_layers);
        assert(sh.audio()[li as int] =~= sh.audio()[li as int].update(
            layer as int,
            sh.tape(li as int, layer as int),
        ));
    }
    if t.late <= 0 {
        return 0;
    }
    let len: usize = sh.loops[li].body.loop_len;
    let n: usize = if len == 0 {
        0
    } else {
        num::min(
            num::max_signed(sh.loops[li].take.rec_reached - t.closed_at, 0) as usize,
            sh.size.max_frames - len,
        )
    };
    past::fill_from_ring(sh, li, layer, t.closed_at, n, len)
}

/// A loop with one more layer, of a shape and with its picture drawn.
pub open spec fn new_layer(a: Loop, s: Shape, tape: Seq<u32>, b: Loop) -> bool {
    let n = a.body.n_layers as int;
    &&& b == (Loop { body: loop_state::one_more(a.body), layers: b.layers, ..a })
    &&& b.layers@.len() == a.layers@.len()
    &&& forall|l: int|
        0 <= l < a.layers@.len() && l != n ==> #[trigger] b.layers@[l] == a.layers@[l]
    &&& b.layers@[n] == (Layer { env: b.layers@[n].env, ..a.layers@[n].shaped(s) })
    &&& b.layers@[n].env@ == audio::picture(tape, s.len as int)
}

/// A loop with the picture of its tape drawn anew.
pub open spec fn tape_redrawn(a: Loop, tape: Seq<u32>, b: Loop) -> bool {
    &&& b == (Loop { layers: b.layers, ..a })
    &&& b.layers@.len() == a.layers@.len()
    &&& forall|l: int| 0 < l < a.layers@.len() ==> #[trigger] b.layers@[l] == a.layers@[l]
    &&& b.layers@[0] == (Layer { env: b.layers@[0].env, ..a.layers@[0] })
    &&& b.layers@[0].env@ == audio::picture(tape, a.layers@[0].len as int)
}

/// Every loop but one is as it was.
pub open spec fn others_kept(pre: Shared, li: int, post: Shared) -> bool {
    &&& post.loops@.len() == pre.loops@.len()
    &&& forall|i: int|
        0 <= i < pre.loops@.len() && i != li ==> #[trigger] post.loops@[i] == pre.loops@[i]
}

proof fn shaped_sound(a: Loop, b: Loop, s: Shape, max_layers: usize, max_frames: usize)
    requires
        shared::sound(a, max_layers, max_frames),
        a.body.n_layers < max_layers,
        s.len <= max_frames,
        frame::short(max_frames),
        frame::fits(s.tail),
        frame::in_range(s.born),
        b.layers@ == a.layers@.update(
            a.body.n_layers as int,
            a.layers@[a.body.n_layers as int].shaped(s),
        ),
        b == (Loop { layers: b.layers, ..a }),
    ensures
        shared::sound(b, max_layers, max_frames),
{
    reveal(shared::sound);
    reveal(Loop::wf);
    assert forall|l: int| 0 <= l < b.layers@.len() implies loop_state::layer_wf(
        #[trigger] b.layers@[l],
    ) && b.layers@[l].len <= max_frames by {
        assert(loop_state::layer_wf(a.layers@[l]));
        assert(a.layers@[l].len <= max_frames);
    }
}

proof fn counted_sound(a: Loop, max_layers: usize, max_frames: usize)
    requires
        shared::sound(a, max_layers, max_frames),
        a.body.n_layers < max_layers,
    ensures
        shared::sound(
            Loop { body: loop_state::one_more(a.body), ..a },
            max_layers,
            max_frames,
        ),
{
    reveal(shared::sound);
    reveal(Loop::wf);
}

/// Make the layer above the last one a layer that plays.
pub fn lay(sh: &mut Shared, li: usize, s: Shape)
    requires
        old(sh).wf(),
        li < old(sh).size.n_loops,
        old(sh).loops@[li as int].body.n_layers < old(sh).size.max_layers,
        s.len <= old(sh).size.max_frames,
        frame::fits(s.tail),
        frame::in_range(s.born),
    ensures
        final(sh).wf(),
        others_kept(*old(sh), li as int, *final(sh)),
        new_layer(
            old(sh).loops@[li as int],
            s,
            old(sh).tape(li as int, old(sh).loops@[li as int].body.n_layers as int),
            final(sh).loops@[li as int],
        ),
        *final(sh) == (Shared { loops: final(sh).loops, ..*old(sh) }),
{
    let ghost a = sh.loops@[li as int];
    assert(sh.loop_ok(a));
    assert(a.layers@.len() == sh.size.max_layers) by {
        shared::sized(a, sh.size.max_layers, sh.size.max_frames);
    }
    let layer: usize = sh.loops[li].body.n_layers;
    let lp = &mut sh.loops[li];
    lp.set_layer_shape(layer, s);
    proof {
        let b = sh.loops@[li as int];
        shaped_sound(a, b, s, sh.size.max_layers, sh.size.max_frames);
        shared::loop_exchanged(*old(sh), *sh, li as int, b);
    }
    sh.rebuild_env(li, layer);
    let ghost mid = *sh;
    assert(sh.loop_ok(sh.loops@[li as int]));
    let lp = &mut sh.loops[li];
    lp.add_layer();
    proof {
        counted_sound(mid.loops@[li as int], sh.size.max_layers, sh.size.max_frames);
        shared::loop_exchanged(mid, *sh, li as int, sh.loops@[li as int]);
    }
}

/// Which pass a layer is born on that is first heard at a frame. Where the
/// play head has not gone a whole number of frames it is pass zero, and
/// [`born_after`] says better.
pub open spec fn born_of(lp: Loop, at: int, len: int) -> i64 {
    match lp.whole_travel(at) {
        Some(raw) => lp.pass_of(raw, len) as i64,
        None => 0,
    }
}

pub fn birth(lp: &Loop, at: i64, len: usize) -> (r: i64)
    requires
        lp.wf(),
        frame::near(at),
        frame::fits(len),
    ensures
        r == born_of(*lp, at as int, len as int),
        frame::in_range(r),
{
    match lp.travelled(at) {
        Some(raw) => {
            let r: i64 = lp.pass_index(raw, len);
            proof {
                reveal(Loop::wf);
                pass_bounded(*lp, raw as int, len as int);
            }
            r
        },
        None => 0,
    }
}

/// A pass number is no further out than what was travelled.
proof fn pass_bounded(lp: Loop, raw: int, len: int)
    requires
        len >= 0,
    ensures
        (if raw < 0 {
            raw
        } else {
            0
        }) <= lp.pass_of(raw, len) <= (if raw < 0 {
            0
        } else {
            raw
        }),
{
    if len > 0 {
        let span = lp.pass_span(len);
        assert(span >= 1);
        let q = raw / span;
        vstd::arithmetic::div_mod::lemma_fundamental_div_mod(raw, span);
        assert(q == lp.pass_of(raw, len));
        assert(raw >= 0 ==> 0 <= q <= raw) by (nonlinear_arith)
            requires
                span >= 1,
                raw == span * q + raw % span,
                0 <= raw % span < span,
        ;
        assert(raw < 0 ==> raw <= q <= 0) by (nonlinear_arith)
            requires
                span >= 1,
                raw == span * q + raw % span,
                0 <= raw % span < span,
        ;
    }
}

/// Say on which pass the newest layer is born, where the play head had gone
/// `raw` whole frames.
pub fn born_after(sh: &mut Shared, li: usize, raw: i64)
    requires
        old(sh).wf(),
        li < old(sh).size.n_loops,
        old(sh).loops@[li as int].body.n_layers > 0,
        frame::in_range(raw),
    ensures
        final(sh).wf(),
        others_kept(*old(sh), li as int, *final(sh)),
        *final(sh) == (Shared { loops: final(sh).loops, ..*old(sh) }),
        ({
            let a = old(sh).loops@[li as int];
            let b = final(sh).loops@[li as int];
            let l = a.body.n_layers - 1;
            &&& b == (Loop { layers: b.layers, ..a })
            &&& b.layers@ == a.layers@.update(
                l,
                (Layer {
                    born: a.pass_of(raw as int, a.layers@[l].len as int) as i64,
                    ..a.layers@[l]
                }),
            )
        }),
{
    let ghost a = sh.loops@[li as int];
    assert(sh.loop_ok(a));
    proof {
        reveal(shared::sound);
        reveal(Loop::wf);
    }
    let l: usize = sh.loops[li].body.n_layers - 1;
    assert(loop_state::layer_wf(a.layers@[l as int]));
    let len: usize = sh.loops[li].layers[l].len;
    let born: i64 = sh.loops[li].pass_index(raw, len);
    proof {
        pass_bounded(a, raw as int, len as int);
    }
    let lp = &mut sh.loops[li];
    let layer = &mut lp.layers[l];
    layer.born = born;
    proof {
        let b = sh.loops@[li as int];
        assert forall|k: int| 0 <= k < b.layers@.len() implies loop_state::layer_wf(
            #[trigger] b.layers@[k],
        ) && b.layers@[k].len <= sh.size.max_frames by {
            assert(loop_state::layer_wf(a.layers@[k]));
            assert(a.layers@[k].len <= sh.size.max_frames);
        }
        shared::loop_exchanged(*old(sh), *sh, li as int, b);
    }
}

/// The loop once its take is read, before it has a layer more.
pub open spec fn taken_loop(pre: Shared, li: int, t: Take) -> Loop {
    let lp = pre.loops@[li];
    Loop { body: taken_body(pre, li, t), take: told(lp.take, t.was), ..lp }
}

/// The shape of the layer a take makes.
pub open spec fn taken_shape(pre: Shared, li: int, t: Take) -> Shape {
    let len = taken_body(pre, li, t).loop_len;
    Shape {
        len,
        tail: taken_tail(pre, li, t) as usize,
        born: born_of(taken_loop(pre, li, t), t.closed_at as int, len as int),
    }
}

/// A take has become a layer, or gone over the tape.
pub open spec fn take_kept(pre: Shared, li: int, t: Take, post: Shared, r: Said) -> bool {
    let lp = pre.loops@[li];
    let a = taken_loop(pre, li, t);
    &&& post.audio() == audio_out(pre, li, t)
    &&& others_kept(pre, li, post)
    &&& post == (Shared {
        arena: post.arena,
        loops: post.loops,
        desk: grid_giver(pre.desk, t.was, li),
        ..pre
    })
    &&& if lp.habit.revox {
        &&& tape_redrawn(
            Loop { state: Phase::Playing, ..a },
            audio_out(pre, li, t)[li][0],
            post.loops@[li],
        )
        &&& r == (Said::OnTape { li: li as usize, len: a.body.loop_len })
    } else {
        &&& new_layer(a, taken_shape(pre, li, t), taken_tape(pre, li, t), post.loops@[li])
        &&& r == (Said::Committed {
            li: li as usize,
            len: a.body.loop_len,
            layers: (lp.body.n_layers + 1) as usize,
        })
    }
}

/// A sound loop that plays is sound.
pub proof fn playing_sound(a: Loop, max_layers: usize, max_frames: usize)
    requires
        shared::sound(a, max_layers, max_frames),
    ensures
        shared::sound(Loop { state: Phase::Playing, ..a }, max_layers, max_frames),
{
    reveal(shared::sound);
    reveal(Loop::wf);
}

fn keep_take(sh: &mut Shared, li: usize, t: &Take) -> (r: Said)
    requires
        old(sh).wf(),
        li < old(sh).size.n_loops,
        old(sh).loops@[li as int].body.n_layers < old(sh).size.max_layers || (t.was != Phase::First
            && old(sh).loops@[li as int].habit.revox),
        closing::take_wf(*t, old(sh).size.max_frames),
    ensures
        final(sh).wf(),
        take_kept(*old(sh), li as int, *t, *final(sh), r),
{
    let ghost pre = *sh;
    proof {
        assert(pre.loop_ok(pre.loops@[li as int]));
        first_sound(pre, li as int, *t);
    }
    let tail: usize = read_take(sh, li, t);
    let ghost mid = *sh;
    proof {
        reveal(read_out);
        assert(mid.loop_ok(mid.loops@[li as int]));
        shared::sized(mid.loops@[li as int], mid.size.max_layers, mid.size.max_frames);
        assert(mid.arena@[li as int]@.len() == mid.size.max_layers);
    }
    let layer: usize = sh.loops[li].body.n_layers;
    let len: usize = sh.loops[li].body.loop_len;
    if sh.loops[li].habit.revox {
        let lp = &mut sh.loops[li];
        lp.enter(Phase::Playing);
        proof {
            playing_sound(mid.loops@[li as int], mid.size.max_layers, mid.size.max_frames);
            shared::loop_exchanged(mid, *sh, li as int, sh.loops@[li as int]);
        }
        sh.rebuild_env(li, 0);
        assert(mid.audio()[li as int][0] == mid.tape(li as int, 0));
        assert(sh.audio() =~= mid.audio());
        return Said::OnTape { li, len };
    }
    assert(mid.audio()[li as int][layer as int] == mid.tape(li as int, layer as int));
    assert(mid.audio()[li as int][layer as int] == taken_tape(pre, li as int, *t)) by {
        assert(pre.arena@[li as int]@.len() == pre.size.max_layers);
    }
    assert(mid.loops@[li as int].wf()) by {
        reveal(shared::sound);
    }
    let born: i64 = birth(&sh.loops[li], t.closed_at, len);
    lay(sh, li, Shape { len, tail, born });
    assert(sh.audio() =~= mid.audio());
    Said::Committed { li, len, layers: layer + 1 }
}

/// The loop a multiply of so many cycles makes, before it has a layer more:
/// it starts where the multiply began.
pub open spec fn grown(lp: Loop, cycles: usize) -> Loop {
    Loop {
        body: Body {
            origin: lp.take.rec_from,
            loop_len: (cycles * lp.body.loop_len) as usize,
            ..lp.body
        },
        ..lp
    }
}

/// A multiply has become a layer, or does not fit.
pub open spec fn multiply_kept(pre: Shared, li: int, t: Take, post: Shared, r: Said) -> bool {
    let lp = pre.loops@[li];
    let len = t.cycles * lp.body.loop_len;
    if len > pre.size.max_frames {
        &&& post == pre
        &&& r == (Said::MultiplyPast {
            li: li as usize,
            cycles: t.cycles,
            len: lp.body.loop_len,
            max_frames: pre.size.max_frames,
        })
    } else {
        &&& others_kept(pre, li, post)
        &&& post == (Shared { loops: post.loops, ..pre })
        &&& new_layer(
            grown(lp, t.cycles),
            Shape { len: len as usize, tail: 0, born: 0 },
            pre.tape(li, lp.body.n_layers as int),
            post.loops@[li],
        )
        &&& r == (Said::Multiplied {
            li: li as usize,
            cycles: t.cycles,
            len: len as usize,
            cycle: lp.body.loop_len,
            waited: t.waited,
            layers: (lp.body.n_layers + 1) as usize,
        })
    }
}

proof fn grown_sound(lp: Loop, cycles: usize, max_layers: usize, max_frames: usize)
    requires
        shared::sound(lp, max_layers, max_frames),
        cycles * lp.body.loop_len <= max_frames,
        frame::short(max_frames),
    ensures
        shared::sound(grown(lp, cycles), max_layers, max_frames),
{
    assert(0 <= cycles * lp.body.loop_len) by (nonlinear_arith);
    reveal(shared::sound);
    reveal(Loop::wf);
}

fn keep_multiply(sh: &mut Shared, li: usize, t: &Take) -> (r: Said)
    requires
        old(sh).wf(),
        li < old(sh).size.n_loops,
        old(sh).loops@[li as int].body.n_layers < old(sh).size.max_layers,
        closing::take_wf(*t, old(sh).size.max_frames),
    ensures
        final(sh).wf(),
        multiply_kept(*old(sh), li as int, *t, *final(sh), r),
{
    let ghost pre = *sh;
    let ghost lp = sh.loops@[li as int];
    assert(sh.loop_ok(lp));
    assert(lp.body.loop_len <= sh.size.max_frames) by {
        reveal(shared::sound);
    }
    let cycle: usize = sh.loops[li].body.loop_len;
    let layer: usize = sh.loops[li].body.n_layers;
    assert(t.cycles as u128 * cycle as u128 <= u128::MAX) by (nonlinear_arith);
    assert(0 <= t.cycles * cycle) by (nonlinear_arith);
    let wide: u128 = (t.cycles as u128) * (cycle as u128);
    if wide > sh.size.max_frames as u128 {
        return Said::MultiplyPast {
            li,
            cycles: t.cycles,
            len: cycle,
            max_frames: sh.size.max_frames,
        };
    }
    let len: usize = wide as usize;
    let mut body: Body = sh.loops[li].body;
    body.origin = sh.loops[li].take.rec_from;
    body.loop_len = len;
    let lp = &mut sh.loops[li];
    lp.body = body;
    proof {
        grown_sound(old(sh).loops@[li as int], t.cycles, sh.size.max_layers, sh.size.max_frames);
        shared::loop_exchanged(pre, *sh, li as int, sh.loops@[li as int]);
    }
    lay(sh, li, Shape { len, tail: 0, born: 0 });
    Said::Multiplied { li, cycles: t.cycles, len, cycle, waited: t.waited, layers: layer + 1 }
}

/// What the second half of a close does: a multiply and a take make a layer
/// where there is room for one, and a first take that captured nothing makes
/// none.
pub open spec fn finish_step(pre: Shared, li: int, t: Take, post: Shared, r: Said) -> bool {
    let lp = pre.loops@[li];
    if lp.body.n_layers >= pre.size.max_layers && (t.was != Phase::Overdub || !lp.habit.revox) {
        post == pre && r == (Said::Ceiling { li: li as usize, max_layers: pre.size.max_layers })
    } else if t.was == Phase::Multiply {
        multiply_kept(pre, li, t, post, r)
    } else if t.was == Phase::First && first_len(lp, t) == 0 {
        &&& pre.but_loop(li, Loop { take: told(lp.take, t.was), ..lp }, post)
        &&& r == (Said::RecordedNothing { li: li as usize })
    } else {
        take_kept(pre, li, t, post, r)
    }
}

proof fn told_sound(lp: Loop, was: Phase, max_layers: usize, max_frames: usize)
    requires
        shared::sound(lp, max_layers, max_frames),
    ensures
        shared::sound(Loop { take: told(lp.take, was), ..lp }, max_layers, max_frames),
{
    reveal(shared::sound);
    reveal(Loop::wf);
}

/// Make a layer of a take whose last frames have arrived.
pub fn finish_take(sh: &mut Shared, li: usize, t: &Take) -> (r: Said)
    requires
        old(sh).wf(),
        li < old(sh).size.n_loops,
        closing::take_wf(*t, old(sh).size.max_frames),
    ensures
        final(sh).wf(),
        finish_step(*old(sh), li as int, *t, *final(sh), r),
{
    let ghost lp = sh.loops@[li as int];
    assert(sh.loop_ok(lp));
    let full = sh.loops[li].body.n_layers >= sh.size.max_layers;
    if full && (t.was != Phase::Overdub || !sh.loops[li].habit.revox) {
        return Said::Ceiling { li, max_layers: sh.size.max_layers };
    }
    if t.was == Phase::Multiply {
        return keep_multiply(sh, li, t);
    }
    if t.was == Phase::First {
        assert(frame::near(lp.body.origin)) by {
            reveal(shared::sound);
            reveal(Loop::wf);
        }
        if length_of(&sh.loops[li], t) == 0 {
            let lp = &mut sh.loops[li];
            lp.take.rec_len = 0;
            proof {
                told_sound(old(sh).loops@[li as int], t.was, sh.size.max_layers, sh.size.max_frames);
                shared::loop_exchanged(*old(sh), *sh, li as int, sh.loops@[li as int]);
            }
            return Said::RecordedNothing { li };
        }
    }
    keep_take(sh, li, t)
}

/// Where on its layer an overdub added what came in at an output frame: at the
/// position the play head passed over, or nowhere where that is past an end.
/// A play head that does not go a frame at a time passes over parts of
/// positions, and that is nowhere here.
pub open spec fn landed_at(lp: Loop, f: int) -> Option<int> {
    if lp.is_plain() {
        lp.written(f - lp.take.rec_from, lp.body.loop_len as int)
    } else if input::steady(lp) {
        lp.written(input::passed_over(lp, f - lp.body.origin), lp.body.loop_len as int)
    } else {
        None
    }
}

/// A position, where there is one.
pub open spec fn position(p: Option<int>) -> Option<usize> {
    match p {
        Some(p) => Some(p as usize),
        None => None,
    }
}

/// What a late close has to take off an overdub again: each frame that came
/// after the press and that the ring holds, where on the layer it was added,
/// and its two samples, as bits. A loop that records over itself has nothing
/// to take off.
pub open spec fn hung_over(sh: Shared, li: int, t: Take, n: int) -> Seq<
    (i64, Option<usize>, u32, u32),
>
    decreases n,
{
    let lp = sh.loops@[li];
    if n <= 0 || t.was != Phase::Overdub || t.late <= 0 || lp.body.loop_len == 0
        || lp.habit.revox {
        Seq::empty()
    } else {
        let before = hung_over(sh, li, t, n - 1);
        let f = t.closed_at + n - 1;
        let src = sh.source_of(li);
        match (
            sh.recalled(src, f - sh.clock.k, 0),
            sh.recalled(src, f - sh.clock.k, 1),
        ) {
            (Some(a), Some(b)) => before.push((f as i64, position(landed_at(lp, f)), a, b)),
            _ => before,
        }
    }
}

fn landing(lp: &Loop, f: i64) -> (r: Option<usize>)
    requires
        lp.wf(),
        frame::safe(2 * f),
    ensures
        r == position(landed_at(*lp, f as int)),
        r matches Some(p) ==> p < lp.body.loop_len,
{
    assert(frame::near(lp.take.rec_from) && frame::near(lp.body.origin) && frame::short(
        lp.body.loop_len,
    )) by {
        reveal(Loop::wf);
    }
    let len: usize = lp.body.loop_len;
    if lp.plain() {
        lp.write_pos(f - lp.take.rec_from, len)
    } else if (lp.play.speed == ONE_WIDE || lp.play.speed == MINUS_ONE_WIDE) && bits::zero_wide(
        lp.play.warp,
    ) {
        let d: i64 = f - lp.body.origin;
        let raw: i64 = if lp.play.speed == MINUS_ONE_WIDE {
            -d - 1
        } else {
            d
        };
        lp.write_pos(raw, len)
    } else {
        None
    }
}

/// What a late close has to take off an overdub again, before it is
/// finished.
pub fn overhang(sh: &Shared, li: usize, t: &Take) -> (r: Vec<(i64, Option<usize>, u32, u32)>)
    requires
        sh.wf(),
        li < sh.size.n_loops,
        closing::take_wf(*t, sh.size.max_frames),
    ensures
        r@ == hung_over(
            *sh,
            li as int,
            *t,
            sh.loops@[li as int].take.rec_reached - t.closed_at,
        ),
        forall|i: int|
            0 <= i < r@.len() ==> ((#[trigger] r@[i]).1 matches Some(p) ==> p
                < sh.size.max_frames),
{
    let ghost lp = sh.loops@[li as int];
    assert(sh.loop_ok(lp));
    assert(lp.wf() && frame::near(lp.take.rec_reached) && lp.body.loop_len <= sh.size.max_frames)
        by {
        reveal(shared::sound);
        reveal(Loop::wf);
    }
    let mut r: Vec<(i64, Option<usize>, u32, u32)> = Vec::new();
    if t.was != Phase::Overdub || t.late <= 0 || sh.loops[li].body.loop_len == 0
        || sh.loops[li].habit.revox {
        return r;
    }
    let src: usize = sh.src_of(li);
    let n: i64 = sh.loops[li].take.rec_reached - t.closed_at;
    let mut i: i64 = 0;
    while i < n
        invariant
            sh.wf(),
            li < sh.size.n_loops,
            lp == sh.loops@[li as int],
            lp.wf(),
            frame::near(t.closed_at),
            frame::near(lp.take.rec_reached),
            n == lp.take.rec_reached - t.closed_at,
            0 <= i,
            i <= n || i == 0,
            src == sh.source_of(li as int),
            0 < lp.body.loop_len <= sh.size.max_frames,
            !lp.habit.revox,
            t.was == Phase::Overdub,
            t.late > 0,
            r@ == hung_over(*sh, li as int, *t, i as int),
            forall|j: int|
                0 <= j < r@.len() ==> ((#[trigger] r@[j]).1 matches Some(p) ==> p
                    < sh.size.max_frames),
        decreases n - i,
    {
        let f: i64 = t.closed_at + i;
        let a = sh.ring_at(src, f - sh.clock.k, 0);
        let b = sh.ring_at(src, f - sh.clock.k, 1);
        match (a, b) {
            (Some(x), Some(y)) => {
                r.push((f, landing(&sh.loops[li], f), x, y));
            },
            _ => {},
        }
        i = i + 1;
    }
    assert(n < 0 ==> hung_over(*sh, li as int, *t, n as int) =~= Seq::empty());
    r
}

/// A late close takes off what it added where it added it: each frame that a
/// buffer laid on an overdub, plain or through a window, rotated or backwards,
/// is taken off the position it landed on.
pub proof fn what_is_taken_off_is_off_where_it_landed(lp: Loop, base: int, n: int, j: int)
    requires
        lp.is_plain() || input::steady(lp),
        ({
            let zero = if lp.is_plain() {
                lp.take.rec_from
            } else {
                lp.body.origin
            };
            0 <= j < input::landings(lp, base - lp.take.rec_from, base - zero, n).len()
        }),
        n <= usize::MAX,
        lp.wf(),
    ensures
        ({
            let zero = if lp.is_plain() {
                lp.take.rec_from
            } else {
                lp.body.origin
            };
            let (i, p) = input::landings(lp, base - lp.take.rec_from, base - zero, n)[j];
            position(landed_at(lp, base + i)) == Some(p)
        }),
    decreases n,
{
    let zero = if lp.is_plain() {
        lp.take.rec_from
    } else {
        lp.body.origin
    };
    let before = input::landings(lp, base - lp.take.rec_from, base - zero, n - 1);
    if j < before.len() {
        what_is_taken_off_is_off_where_it_landed(lp, base, n - 1, j);
    }
}

/// A take whose last frames have arrived by now, and the loop without it.
pub open spec fn drained_by(lp: Loop, clock_ms: u64) -> Option<Take> {
    match lp.closing {
        Some(Closing::Draining(t)) if t.due <= clock_ms => Some(t),
        _ => None,
    }
}

/// Take the close of a loop whose last frames have arrived.
pub fn take_drained(sh: &mut Shared, li: usize, clock_ms: u64) -> (r: Option<Take>)
    requires
        old(sh).wf(),
        li < old(sh).size.n_loops,
    ensures
        final(sh).wf(),
        r == drained_by(old(sh).loops@[li as int], clock_ms),
        r is None ==> *final(sh) == *old(sh),
        r is Some ==> old(sh).but_loop(
            li as int,
            Loop { closing: None, ..old(sh).loops@[li as int] },
            *final(sh),
        ),
        r matches Some(t) ==> closing::take_wf(t, old(sh).size.max_frames),
{
    let ghost a = sh.loops@[li as int];
    assert(sh.loop_ok(a));
    let t: Take = match sh.loops[li].closing {
        Some(Closing::Draining(t)) => t,
        _ => {
            return None;
        },
    };
    proof {
        reveal(shared::sound);
        reveal(Loop::wf);
    }
    if t.due > clock_ms {
        return None;
    }
    let lp = &mut sh.loops[li];
    lp.closing = None;
    proof {
        shared::loop_exchanged(*old(sh), *sh, li as int, sh.loops@[li as int]);
    }
    Some(t)
}

/// An overdub is summed into a layer of its own: making a layer of a take, or
/// of a multiply, leaves the audio of every layer beneath it alone.
pub proof fn a_take_leaves_the_layers_beneath_it_alone(
    pre: Shared,
    li: int,
    t: Take,
    post: Shared,
    r: Said,
    l: int,
)
    requires
        pre.wf(),
        0 <= li < pre.size.n_loops,
        finish_step(pre, li, t, post, r),
        0 <= l < pre.loops@[li].body.n_layers,
        l < pre.size.max_layers,
    ensures
        post.audio()[li][l] == pre.audio()[li][l],
{
}

/// A multiply makes a loop a whole number of its cycles long, and every layer
/// that was as long as a cycle, and sounded in all of them, goes on to.
pub proof fn a_multiply_repeats_what_was_there(
    pre: Shared,
    li: int,
    t: Take,
    post: Shared,
    r: Said,
    l: int,
    cycle: int,
    p: int,
)
    requires
        pre.wf(),
        0 <= li < pre.size.n_loops,
        t.was == Phase::Multiply,
        finish_step(pre, li, t, post, r),
        r is Multiplied,
        0 <= l < pre.loops@[li].body.n_layers,
        pre.loops@[li].layers@[l].len == pre.loops@[li].body.loop_len,
        pre.loops@[li].layers@[l].period <= 1,
        0 <= cycle < t.cycles,
        0 <= p < pre.loops@[li].body.loop_len,
    ensures
        post.loops@[li].body.loop_len == t.cycles * pre.loops@[li].body.loop_len,
        post.loops@[li].layers@[l] == pre.loops@[li].layers@[l],
        post.loops@[li].layers@[l].placed(cycle * pre.loops@[li].body.loop_len + p) == Some(p),
{
    let lp = pre.loops@[li];
    assert(pre.loop_ok(lp));
    shared::sized(lp, pre.size.max_layers, pre.size.max_frames);
    let len = lp.body.loop_len as int;
    assert(0 <= t.cycles * len) by (nonlinear_arith)
        requires
            len >= 0,
    ;
    vstd::arithmetic::div_mod::lemma_fundamental_div_mod_converse(cycle * len + p, len, cycle, p);
}

/// A take that was told its length is that long.
pub proof fn a_sized_take_is_as_long_as_it_was_told(
    pre: Shared,
    li: int,
    t: Take,
    post: Shared,
    r: Said,
)
    requires
        pre.wf(),
        0 <= li < pre.size.n_loops,
        t.was == Phase::First,
        t.quantised_len is None,
        pre.loops@[li].take.rec_len > 0,
        finish_step(pre, li, t, post, r),
        r is Committed,
    ensures
        post.loops@[li].body.loop_len == pre.loops@[li].take.rec_len,
        post.loops@[li].layers@[pre.loops@[li].body.n_layers as int].len == pre.loops@[li].take.rec_len,
{
    assert(pre.loop_ok(pre.loops@[li]));
    shared::sized(pre.loops@[li], pre.size.max_layers, pre.size.max_frames);
}

/// A first take that is off the grid and was told no length has back what its
/// start missed. Where the press was measured to be late, or the sound it
/// waited for came before it, that is what is missing, and else what the rig
/// assumes: the loop begins so much earlier, is so much longer, opens with
/// what came in then, and goes on with what was recorded.
pub proof fn a_late_start_is_made_good(
    pre: Shared,
    li: int,
    t: Take,
    post: Shared,
    r: Said,
    missed: int,
    played: int,
    i: int,
    ch: int,
)
    requires
        pre.wf(),
        0 <= li < pre.size.n_loops,
        closing::take_wf(t, pre.size.max_frames),
        finish_step(pre, li, t, post, r),
        pre.loops@[li].body.n_layers < pre.size.max_layers,
        t.was == Phase::First,
        t.quantised_len is None,
        pre.loops@[li].take.rec_len == 0,
        pre.loops@[li].take.started_late > 0 ==> missed == pre.loops@[li].take.started_late,
        pre.loops@[li].take.started_late <= 0 ==> missed == pre.desk.preroll,
        t.late <= 0 ==> played == pre.loops@[li].take.reached,
        t.late > 0 ==> played <= pre.loops@[li].take.reached && played <= t.closed_at
            - pre.loops@[li].body.origin && (played == pre.loops@[li].take.reached || played
            == t.closed_at - pre.loops@[li].body.origin),
        played > 0,
        missed > 0,
        pre.loops@[li].take.reached + missed <= pre.size.max_frames,
        pre.loops@[li].body.origin >= missed,
        0 <= i < missed + played,
        0 <= ch < 2,
    ensures
        post.loops@[li].body.origin == pre.loops@[li].body.origin - missed,
        post.loops@[li].body.loop_len == played + missed,
        ({
            let n = pre.loops@[li].body.n_layers as int;
            let new = post.audio()[li][n][2 * i + ch];
            let old = pre.audio()[li][n];
            if i < missed {
                match pre.recalled(
                    pre.source_of(li),
                    pre.loops@[li].body.origin - missed + i - pre.clock.k,
                    ch,
                ) {
                    Some(v) => new == v,
                    None => new == 0,
                }
            } else {
                new == old[2 * (i - missed) + ch]
            }
        }),
        !pre.loops@[li].habit.revox ==> {
            let n = pre.loops@[li].body.n_layers as int;
            &&& post.loops@[li].body.n_layers == n + 1
            &&& post.loops@[li].layers@[n].len == played + missed
            &&& post.loops@[li].layers@[n].tail == pre.loops@[li].take.reached - played
        },
{
    let lp = pre.loops@[li];
    assert(pre.loop_ok(lp));
    front_fits(lp, t, pre.desk.preroll, pre.size.max_layers, pre.size.max_frames);
    first_sound(pre, li, t);
    shared::sized(lp, pre.size.max_layers, pre.size.max_frames);
    assert(lp.body.n_layers < pre.arena@[li]@.len());
    assert(pre.tape(li, lp.body.n_layers as int).len() == 2 * pre.size.max_frames);
    let j = 2 * i + ch;
    assert(j / 2 == i && j % 2 == ch);
}

/// A first take that missed nothing, or whose front does not fit or would
/// reach back before the clock, stays where it began and as long as it was
/// played, with what was recorded on it.
pub proof fn a_take_with_nothing_to_make_good_stays_as_it_is(
    pre: Shared,
    li: int,
    t: Take,
    post: Shared,
    r: Said,
    missed: int,
)
    requires
        pre.wf(),
        0 <= li < pre.size.n_loops,
        closing::take_wf(t, pre.size.max_frames),
        finish_step(pre, li, t, post, r),
        pre.loops@[li].body.n_layers < pre.size.max_layers,
        t.was == Phase::First,
        t.quantised_len is None,
        pre.loops@[li].take.rec_len == 0,
        t.late <= 0,
        pre.loops@[li].take.reached > 0,
        pre.loops@[li].take.started_late > 0 ==> missed == pre.loops@[li].take.started_late,
        pre.loops@[li].take.started_late <= 0 ==> missed == pre.desk.preroll,
        missed == 0 || pre.loops@[li].take.reached + missed > pre.size.max_frames
            || pre.loops@[li].body.origin < missed,
    ensures
        post.loops@[li].body.origin == pre.loops@[li].body.origin,
        post.loops@[li].body.loop_len == pre.loops@[li].take.reached,
        post.audio() == pre.audio(),
{
    let lp = pre.loops@[li];
    assert(pre.loop_ok(lp));
    front_fits(lp, t, pre.desk.preroll, pre.size.max_layers, pre.size.max_frames);
    first_sound(pre, li, t);
    assert(pre.arena@[li]@.len() == pre.size.max_layers);
    let n = lp.body.n_layers as int;
    assert(pre.audio()[li].update(n, pre.tape(li, n)) =~= pre.audio()[li]);
    assert(post.audio() =~= pre.audio());
}

/// What is played across a multiply comes round where it was played: on a loop
/// that plays plainly, a frame of the multiply is heard again any number of
/// the new, longer cycles later, at the position it was written to, which is
/// how far into the multiply it was.
pub proof fn a_multiply_comes_round_where_it_was_played(
    pre: Shared,
    li: int,
    t: Take,
    post: Shared,
    r: Said,
    f: int,
    c: int,
)
    requires
        pre.wf(),
        0 <= li < pre.size.n_loops,
        t.was == Phase::Multiply,
        finish_step(pre, li, t, post, r),
        r is Multiplied,
        pre.loops@[li].is_plain(),
        pre.loops@[li].edit.rot == 0,
        pre.loops@[li].take.rec_from <= f < pre.loops@[li].take.rec_from + t.cycles
            * pre.loops@[li].body.loop_len,
    ensures
        ({
            let len = t.cycles * pre.loops@[li].body.loop_len;
            let from = pre.loops@[li].take.rec_from;
            let b = post.loops@[li];
            let n = pre.loops@[li].body.n_layers as int;
            let later = f + c * len;
            &&& b.body.loop_len == len
            &&& (from - b.body.origin) % len == 0
            &&& (later - b.body.origin) % len == f - from
            &&& b.whole_travel(later) == Some(later - b.body.origin)
            &&& b.heard(later - b.body.origin, len) == f - from
            &&& b.body.n_layers == n + 1
            &&& b.layers@[n].placed(f - from) == Some(f - from)
            &&& post.audio() == pre.audio()
        }),
{
    let lp = pre.loops@[li];
    assert(pre.loop_ok(lp));
    shared::sized(lp, pre.size.max_layers, pre.size.max_frames);
    let len = t.cycles * lp.body.loop_len;
    let from = lp.take.rec_from;
    let b = post.loops@[li];
    let p = f - from;
    vstd::arithmetic::div_mod::lemma_small_mod(0, len as nat);
    vstd::arithmetic::div_mod::lemma_mod_multiples_vanish(c, p, len);
    vstd::arithmetic::div_mod::lemma_small_mod(p as nat, len as nat);
    assert(c * len == len * c) by (nonlinear_arith);
}

/// An overdub becomes a layer of its own, as long as the loop, in phase with
/// it and at full level. The loop is as long and begins where it did, and what
/// was laid on the layer is what is heard of it. Where it was closed late, what
/// came in after the press is kept past its end.
pub proof fn an_overdub_becomes_a_layer_in_phase(
    pre: Shared,
    li: int,
    t: Take,
    post: Shared,
    r: Said,
    i: int,
    ch: int,
)
    requires
        pre.wf(),
        0 <= li < pre.size.n_loops,
        closing::take_wf(t, pre.size.max_frames),
        finish_step(pre, li, t, post, r),
        t.was == Phase::Overdub,
        !pre.loops@[li].habit.revox,
        pre.loops@[li].body.n_layers < pre.size.max_layers,
        0 <= i < pre.size.max_frames,
        0 <= ch < 2,
    ensures
        r is Committed,
        ({
            let a = pre.loops@[li];
            let b = post.loops@[li];
            let n = a.body.n_layers as int;
            let len = a.body.loop_len;
            let new = post.audio()[li][n][2 * i + ch];
            let old = pre.audio()[li][n][2 * i + ch];
            &&& b.body.origin == a.body.origin
            &&& b.body.loop_len == len
            &&& b.body.cycles == a.body.cycles
            &&& b.body.n_layers == n + 1
            &&& b.body.redo_to == n + 1
            &&& b.layers@[n].len == len
            &&& b.layers@[n].gain == bits::ONE
            &&& b.layers@[n].on
            &&& i < len ==> b.layers@[n].placed(i as int) == Some(i as int)
            &&& i < len || t.late <= 0 ==> new == old
            &&& t.late <= 0 ==> b.layers@[n].tail == 0
            &&& t.late > 0 && len > 0 && len <= i < len + (a.take.rec_reached - t.closed_at)
                ==> match pre.recalled(
                pre.source_of(li),
                t.closed_at + (i - len) - pre.clock.k,
                ch,
            ) {
                Some(v) => new == v,
                None => new == old,
            }
            &&& forall|l: int| 0 <= l < n ==> #[trigger] b.layers@[l] == a.layers@[l]
        }),
{
    let a = pre.loops@[li];
    assert(pre.loop_ok(a));
    shared::sized(a, pre.size.max_layers, pre.size.max_frames);
    assert(pre.arena@[li]@.len() == pre.size.max_layers);
    let n = a.body.n_layers as int;
    assert(pre.tape(li, n).len() == 2 * pre.size.max_frames);
    let j = 2 * i + ch;
    assert(j / 2 == i && j % 2 == ch);
    if i < a.body.loop_len {
        vstd::arithmetic::div_mod::lemma_small_mod(i as nat, a.body.loop_len as nat);
    }
}

/// The first take of a rig that has no grid gives it one, and the grid stays
/// with the loop that gave it. A clock that says what a bar is makes the take
/// the nearest number of bars, and one at least.
pub proof fn the_first_take_gives_the_grid(
    pre: Shared,
    li: int,
    t: Take,
    post: Shared,
    r: Said,
)
    requires
        pre.wf(),
        0 <= li < pre.size.n_loops,
        closing::take_wf(t, pre.size.max_frames),
        finish_step(pre, li, t, post, r),
        r is Committed,
    ensures
        t.was == Phase::First && pre.desk.anchor == shared::NO_ANCHOR ==> post.desk.anchor == li,
        t.was != Phase::First || pre.desk.anchor != shared::NO_ANCHOR ==> post.desk == pre.desk,
        t.was == Phase::First && pre.link.link_bar_frames == 0 ==> post.loops@[li].body.cycles
            == pre.loops@[li].body.cycles,
        t.was == Phase::First && pre.link.link_bar_frames > 0 ==> {
            let n = post.loops@[li].body.cycles;
            let bar = pre.link.link_bar_frames;
            let len = post.loops@[li].body.loop_len;
            &&& n >= 1
            &&& 2 * (n * bar) <= 2 * len + bar || n == 1
            &&& 2 * len < 2 * (n * bar) + bar
        },
        t.was == Phase::First ==> post.loops@[li].take.rec_len == 0,
{
    let a = pre.loops@[li];
    assert(pre.loop_ok(a));
    shared::sized(a, pre.size.max_layers, pre.size.max_frames);
    first_sound(pre, li, t);
    let bar = pre.link.link_bar_frames as int;
    if t.was == Phase::First && bar > 0 {
        let len = post.loops@[li].body.loop_len as int;
        num::nearest_is_near(len, bar);
        bars_bounded(len, bar);
        let m = num::nearest(len, bar);
        assert(2 * bar * m == 2 * (m * bar)) by (nonlinear_arith);
        assert(1 * bar == bar);
        assert(m < 1 ==> m * bar <= 0) by (nonlinear_arith)
            requires
                bar > 0,
        ;
    }
}

/// A first take on the grid is as long as the grid gave it, begins where it
/// began, and is what was recorded: no front is recovered for it.
pub proof fn a_take_on_the_grid_begins_on_its_line(
    pre: Shared,
    li: int,
    t: Take,
    post: Shared,
    r: Said,
)
    requires
        pre.wf(),
        0 <= li < pre.size.n_loops,
        closing::take_wf(t, pre.size.max_frames),
        finish_step(pre, li, t, post, r),
        pre.loops@[li].body.n_layers < pre.size.max_layers,
        t.was == Phase::First,
        t.quantised_len is Some,
    ensures
        post.loops@[li].body.loop_len == t.quantised_len.unwrap(),
        post.loops@[li].body.origin == pre.loops@[li].body.origin,
        post.audio() == pre.audio(),
{
    let lp = pre.loops@[li];
    assert(pre.loop_ok(lp));
    front_fits(lp, t, pre.desk.preroll, pre.size.max_layers, pre.size.max_frames);
    first_sound(pre, li, t);
    assert(pre.arena@[li]@.len() == pre.size.max_layers);
    let n = lp.body.n_layers as int;
    assert(pre.audio()[li].update(n, pre.tape(li, n)) =~= pre.audio()[li]);
    assert(post.audio() =~= pre.audio());
}

/// A take that was told its length and missed its start is moved up by what it
/// missed, which is in front of it, and is still as long as it was told.
pub proof fn a_sized_take_has_its_front_too(
    pre: Shared,
    li: int,
    t: Take,
    post: Shared,
    r: Said,
    missed: int,
    i: int,
    ch: int,
)
    requires
        pre.wf(),
        0 <= li < pre.size.n_loops,
        closing::take_wf(t, pre.size.max_frames),
        finish_step(pre, li, t, post, r),
        pre.loops@[li].body.n_layers < pre.size.max_layers,
        t.was == Phase::First,
        t.quantised_len is None,
        pre.loops@[li].take.rec_len > 0,
        pre.loops@[li].take.started_late > 0 ==> missed == pre.loops@[li].take.started_late,
        pre.loops@[li].take.started_late <= 0 ==> missed == pre.desk.preroll,
        missed > 0,
        pre.loops@[li].take.reached + missed <= pre.size.max_frames,
        pre.loops@[li].take.rec_len + missed <= pre.size.max_frames,
        pre.loops@[li].body.origin >= missed,
        0 <= i < missed + pre.loops@[li].take.reached,
        0 <= ch < 2,
    ensures
        post.loops@[li].body.origin == pre.loops@[li].body.origin - missed,
        post.loops@[li].body.loop_len == pre.loops@[li].take.rec_len,
        ({
            let n = pre.loops@[li].body.n_layers as int;
            let new = post.audio()[li][n][2 * i + ch];
            if i < missed {
                match pre.recalled(
                    pre.source_of(li),
                    pre.loops@[li].body.origin - missed + i - pre.clock.k,
                    ch,
                ) {
                    Some(v) => new == v,
                    None => new == 0,
                }
            } else {
                new == pre.audio()[li][n][2 * (i - missed) + ch]
            }
        }),
{
    let lp = pre.loops@[li];
    assert(pre.loop_ok(lp));
    front_fits(lp, t, pre.desk.preroll, pre.size.max_layers, pre.size.max_frames);
    first_sound(pre, li, t);
    shared::sized(lp, pre.size.max_layers, pre.size.max_frames);
    assert(lp.body.n_layers < pre.arena@[li]@.len());
    assert(pre.tape(li, lp.body.n_layers as int).len() == 2 * pre.size.max_frames);
    let j = 2 * i + ch;
    assert(j / 2 == i && j % 2 == ch);
}

/// A layer is born on the pass its take was closed on, which its decay counts
/// from: on a loop that plays plainly, as many whole loop lengths after its
/// zero.
pub proof fn a_layer_is_born_on_the_pass_it_was_closed_on(
    pre: Shared,
    li: int,
    t: Take,
    post: Shared,
    r: Said,
)
    requires
        pre.wf(),
        0 <= li < pre.size.n_loops,
        closing::take_wf(t, pre.size.max_frames),
        finish_step(pre, li, t, post, r),
        r is Committed,
        pre.loops@[li].is_plain(),
        post.loops@[li].body.loop_len > 0,
    ensures
        ({
            let b = post.loops@[li];
            let born = b.layers@[pre.loops@[li].body.n_layers as int].born;
            let since = t.closed_at - b.body.origin;
            born * b.body.loop_len <= since < (born + 1) * b.body.loop_len
        }),
{
    let a = pre.loops@[li];
    assert(pre.loop_ok(a));
    shared::sized(a, pre.size.max_layers, pre.size.max_frames);
    first_sound(pre, li, t);
    let mid = taken_loop(pre, li, t);
    let len = mid.body.loop_len as int;
    let since = t.closed_at - mid.body.origin;
    vstd::arithmetic::div_mod::lemma_fundamental_div_mod(since, len);
    pass_bounded(mid, since, len);
    assert(frame::near(mid.body.origin)) by {
        reveal(shared::sound);
        reveal(Loop::wf);
    }
    let q = since / len;
    assert(q * len == len * q && (q + 1) * len == len * q + len) by (nonlinear_arith);
}

/// What is taken off an overdub that was closed late is what came after the
/// press: each frame once, in order, with both of its samples as they came in,
/// and where it was added. A loop that records over itself, and a press that
/// was not late, have nothing taken off.
pub proof fn what_is_taken_off_is_what_came_after(
    sh: Shared,
    li: int,
    t: Take,
    n: int,
    k: int,
)
    requires
        frame::near(t.closed_at),
        0 <= n,
        i64::MIN <= t.closed_at + n <= i64::MAX,
    ensures
        ({
            let off = hung_over(sh, li, t, n);
            let src = sh.source_of(li);
            &&& sh.loops@[li].habit.revox || t.late <= 0 || t.was != Phase::Overdub ==> off.len()
                == 0
            &&& off.len() <= n
            &&& 0 <= k < off.len() ==> {
                let (f, at, a, b) = off[k];
                &&& t.closed_at <= f < t.closed_at + n
                &&& at == position(landed_at(sh.loops@[li], f as int))
                &&& sh.recalled(src, f - sh.clock.k, 0) == Some(a)
                &&& sh.recalled(src, f - sh.clock.k, 1) == Some(b)
            }
            &&& 0 < k < off.len() ==> off[k - 1].0 < off[k].0
        }),
    decreases n,
{
    if n > 0 {
        what_is_taken_off_is_what_came_after(sh, li, t, n - 1, k);
        what_is_taken_off_is_what_came_after(sh, li, t, n - 1, k - 1);
    }
}

/// A take is read once its last frames have arrived, and not before.
pub proof fn a_take_is_read_once_it_has_drained(lp: Loop, t: Take, clock_ms: u64)
    requires
        lp.closing == Some(Closing::Draining(t)),
    ensures
        t.due <= clock_ms ==> drained_by(lp, clock_ms) == Some(t),
        t.due > clock_ms ==> drained_by(lp, clock_ms) is None,
{
}

/// What an overdub that was closed late has past its end is what of it is
/// still held: all that came after the press and fits where all of it is, and
/// nothing where none is.
pub proof fn an_overdub_carries_on_as_far_as_is_held(
    pre: Shared,
    li: int,
    t: Take,
    post: Shared,
    r: Said,
    over: int,
)
    requires
        pre.wf(),
        0 <= li < pre.size.n_loops,
        closing::take_wf(t, pre.size.max_frames),
        finish_step(pre, li, t, post, r),
        r is Committed,
        t.was == Phase::Overdub,
        pre.loops@[li].body.loop_len > 0,
        over == pre.loops@[li].take.rec_reached - t.closed_at,
        0 <= over <= pre.size.max_frames - pre.loops@[li].body.loop_len,
    ensures
        ({
            let l = post.loops@[li].layers@[pre.loops@[li].body.n_layers as int];
            let src = pre.source_of(li);
            &&& t.late <= 0 ==> l.tail == 0
            &&& l.tail <= over
            &&& t.late > 0 && (forall|p: int|
                0 <= p < over ==> pre.recalled(
                    src,
                    #[trigger] (t.closed_at + p) - pre.clock.k,
                    0,
                ) is Some) ==> l.tail == over
            &&& (forall|p: int|
                0 <= p < over ==> pre.recalled(
                    src,
                    #[trigger] (t.closed_at + p) - pre.clock.k,
                    0,
                ) is None) ==> l.tail == 0
        }),
{
    assert(pre.loop_ok(pre.loops@[li]));
    shared::sized(pre.loops@[li], pre.size.max_layers, pre.size.max_frames);
    past::what_is_held_is_counted(pre, pre.source_of(li), t.closed_at as int, over);
}

} // verus!
