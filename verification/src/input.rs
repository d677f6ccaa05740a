//! What happens to a buffer of input: the recent past is kept, a sound is
//! listened for, and a recording is written.

use crate::bits;
use crate::bits::{MINUS_ONE_WIDE, ONE_WIDE};
use crate::frame;
use crate::loop_state;
use crate::loop_state::{Loop, Progress, ENV_BUCKETS};
use crate::next_take::{NextTake, ARMED, NEVER};
use crate::num;
use crate::phase::Phase;
use crate::shared;
use crate::shared::{Clock, Shared};
use crate::source::Source;
use vstd::prelude::*;

verus! {

/// The sample of a buffer at frame `f` on input `c`.
pub open spec fn sample(data: Seq<u32>, inputs: int, f: int, c: int) -> u32 {
    data[f * inputs + c]
}

/// The louder of a source's two channels at frame `f`.
pub open spec fn loud(data: Seq<u32>, inputs: int, f: int, src: Source) -> u32 {
    bits::louder(
        bits::louder(0, sample(data, inputs, f, src.ch@[0] as int)),
        sample(data, inputs, f, src.ch@[1] as int),
    )
}

/// A buffer holds `frames` frames and a source is on inputs that there are.
pub open spec fn carries(data: Seq<u32>, inputs: int, frames: int, src: Source) -> bool {
    &&& src.ch@[0] < inputs
    &&& src.ch@[1] < inputs
    &&& frames * inputs <= data.len()
}

fn sample_at(data: &Vec<u32>, inputs: usize, frames: usize, f: usize, c: usize) -> (r: u32)
    requires
        f < frames,
        c < inputs,
        frames * inputs <= data@.len(),
    ensures
        r == sample(data@, inputs as int, f as int, c as int),
{
    assert(data.len() == data@.len());
    assert(f * inputs + c < frames * inputs && f * inputs >= 0) by (nonlinear_arith)
        requires
            0 <= f < frames,
            0 <= c < inputs,
    ;
    data[f * inputs + c]
}

fn loud_at(data: &Vec<u32>, inputs: usize, frames: usize, f: usize, src: &Source) -> (r: u32)
    requires
        f < frames,
        carries(data@, inputs as int, frames as int, *src),
    ensures
        r == loud(data@, inputs as int, f as int, *src),
{
    let a: u32 = sample_at(data, inputs, frames, f, src.ch[0]);
    let b: u32 = sample_at(data, inputs, frames, f, src.ch[1]);
    bits::loudest(bits::loudest(0, a), b)
}

/// A ring after the first `n` frames of a buffer that starts at input frame
/// `base` have been kept in it: each in the slot its frame number comes
/// round to.
pub open spec fn kept(
    ring: Seq<u32>,
    ring_len: int,
    data: Seq<u32>,
    inputs: int,
    src: Source,
    base: int,
    n: int,
) -> Seq<u32>
    decreases n,
{
    if n <= 0 {
        ring
    } else {
        let slot = (base + n - 1) % ring_len;
        kept(ring, ring_len, data, inputs, src, base, n - 1).update(
            2 * slot,
            sample(data, inputs, n - 1, src.ch@[0] as int),
        ).update(2 * slot + 1, sample(data, inputs, n - 1, src.ch@[1] as int))
    }
}

/// The loudest of the first `n` frames.
pub open spec fn peak_in(peak: u32, data: Seq<u32>, inputs: int, src: Source, n: int) -> u32
    decreases n,
{
    if n <= 0 {
        peak
    } else {
        bits::louder(
            bits::louder(
                peak_in(peak, data, inputs, src, n - 1),
                sample(data, inputs, n - 1, src.ch@[0] as int),
            ),
            sample(data, inputs, n - 1, src.ch@[1] as int),
        )
    }
}

fn keep(
    ring: &mut Vec<u32>,
    ring_len: usize,
    data: &Vec<u32>,
    inputs: usize,
    frames: usize,
    src: &Source,
    base: usize,
) -> (r: u32)
    requires
        ring_len >= 1,
        old(ring)@.len() == 2 * ring_len,
        carries(data@, inputs as int, frames as int, *src),
        base + frames <= usize::MAX,
    ensures
        final(ring)@ == kept(
            old(ring)@,
            ring_len as int,
            data@,
            inputs as int,
            *src,
            base as int,
            frames as int,
        ),
        final(ring)@.len() == old(ring)@.len(),
        r == peak_in(0, data@, inputs as int, *src, frames as int),
{
    let ghost before = ring@;
    let size: usize = ring.len();
    let mut peak: u32 = 0;
    let mut f: usize = 0;
    while f < frames
        invariant
            f <= frames,
            size == 2 * ring_len,
            ring_len >= 1,
            ring@.len() == size,
            carries(data@, inputs as int, frames as int, *src),
            base + frames <= usize::MAX,
            ring@ == kept(
                before,
                ring_len as int,
                data@,
                inputs as int,
                *src,
                base as int,
                f as int,
            ),
            peak == peak_in(0, data@, inputs as int, *src, f as int),
        decreases frames - f,
    {
        let slot: usize = (base + f) % ring_len;
        let a: u32 = sample_at(data, inputs, frames, f, src.ch[0]);
        let b: u32 = sample_at(data, inputs, frames, f, src.ch[1]);
        ring.set(2 * slot, a);
        ring.set(2 * slot + 1, b);
        peak = bits::loudest(bits::loudest(peak, a), b);
        f = f + 1;
    }
    peak
}

/// The positions of a layer that a buffer is written to when the frame at
/// its start is `start` frames into the take: from the take's zero on, and
/// no further than there is room.
pub open spec fn first_written(start: int) -> int {
    num::larger(start, 0)
}

/// One past the last of them.
pub open spec fn past_written(start: int, frames: int, max_frames: int) -> int {
    num::larger(num::smaller(start + frames, max_frames), first_written(start))
}

/// A layer after a buffer has been written to it.
pub open spec fn written(
    tape: Seq<u32>,
    data: Seq<u32>,
    inputs: int,
    src: Source,
    start: int,
    from: int,
    to: int,
) -> Seq<u32> {
    Seq::new(
        tape.len(),
        |i: int|
            if from <= i / 2 < to {
                sample(data, inputs, i / 2 - start, src.ch@[i % 2] as int)
            } else {
                tape[i]
            },
    )
}

fn write_frames(
    tape: &mut Vec<u32>,
    data: &Vec<u32>,
    inputs: usize,
    frames: usize,
    src: &Source,
    start: i64,
    from: usize,
    to: usize,
)
    requires
        carries(data@, inputs as int, frames as int, *src),
        frame::safe(start as int),
        from <= to,
        from == to || (start <= from && to - start <= frames),
        2 * to <= old(tape)@.len(),
        frame::fits(to),
    ensures
        final(tape)@ == written(
            old(tape)@,
            data@,
            inputs as int,
            *src,
            start as int,
            from as int,
            to as int,
        ),
{
    let ghost before = tape@;
    let size: usize = tape.len();
    let mut p: usize = from;
    assert(written(before, data@, inputs as int, *src, start as int, from as int, from as int)
        =~= before);
    while p < to
        invariant
            from <= p <= to,
            carries(data@, inputs as int, frames as int, *src),
            frame::safe(start as int),
            from == to || (start <= from && to - start <= frames),
            size == tape@.len(),
            before.len() == size,
            2 * to <= size,
            frame::fits(to),
            tape@ == written(
                before,
                data@,
                inputs as int,
                *src,
                start as int,
                from as int,
                p as int,
            ),
        decreases to - p,
    {
        let f: usize = (p as i64 - start) as usize;
        let a: u32 = sample_at(data, inputs, frames, f, src.ch[0]);
        let b: u32 = sample_at(data, inputs, frames, f, src.ch[1]);
        tape.set(2 * p, a);
        tape.set(2 * p + 1, b);
        assert(tape@ =~= written(
            before,
            data@,
            inputs as int,
            *src,
            start as int,
            from as int,
            p + 1,
        ));
        p = p + 1;
    }
}

/// A picture after the positions `from..to` have been marked on it: each at
/// its share of `whole`.
pub open spec fn pictured(
    env: Seq<u32>,
    data: Seq<u32>,
    inputs: int,
    src: Source,
    start: int,
    from: int,
    to: int,
    whole: int,
) -> Seq<u32>
    decreases to - from,
{
    if to <= from {
        env
    } else {
        loop_state::marked(
            pictured(env, data, inputs, src, start, from, to - 1, whole),
            (to - 1) * ENV_BUCKETS / whole,
            loud(data, inputs, to - 1 - start, src),
        )
    }
}

fn share(pos: usize, whole: usize) -> (r: usize)
    requires
        pos < whole,
        frame::fits(whole),
    ensures
        r == pos * ENV_BUCKETS / whole as int,
        r < ENV_BUCKETS,
{
    proof {
        assert(0 <= pos * ENV_BUCKETS && pos * ENV_BUCKETS < ENV_BUCKETS * whole)
            by (nonlinear_arith)
            requires
                0 <= pos < whole,
        ;
        assert((pos * ENV_BUCKETS) / whole as int <= ENV_BUCKETS - 1
            && (pos * ENV_BUCKETS) / whole as int >= 0) by (nonlinear_arith)
            requires
                0 <= pos * ENV_BUCKETS < ENV_BUCKETS * whole,
                whole > 0,
        ;
    }
    let r: u128 = (pos as u128) * 192u128 / (whole as u128);
    r as usize
}

fn mark_frames(
    env: &mut Vec<u32>,
    data: &Vec<u32>,
    inputs: usize,
    frames: usize,
    src: &Source,
    start: i64,
    from: usize,
    to: usize,
    whole: usize,
)
    requires
        carries(data@, inputs as int, frames as int, *src),
        frame::safe(start as int),
        from <= to,
        from == to || (start <= from && to - start <= frames),
        to <= whole,
        frame::fits(whole),
    ensures
        final(env)@ == pictured(
            old(env)@,
            data@,
            inputs as int,
            *src,
            start as int,
            from as int,
            to as int,
            whole as int,
        ),
        final(env)@.len() == old(env)@.len(),
{
    let ghost before = env@;
    let mut p: usize = from;
    while p < to
        invariant
            from <= p <= to,
            carries(data@, inputs as int, frames as int, *src),
            frame::safe(start as int),
            from == to || (start <= from && to - start <= frames),
            to <= whole,
            frame::fits(whole),
            env@.len() == before.len(),
            env@ == pictured(
                before,
                data@,
                inputs as int,
                *src,
                start as int,
                from as int,
                p as int,
                whole as int,
            ),
        decreases to - p,
    {
        let f: usize = (p as i64 - start) as usize;
        let l: u32 = loud_at(data, inputs, frames, f, src);
        let b: usize = share(p, whole);
        if b < env.len() {
            let was: u32 = env[b];
            env.set(b, bits::loudest(was, l));
        }
        p = p + 1;
    }
}

/// Whether a source reaches a level at frame `f`.
pub open spec fn reaches(data: Seq<u32>, inputs: int, src: Source, level: u32, f: int) -> bool {
    ||| bits::up_to(level, bits::unsigned(sample(data, inputs, f, src.ch@[0] as int)))
    ||| bits::up_to(level, bits::unsigned(sample(data, inputs, f, src.ch@[1] as int)))
}

/// The first frame at which a source reaches a level.
pub open spec fn first_reach(
    data: Seq<u32>,
    inputs: int,
    frames: int,
    src: Source,
    level: u32,
    r: Option<usize>,
) -> bool {
    match r {
        Some(f) => f < frames && reaches(data, inputs, src, level, f as int) && forall|g: int|
            0 <= g < f ==> !#[trigger] reaches(data, inputs, src, level, g),
        None => forall|g: int| 0 <= g < frames ==> !#[trigger] reaches(data, inputs, src, level, g),
    }
}

fn crossing(data: &Vec<u32>, inputs: usize, frames: usize, src: &Source, level: u32) -> (r: Option<
    usize,
>)
    requires
        carries(data@, inputs as int, frames as int, *src),
    ensures
        first_reach(data@, inputs as int, frames as int, *src, level, r),
{
    let mut f: usize = 0;
    while f < frames
        invariant
            f <= frames,
            carries(data@, inputs as int, frames as int, *src),
            forall|g: int|
                0 <= g < f ==> !#[trigger] reaches(data@, inputs as int, *src, level, g),
        decreases frames - f,
    {
        let a: u32 = sample_at(data, inputs, frames, f, src.ch[0]);
        let b: u32 = sample_at(data, inputs, frames, f, src.ch[1]);
        if bits::at_most(level, bits::absolute(a)) || bits::at_most(level, bits::absolute(b)) {
            return Some(f);
        }
        f = f + 1;
    }
    None
}

/// The plan of a loop that has heard the sound it listened for, at output
/// frame `at`. On the grid it waits for the line, which it starts on; off
/// it, the take is dated back to before the sound.
pub open spec fn sound_plan(sh: Shared, li: int, at: int) -> NextTake {
    let lp = sh.loops@[li];
    match if lp.habit.quant {
        sh.boundary(at)
    } else {
        None
    } {
        Some(t) => NextTake {
            request: ARMED,
            request_at: t as i64,
            arm_from: NEVER,
            ..lp.next
        },
        None => NextTake {
            request: ARMED,
            request_at: NEVER,
            arm_from: (at - sh.desk.arm_reach) as i64,
            ..lp.next
        },
    }
}

/// A loop that has heard the sound it listened for, at output frame `at`.
pub open spec fn heard_sound(sh: Shared, li: int, at: int) -> Loop {
    Loop { next: sound_plan(sh, li, at), ..sh.loops@[li] }
}

proof fn next_wf(lp: Loop, next: NextTake, max_layers: usize, max_frames: usize)
    requires
        shared::sound(lp, max_layers, max_frames),
        frame::maybe_near(next.request_at),
        frame::maybe_near(next.arm_from),
    ensures
        shared::sound(Loop { next, ..lp }, max_layers, max_frames),
{
    reveal(shared::sound);
    reveal(Loop::wf);
}

fn plan_for_sound(sh: &Shared, li: usize, at: i64) -> (r: NextTake)
    requires
        sh.wf(),
        li < sh.size.n_loops,
        frame::safe(8 * at),
    ensures
        r == sound_plan(*sh, li as int, at as int),
        frame::maybe_near(r.request_at),
        frame::maybe_near(r.arm_from),
{
    let boundary = if sh.loops[li].habit.quant {
        sh.next_boundary(at)
    } else {
        None
    };
    let mut next = sh.loops[li].next;
    match boundary {
        Some(t) => {
            next.set_from(t, NEVER);
        },
        None => {
            next.set_from(NEVER, at - sh.desk.arm_reach as i64);
        },
    }
    next
}

/// A listening loop has heard its sound, at output frame `at`.
pub fn crossed(sh: &mut Shared, li: usize, at: i64)
    requires
        old(sh).wf(),
        li < old(sh).size.n_loops,
        frame::safe(8 * at),
    ensures
        final(sh).wf(),
        old(sh).but_loop(li as int, heard_sound(*old(sh), li as int, at as int), *final(sh)),
{
    let next = plan_for_sound(sh, li, at);
    proof {
        assert(sh.loop_ok(sh.loops@[li as int]));
        next_wf(sh.loops@[li as int], next, sh.size.max_layers, sh.size.max_frames);
    }
    let lp = &mut sh.loops[li];
    lp.next = next;
    proof {
        shared::loop_exchanged(*old(sh), *sh, li as int, sh.loops@[li as int]);
    }
}

/// The position a play head passes over in a frame, `d` frames after it was
/// at zero: going back it is the one before.
pub open spec fn passed_over(lp: Loop, d: int) -> int {
    if lp.play.speed == MINUS_ONE_WIDE {
        -d - 1
    } else {
        d
    }
}

/// Where each of the first `n` frames of a buffer lands in a loop when the
/// frame at the buffer's start is `into` frames into the take and `start`
/// frames after position zero: its number and its position, and nothing for
/// one that is before the take or lands nowhere.
pub open spec fn landings(lp: Loop, into: int, start: int, n: int) -> Seq<(usize, usize)>
    decreases n,
{
    if n <= 0 {
        Seq::empty()
    } else {
        let before = landings(lp, into, start, n - 1);
        match lp.written(passed_over(lp, start + n - 1), lp.body.loop_len as int) {
            Some(p) if into + n - 1 >= 0 => before.push(((n - 1) as usize, p as usize)),
            _ => before,
        }
    }
}

/// Where the frames of a buffer land in a loop.
fn land(lp: &Loop, into: i64, start: i64, frames: usize) -> (r: Vec<(usize, usize)>)
    requires
        lp.wf(),
        frame::safe(into as int),
        frame::safe(start as int),
        frame::fits(frames),
    ensures
        r@ == landings(*lp, into as int, start as int, frames as int),
        forall|i: int| 0 <= i < r@.len() ==> (#[trigger] r@[i]).0 < frames && r@[i].1 < lp.body.loop_len,
{
    assert(frame::short(lp.body.loop_len)) by {
        reveal(Loop::wf);
    }
    let mut r: Vec<(usize, usize)> = Vec::new();
    let mut f: usize = 0;
    while f < frames
        invariant
            f <= frames,
            lp.wf(),
            frame::short(lp.body.loop_len),
            frame::safe(into as int),
            frame::safe(start as int),
            frame::fits(frames),
            r@ == landings(*lp, into as int, start as int, f as int),
            forall|i: int|
                0 <= i < r@.len() ==> (#[trigger] r@[i]).0 < frames && r@[i].1 < lp.body.loop_len,
        decreases frames - f,
    {
        if into + f as i64 >= 0 {
            let d: i64 = start + f as i64;
            let raw: i64 = if lp.play.speed == MINUS_ONE_WIDE {
                -d - 1
            } else {
                d
            };
            match lp.write_pos(raw, lp.body.loop_len) {
                Some(p) => {
                    r.push((f, p));
                },
                None => {},
            }
        }
        f = f + 1;
    }
    r
}

/// A picture after the first `n` of the frames that landed have been marked
/// on it.
pub open spec fn landed_picture(
    env: Seq<u32>,
    data: Seq<u32>,
    inputs: int,
    src: Source,
    at: Seq<(usize, usize)>,
    n: int,
    whole: int,
) -> Seq<u32>
    decreases n,
{
    if n <= 0 {
        env
    } else {
        loop_state::marked(
            landed_picture(env, data, inputs, src, at, n - 1, whole),
            at[n - 1].1 * ENV_BUCKETS / whole,
            loud(data, inputs, at[n - 1].0 as int, src),
        )
    }
}

fn mark_landed(
    env: &mut Vec<u32>,
    data: &Vec<u32>,
    inputs: usize,
    frames: usize,
    src: &Source,
    at: &Vec<(usize, usize)>,
    whole: usize,
)
    requires
        carries(data@, inputs as int, frames as int, *src),
        frame::fits(whole),
        forall|i: int| 0 <= i < at@.len() ==> (#[trigger] at@[i]).0 < frames && at@[i].1 < whole,
    ensures
        final(env)@ == landed_picture(
            old(env)@,
            data@,
            inputs as int,
            *src,
            at@,
            at@.len() as int,
            whole as int,
        ),
        final(env)@.len() == old(env)@.len(),
{
    let ghost before = env@;
    let mut i: usize = 0;
    while i < at.len()
        invariant
            i <= at@.len(),
            carries(data@, inputs as int, frames as int, *src),
            frame::fits(whole),
            forall|j: int|
                0 <= j < at@.len() ==> (#[trigger] at@[j]).0 < frames && at@[j].1 < whole,
            env@.len() == before.len(),
            env@ == landed_picture(
                before,
                data@,
                inputs as int,
                *src,
                at@,
                i as int,
                whole as int,
            ),
        decreases at@.len() - i,
    {
        let (f, p) = at[i];
        assert(at@[i as int].0 < frames && at@[i as int].1 < whole);
        let l: u32 = loud_at(data, inputs, frames, f, src);
        let b: usize = share(p, whole);
        if b < env.len() {
            let was: u32 = env[b];
            env.set(b, bits::loudest(was, l));
        }
        i = i + 1;
    }
}

/// Every source is on inputs that there are.
pub open spec fn carries_all(sh: Shared, data: Seq<u32>, inputs: int, frames: int) -> bool {
    forall|s: int|
        0 <= s < sh.sources@.len() ==> carries(data, inputs, frames, #[trigger] sh.sources@[s])
}

/// A rig whose rings have kept a buffer.
pub open spec fn rings_kept(
    pre: Shared,
    data: Seq<u32>,
    inputs: int,
    frames: int,
    post: Shared,
) -> bool {
    &&& post.ring@.len() == pre.ring@.len()
    &&& post.in_peak@.len() == pre.in_peak@.len()
    &&& forall|s: int|
        0 <= s < pre.sources@.len() ==> (#[trigger] post.ring@[s])@ == kept(
            pre.ring@[s]@,
            pre.size.ring_len as int,
            data,
            inputs,
            pre.sources@[s],
            pre.clock.in_frames as int,
            frames,
        )
    &&& forall|s: int|
        0 <= s < pre.sources@.len() ==> (#[trigger] post.in_peak@[s]) == bits::louder(
            pre.in_peak@[s],
            peak_in(0, data, inputs, pre.sources@[s], frames),
        )
    &&& post == (Shared { ring: post.ring, in_peak: post.in_peak, ..pre })
}

fn keep_all(sh: &mut Shared, data: &Vec<u32>, inputs: usize, frames: usize)
    requires
        old(sh).wf(),
        carries_all(*old(sh), data@, inputs as int, frames as int),
        old(sh).clock.in_frames + frames <= usize::MAX,
    ensures
        final(sh).wf(),
        rings_kept(*old(sh), data@, inputs as int, frames as int, *final(sh)),
{
    let base: usize = sh.clock.in_frames;
    let ring_len: usize = sh.size.ring_len;
    keep_rings(
        &mut sh.ring,
        &mut sh.in_peak,
        &sh.sources,
        ring_len,
        data,
        inputs,
        frames,
        base,
    );
    proof {
        assert(sh.loops_ok());
        assert(sh.arena_ok());
        assert(sh.ring_ok());
    }
}

fn keep_rings(
    ring: &mut Vec<Vec<u32>>,
    peaks: &mut Vec<u32>,
    sources: &Vec<Source>,
    ring_len: usize,
    data: &Vec<u32>,
    inputs: usize,
    frames: usize,
    base: usize,
)
    requires
        ring_len >= 1,
        old(ring)@.len() == sources@.len(),
        old(peaks)@.len() == sources@.len(),
        forall|s: int|
            0 <= s < sources@.len() ==> (#[trigger] old(ring)@[s])@.len() == 2 * ring_len,
        forall|s: int|
            0 <= s < sources@.len() ==> carries(
                data@,
                inputs as int,
                frames as int,
                #[trigger] sources@[s],
            ),
        base + frames <= usize::MAX,
    ensures
        final(ring)@.len() == old(ring)@.len(),
        final(peaks)@.len() == old(peaks)@.len(),
        forall|s: int|
            0 <= s < sources@.len() ==> (#[trigger] final(ring)@[s])@.len() == 2 * ring_len,
        forall|s: int|
            0 <= s < sources@.len() ==> (#[trigger] final(ring)@[s])@ == kept(
                old(ring)@[s]@,
                ring_len as int,
                data@,
                inputs as int,
                sources@[s],
                base as int,
                frames as int,
            ),
        forall|s: int|
            0 <= s < sources@.len() ==> (#[trigger] final(peaks)@[s]) == bits::louder(
                old(peaks)@[s],
                peak_in(0, data@, inputs as int, sources@[s], frames as int),
            ),
{
    let ghost rings = ring@;
    let ghost were = peaks@;
    let n: usize = sources.len();
    let mut s: usize = 0;
    while s < n
        invariant
            s <= n,
            n == sources@.len(),
            ring_len >= 1,
            ring@.len() == n,
            rings.len() == n,
            peaks@.len() == n,
            were.len() == n,
            base + frames <= usize::MAX,
            forall|i: int| 0 <= i < n ==> (#[trigger] ring@[i])@.len() == 2 * ring_len,
            forall|i: int|
                0 <= i < n ==> carries(
                    data@,
                    inputs as int,
                    frames as int,
                    #[trigger] sources@[i],
                ),
            forall|i: int| s <= i < n ==> #[trigger] ring@[i] == rings[i],
            forall|i: int| s <= i < n ==> #[trigger] peaks@[i] == were[i],
            forall|i: int|
                0 <= i < s ==> (#[trigger] ring@[i])@ == kept(
                    rings[i]@,
                    ring_len as int,
                    data@,
                    inputs as int,
                    sources@[i],
                    base as int,
                    frames as int,
                ),
            forall|i: int|
                0 <= i < s ==> (#[trigger] peaks@[i]) == bits::louder(
                    were[i],
                    peak_in(0, data@, inputs as int, sources@[i], frames as int),
                ),
        decreases n - s,
    {
        assert(carries(data@, inputs as int, frames as int, sources@[s as int]));
        assert(ring@[s as int]@.len() == 2 * ring_len);
        let p: u32 = keep(&mut ring[s], ring_len, data, inputs, frames, &sources[s], base);
        let was: u32 = peaks[s];
        peaks.set(s, bits::loudest(was, p));
        s = s + 1;
    }
}

/// How far after the take's zero the frame at the start of a buffer is.
pub open spec fn into_take(sh: Shared, li: int) -> int {
    sh.clock.in_frames + sh.clock.k - sh.loops@[li].take.rec_from
}

/// The source a loop records from.
pub open spec fn source(sh: Shared, li: int) -> Source {
    sh.sources@[sh.source_of(li)]
}

/// A loop whose first take or multiply has been written to from a buffer.
pub open spec fn take_written(
    pre: Shared,
    li: int,
    data: Seq<u32>,
    inputs: int,
    frames: int,
    post: Shared,
) -> bool {
    let a = pre.loops@[li];
    let b = post.loops@[li];
    let start = into_take(pre, li);
    let from = first_written(start);
    let to = past_written(start, frames, pre.size.max_frames as int);
    &&& post.audio() == pre.audio_with(
        li,
        a.body.n_layers as int,
        written(
            pre.tape(li, a.body.n_layers as int),
            data,
            inputs,
            source(pre, li),
            start,
            from,
            to,
        ),
    )
    &&& b.rec_env@ == pictured(
        a.rec_env@,
        data,
        inputs,
        source(pre, li),
        start,
        from,
        to,
        pre.size.max_frames as int,
    )
    &&& post.loops@ == pre.loops@.update(li, b)
    &&& b == (Loop {
        rec_env: b.rec_env,
        take: Progress {
            reached: reached_to(a.take.reached, from, to),
            rec_reached: heard_to(a.take.rec_reached, a.take.rec_from, from, to),
            overflowed: runs_over(a.take.overflowed, start, frames, pre.size.max_frames as int),
            ..a.take
        },
        ..a
    })
    &&& post == (Shared { arena: post.arena, loops: post.loops, ..pre })
}

/// How far a take has got once the positions `from..to` are written.
pub open spec fn reached_to(reached: usize, from: int, to: int) -> usize {
    if from < to {
        num::larger(reached as int, to) as usize
    } else {
        reached
    }
}

/// One past the last output frame written once the positions `from..to`
/// are.
pub open spec fn heard_to(heard: i64, rec_from: i64, from: int, to: int) -> i64 {
    if from < to {
        num::larger(heard as int, rec_from + to) as i64
    } else {
        heard
    }
}

/// Whether a frame of this buffer or an earlier one was past the end of the
/// layer.
pub open spec fn runs_over(over: bool, start: int, frames: int, max_frames: int) -> bool {
    over || (frames > 0 && start + frames > max_frames)
}

proof fn take_sound(
    a: Loop,
    b: Loop,
    reached: usize,
    heard: i64,
    over: bool,
    max_layers: usize,
    max_frames: usize,
)
    requires
        shared::sound(a, max_layers, max_frames),
        b == (Loop {
            rec_env: b.rec_env,
            take: Progress { reached, rec_reached: heard, overflowed: over, ..a.take },
            ..a
        }),
        b.rec_env@.len() == a.rec_env@.len(),
        reached <= max_frames,
        frame::short(max_frames),
        frame::near(heard),
    ensures
        shared::sound(b, max_layers, max_frames),
{
    reveal(shared::sound);
    reveal(Loop::wf);
}

/// What a rig's loops know of a take.
proof fn take_known(lp: Loop, max_layers: usize, max_frames: usize)
    requires
        shared::sound(lp, max_layers, max_frames),
    ensures
        frame::near(lp.take.rec_from),
        frame::near(lp.take.rec_reached),
        lp.take.reached <= max_frames,
        lp.body.n_layers <= max_layers,
        lp.layers@.len() == max_layers,
        lp.wf(),
        lp.body.loop_len <= max_frames,
{
    reveal(shared::sound);
    reveal(Loop::wf);
}

/// Write a buffer to a layer.
fn write_bank(
    arena: &mut Vec<Vec<Vec<u32>>>,
    li: usize,
    layer: usize,
    data: &Vec<u32>,
    inputs: usize,
    frames: usize,
    src: &Source,
    start: i64,
    from: usize,
    to: usize,
)
    requires
        li < old(arena)@.len(),
        layer < old(arena)@[li as int]@.len(),
        carries(data@, inputs as int, frames as int, *src),
        frame::safe(start as int),
        from <= to,
        from == to || (start <= from && to - start <= frames),
        2 * to <= old(arena)@[li as int]@[layer as int]@.len(),
        frame::fits(to),
    ensures
        final(arena)@.len() == old(arena)@.len(),
        forall|j: int|
            0 <= j < old(arena)@.len() && j != li ==> #[trigger] final(arena)@[j] == old(arena)@[j],
        final(arena)@[li as int]@.len() == old(arena)@[li as int]@.len(),
        forall|l: int|
            0 <= l < old(arena)@[li as int]@.len() && l != layer ==>
                #[trigger] final(arena)@[li as int]@[l] == old(arena)@[li as int]@[l],
        final(arena)@[li as int]@[layer as int]@ == written(
            old(arena)@[li as int]@[layer as int]@,
            data@,
            inputs as int,
            *src,
            start as int,
            from as int,
            to as int,
        ),
{
    let bank = &mut arena[li];
    write_frames(&mut bank[layer], data, inputs, frames, src, start, from, to);
}

/// Which positions a buffer goes to, and how far the take is then.
#[derive(Clone, Copy)]
struct Span {
    start: i64,
    from: usize,
    to: usize,
    reached: usize,
    heard: i64,
    over: bool,
}

/// A span says what it should of a loop and a buffer.
spec fn spans(sh: Shared, li: int, frames: int, p: Span) -> bool {
    let lp = sh.loops@[li];
    let start = into_take(sh, li);
    let from = first_written(start);
    let to = past_written(start, frames, sh.size.max_frames as int);
    &&& p.start == start
    &&& frame::safe(p.start as int)
    &&& p.from <= p.to <= sh.size.max_frames
    &&& if from < to {
        p.from == from && p.to == to && p.to - p.start <= frames
    } else {
        p.from == 0 && p.to == 0
    }
    &&& p.reached == reached_to(lp.take.reached, from, to)
    &&& p.reached <= sh.size.max_frames
    &&& p.heard == heard_to(lp.take.rec_reached, lp.take.rec_from, from, to)
    &&& frame::near(p.heard)
    &&& p.over == runs_over(lp.take.overflowed, start, frames, sh.size.max_frames as int)
}

fn span(sh: &Shared, li: usize, frames: usize) -> (r: Span)
    requires
        sh.wf(),
        li < sh.size.n_loops,
        frame::safe(16 * (sh.clock.in_frames + frames)),
    ensures
        spans(*sh, li as int, frames as int, r),
{
    proof {
        assert(sh.loop_ok(sh.loops@[li as int]));
        take_known(sh.loops@[li as int], sh.size.max_layers, sh.size.max_frames);
    }
    let max_frames: i64 = sh.size.max_frames as i64;
    let lp = &sh.loops[li];
    let start: i64 = sh.clock.in_frames as i64 + sh.clock.k - lp.take.rec_from;
    let first: i64 = num::max_signed(start, 0);
    let end: i64 = start + frames as i64;
    let past: i64 = if end < max_frames {
        end
    } else {
        max_frames
    };
    let over = lp.take.overflowed || (frames > 0 && end > max_frames);
    if first < past {
        Span {
            start,
            from: first as usize,
            to: past as usize,
            reached: num::max(lp.take.reached, past as usize),
            heard: num::max_signed(lp.take.rec_reached, lp.take.rec_from + past),
            over,
        }
    } else {
        Span { start, from: 0, to: 0, reached: lp.take.reached, heard: lp.take.rec_reached, over }
    }
}

/// Note on a loop what a buffer did to its take.
fn note_take(
    loops: &mut Vec<Loop>,
    li: usize,
    data: &Vec<u32>,
    inputs: usize,
    frames: usize,
    src: &Source,
    p: Span,
    whole: usize,
)
    requires
        li < old(loops)@.len(),
        carries(data@, inputs as int, frames as int, *src),
        frame::safe(p.start as int),
        p.from <= p.to <= whole,
        p.from == p.to || (p.start <= p.from && p.to - p.start <= frames),
        frame::fits(whole),
    ensures
        final(loops)@.len() == old(loops)@.len(),
        forall|i: int|
            0 <= i < old(loops)@.len() && i != li ==> #[trigger] final(loops)@[i] == old(loops)@[i],
        final(loops)@[li as int] == (Loop {
            rec_env: final(loops)@[li as int].rec_env,
            take: Progress {
                reached: p.reached,
                rec_reached: p.heard,
                overflowed: p.over,
                ..old(loops)@[li as int].take
            },
            ..old(loops)@[li as int]
        }),
        final(loops)@[li as int].rec_env@ == pictured(
            old(loops)@[li as int].rec_env@,
            data@,
            inputs as int,
            *src,
            p.start as int,
            p.from as int,
            p.to as int,
            whole as int,
        ),
        final(loops)@[li as int].rec_env@.len() == old(loops)@[li as int].rec_env@.len(),
{
    let lp = &mut loops[li];
    mark_frames(&mut lp.rec_env, data, inputs, frames, src, p.start, p.from, p.to, whole);
    lp.take.reached = p.reached;
    lp.take.rec_reached = p.heard;
    lp.take.overflowed = p.over;
}

/// Write a buffer to the loop that records its first take or multiplies.
fn write_take(sh: &mut Shared, li: usize, data: &Vec<u32>, inputs: usize, frames: usize)
    requires
        old(sh).wf(),
        li < old(sh).size.n_loops,
        old(sh).loops@[li as int].body.n_layers < old(sh).size.max_layers,
        carries_all(*old(sh), data@, inputs as int, frames as int),
        frame::safe(16 * (old(sh).clock.in_frames + frames)),
    ensures
        final(sh).wf(),
        take_written(*old(sh), li as int, data@, inputs as int, frames as int, *final(sh)),
{
    let src: usize = sh.src_of(li);
    let layer: usize = sh.loops[li].body.n_layers;
    let max_frames: usize = sh.size.max_frames;
    let p = span(sh, li, frames);
    proof {
        assert(sh.arena@[li as int]@[layer as int]@.len() == 2 * sh.size.max_frames);
        assert(carries(data@, inputs as int, frames as int, sh.sources@[src as int]));
    }
    write_bank(
        &mut sh.arena,
        li,
        layer,
        data,
        inputs,
        frames,
        &sh.sources[src],
        p.start,
        p.from,
        p.to,
    );
    note_take(&mut sh.loops, li, data, inputs, frames, &sh.sources[src], p, max_frames);
    proof {
        take_is_written(*old(sh), *sh, li as int, data@, inputs as int, frames as int, p);
    }
}

proof fn take_is_written(
    pre: Shared,
    post: Shared,
    li: int,
    data: Seq<u32>,
    inputs: int,
    frames: int,
    p: Span,
)
    requires
        pre.wf(),
        0 <= li < pre.size.n_loops,
        pre.loops@[li].body.n_layers < pre.size.max_layers,
        spans(pre, li, frames, p),
        post == (Shared { arena: post.arena, loops: post.loops, ..pre }),
        ({
            let layer = pre.loops@[li].body.n_layers as int;
            &&& post.arena@.len() == pre.arena@.len()
            &&& forall|j: int|
                0 <= j < pre.arena@.len() && j != li ==> #[trigger] post.arena@[j] == pre.arena@[j]
            &&& post.arena@[li]@.len() == pre.arena@[li]@.len()
            &&& forall|l: int|
                0 <= l < pre.arena@[li]@.len() && l != layer ==> #[trigger] post.arena@[li]@[l]
                    == pre.arena@[li]@[l]
            &&& post.arena@[li]@[layer]@ == written(
                pre.tape(li, layer),
                data,
                inputs,
                source(pre, li),
                p.start as int,
                p.from as int,
                p.to as int,
            )
        }),
        post.loops@.len() == pre.loops@.len(),
        forall|i: int|
            0 <= i < pre.loops@.len() && i != li ==> #[trigger] post.loops@[i] == pre.loops@[i],
        post.loops@[li] == (Loop {
            rec_env: post.loops@[li].rec_env,
            take: Progress {
                reached: p.reached,
                rec_reached: p.heard,
                overflowed: p.over,
                ..pre.loops@[li].take
            },
            ..pre.loops@[li]
        }),
        post.loops@[li].rec_env@ == pictured(
            pre.loops@[li].rec_env@,
            data,
            inputs,
            source(pre, li),
            p.start as int,
            p.from as int,
            p.to as int,
            pre.size.max_frames as int,
        ),
        post.loops@[li].rec_env@.len() == pre.loops@[li].rec_env@.len(),
    ensures
        post.wf(),
        take_written(pre, li, data, inputs, frames, post),
{
    let layer = pre.loops@[li].body.n_layers as int;
    let start = into_take(pre, li);
    let from = first_written(start);
    let to = past_written(start, frames, pre.size.max_frames as int);
    assert(pre.arena@[li]@[layer]@.len() == 2 * pre.size.max_frames);
    assert(pre.loop_ok(pre.loops@[li]));
    assert(written(
        pre.tape(li, layer),
        data,
        inputs,
        source(pre, li),
        start,
        p.from as int,
        p.to as int,
    ) =~= written(pre.tape(li, layer), data, inputs, source(pre, li), start, from, to));
    take_sound(
        pre.loops@[li],
        post.loops@[li],
        p.reached,
        p.heard,
        p.over,
        pre.size.max_layers,
        pre.size.max_frames,
    );
    take_done(pre, post, li, layer);
}

/// A rig in which one layer's audio and one loop have changed is sound.
proof fn take_done(pre: Shared, post: Shared, li: int, layer: int)
    requires
        pre.wf(),
        0 <= li < pre.size.n_loops,
        0 <= layer < pre.size.max_layers,
        post == (Shared { arena: post.arena, loops: post.loops, ..pre }),
        post.arena@.len() == pre.arena@.len(),
        forall|j: int|
            0 <= j < pre.arena@.len() && j != li ==> #[trigger] post.arena@[j] == pre.arena@[j],
        post.arena@[li]@.len() == pre.arena@[li]@.len(),
        forall|l: int|
            0 <= l < pre.arena@[li]@.len() && l != layer ==> #[trigger] post.arena@[li]@[l]
                == pre.arena@[li]@[l],
        post.arena@[li]@[layer]@.len() == 2 * pre.size.max_frames,
        post.loops@.len() == pre.loops@.len(),
        forall|i: int|
            0 <= i < pre.loops@.len() && i != li ==> #[trigger] post.loops@[i] == pre.loops@[i],
        shared::sound(post.loops@[li], pre.size.max_layers, pre.size.max_frames),
    ensures
        post.wf(),
        post.audio() == pre.audio_with(li, layer, post.tape(li, layer)),
        post.loops@ == pre.loops@.update(li, post.loops@[li]),
{
    let mid = Shared { arena: post.arena, ..pre };
    shared::audio_changed(pre, mid, li, layer);
    assert(mid.loops_ok());
    assert(mid.ring_ok());
    shared::one_loop_changed(mid, post, li);
    assert(post.audio() =~= mid.audio());
    assert(post.loops@ =~= pre.loops@.update(li, post.loops@[li]));
}

/// Whether anything of a buffer belongs to the take: its last frame is not
/// before the take's start.
pub open spec fn any_of_it(sh: Shared, li: int, frames: int) -> bool {
    frames > 0 && sh.clock.in_frames + sh.clock.k + frames > sh.loops@[li].take.rec_from
}

/// A loop whose overdub goes round: once anything of a buffer belongs to it,
/// it has got as far as the loop is long.
pub open spec fn going_round(pre: Shared, li: int, frames: int) -> Loop {
    let a = pre.loops@[li];
    Loop {
        take: Progress {
            reached: if any_of_it(pre, li, frames) {
                num::larger(a.take.reached as int, a.body.loop_len as int) as usize
            } else {
                a.take.reached
            },
            rec_reached: if any_of_it(pre, li, frames) {
                num::larger(
                    a.take.rec_reached as int,
                    pre.clock.in_frames + pre.clock.k + frames,
                ) as i64
            } else {
                a.take.rec_reached
            },
            ..a.take
        },
        ..a
    }
}

/// A loop whose overdub has been noted from a buffer: where its frames
/// landed is on the picture, and nothing of the audio has changed.
pub open spec fn overdub_noted(
    pre: Shared,
    li: int,
    data: Seq<u32>,
    inputs: int,
    frames: int,
    at: Seq<(usize, usize)>,
    post: Shared,
) -> bool {
    let a = pre.loops@[li];
    let b = post.loops@[li];
    &&& b.rec_env@ == landed_picture(
        a.rec_env@,
        data,
        inputs,
        source(pre, li),
        at,
        at.len() as int,
        a.body.loop_len as int,
    )
    &&& b == (Loop {
        rec_env: b.rec_env,
        ..going_round(pre, li, frames)
    })
    &&& pre.but_loop(li, b, post)
}

proof fn overdub_sound(
    a: Loop,
    b: Loop,
    reached: usize,
    heard: i64,
    max_layers: usize,
    max_frames: usize,
)
    requires
        shared::sound(a, max_layers, max_frames),
        b == (Loop {
            rec_env: b.rec_env,
            take: Progress { reached, rec_reached: heard, ..a.take },
            ..a
        }),
        b.rec_env@.len() == a.rec_env@.len(),
        reached <= max_frames,
        frame::short(max_frames),
        frame::near(heard),
    ensures
        shared::sound(b, max_layers, max_frames),
{
    reveal(shared::sound);
    reveal(Loop::wf);
}

/// Note an overdub from a buffer, and say where its frames land: the frame
/// and the position of each. `zero` is the output frame that position zero
/// is counted from.
fn note_overdub(
    sh: &mut Shared,
    li: usize,
    data: &Vec<u32>,
    inputs: usize,
    frames: usize,
    zero: i64,
) -> (r: Vec<(usize, usize)>)
    requires
        frame::near(zero),
        old(sh).wf(),
        li < old(sh).size.n_loops,
        carries_all(*old(sh), data@, inputs as int, frames as int),
        frame::safe(16 * (old(sh).clock.in_frames + frames)),
    ensures
        final(sh).wf(),
        r@ == landings(
            old(sh).loops@[li as int],
            into_take(*old(sh), li as int),
            old(sh).clock.in_frames + old(sh).clock.k - zero,
            frames as int,
        ),
        overdub_noted(
            *old(sh),
            li as int,
            data@,
            inputs as int,
            frames as int,
            r@,
            *final(sh),
        ),
{
    proof {
        assert(sh.loop_ok(sh.loops@[li as int]));
        take_known(sh.loops@[li as int], sh.size.max_layers, sh.size.max_frames);
    }
    let src: usize = sh.src_of(li);
    let base: i64 = sh.clock.in_frames as i64 + sh.clock.k;
    let len: usize = sh.loops[li].body.loop_len;
    let mut take = sh.loops[li].take;
    let at = land(&sh.loops[li], base - take.rec_from, base - zero, frames);
    let end: i64 = base + frames as i64;
    if frames > 0 && end > take.rec_from {
        take.reached = num::max(take.reached, len);
        take.rec_reached = num::max_signed(take.rec_reached, end);
    }
    assert(carries(data@, inputs as int, frames as int, sh.sources@[src as int]));
    let lp = &mut sh.loops[li];
    mark_landed(&mut lp.rec_env, data, inputs, frames, &sh.sources[src], &at, len);
    lp.take = take;
    proof {
        overdub_sound(
            old(sh).loops@[li as int],
            sh.loops@[li as int],
            take.reached,
            take.rec_reached,
            sh.size.max_layers,
            sh.size.max_frames,
        );
        shared::loop_exchanged(*old(sh), *sh, li as int, sh.loops@[li as int]);
    }
    at
}

/// What a buffer of input leaves to be done.
#[derive(Debug)]
pub enum Landed {
    /// Nothing: it was kept, and written where a take wants it.
    Nothing,
    /// Its frames are to be added to a layer of a loop, each at a position.
    Onto { li: usize, layer: usize, at: Vec<(usize, usize)> },
    /// Its frames are to go over the tape of a loop, each at a position.
    Over { li: usize, at: Vec<(usize, usize)> },
    /// Its frames are to be spread over a layer of a loop whose play head
    /// does not move a frame at a time.
    Spread { li: usize, layer: usize },
}

/// A rig after the loop that listens, if one does, has heard a buffer: the
/// first frame that reaches the arm level is the sound.
pub open spec fn listened(
    pre: Shared,
    data: Seq<u32>,
    inputs: int,
    frames: int,
    li: Option<usize>,
    f: Option<usize>,
    post: Shared,
) -> bool {
    &&& pre.first_listening(li)
    &&& match li {
        None => post == pre,
        Some(l) => {
            let s = pre.source_of(l as int);
            if !bits::up_to(pre.desk.arm_thresh, pre.in_peak@[s]) {
                post == pre
            } else {
                &&& first_reach(data, inputs, frames, pre.sources@[s], pre.desk.arm_thresh, f)
                &&& match f {
                    None => post == pre,
                    Some(g) => pre.but_loop(
                        l as int,
                        heard_sound(pre, l as int, pre.clock.in_frames + g + pre.clock.k),
                        post,
                    ),
                }
            }
        },
    }
}

/// Let the loop that listens hear a buffer.
fn listen(sh: &mut Shared, data: &Vec<u32>, inputs: usize, frames: usize)
    requires
        old(sh).wf(),
        carries_all(*old(sh), data@, inputs as int, frames as int),
        frame::safe(16 * (old(sh).clock.in_frames + frames)),
    ensures
        final(sh).wf(),
        exists|li: Option<usize>, f: Option<usize>|
            listened(*old(sh), data@, inputs as int, frames as int, li, f, *final(sh)),
        final(sh).clock == old(sh).clock,
        final(sh).size == old(sh).size,
        final(sh).sources == old(sh).sources,
{
    let found = sh.armed_loop();
    let li: usize = match found {
        None => {
            assert(listened(
                *old(sh),
                data@,
                inputs as int,
                frames as int,
                found,
                None,
                *sh,
            ));
            return;
        },
        Some(li) => li,
    };
    let s: usize = sh.src_of(li);
    let level: u32 = sh.desk.arm_thresh;
    assert(carries(data@, inputs as int, frames as int, sh.sources@[s as int]));
    if !bits::at_most(level, sh.in_peak[s]) {
        assert(listened(*old(sh), data@, inputs as int, frames as int, found, None, *sh));
        return;
    }
    let f = crossing(data, inputs, frames, &sh.sources[s], level);
    match f {
        None => {
            assert(listened(*old(sh), data@, inputs as int, frames as int, found, f, *sh));
        },
        Some(g) => {
            let at: i64 = (sh.clock.in_frames + g) as i64 + sh.clock.k;
            crossed(sh, li, at);
            assert(listened(*old(sh), data@, inputs as int, frames as int, found, f, *sh));
        },
    }
}

fn note_spread(sh: &mut Shared, li: usize, frames: usize)
    requires
        old(sh).wf(),
        li < old(sh).size.n_loops,
        frame::safe(16 * (old(sh).clock.in_frames + frames)),
    ensures
        final(sh).wf(),
        old(sh).but_loop(
            li as int,
            going_round(*old(sh), li as int, frames as int),
            *final(sh),
        ),
{
    proof {
        assert(sh.loop_ok(sh.loops@[li as int]));
        take_known(sh.loops@[li as int], sh.size.max_layers, sh.size.max_frames);
    }
    let end: i64 = sh.clock.in_frames as i64 + sh.clock.k + frames as i64;
    let mut take = sh.loops[li].take;
    if frames > 0 && end > take.rec_from {
        take.reached = num::max(take.reached, sh.loops[li].body.loop_len);
        take.rec_reached = num::max_signed(take.rec_reached, end);
    }
    let lp = &mut sh.loops[li];
    lp.take = take;
    proof {
        overdub_sound(
            old(sh).loops@[li as int],
            sh.loops@[li as int],
            take.reached,
            take.rec_reached,
            sh.size.max_layers,
            sh.size.max_frames,
        );
        shared::loop_exchanged(*old(sh), *sh, li as int, sh.loops@[li as int]);
    }
}

/// Whether a play head moves a frame at a time, forward or back, though it
/// may swing or go round a window.
pub open spec fn steady(lp: Loop) -> bool {
    (lp.play.speed == ONE_WIDE || lp.play.speed == MINUS_ONE_WIDE) && bits::is_zero_wide(
        lp.play.warp,
    )
}

/// What a recording loop does with a buffer.
///
/// A first take and a multiply are written. An overdub lands where the play
/// head is, which is added to its layer or, on a tape, goes over it. Where
/// the play head does not move a frame at a time it is spread.
pub open spec fn recorded_by(
    pre: Shared,
    li: int,
    data: Seq<u32>,
    inputs: int,
    frames: int,
    post: Shared,
    r: Landed,
) -> bool {
    let lp = pre.loops@[li];
    let layer = lp.body.n_layers;
    let base = pre.clock.in_frames + pre.clock.k;
    let full = layer >= pre.size.max_layers;
    if full && !lp.habit.revox {
        post == pre && r is Nothing
    } else if lp.state == Phase::First || lp.state == Phase::Multiply {
        if full {
            post == pre && r is Nothing
        } else {
            take_written(pre, li, data, inputs, frames, post) && r is Nothing
        }
    } else if lp.body.loop_len == 0 {
        post == pre && r is Nothing
    } else if lp.is_plain() {
        let at = landings(lp, into_take(pre, li), base - lp.take.rec_from, frames);
        &&& overdub_noted(pre, li, data, inputs, frames, at, post)
        &&& if lp.habit.revox {
            r matches Landed::Over { li: l, at: a } && l == li && a@ == at
        } else {
            r matches Landed::Onto { li: l, layer: y, at: a } && l == li && y == layer && a@ == at
        }
    } else if full {
        post == pre && r is Nothing
    } else if steady(lp) {
        let at = landings(lp, into_take(pre, li), base - lp.body.origin, frames);
        &&& overdub_noted(pre, li, data, inputs, frames, at, post)
        &&& r matches Landed::Onto { li: l, layer: y, at: a } && l == li && y == layer && a@ == at
    } else {
        &&& pre.but_loop(li, going_round(pre, li, frames), post)
        &&& r matches Landed::Spread { li: l, layer: y } && l == li && y == layer
    }
}

fn record(sh: &mut Shared, li: usize, data: &Vec<u32>, inputs: usize, frames: usize) -> (r: Landed)
    requires
        old(sh).wf(),
        li < old(sh).size.n_loops,
        carries_all(*old(sh), data@, inputs as int, frames as int),
        frame::safe(16 * (old(sh).clock.in_frames + frames)),
    ensures
        final(sh).wf(),
        recorded_by(*old(sh), li as int, data@, inputs as int, frames as int, *final(sh), r),
        final(sh).clock == old(sh).clock,
{
    proof {
        assert(sh.loop_ok(sh.loops@[li as int]));
        reveal(shared::sound);
        reveal(Loop::wf);
    }
    let layer: usize = sh.loops[li].body.n_layers;
    let revox = sh.loops[li].habit.revox;
    let state = sh.loops[li].state;
    let full = layer >= sh.size.max_layers;
    if full && !revox {
        return Landed::Nothing;
    }
    if state == Phase::First || state == Phase::Multiply {
        if !full {
            write_take(sh, li, data, inputs, frames);
        }
        return Landed::Nothing;
    }
    if sh.loops[li].body.loop_len == 0 {
        return Landed::Nothing;
    }
    if sh.loops[li].plain() {
        let zero: i64 = sh.loops[li].take.rec_from;
        let at = note_overdub(sh, li, data, inputs, frames, zero);
        if revox {
            return Landed::Over { li, at };
        }
        return Landed::Onto { li, layer, at };
    }
    if full {
        return Landed::Nothing;
    }
    let play = sh.loops[li].play;
    if (play.speed == ONE_WIDE || play.speed == MINUS_ONE_WIDE) && bits::zero_wide(play.warp) {
        let zero: i64 = sh.loops[li].body.origin;
        let at = note_overdub(sh, li, data, inputs, frames, zero);
        return Landed::Onto { li, layer, at };
    }
    note_spread(sh, li, frames);
    Landed::Spread { li, layer }
}

/// What a buffer of input does: every source keeps it, the loop that
/// listens hears it, the loop that records takes it, and it is counted.
pub open spec fn taken_in(
    pre: Shared,
    data: Seq<u32>,
    inputs: int,
    frames: int,
    post: Shared,
    r: Landed,
) -> bool {
    exists|a: Shared, b: Shared, c: Shared|
        #![trigger rings_kept(pre, data, inputs, frames, a), recorded(b, data, inputs, frames, c, r)]
        {
            &&& rings_kept(pre, data, inputs, frames, a)
            &&& heard_by(a, data, inputs, frames, b)
            &&& recorded(b, data, inputs, frames, c, r)
            &&& post == (Shared {
                clock: Clock {
                    in_frames: (pre.clock.in_frames + frames) as usize,
                    ..c.clock
                },
                ..c
            })
        }
}

/// The loop that listens has heard a buffer.
pub open spec fn heard_by(
    pre: Shared,
    data: Seq<u32>,
    inputs: int,
    frames: int,
    post: Shared,
) -> bool {
    exists|li: Option<usize>, f: Option<usize>|
        listened(pre, data, inputs, frames, li, f, post)
}

/// The loop that records has taken a buffer.
pub open spec fn recorded(
    pre: Shared,
    data: Seq<u32>,
    inputs: int,
    frames: int,
    post: Shared,
    r: Landed,
) -> bool {
    exists|li: Option<usize>| #[trigger]
        pre.first_recording(li) && match li {
            None => post == pre && r is Nothing,
            Some(l) => recorded_by(pre, l as int, data, inputs, frames, post, r),
        }
}

/// Take a buffer of input in.
pub fn input(sh: &mut Shared, data: &Vec<u32>, inputs: usize, frames: usize) -> (r: Landed)
    requires
        old(sh).wf(),
        carries_all(*old(sh), data@, inputs as int, frames as int),
        frame::safe(16 * (old(sh).clock.in_frames + frames)),
    ensures
        final(sh).wf(),
        taken_in(*old(sh), data@, inputs as int, frames as int, *final(sh), r),
{
    keep_all(sh, data, inputs, frames);
    let ghost a = *sh;
    listen(sh, data, inputs, frames);
    let ghost b = *sh;
    assert(heard_by(a, data@, inputs as int, frames as int, b));
    let found = sh.recording_loop();
    let r = match found {
        None => Landed::Nothing,
        Some(li) => record(sh, li, data, inputs, frames),
    };
    let ghost c = *sh;
    assert(b.first_recording(found));
    assert(recorded(b, data@, inputs as int, frames as int, c, r));
    sh.clock.in_frames = sh.clock.in_frames + frames;
    proof {
        assert(sh.loops_ok());
        assert(sh.arena_ok());
        assert(sh.ring_ok());
        assert(rings_kept(*old(sh), data@, inputs as int, frames as int, a));
    }
    r
}

/// Keeping frames leaves what an earlier frame left in its slot, where none
/// of them comes round to it.
proof fn kept_elsewhere(
    ring: Seq<u32>,
    ring_len: int,
    data: Seq<u32>,
    inputs: int,
    src: Source,
    base: int,
    n: int,
    t: int,
    ch: int,
)
    requires
        ring_len > 0,
        ring.len() == 2 * ring_len,
        0 <= base,
        0 <= t < base,
        base + n - t <= ring_len,
        0 <= n,
        0 <= ch < 2,
    ensures
        kept(ring, ring_len, data, inputs, src, base, n).len() == ring.len(),
        kept(ring, ring_len, data, inputs, src, base, n)[2 * (t % ring_len) + ch] == ring[2 * (t
            % ring_len) + ch],
    decreases n,
{
    vstd::arithmetic::div_mod::lemma_mod_bound(t, ring_len);
    if n > 0 {
        kept_elsewhere(ring, ring_len, data, inputs, src, base, n - 1, t, ch);
        let last = base + n - 1;
        vstd::arithmetic::div_mod::lemma_mod_bound(last, ring_len);
        apart(t, last, ring_len);
    }
}

/// Two frames less than a round apart have different slots.
proof fn apart(a: int, b: int, ring_len: int)
    requires
        0 <= a < b < a + ring_len,
    ensures
        a % ring_len != b % ring_len,
{
    if a % ring_len == b % ring_len {
        vstd::arithmetic::div_mod::lemma_fundamental_div_mod(a, ring_len);
        vstd::arithmetic::div_mod::lemma_fundamental_div_mod(b, ring_len);
        let d = b / ring_len - a / ring_len;
        assert(b - a == ring_len * d) by (nonlinear_arith)
            requires
                a == ring_len * (a / ring_len) + a % ring_len,
                b == ring_len * (b / ring_len) + b % ring_len,
                a % ring_len == b % ring_len,
                d == b / ring_len - a / ring_len,
        ;
        assert(false) by (nonlinear_arith)
            requires
                b - a == ring_len * d,
                0 < b - a < ring_len,
        ;
    }
}

/// A frame that has been kept is in its slot until a round has gone by.
proof fn kept_there(
    ring: Seq<u32>,
    ring_len: int,
    data: Seq<u32>,
    inputs: int,
    src: Source,
    base: int,
    n: int,
    f: int,
    ch: int,
)
    requires
        ring_len > 0,
        ring.len() == 2 * ring_len,
        0 <= base,
        0 <= f < n,
        n - f <= ring_len,
        0 <= ch < 2,
    ensures
        kept(ring, ring_len, data, inputs, src, base, n).len() == ring.len(),
        kept(ring, ring_len, data, inputs, src, base, n)[2 * ((base + f) % ring_len) + ch]
            == sample(data, inputs, f, src.ch@[ch] as int),
    decreases n,
{
    let last = base + n - 1;
    vstd::arithmetic::div_mod::lemma_mod_bound(last, ring_len);
    vstd::arithmetic::div_mod::lemma_mod_bound(base + f, ring_len);
    if f < n - 1 {
        kept_there(ring, ring_len, data, inputs, src, base, n - 1, f, ch);
        apart(base + f, last, ring_len);
    } else {
        ring_as_long(ring, ring_len, data, inputs, src, base, n - 1);
    }
}

proof fn ring_as_long(
    ring: Seq<u32>,
    ring_len: int,
    data: Seq<u32>,
    inputs: int,
    src: Source,
    base: int,
    n: int,
)
    requires
        ring_len > 0,
        ring.len() == 2 * ring_len,
    ensures
        kept(ring, ring_len, data, inputs, src, base, n).len() == ring.len(),
    decreases n,
{
    if n > 0 {
        vstd::arithmetic::div_mod::lemma_mod_bound(base + n - 1, ring_len);
        ring_as_long(ring, ring_len, data, inputs, src, base, n - 1);
    }
}

/// The past is what came in: whatever can still be recalled of a buffer is
/// the sample that arrived on the source's input, and whatever can still be
/// recalled from before it is what could be recalled before.
pub proof fn the_past_is_what_came_in(
    pre: Shared,
    data: Seq<u32>,
    inputs: int,
    frames: int,
    post: Shared,
    r: Landed,
    s: int,
    t: int,
    ch: int,
)
    requires
        pre.wf(),
        0 <= frames,
        pre.clock.in_frames + frames <= usize::MAX,
        taken_in(pre, data, inputs, frames, post, r),
        0 <= s < pre.sources@.len(),
        0 <= ch < 2,
        post.recalled(s, t, ch) is Some,
    ensures
        post.recalled(s, t, ch) == (if t < pre.clock.in_frames {
            pre.recalled(s, t, ch)
        } else {
            Some(
                sample(
                    data,
                    inputs,
                    t - pre.clock.in_frames,
                    pre.sources@[s].ch@[ch] as int,
                ),
            )
        }),
{
    let base = pre.clock.in_frames as int;
    let len = pre.size.ring_len as int;
    let (a, b, c) = choose|a: Shared, b: Shared, c: Shared|
        #![trigger rings_kept(pre, data, inputs, frames, a), recorded(b, data, inputs, frames, c, r)]
        {
            &&& rings_kept(pre, data, inputs, frames, a)
            &&& heard_by(a, data, inputs, frames, b)
            &&& recorded(b, data, inputs, frames, c, r)
            &&& post == (Shared {
                clock: Clock {
                    in_frames: (pre.clock.in_frames + frames) as usize,
                    ..c.clock
                },
                ..c
            })
        };
    assert(post.ring == a.ring);
    assert(post.sources == pre.sources);
    assert(pre.ring@[s]@.len() == 2 * len);
    if t < base {
        kept_elsewhere(pre.ring@[s]@, len, data, inputs, pre.sources@[s], base, frames, t, ch);
    } else {
        kept_there(pre.ring@[s]@, len, data, inputs, pre.sources@[s], base, frames, t - base, ch);
    }
}

/// A take is what came in: a frame of a buffer that belongs to a first take,
/// or to a multiply, is on its layer at the position it is into the take, as
/// it arrived on the source's inputs.
pub proof fn a_take_is_what_came_in(
    pre: Shared,
    data: Seq<u32>,
    inputs: int,
    frames: int,
    post: Shared,
    r: Landed,
    li: usize,
    f: int,
    ch: int,
)
    requires
        pre.wf(),
        taken_in(pre, data, inputs, frames, post, r),
        pre.first_recording(Some(li)),
        pre.loops@[li as int].state != Phase::Overdub,
        pre.loops@[li as int].body.n_layers < pre.size.max_layers,
        0 <= f < frames,
        0 <= ch < 2,
        0 <= into_take(pre, li as int) + f < pre.size.max_frames,
    ensures
        post.tape(li as int, pre.loops@[li as int].body.n_layers as int)[2 * (into_take(
            pre,
            li as int,
        ) + f) + ch] == sample(data, inputs, f, source(pre, li as int).ch@[ch] as int),
{
    let l = li as int;
    let n = pre.loops@[l].body.n_layers as int;
    let p = into_take(pre, l) + f;
    let (a, b, c) = choose|a: Shared, b: Shared, c: Shared|
        #![trigger rings_kept(pre, data, inputs, frames, a), recorded(b, data, inputs, frames, c, r)]
        {
            &&& rings_kept(pre, data, inputs, frames, a)
            &&& heard_by(a, data, inputs, frames, b)
            &&& recorded(b, data, inputs, frames, c, r)
            &&& post == (Shared {
                clock: Clock {
                    in_frames: (pre.clock.in_frames + frames) as usize,
                    ..c.clock
                },
                ..c
            })
        };
    let (x, y) = choose|x: Option<usize>, y: Option<usize>|
        listened(a, data, inputs, frames, x, y, b);
    assert(forall|i: int|
        0 <= i < pre.size.n_loops ==> (#[trigger] b.loops@[i]) == (Loop {
            next: b.loops@[i].next,
            ..pre.loops@[i]
        }));
    let z = choose|z: Option<usize>| #[trigger]
        b.first_recording(z) && match z {
            None => c == b && r is Nothing,
            Some(k) => recorded_by(b, k as int, data, inputs, frames, c, r),
        };
    assert(b.loops@[l].recording());
    assert(z is Some);
    let k = z.unwrap() as int;
    assert(pre.loops@[k].recording() && pre.loops@[l].recording());
    assert(k == l) by {
        if k < l {
            assert(!pre.loops@[k].recording());
        }
        if l < k {
            assert(!b.loops@[l].recording());
        }
    }
    assert(take_written(b, l, data, inputs, frames, c));
    assert(b.arena == pre.arena);
    assert(pre.arena@[l]@[n]@.len() == 2 * pre.size.max_frames);
    assert(c.audio()[l][n] == written(
        b.tape(l, n),
        data,
        inputs,
        source(b, l),
        into_take(b, l),
        first_written(into_take(b, l)),
        past_written(into_take(b, l), frames, b.size.max_frames as int),
    ));
    assert(post.tape(l, n) == c.audio()[l][n]) by {
        assert(c.arena@.len() == c.audio().len());
        assert(c.arena@[l]@.len() == c.audio()[l].len());
    }
    assert((2 * p + ch) / 2 == p && (2 * p + ch) % 2 == ch);
}

/// An overdub lands where it is heard: every frame of a buffer that lands is
/// one of the take's, at the position the play head passes over in that
/// frame, which going forward is where it is and going back is where it is a
/// frame later.
pub proof fn an_overdub_lands_where_it_is_heard(lp: Loop, into: int, start: int, n: int, i: int)
    requires
        lp.body.loop_len > 0,
        !lp.play.pendulum,
        n <= usize::MAX,
        0 <= i < landings(lp, into, start, n).len(),
    ensures
        ({
            let (f, p) = landings(lp, into, start, n)[i];
            &&& 0 <= f < n
            &&& into + f >= 0
            &&& p == lp.heard(passed_over(lp, start + f), lp.body.loop_len as int)
        }),
    decreases n,
{
    let len = lp.body.loop_len as int;
    if i < landings(lp, into, start, n - 1).len() {
        an_overdub_lands_where_it_is_heard(lp, into, start, n - 1, i);
    } else {
        loop_state::the_write_head_is_the_play_head(lp, passed_over(lp, start + n - 1), len);
    }
}

/// Taking a buffer in leaves the pairing of the two streams alone.
pub proof fn the_pairing_stays(
    pre: Shared,
    data: Seq<u32>,
    inputs: int,
    frames: int,
    post: Shared,
    r: Landed,
)
    requires
        taken_in(pre, data, inputs, frames, post, r),
    ensures
        post.clock == (Clock {
            in_frames: (pre.clock.in_frames + frames) as usize,
            ..pre.clock
        }),
{
}

/// A first take and a multiply are laid from their zero on: the frame of a
/// buffer that belongs to an output frame is on the layer as far in as that
/// frame is after the take's zero, both channels as they came in on the
/// source's inputs, and the take has got as far as the last of them.
pub proof fn a_take_is_laid_from_its_zero(
    pre: Shared,
    data: Seq<u32>,
    inputs: int,
    frames: int,
    post: Shared,
    r: Landed,
    li: usize,
    f: int,
    ch: int,
)
    requires
        pre.wf(),
        taken_in(pre, data, inputs, frames, post, r),
        pre.first_recording(Some(li)),
        pre.loops@[li as int].state == Phase::First || pre.loops@[li as int].state
            == Phase::Multiply,
        pre.loops@[li as int].body.n_layers < pre.size.max_layers,
        pre.loops@[li as int].habit.src < pre.sources@.len(),
        0 <= f < frames,
        0 <= ch < 2,
        0 <= pre.clock.in_frames + f + pre.clock.k - pre.loops@[li as int].take.rec_from
            < pre.size.max_frames,
    ensures
        ({
            let a = pre.loops@[li as int];
            let n = a.body.n_layers as int;
            let p = pre.clock.in_frames + f + pre.clock.k - a.take.rec_from;
            let input = pre.sources@[a.habit.src as int].ch@[ch];
            post.tape(li as int, n)[2 * p + ch] == data[f * inputs + input]
        }),
{
    a_take_is_what_came_in(pre, data, inputs, frames, post, r, li, f, ch);
}

/// A buffer that is written to a take leaves what was on its layer before the
/// buffer and after it alone, and every other layer.
pub proof fn a_buffer_is_written_once(
    pre: Shared,
    li: int,
    data: Seq<u32>,
    inputs: int,
    frames: int,
    post: Shared,
    l: int,
    i: int,
)
    requires
        pre.wf(),
        0 <= li < pre.size.n_loops,
        take_written(pre, li, data, inputs, frames, post),
        pre.loops@[li].body.n_layers < pre.size.max_layers,
        0 <= l < pre.size.max_layers,
        0 <= i < 2 * pre.size.max_frames,
        0 <= frames,
    ensures
        ({
            let a = pre.loops@[li];
            let b = post.loops@[li];
            let first = pre.clock.in_frames + pre.clock.k - a.take.rec_from;
            &&& l != a.body.n_layers || i / 2 < first || i / 2 >= first + frames
                ==> post.audio()[li][l][i] == pre.audio()[li][l][i]
            &&& b.body == a.body
            &&& b.state == a.state
            &&& b.take.rec_from == a.take.rec_from
            &&& b.take.reached >= a.take.reached
            &&& 0 < first + frames <= pre.size.max_frames && a.take.reached <= first + frames
                && frames > 0 ==> b.take.reached == first + frames
            &&& frames > 0 && first + frames > pre.size.max_frames ==> b.take.overflowed
        }),
{
    assert(pre.arena@[li]@.len() == pre.size.max_layers);
    assert(pre.tape(li, pre.loops@[li].body.n_layers as int).len() == 2 * pre.size.max_frames);
}

/// The sound a loop waits for is the first frame of a buffer at which either
/// channel of its source reaches the arm level. Off the grid the take is asked
/// for at once and dated back to so much before the sound; on it, it begins on
/// the next line.
pub proof fn a_sound_starts_the_take_that_waited_for_it(
    pre: Shared,
    data: Seq<u32>,
    inputs: int,
    frames: int,
    li: usize,
    g: usize,
    post: Shared,
    h: int,
)
    requires
        pre.wf(),
        listened(pre, data, inputs, frames, Some(li), Some(g), post),
        pre.loops@[li as int].habit.src < pre.sources@.len(),
        bits::up_to(pre.desk.arm_thresh, pre.in_peak@[pre.loops@[li as int].habit.src as int]),
        0 <= h < g,
    ensures
        ({
            let a = pre.loops@[li as int];
            let b = post.loops@[li as int];
            let src = pre.sources@[a.habit.src as int];
            let level = pre.desk.arm_thresh;
            let at = pre.clock.in_frames + g + pre.clock.k;
            &&& a.state == Phase::Armed
            &&& g < frames
            &&& bits::up_to(level, bits::unsigned(data[g * inputs + src.ch@[0]])) || bits::up_to(
                level,
                bits::unsigned(data[g * inputs + src.ch@[1]]),
            )
            &&& !bits::up_to(level, bits::unsigned(data[h * inputs + src.ch@[0]]))
            &&& !bits::up_to(level, bits::unsigned(data[h * inputs + src.ch@[1]]))
            &&& b.state == Phase::Armed
            &&& b.next.request == ARMED
            &&& !a.habit.quant || pre.boundary(at) is None ==> b.next.request_at == NEVER
                && b.next.arm_from == (at - pre.desk.arm_reach) as i64
            &&& a.habit.quant && pre.boundary(at) is Some ==> b.next.request_at == pre.boundary(
                at,
            ).unwrap() as i64 && b.next.arm_from == NEVER
            &&& b.next.one_pass == a.next.one_pass
        }),
{
    assert(!reaches(
        data,
        inputs,
        pre.sources@[pre.loops@[li as int].habit.src as int],
        pre.desk.arm_thresh,
        h,
    ));
}

/// Nothing is heard where nothing reaches the level: a loop that listens goes
/// on listening.
pub proof fn a_loop_listens_until_the_level_is_reached(
    pre: Shared,
    data: Seq<u32>,
    inputs: int,
    frames: int,
    li: Option<usize>,
    f: Option<usize>,
    post: Shared,
)
    requires
        pre.wf(),
        listened(pre, data, inputs, frames, li, f, post),
        forall|s: int, g: int|
            0 <= s < pre.sources@.len() && 0 <= g < frames ==> !#[trigger] reaches(
                data,
                inputs,
                pre.sources@[s],
                pre.desk.arm_thresh,
                g,
            ),
    ensures
        post == pre,
{
    if let Some(l) = li {
        let s = pre.source_of(l as int);
        if bits::up_to(pre.desk.arm_thresh, pre.in_peak@[s]) {
            if let Some(g) = f {
                assert(reaches(data, inputs, pre.sources@[s], pre.desk.arm_thresh, g as int));
            }
        }
    }
}

/// Every frame lands that can, in the order they came.
proof fn every_frame_lands(lp: Loop, into: int, start: int, n: int, f: int)
    requires
        0 <= f < n <= usize::MAX,
        into + f >= 0,
        lp.written(passed_over(lp, start + f), lp.body.loop_len as int) is Some,
        0 <= lp.written(passed_over(lp, start + f), lp.body.loop_len as int).unwrap()
            <= usize::MAX,
    ensures
        exists|i: int|
            0 <= i < landings(lp, into, start, n).len() && #[trigger] landings(
                lp,
                into,
                start,
                n,
            )[i] == (
                f as usize,
                lp.written(passed_over(lp, start + f), lp.body.loop_len as int).unwrap() as usize,
            ),
    decreases n,
{
    let now = landings(lp, into, start, n);
    let before = landings(lp, into, start, n - 1);
    let want = (
        f as usize,
        lp.written(passed_over(lp, start + f), lp.body.loop_len as int).unwrap() as usize,
    );
    if f < n - 1 {
        every_frame_lands(lp, into, start, n - 1, f);
        let i = choose|i: int| 0 <= i < before.len() && #[trigger] before[i] == want;
        assert(now[i] == want);
    } else {
        assert(now[before.len() as int] == want);
    }
}

/// Every frame of an overdub is added, at the position that is heard in that
/// frame: on a whole loop that is not rotated, as far in as it is after the
/// take's zero, coming round; and backwards the position the play head passes
/// over going down.
pub proof fn every_frame_of_an_overdub_is_added_where_it_is_heard(
    pre: Shared,
    li: int,
    data: Seq<u32>,
    inputs: int,
    frames: int,
    post: Shared,
    r: Landed,
    f: int,
)
    requires
        pre.wf(),
        0 <= li < pre.size.n_loops,
        recorded_by(pre, li, data, inputs, frames, post, r),
        pre.loops@[li].state == Phase::Overdub,
        pre.loops@[li].body.loop_len > 0,
        pre.loops@[li].body.n_layers < pre.size.max_layers,
        !pre.loops@[li].habit.revox,
        pre.loops@[li].play.warp == 0,
        !pre.loops@[li].play.pendulum,
        pre.loops@[li].edit.win_in == 0,
        pre.loops@[li].edit.win_out == 0,
        pre.loops@[li].edit.rot == 0,
        pre.loops@[li].play.speed == ONE_WIDE || pre.loops@[li].play.speed == MINUS_ONE_WIDE,
        0 <= f < frames <= usize::MAX,
        pre.clock.in_frames + pre.clock.k + f >= pre.loops@[li].take.rec_from,
    ensures
        ({
            let a = pre.loops@[li];
            let out = pre.clock.in_frames + pre.clock.k + f;
            let p = if a.play.speed == ONE_WIDE {
                (out - a.take.rec_from) % a.body.loop_len as int
            } else {
                (a.body.origin - out - 1) % a.body.loop_len as int
            };
            &&& post.audio() == pre.audio()
            &&& r matches Landed::Onto { li: to, layer, at } && to == li && layer
                == a.body.n_layers && exists|i: int|
                0 <= i < at@.len() && #[trigger] at@[i] == (f as usize, p as usize)
        }),
{
    let a = pre.loops@[li];
    let len = a.body.loop_len as int;
    let base = pre.clock.in_frames + pre.clock.k;
    assert(pre.loop_ok(a));
    let start = if a.play.speed == ONE_WIDE {
        base - a.take.rec_from
    } else {
        base - a.body.origin
    };
    loop_state::a_play_head_goes_round_what_is_played(a, passed_over(a, start + f), len, 0, len);
    vstd::arithmetic::div_mod::lemma_mod_bound(passed_over(a, start + f), len);
    every_frame_lands(a, base - a.take.rec_from, start, frames, f);
    assert(post.arena == pre.arena);
}

/// Nothing lands twice: the frames that land are in the order they came.
pub proof fn a_frame_lands_once(lp: Loop, into: int, start: int, n: int, i: int, j: int)
    requires
        n <= usize::MAX,
        0 <= i < j < landings(lp, into, start, n).len(),
    ensures
        landings(lp, into, start, n)[i].0 < landings(lp, into, start, n)[j].0 < n,
    decreases n,
{
    let before = landings(lp, into, start, n - 1);
    if j < before.len() {
        a_frame_lands_once(lp, into, start, n - 1, i, j);
    } else {
        landed_before(lp, into, start, n - 1, i);
    }
}

proof fn landed_before(lp: Loop, into: int, start: int, n: int, i: int)
    requires
        n <= usize::MAX,
        0 <= i < landings(lp, into, start, n).len(),
    ensures
        landings(lp, into, start, n)[i].0 < n,
    decreases n,
{
    let before = landings(lp, into, start, n - 1);
    if i < before.len() {
        landed_before(lp, into, start, n - 1, i);
    }
}

/// A loop that records over itself has every frame go over its tape, at the
/// position that is heard in it.
pub proof fn a_tape_is_recorded_over_where_it_is_heard(
    pre: Shared,
    li: int,
    data: Seq<u32>,
    inputs: int,
    frames: int,
    post: Shared,
    r: Landed,
    f: int,
)
    requires
        pre.wf(),
        0 <= li < pre.size.n_loops,
        recorded_by(pre, li, data, inputs, frames, post, r),
        pre.loops@[li].state == Phase::Overdub,
        pre.loops@[li].body.loop_len > 0,
        pre.loops@[li].habit.revox,
        pre.loops@[li].is_plain(),
        pre.loops@[li].edit.rot == 0,
        0 <= f < frames <= usize::MAX,
        pre.clock.in_frames + pre.clock.k + f >= pre.loops@[li].take.rec_from,
    ensures
        ({
            let a = pre.loops@[li];
            let p = (pre.clock.in_frames + pre.clock.k + f - a.take.rec_from)
                % a.body.loop_len as int;
            r matches Landed::Over { li: to, at } && to == li && exists|i: int|
                0 <= i < at@.len() && #[trigger] at@[i] == (f as usize, p as usize)
        }),
{
    let a = pre.loops@[li];
    let len = a.body.loop_len as int;
    let start = pre.clock.in_frames + pre.clock.k - a.take.rec_from;
    assert(pre.loop_ok(a));
    loop_state::a_play_head_goes_round_what_is_played(a, passed_over(a, start + f), len, 0, len);
    vstd::arithmetic::div_mod::lemma_mod_bound(start + f, len);
    every_frame_lands(a, start, start, frames, f);
}

proof fn a_peak_grows(peak: u32, data: Seq<u32>, inputs: int, src: Source, n: int, f: int, ch: int)
    requires
        0 <= f < n,
        0 <= ch < 2,
        bits::is_number(sample(data, inputs, f, src.ch@[ch] as int)),
    ensures
        peak_in(peak, data, inputs, src, n) >= bits::magnitude(
            sample(data, inputs, f, src.ch@[ch] as int),
        ),
    decreases n,
{
    if f < n - 1 {
        a_peak_grows(peak, data, inputs, src, n - 1, f, ch);
    }
}

proof fn a_peak_is_a_number(data: Seq<u32>, inputs: int, src: Source, n: int)
    ensures
        peak_in(0, data, inputs, src, n) <= bits::INFINITY,
    decreases n,
{
    if n > 0 {
        a_peak_is_a_number(data, inputs, src, n - 1);
    }
}

/// A source shows the loudest there was since it was last asked: whatever
/// came in on either of its channels, and what it showed before.
pub proof fn a_source_shows_its_loudest(
    pre: Shared,
    data: Seq<u32>,
    inputs: int,
    frames: int,
    post: Shared,
    s: int,
    f: int,
    ch: int,
)
    requires
        rings_kept(pre, data, inputs, frames, post),
        0 <= s < pre.sources@.len(),
        0 <= f < frames,
        0 <= ch < 2,
        bits::is_number(data[f * inputs + pre.sources@[s].ch@[ch]]),
    ensures
        post.in_peak@[s] >= bits::magnitude(data[f * inputs + pre.sources@[s].ch@[ch]]),
        post.in_peak@[s] >= pre.in_peak@[s],
{
    a_peak_grows(0, data, inputs, pre.sources@[s], frames, f, ch);
    a_peak_is_a_number(data, inputs, pre.sources@[s], frames);
    assert(post.in_peak@[s] == bits::louder(
        pre.in_peak@[s],
        peak_in(0, data, inputs, pre.sources@[s], frames),
    ));
}

proof fn a_picture_grows(
    env: Seq<u32>,
    data: Seq<u32>,
    inputs: int,
    src: Source,
    start: int,
    from: int,
    to: int,
    whole: int,
    p: int,
    ch: int,
)
    requires
        from <= p < to,
        0 <= ch < 2,
        bits::is_number(sample(data, inputs, p - start, src.ch@[ch] as int)),
        0 <= p * ENV_BUCKETS / whole < env.len(),
    ensures
        ({
            let after = pictured(env, data, inputs, src, start, from, to, whole);
            &&& after.len() == env.len()
            &&& after[p * ENV_BUCKETS / whole] >= bits::magnitude(
                sample(data, inputs, p - start, src.ch@[ch] as int),
            )
        }),
    decreases to - from,
{
    a_picture_keeps_its_size(env, data, inputs, src, start, from, to - 1, whole);
    if p < to - 1 {
        a_picture_grows(env, data, inputs, src, start, from, to - 1, whole, p, ch);
    }
}

proof fn a_picture_keeps_its_size(
    env: Seq<u32>,
    data: Seq<u32>,
    inputs: int,
    src: Source,
    start: int,
    from: int,
    to: int,
    whole: int,
)
    ensures
        pictured(env, data, inputs, src, start, from, to, whole).len() == env.len(),
    decreases to - from,
{
    if to > from {
        a_picture_keeps_its_size(env, data, inputs, src, start, from, to - 1, whole);
    }
}

/// The picture of a take in hand shows what is written: at the place of each
/// frame it is as loud as either of its samples. And the take has heard up to
/// the last frame that is written.
pub proof fn a_take_is_pictured_as_it_is_written(
    pre: Shared,
    li: int,
    data: Seq<u32>,
    inputs: int,
    frames: int,
    post: Shared,
    f: int,
    ch: int,
    p: int,
)
    requires
        pre.wf(),
        0 <= li < pre.size.n_loops,
        pre.loops@[li].habit.src < pre.sources@.len(),
        take_written(pre, li, data, inputs, frames, post),
        0 <= f < frames,
        0 <= ch < 2,
        p == pre.clock.in_frames + pre.clock.k - pre.loops@[li].take.rec_from + f,
        0 <= p < pre.size.max_frames,
        bits::is_number(data[f * inputs + pre.sources@[pre.loops@[li].habit.src as int].ch@[ch]]),
        frame::near(pre.loops@[li].take.rec_from),
    ensures
        post.loops@[li].rec_env@[p * ENV_BUCKETS / pre.size.max_frames as int] >= bits::magnitude(
            data[f * inputs + pre.sources@[pre.loops@[li].habit.src as int].ch@[ch]],
        ),
        post.loops@[li].take.rec_reached >= pre.loops@[li].take.rec_reached,
        post.loops@[li].take.rec_reached > pre.loops@[li].take.rec_from + p,
        post.loops@[li].take.rec_reached == pre.loops@[li].take.rec_reached
            || post.loops@[li].take.rec_reached <= pre.clock.in_frames + pre.clock.k + frames,
{
    let a = pre.loops@[li];
    let start = into_take(pre, li);
    let from = first_written(start);
    let to = past_written(start, frames, pre.size.max_frames as int);
    let whole = pre.size.max_frames as int;
    assert(pre.loop_ok(a));
    assert(a.rec_env@.len() == ENV_BUCKETS) by {
        reveal(shared::sound);
        reveal(Loop::wf);
    }
    assert(0 <= p * ENV_BUCKETS / whole < ENV_BUCKETS) by (nonlinear_arith)
        requires
            0 <= p < whole,
            ENV_BUCKETS > 0,
    ;
    a_picture_grows(
        a.rec_env@,
        data,
        inputs,
        source(pre, li),
        start,
        from,
        to,
        whole,
        p,
        ch,
    );
}

/// An overdub that goes round has heard up to the end of the buffer once any
/// of it is its own, and has then come as far as its loop is long.
pub proof fn an_overdub_has_heard_what_came(pre: Shared, li: int, frames: int)
    requires
        pre.wf(),
        0 <= li < pre.size.n_loops,
        0 <= frames,
        frame::near((pre.clock.in_frames + pre.clock.k + frames) as i64),
        i64::MIN <= pre.clock.in_frames + pre.clock.k + frames <= i64::MAX,
    ensures
        ({
            let a = pre.loops@[li];
            let b = going_round(pre, li, frames);
            let end = pre.clock.in_frames + pre.clock.k + frames;
            &&& frames > 0 && end > a.take.rec_from ==> {
                &&& b.take.rec_reached >= end
                &&& b.take.rec_reached >= a.take.rec_reached
                &&& b.take.rec_reached == end || b.take.rec_reached == a.take.rec_reached
                &&& b.take.reached >= a.body.loop_len
                &&& b.take.reached >= a.take.reached
                &&& b.take.reached == a.body.loop_len || b.take.reached == a.take.reached
            }
            &&& frames == 0 || end <= a.take.rec_from ==> b == a
            &&& b.body == a.body
            &&& b.take.rec_from == a.take.rec_from
        }),
{
}

proof fn a_landed_picture_grows(
    env: Seq<u32>,
    data: Seq<u32>,
    inputs: int,
    src: Source,
    at: Seq<(usize, usize)>,
    n: int,
    whole: int,
    k: int,
    ch: int,
)
    requires
        0 <= k < n <= at.len(),
        0 <= ch < 2,
        bits::is_number(sample(data, inputs, at[k].0 as int, src.ch@[ch] as int)),
        0 <= at[k].1 * ENV_BUCKETS / whole < env.len(),
    ensures
        landed_picture(env, data, inputs, src, at, n, whole).len() == env.len(),
        landed_picture(env, data, inputs, src, at, n, whole)[at[k].1 * ENV_BUCKETS / whole]
            >= bits::magnitude(sample(data, inputs, at[k].0 as int, src.ch@[ch] as int)),
    decreases n,
{
    a_landed_picture_keeps_its_size(env, data, inputs, src, at, n - 1, whole);
    if k < n - 1 {
        a_landed_picture_grows(env, data, inputs, src, at, n - 1, whole, k, ch);
    }
}

proof fn a_landed_picture_keeps_its_size(
    env: Seq<u32>,
    data: Seq<u32>,
    inputs: int,
    src: Source,
    at: Seq<(usize, usize)>,
    n: int,
    whole: int,
)
    ensures
        landed_picture(env, data, inputs, src, at, n, whole).len() == env.len(),
    decreases n,
{
    if n > 0 {
        a_landed_picture_keeps_its_size(env, data, inputs, src, at, n - 1, whole);
    }
}

/// The picture of an overdub in hand shows what landed, at the place it landed
/// on.
pub proof fn an_overdub_is_pictured_where_it_landed(
    pre: Shared,
    li: int,
    data: Seq<u32>,
    inputs: int,
    frames: int,
    at: Seq<(usize, usize)>,
    post: Shared,
    k: int,
    ch: int,
)
    requires
        pre.wf(),
        0 <= li < pre.size.n_loops,
        pre.loops@[li].habit.src < pre.sources@.len(),
        overdub_noted(pre, li, data, inputs, frames, at, post),
        0 <= k < at.len(),
        0 <= ch < 2,
        at[k].1 < pre.loops@[li].body.loop_len,
        bits::is_number(
            data[at[k].0 * inputs + pre.sources@[pre.loops@[li].habit.src as int].ch@[ch]],
        ),
    ensures
        post.loops@[li].rec_env@[at[k].1 * ENV_BUCKETS / pre.loops@[li].body.loop_len as int]
            >= bits::magnitude(
            data[at[k].0 * inputs + pre.sources@[pre.loops@[li].habit.src as int].ch@[ch]],
        ),
{
    let a = pre.loops@[li];
    let whole = a.body.loop_len as int;
    let p = at[k].1 as int;
    assert(pre.loop_ok(a));
    assert(a.rec_env@.len() == ENV_BUCKETS) by {
        reveal(shared::sound);
        reveal(Loop::wf);
    }
    assert(0 <= p * ENV_BUCKETS / whole < ENV_BUCKETS) by (nonlinear_arith)
        requires
            0 <= p < whole,
            ENV_BUCKETS > 0,
    ;
    a_landed_picture_grows(
        a.rec_env@,
        data,
        inputs,
        source(pre, li),
        at,
        at.len() as int,
        whole,
        k,
        ch,
    );
}

} // verus!
