//! Bringing the recent past back out of the ring.

use crate::frame;
use crate::input;
use crate::input::Landed;
use crate::shared::Shared;
use vstd::prelude::*;

verus! {

/// A tape with `len` frames of the past on it from position `at`: those the
/// output played from `from_out` on, as far as the ring still holds them.
/// Where it does not, the tape keeps what it had.
pub open spec fn filled(
    tape: Seq<u32>,
    sh: Shared,
    src: int,
    from_out: int,
    len: int,
    at: int,
) -> Seq<u32> {
    Seq::new(
        tape.len(),
        |i: int|
            {
                let p = i / 2 - at;
                match sh.recalled(src, from_out + p - sh.clock.k, i % 2) {
                    Some(v) if 0 <= p < len => v,
                    _ => tape[i],
                }
            },
    )
}

/// How many of `len` frames from `from_out` on the ring still holds.
pub open spec fn held(sh: Shared, src: int, from_out: int, len: int) -> nat
    decreases len,
{
    if len <= 0 {
        0
    } else {
        let rest = held(sh, src, from_out, len - 1);
        if sh.recalled(src, from_out + len - 1 - sh.clock.k, 0) is Some {
            rest + 1
        } else {
            rest
        }
    }
}

/// How many of `len` frames from `from_out` on the ring still holds.
pub fn held_of(sh: &Shared, src: usize, from_out: i64, len: i64) -> (r: usize)
    requires
        sh.wf(),
        frame::near(from_out),
        frame::safe(2 * len),
    ensures
        r == held(*sh, src as int, from_out as int, len as int),
{
    let mut got: usize = 0;
    let mut p: i64 = 0;
    while p < len
        invariant
            sh.wf(),
            frame::near(from_out),
            frame::safe(2 * len),
            0 <= p,
            p <= len || p == 0,
            got <= p,
            got == held(*sh, src as int, from_out as int, p as int),
        decreases len - p,
    {
        if sh.ring_at(src, from_out + p - sh.clock.k, 0).is_some() {
            got = got + 1;
        }
        p = p + 1;
    }
    got
}

/// Put `len` frames of the past on a tape from position `at`, and say how
/// many there were.
pub fn fill(
    tape: &mut Vec<u32>,
    sh: &Shared,
    src: usize,
    from_out: i64,
    len: usize,
    at: usize,
) -> (r: usize)
    requires
        sh.wf(),
        frame::near(from_out),
        frame::fits(len),
        2 * (at + len) <= old(tape)@.len(),
    ensures
        final(tape)@ == filled(
            old(tape)@,
            *sh,
            src as int,
            from_out as int,
            len as int,
            at as int,
        ),
        r == held(*sh, src as int, from_out as int, len as int),
        r <= len,
{
    let ghost before = tape@;
    let size: usize = tape.len();
    let mut got: usize = 0;
    let mut p: usize = 0;
    assert(filled(before, *sh, src as int, from_out as int, 0, at as int) =~= before);
    while p < len
        invariant
            p <= len,
            got <= p,
            sh.wf(),
            frame::near(from_out),
            frame::fits(len),
            size == tape@.len(),
            size == before.len(),
            2 * (at + len) <= size,
            tape@ == filled(before, *sh, src as int, from_out as int, p as int, at as int),
            got == held(*sh, src as int, from_out as int, p as int),
        decreases len - p,
    {
        let f: i64 = from_out + p as i64 - sh.clock.k;
        let a = sh.ring_at(src, f, 0);
        let b = sh.ring_at(src, f, 1);
        match (a, b) {
            (Some(x), Some(y)) => {
                tape.set(2 * (at + p), x);
                tape.set(2 * (at + p) + 1, y);
                got = got + 1;
            },
            _ => {},
        }
        assert(tape@ =~= filled(before, *sh, src as int, from_out as int, p + 1, at as int));
        p = p + 1;
    }
    got
}

/// A copy of a layer's audio.
pub fn copy_tape(sh: &Shared, li: usize, layer: usize) -> (r: Vec<u32>)
    requires
        sh.wf(),
        li < sh.size.n_loops,
        layer < sh.size.max_layers,
    ensures
        r@ == sh.tape(li as int, layer as int),
        r@.len() == 2 * sh.size.max_frames,
{
    assert(sh.arena@[li as int]@[layer as int]@.len() == 2 * sh.size.max_frames);
    let r = sh.arena[li][layer].clone();
    assert(r@ =~= sh.tape(li as int, layer as int));
    r
}

/// Put `len` frames of the past on a layer from position `at`, and say how
/// many there were.
pub fn fill_from_ring(
    sh: &mut Shared,
    li: usize,
    layer: usize,
    from_out: i64,
    len: usize,
    at: usize,
) -> (r: usize)
    requires
        old(sh).wf(),
        li < old(sh).size.n_loops,
        layer < old(sh).size.max_layers,
        frame::near(from_out),
        at + len <= old(sh).size.max_frames,
    ensures
        final(sh).wf(),
        final(sh).audio() == old(sh).audio_with(
            li as int,
            layer as int,
            filled(
                old(sh).tape(li as int, layer as int),
                *old(sh),
                old(sh).source_of(li as int),
                from_out as int,
                len as int,
                at as int,
            ),
        ),
        final(sh).tape(li as int, layer as int) == filled(
            old(sh).tape(li as int, layer as int),
            *old(sh),
            old(sh).source_of(li as int),
            from_out as int,
            len as int,
            at as int,
        ),
        *final(sh) == (Shared { arena: final(sh).arena, ..*old(sh) }),
        r == held(*old(sh), old(sh).source_of(li as int), from_out as int, len as int),
        r <= len,
{
    let src: usize = sh.src_of(li);
    let mut tape = copy_tape(sh, li, layer);
    let got: usize = fill(&mut tape, sh, src, from_out, len, at);
    sh.set_tape(li, layer, tape);
    got
}

/// A claim is what a take would have been: a frame that a take beginning at
/// output frame `from` writes as it arrives is, for as long as the past
/// reaches back to it, the frame that a claim from `from` finds at the same
/// position.
pub proof fn a_claim_is_what_a_take_would_have_been(
    pre: Shared,
    data: Seq<u32>,
    inputs: int,
    frames: int,
    post: Shared,
    r: Landed,
    s: int,
    from: int,
    f: int,
    ch: int,
    len: int,
    tape: Seq<u32>,
)
    requires
        pre.wf(),
        0 <= f < frames,
        pre.clock.in_frames + frames <= usize::MAX,
        input::taken_in(pre, data, inputs, frames, post, r),
        0 <= s < pre.sources@.len(),
        0 <= ch < 2,
        0 <= pre.clock.in_frames + pre.clock.k + f - from < len,
        2 * len <= tape.len(),
        post.recalled(s, pre.clock.in_frames + f, ch) is Some,
    ensures
        ({
            let start = pre.clock.in_frames + pre.clock.k - from;
            let i = 2 * (start + f) + ch;
            filled(tape, post, s, from, len, 0)[i] == input::written(
                tape,
                data,
                inputs,
                pre.sources@[s],
                start,
                input::first_written(start),
                input::past_written(start, frames, len),
            )[i]
        }),
{
    let start = pre.clock.in_frames + pre.clock.k - from;
    let p = start + f;
    let i = 2 * p + ch;
    input::the_past_is_what_came_in(
        pre,
        data,
        inputs,
        frames,
        post,
        r,
        s,
        pre.clock.in_frames + f,
        ch,
    );
    input::the_pairing_stays(pre, data, inputs, frames, post, r);
    assert(i / 2 == p && i % 2 == ch);
}

/// Every frame of the past that is still held is brought back to where it
/// belongs, in both channels, and nothing else of the tape is touched.
pub proof fn what_is_held_is_brought_back(
    tape: Seq<u32>,
    sh: Shared,
    src: int,
    from: int,
    len: int,
    at: int,
    p: int,
    ch: int,
)
    requires
        0 <= at,
        0 <= len,
        2 * (at + len) <= tape.len(),
        0 <= p,
        2 * p + ch < tape.len(),
        0 <= ch < 2,
    ensures
        ({
            let after = filled(tape, sh, src, from, len, at);
            let past = sh.recalled(src, from + (p - at) - sh.clock.k, ch);
            &&& after.len() == tape.len()
            &&& at <= p < at + len && past is Some ==> after[2 * p + ch] == past.unwrap()
            &&& at <= p < at + len && past is None ==> after[2 * p + ch] == tape[2 * p + ch]
            &&& !(at <= p < at + len) ==> after[2 * p + ch] == tape[2 * p + ch]
        }),
{
    let i = 2 * p + ch;
    assert(i / 2 == p && i % 2 == ch);
}

/// How much of the past is held is counted frame by frame: all of it where
/// every frame is, and none where none is.
pub proof fn what_is_held_is_counted(sh: Shared, src: int, from: int, len: int)
    requires
        0 <= len,
    ensures
        held(sh, src, from, len) <= len,
        held(sh, src, from, len) == len <==> forall|p: int|
            0 <= p < len ==> sh.recalled(src, #[trigger] (from + p) - sh.clock.k, 0) is Some,
        held(sh, src, from, len) == 0 <==> forall|p: int|
            0 <= p < len ==> sh.recalled(src, #[trigger] (from + p) - sh.clock.k, 0) is None,
    decreases len,
{
    if len > 0 {
        what_is_held_is_counted(sh, src, from, len - 1);
        let last = from + (len - 1);
        assert(last - sh.clock.k == from + len - 1 - sh.clock.k);
    }
}

} // verus!
