//! What is heard of a buffer: which loops sound, from which positions, and
//! the click beside them.

use crate::audio;
use crate::audio::Heard;
use crate::beat;
use crate::bits;
use crate::bits::{INFINITY, ONE, SIGN};
use crate::frame;
use crate::layer::Layer;
use crate::loop_state::{Loop, Play};
use crate::num;
use crate::shared;
use crate::shared::{Clock, Desk, Shared};
use crate::wide;
use rand::rngs::SmallRng;
use rand::Rng;
use vstd::prelude::*;

verus! {

/// The generator a roll is drawn from: `rand::rngs::SmallRng`. What is in
/// it is not looked at.
#[verifier::external_type_specification]
#[verifier::external_body]
pub struct ExSmallRng(SmallRng);

/// `rand::Rng::gen` on a `SmallRng`, for a `u32`: thirty-two bits, and
/// nothing is said of which.
#[verifier::external_body]
fn draw(rng: &mut SmallRng) -> (r: u32) {
    rng.gen::<u32>()
}

/// Whether a roll comes up. The draw's top twenty-four bits are a number of
/// twenty-four bits after the point, and it comes up where that is below
/// the probability.
///
/// The probability is its significand times a power of two, so the two are
/// compared as whole numbers.
pub open spec fn comes_up(draw: u32, chance: u32) -> bool {
    let k = draw as int / 256;
    let exponent = chance as int / 0x80_0000;
    let fraction = chance as int % 0x80_0000;
    if chance >= SIGN || chance > INFINITY {
        false
    } else if chance >= ONE {
        true
    } else if exponent == 0 {
        k * vstd::arithmetic::power2::pow2(125) < fraction
    } else {
        k * vstd::arithmetic::power2::pow2((126 - exponent) as nat) < 0x80_0000 + fraction
    }
}

/// A number of twenty-four bits at most is below two to the twenty-fourth,
/// and so below any larger power unless it is nothing.
proof fn big_power(k: int, n: nat, m: int)
    requires
        k >= 0,
        n >= 24,
        0 < m <= 0x100_0000,
    ensures
        k * vstd::arithmetic::power2::pow2(n) < m <==> k == 0,
{
    vstd::arithmetic::power2::lemma2_to64();
    if n > 24 {
        vstd::arithmetic::power2::lemma_pow2_strictly_increases(24, n);
    }
    assert(k >= 1 ==> k * vstd::arithmetic::power2::pow2(n) >= 0x100_0000) by (nonlinear_arith)
        requires
            vstd::arithmetic::power2::pow2(n) >= 0x100_0000,
            k >= 0,
    ;
}

/// Whether a roll comes up.
pub fn rolled(draw: u32, chance: u32) -> (r: bool)
    ensures
        r == comes_up(draw, chance),
{
    if chance >= SIGN || chance > INFINITY {
        return false;
    }
    if chance >= ONE {
        return true;
    }
    let k: u64 = (draw / 256) as u64;
    let exponent: u32 = chance / 0x80_0000;
    let fraction: u32 = chance % 0x80_0000;
    if exponent == 0 {
        proof {
            if fraction > 0 {
                big_power(k as int, 125, fraction as int);
            } else {
                vstd::arithmetic::power2::lemma_pow2_pos(125);
                assert(k * vstd::arithmetic::power2::pow2(125) >= 0) by (nonlinear_arith)
                    requires
                        vstd::arithmetic::power2::pow2(125) > 0,
                        k >= 0,
                ;
            }
        }
        return k == 0 && fraction > 0;
    }
    let m: u64 = 0x80_0000 + fraction as u64;
    let shift: u32 = 126 - exponent;
    if shift >= 24 {
        proof {
            big_power(k as int, shift as nat, m as int);
        }
        return k == 0;
    }
    let p: u128 = wide::two_to(shift);
    proof {
        assert(k * p <= 0x100_0000 * 0x1_0000_0000_0000_0000) by (nonlinear_arith)
            requires
                0 <= k < 0x100_0000,
                1 <= p <= 0x1_0000_0000_0000_0000,
        ;
    }
    (k as u128) * p < m as u128
}

/// Whether a loop is silent whatever chance says: it has nothing, it is
/// stopped, or it is a one-shot between passes. Rendered, and not played
/// live, only having nothing counts.
pub open spec fn closed_off(lp: Loop, out_frame: i64, live: bool) -> bool {
    ||| lp.body.loop_len == 0
    ||| lp.body.n_layers == 0
    ||| live && lp.play.muted
    ||| live && lp.play.one_shot && !(out_frame < lp.play.shot_end)
}

/// Whether the pass at hand has yet to be rolled for.
pub open spec fn unrolled(lp: Loop, raw: i64) -> bool {
    lp.chancy() && lp.play.chance_pass != lp.pass_of(raw as int, lp.body.loop_len as int)
}

/// A loop after the pass at hand has been rolled for, where it had to be:
/// one roll holds for the whole pass.
pub open spec fn rolled_for(lp: Loop, raw: i64, draw: u32) -> Loop {
    if unrolled(lp, raw) {
        Loop {
            play: Play {
                chance_pass: lp.pass_of(raw as int, lp.body.loop_len as int) as i64,
                chance_sounds: comes_up(draw, lp.play.chance),
                ..lp.play
            },
            ..lp
        }
    } else {
        lp
    }
}

/// Whether a loop sounds at a frame, its play head having travelled `raw`
/// whole frames, and what the draw is where a roll is needed.
pub open spec fn sounds(
    pre: Loop,
    out_frame: i64,
    raw: i64,
    live: bool,
    draw: u32,
    post: Loop,
    r: bool,
) -> bool {
    if closed_off(pre, out_frame, live) {
        !r && post == pre
    } else if !live {
        r && post == pre
    } else {
        post == rolled_for(pre, raw, draw) && r == (!pre.chancy() || post.play.chance_sounds)
    }
}

/// Whether the pass at hand has yet to be rolled for.
fn to_roll(lp: &Loop, raw: i64) -> (r: bool)
    requires
        lp.wf(),
    ensures
        r == unrolled(*lp, raw),
{
    assert(frame::fits(lp.body.loop_len)) by {
        reveal(Loop::wf);
    }
    lp.chance_applies() && lp.play.chance_pass != lp.pass_index(raw, lp.body.loop_len)
}

/// Whether a loop is silent whatever chance says.
fn shut(lp: &Loop, out_frame: i64, live: bool) -> (r: bool)
    ensures
        r == closed_off(*lp, out_frame, live),
{
    lp.body.loop_len == 0 || lp.body.n_layers == 0 || (live && lp.play.muted) || (live && lp.play.one_shot
        && !lp.firing(out_frame))
}

/// Roll for the pass at hand.
fn roll(lp: &mut Loop, raw: i64, draw: u32)
    requires
        old(lp).wf(),
        unrolled(*old(lp), raw),
    ensures
        final(lp).wf(),
        *final(lp) == rolled_for(*old(lp), raw, draw),
{
    assert(frame::fits(lp.body.loop_len)) by {
        reveal(Loop::wf);
    }
    let pass: i64 = lp.pass_index(raw, lp.body.loop_len);
    let up = rolled(draw, lp.play.chance);
    lp.play.chance_pass = pass;
    lp.play.chance_sounds = up;
    proof {
        rolled_wf(*old(lp), pass, up);
    }
}

/// Whether a loop sounds at a frame, given the draw.
pub fn gate_with(lp: &mut Loop, out_frame: i64, raw: i64, live: bool, draw: u32) -> (r: bool)
    requires
        old(lp).wf(),
    ensures
        final(lp).wf(),
        sounds(*old(lp), out_frame, raw, live, draw, *final(lp), r),
{
    if shut(lp, out_frame, live) {
        return false;
    }
    if !live || !lp.chance_applies() {
        return true;
    }
    if to_roll(lp, raw) {
        roll(lp, raw, draw);
        return lp.play.chance_sounds;
    }
    lp.play.chance_sounds
}

proof fn rolled_wf(pre: Loop, pass: i64, up: bool)
    requires
        pre.wf(),
    ensures
        (Loop {
            play: Play { chance_pass: pass, chance_sounds: up, ..pre.play },
            ..pre
        }).wf(),
{
    reveal(Loop::wf);
}

/// Whether a loop sounds at a frame. A pass that has not been rolled for is
/// rolled for, from the generator.
pub fn gate(lp: &mut Loop, out_frame: i64, raw: i64, live: bool, rng: &mut SmallRng) -> (r: bool)
    requires
        old(lp).wf(),
    ensures
        final(lp).wf(),
        exists|draw: u32| sounds(*old(lp), out_frame, raw, live, draw, *final(lp), r),
{
    let d: u32 = if live && !shut(lp, out_frame, live) && to_roll(lp, raw) {
        draw(rng)
    } else {
        0
    };
    gate_with(lp, out_frame, raw, live, d)
}

/// Which positions of a loop a frame is heard from. A position outside the
/// loop is silence, and is none.
#[derive(Clone, Copy, Debug)]
pub struct Reading {
    /// The position itself.
    pub at: Option<usize>,
    /// The one after it, for a play head between the two.
    pub after: Option<usize>,
    /// Where a window's wrap is faded: the position past its end, how far
    /// into the fade this is, and how long the fade is.
    pub wrap: Option<(Option<usize>, usize, usize)>,
}

/// A position where it is inside the loop.
pub open spec fn inside(pos: int, len: int) -> Option<usize> {
    if 0 <= pos < len {
        Some(pos as usize)
    } else {
        None
    }
}

/// Where a window's wrap is faded at position `p`: over half the window at
/// most, from what follows its end, which comes round with the loop where
/// the window ends inside it.
pub open spec fn wrap_of(lp: Loop, p: int) -> Option<(Option<usize>, usize, usize)> {
    let len = lp.body.loop_len as int;
    let start = lp.cycle_start(len);
    let span = lp.cycle_span(len);
    let end = start + span;
    let xf = num::smaller(lp.play.fade as int, span / 2);
    let k = num::larger(p - start, 0);
    let after = end + k;
    if (start == 0 && span == len) || xf == 0 || k >= xf {
        None
    } else {
        Some(
            (
                inside(
                    if after >= len && end <= len {
                        after % len
                    } else {
                        after
                    },
                    len,
                ),
                k as usize,
                xf as usize,
            ),
        )
    }
}

/// Which positions a loop is heard from when its play head is at `p`, or
/// between `p` and what follows.
pub open spec fn read_of(lp: Loop, p: int) -> Reading {
    let len = lp.body.loop_len as int;
    let start = lp.cycle_start(len);
    let end = start + lp.cycle_span(len);
    Reading {
        at: inside(p, len),
        after: inside(
            if p + 1 >= end {
                start
            } else {
                p + 1
            },
            len,
        ),
        wrap: wrap_of(lp, p),
    }
}

fn within_loop(pos: i64, len: usize) -> (r: Option<usize>)
    requires
        frame::fits(len),
    ensures
        r == inside(pos as int, len as int),
{
    if pos >= 0 && pos < len as i64 {
        Some(pos as usize)
    } else {
        None
    }
}

/// Which positions a loop is heard from when its play head is at `p`.
pub fn loop_at(lp: &Loop, p: i64) -> (r: Reading)
    requires
        lp.wf(),
        lp.body.loop_len > 0,
        frame::in_range(p),
    ensures
        r == read_of(*lp, p as int),
{
    assert(frame::short(lp.body.loop_len)) by {
        reveal(Loop::wf);
    }
    let len: usize = lp.body.loop_len;
    let (start, span) = lp.cycle(len);
    let l: i64 = len as i64;
    let end: i64 = start + span as i64;
    let at = within_loop(p, len);
    let after = within_loop(
        if p + 1 >= end {
            start
        } else {
            p + 1
        },
        len,
    );
    let xf: usize = num::min(lp.play.fade, span / 2);
    let k: i64 = num::max_signed(p - start, 0);
    if (start == 0 && span == len) || xf == 0 || k >= xf as i64 {
        return Reading { at, after, wrap: None };
    }
    let past: i64 = end + k;
    let tail = within_loop(
        if past >= l && end <= l {
            num::wrap(past, l)
        } else {
            past
        },
        len,
    );
    Reading { at, after, wrap: Some((tail, k as usize, xf)) }
}

/// What the click does on a frame.
#[derive(Clone, Copy, Debug, PartialEq, Eq, Structural)]
pub enum Tick {
    Silent,
    Bar,
    Beat,
}

/// How many frames a tick lasts.
pub const TICK_FRAMES: usize = 16;

/// What the click follows: where it starts, its bar and its beat. The grid,
/// where there is one, in the beats of its bar; and else the selected loop.
pub open spec fn click_grid(sh: Shared) -> (i64, usize, usize) {
    let sel = num::smaller(sh.desk.selected as int, sh.size.n_loops - 1);
    let (origin, len, n) = match sh.the_grid() {
        Some((o, bar)) => (o, bar, beat::in_bar(sh.link.link_quantum)),
        None => (sh.loops@[sel].body.origin, sh.loops@[sel].body.loop_len, 1int),
    };
    (origin, len, num::larger(len as int / num::larger(n, 1), 1) as usize)
}

/// What the click does on a frame: a bar line and the beats after it.
pub open spec fn ticks(origin: i64, len: usize, beat: usize, frame: int) -> Tick {
    let pos = (frame - origin) % (len as int);
    if len == 0 {
        Tick::Silent
    } else if pos < TICK_FRAMES {
        Tick::Bar
    } else if pos % (beat as int) < TICK_FRAMES {
        Tick::Beat
    } else {
        Tick::Silent
    }
}

/// What the click follows.
pub fn click_of(sh: &Shared) -> (r: (i64, usize, usize))
    requires
        sh.wf(),
    ensures
        r == click_grid(*sh),
        frame::near(r.0),
        frame::short(r.1),
        r.2 >= 1,
{
    let (origin, len, n) = match sh.grid() {
        Some((o, bar)) => (o, bar, beat::beats_in_bar(sh.link.link_quantum)),
        None => {
            let lp = sh.lp(sh.sel());
            assert(frame::near(lp.body.origin) && frame::short(lp.body.loop_len)) by {
                reveal(shared::sound);
                reveal(Loop::wf);
            }
            (lp.body.origin, lp.body.loop_len, 1)
        },
    };
    let n: usize = num::max(n, 1);
    (origin, len, num::max(len / n, 1))
}

/// What the click does on a frame.
pub fn tick_at(origin: i64, len: usize, beat: usize, out_frame: i64) -> (r: Tick)
    requires
        frame::near(origin),
        frame::short(len),
        frame::near(out_frame),
        beat >= 1,
    ensures
        r == ticks(origin, len, beat, out_frame as int),
{
    if len == 0 {
        return Tick::Silent;
    }
    let pos: usize = num::wrap(out_frame - origin, len as i64) as usize;
    if pos < TICK_FRAMES {
        Tick::Bar
    } else if pos % beat < TICK_FRAMES {
        Tick::Beat
    } else {
        Tick::Silent
    }
}

/// The source that is monitored: that of the loop that holds the input, and
/// else the first.
pub fn monitored(sh: &Shared) -> (r: usize)
    requires
        sh.wf(),
    ensures
        r < sh.sources@.len(),
        exists|li: Option<usize>| #[trigger]
            sh.first_claim(li) && r == match li {
                Some(i) => sh.source_of(i as int),
                None => 0,
            },
{
    match sh.input_claimed() {
        Some(li) => sh.src_of(li),
        None => 0,
    }
}

/// Count a buffer as played, and keep its peak.
pub fn end_buffer(sh: &mut Shared, frames: usize, peak: u32)
    requires
        old(sh).wf(),
        frame::safe(16 * (old(sh).clock.out_frames + frames)),
    ensures
        final(sh).wf(),
        *final(sh) == (Shared {
            desk: Desk {
                out_peak: bits::louder(old(sh).desk.out_peak, peak),
                ..old(sh).desk
            },
            clock: Clock {
                out_frames: (old(sh).clock.out_frames + frames) as usize,
                ..old(sh).clock
            },
            ..*old(sh)
        }),
{
    let p: u32 = bits::loudest(sh.desk.out_peak, peak);
    sh.desk.out_peak = p;
    sh.clock.out_frames = sh.clock.out_frames + frames;
    proof {
        assert(sh.loops_ok());
        assert(sh.arena_ok());
        assert(sh.ring_ok());
    }
}

/// One roll holds for a whole pass: once a pass has been rolled for, no frame
/// of it is rolled for again.
pub proof fn one_roll_holds_for_a_pass(lp: Loop, raw: i64, later: i64, draw: u32)
    requires
        lp.pass_of(raw as int, lp.body.loop_len as int) == lp.pass_of(
            later as int,
            lp.body.loop_len as int,
        ),
        i64::MIN <= lp.pass_of(raw as int, lp.body.loop_len as int) <= i64::MAX,
    ensures
        !unrolled(rolled_for(lp, raw, draw), later),
{
}

/// What was played comes round: on a loop that plays plainly, a layer as long
/// as the loop is heard, any number of cycles after a frame of its take, from
/// the position that frame was written to.
pub proof fn what_was_played_comes_round(lp: Loop, l: Layer, max_frames: usize, f: int, c: int)
    requires
        lp.is_plain(),
        lp.edit.rot == 0,
        lp.play.fade == 0,
        l.len > 0,
        l.len == lp.body.loop_len,
        l.period <= 1,
        l.windowed() is None,
        lp.body.origin <= f < lp.body.origin + lp.body.loop_len,
    ensures
        ({
            let len = lp.body.loop_len as int;
            let at = (f - lp.body.origin) as usize;
            let raw = lp.whole_travel(f + c * len);
            &&& raw is Some
            &&& lp.heard(raw.unwrap(), len) == at
            &&& read_of(lp, at as int).at == Some(at)
            &&& read_of(lp, at as int).wrap is None
            &&& audio::played(l, lp.play.fade, max_frames, at as int) == (Heard::Frame { at })
        }),
{
    let len = lp.body.loop_len as int;
    let p = f - lp.body.origin;
    vstd::arithmetic::div_mod::lemma_mod_multiples_vanish(c, p, len);
    vstd::arithmetic::div_mod::lemma_small_mod(p as nat, len as nat);
    assert(c * len == len * c) by (nonlinear_arith);
}

/// A one-shot is silent outside its pass, whatever chance says of it.
pub proof fn a_one_shot_is_silent_outside_its_pass(
    pre: Loop,
    out_frame: i64,
    raw: i64,
    draw: u32,
    post: Loop,
    r: bool,
)
    requires
        pre.play.one_shot,
        pre.play.shot_end <= out_frame,
        sounds(pre, out_frame, raw, true, draw, post, r),
    ensures
        !r,
        post == pre,
{
}

/// A loop that holds something is heard unless it is stopped, is a one-shot
/// between passes, or its pass did not come up; and is rendered whatever any
/// of these say. One that holds nothing is silent.
pub proof fn a_loop_is_heard_unless_something_silences_it(
    pre: Loop,
    out_frame: i64,
    raw: i64,
    live: bool,
    draw: u32,
    post: Loop,
    r: bool,
)
    requires
        sounds(pre, out_frame, raw, live, draw, post, r),
    ensures
        pre.body.loop_len == 0 || pre.body.n_layers == 0 ==> !r,
        pre.body.loop_len > 0 && pre.body.n_layers > 0 && !live ==> r && post == pre,
        live && pre.play.muted ==> !r,
        pre.body.loop_len > 0 && pre.body.n_layers > 0 && live && !pre.play.muted && (
        !pre.play.one_shot || out_frame < pre.play.shot_end) && (pre.recording()
            || !bits::below(pre.play.chance, ONE)) ==> r && post == pre,
        post.body == pre.body,
        post.layers == pre.layers,
{
}

/// A pass is rolled for once, on its first frame, and is heard as it came up;
/// on every other frame of it the roll that was made stands.
pub proof fn a_pass_is_heard_as_it_came_up(
    pre: Loop,
    out_frame: i64,
    raw: i64,
    draw: u32,
    post: Loop,
    r: bool,
)
    requires
        sounds(pre, out_frame, raw, true, draw, post, r),
        pre.body.loop_len > 0,
        pre.body.n_layers > 0,
        !pre.play.muted,
        !pre.play.one_shot,
        !pre.recording(),
        bits::below(pre.play.chance, ONE),
        i64::MIN <= pre.pass_of(raw as int, pre.body.loop_len as int) <= i64::MAX,
    ensures
        pre.play.chance_pass == pre.pass_of(raw as int, pre.body.loop_len as int) ==> r
            == pre.play.chance_sounds && post == pre,
        pre.play.chance_pass != pre.pass_of(raw as int, pre.body.loop_len as int) ==> {
            &&& r == comes_up(draw, pre.play.chance)
            &&& post.play.chance_sounds == r
            &&& post.play.chance_pass == pre.pass_of(raw as int, pre.body.loop_len as int)
        },
{
}

/// What never comes up never does, what always does always does, and what
/// comes up for a draw comes up for every lower one. A half comes up for the
/// lower half of all draws, and a quarter for the lowest quarter.
pub proof fn a_roll_comes_up_as_often_as_its_chance(draw: u32, lower: u32, chance: u32)
    requires
        lower <= draw,
    ensures
        !comes_up(draw, 0),
        comes_up(draw, ONE),
        comes_up(draw, chance) ==> comes_up(lower, chance),
        comes_up(draw, 0x3F00_0000) <==> draw < 0x8000_0000,
        comes_up(draw, 0x3E80_0000) <==> draw < 0x4000_0000,
        comes_up(draw, 0x3F40_0000) <==> draw < 0xC000_0000,
{
    let k = draw as int / 256;
    let j = lower as int / 256;
    assert(0 <= j <= k);
    let e = chance as int / 0x80_0000;
    vstd::arithmetic::power2::lemma2_to64();
    vstd::arithmetic::power2::lemma_pow2_pos(125);
    let p = vstd::arithmetic::power2::pow2(125);
    assert(j * p <= k * p && 0 <= k * p) by (nonlinear_arith)
        requires
            0 <= j <= k,
            p > 0,
    ;
    if 0 < e <= 126 {
        vstd::arithmetic::power2::lemma_pow2_pos((126 - e) as nat);
        let q = vstd::arithmetic::power2::pow2((126 - e) as nat);
        assert(j * q <= k * q) by (nonlinear_arith)
            requires
                0 <= j <= k,
                q > 0,
        ;
    }
    let one = vstd::arithmetic::power2::pow2(0);
    let two = vstd::arithmetic::power2::pow2(1);
    assert(k * one == k && k * two == 2 * k) by (nonlinear_arith)
        requires
            one == 1,
            two == 2,
    ;
    assert(0x3F00_0000int / 0x80_0000 == 126 && 0x3F00_0000int % 0x80_0000 == 0);
    assert(0x3E80_0000int / 0x80_0000 == 125 && 0x3E80_0000int % 0x80_0000 == 0);
    assert(0x3F40_0000int / 0x80_0000 == 126 && 0x3F40_0000int % 0x80_0000 == 0x40_0000);
}

/// A loop is read where its play head is, and between two positions from the
/// one and the next, which after the last of what is played is the first. A
/// whole loop has its wrap faded by its layers, and none of its own.
pub proof fn a_loop_is_read_where_its_play_head_is(lp: Loop, p: int)
    requires
        lp.edit.win_in == 0,
        lp.edit.win_out == 0,
        0 <= p < lp.body.loop_len,
    ensures
        read_of(lp, p).at == Some(p as usize),
        read_of(lp, p).after == Some(
            if p + 1 < lp.body.loop_len {
                (p + 1) as usize
            } else {
                0
            },
        ),
        read_of(lp, p).wrap is None,
{
}

/// The seam of a window is faded: for the first frames after its start, from
/// what would have followed its end, which where the window ends inside the
/// loop comes round with it. There are no more of them than were asked for and
/// than half the window has.
pub proof fn a_window_fades_from_what_would_have_followed(
    lp: Loop,
    first: int,
    end: int,
    k: int,
    n: int,
)
    requires
        lp.body.loop_len > 0,
        first == lp.edit.win_in,
        end == lp.edit.win_out,
        -lp.body.loop_len <= first < end <= 2 * lp.body.loop_len,
        first != 0 || end != lp.body.loop_len,
        first != 0 || end != 0,
        0 <= k < end - first,
        n <= lp.play.fade,
        2 * n <= end - first,
        n == lp.play.fade || 2 * n + 2 > end - first,
    ensures
        k >= n ==> read_of(lp, first + k).wrap is None,
        k < n ==> {
            let len = lp.body.loop_len as int;
            let past = if end + k >= len && end <= len {
                (end + k) % len
            } else {
                end + k
            };
            &&& read_of(lp, first + k).wrap is Some
            &&& read_of(lp, first + k).wrap.unwrap().0 == (if 0 <= past < len {
                Some(past as usize)
            } else {
                None
            })
            &&& read_of(lp, first + k).wrap.unwrap().1 == k as usize
            &&& read_of(lp, first + k).wrap.unwrap().2 == n as usize
        },
        read_of(lp, first + k).at == (if 0 <= first + k < lp.body.loop_len {
            Some((first + k) as usize)
        } else {
            None
        }),
        k == end - first - 1 ==> read_of(lp, first + k).after == read_of(lp, first).at,
        k < end - first - 1 ==> read_of(lp, first + k).after == read_of(lp, first + k + 1).at,
{
    assert((end - first) / 2 == n || n == lp.play.fade);
}

/// The click ticks at the start of every bar and of every beat after it, and
/// nowhere else.
pub proof fn the_click_ticks_on_the_bar_and_the_beat(
    origin: i64,
    len: usize,
    beat: usize,
    c: int,
    b: int,
    k: int,
)
    requires
        len > 0,
        beat > 0,
        0 <= b,
        0 <= k < beat,
        b * beat + k < len,
    ensures
        ({
            let t = ticks(origin, len, beat, origin + c * len + b * beat + k);
            &&& b * beat + k < 16 ==> t == Tick::Bar
            &&& b * beat + k >= 16 && k < 16 ==> t == Tick::Beat
            &&& b * beat + k >= 16 && k >= 16 ==> t == Tick::Silent
        }),
{
    let pos = b * beat + k;
    assert(0 <= b * beat) by (nonlinear_arith)
        requires
            0 <= b,
            beat > 0,
    ;
    vstd::arithmetic::div_mod::lemma_fundamental_div_mod_converse(
        c * len + pos,
        len as int,
        c,
        pos,
    );
    vstd::arithmetic::div_mod::lemma_fundamental_div_mod_converse(pos, beat as int, b, k);
}

/// The click goes by the grid where there is one, and by the loop that is
/// selected where there is none: a beat is as many frames as go into a bar as
/// often as the bar has beats.
pub proof fn the_click_counts_the_beats_of_a_bar(sh: Shared, n: int)
    requires
        sh.size.n_loops >= 1,
        sh.desk.selected < sh.size.n_loops,
        n == beat::in_bar(sh.link.link_quantum),
        n >= 1,
    ensures
        ({
            let (origin, len, beat) = click_grid(sh);
            &&& sh.the_grid() matches Some((o, bar)) ==> {
                &&& origin == o
                &&& len == bar
                &&& bar >= n ==> beat * n <= bar < (beat + 1) * n
            }
            &&& sh.the_grid() is None ==> {
                let lp = sh.loops@[sh.desk.selected as int];
                &&& origin == lp.body.origin
                &&& len == lp.body.loop_len
                &&& len > 0 ==> beat == len
            }
            &&& beat >= 1
        }),
{
    if let Some((_, bar)) = sh.the_grid() {
        let b = bar as int;
        vstd::arithmetic::div_mod::lemma_fundamental_div_mod(b, n);
        vstd::arithmetic::div_mod::lemma_mod_bound(b, n);
        let q = b / n;
        assert(q * n == n * q && (q + 1) * n == n * q + n) by (nonlinear_arith);
        assert(b >= n ==> q >= 1) by (nonlinear_arith)
            requires
                b == n * q + b % n,
                b % n < n,
                n >= 1,
        ;
        assert(q <= b) by (nonlinear_arith)
            requires
                b == n * q + b % n,
                0 <= b % n,
                n >= 1,
                b >= 0,
        ;
        assert(click_grid(sh).2 == num::larger(q, 1));
    } else {
        let len = sh.loops@[sh.desk.selected as int].body.loop_len as int;
        assert(len / 1 == len);
        assert(click_grid(sh).2 == num::larger(len, 1));
    }
}

} // verus!
