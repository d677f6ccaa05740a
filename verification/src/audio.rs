//! The audio of the layers: clearing it, drawing it, and which samples a
//! position is heard from.

use crate::bits;
use crate::frame;
use crate::layer::Layer;
use crate::loop_state;
use crate::loop_state::{Loop, ENV_BUCKETS};
use crate::num;
use crate::shared;
use crate::shared::Shared;
use vstd::prelude::*;

verus! {

/// Silence of `n` samples.
pub open spec fn silence(n: int) -> Seq<u32> {
    Seq::new(n as nat, |i: int| 0u32)
}

pub fn silent(n: usize) -> (r: Vec<u32>)
    ensures
        r@ == silence(n as int),
{
    let mut r: Vec<u32> = Vec::new();
    let mut i: usize = 0;
    while i < n
        invariant
            i <= n,
            r@ == silence(i as int),
        decreases n - i,
    {
        r.push(0);
        assert(r@ =~= silence(i + 1));
        i = i + 1;
    }
    r
}

/// The audio of a loop's layers.
pub open spec fn tapes(bank: Seq<Vec<u32>>) -> Seq<Seq<u32>> {
    Seq::new(bank.len(), |l: int| bank[l]@)
}

/// The loudest sample of the frames `from..to`.
pub open spec fn peak_of(tape: Seq<u32>, from: int, to: int) -> u32
    decreases to - from,
{
    if to <= from {
        0
    } else {
        bits::louder(
            bits::louder(peak_of(tape, from, to - 1), tape[2 * (to - 1)]),
            tape[2 * (to - 1) + 1],
        )
    }
}

/// The first frame of a stretch of a layer's picture.
pub open spec fn stretch_from(b: int, len: int) -> int {
    b * len / ENV_BUCKETS as int
}

/// One past its last frame: a stretch is a frame at least and ends with the
/// layer.
pub open spec fn stretch_to(b: int, len: int) -> int {
    num::smaller(
        num::larger((b + 1) * len / ENV_BUCKETS as int, stretch_from(b, len) + 1),
        len,
    )
}

/// The picture of a layer: the loudest of each stretch, or nothing where it
/// has no length.
pub open spec fn picture(tape: Seq<u32>, len: int) -> Seq<u32> {
    if len == 0 {
        Seq::empty()
    } else {
        Seq::new(
            ENV_BUCKETS as nat,
            |b: int| peak_of(tape, stretch_from(b, len), stretch_to(b, len)),
        )
    }
}

pub fn peak_between(tape: &Vec<u32>, from: usize, to: usize) -> (r: u32)
    requires
        2 * to <= tape@.len(),
    ensures
        r == peak_of(tape@, from as int, to as int),
{
    let n: usize = tape.len();
    let mut p: usize = from;
    let mut peak: u32 = 0;
    while p < to
        invariant
            n == tape@.len(),
            2 * to <= n,
            from <= p,
            p <= to || p == from,
            peak == peak_of(tape@, from as int, p as int),
        decreases to - p,
    {
        peak = bits::loudest(peak, tape[2 * p]);
        peak = bits::loudest(peak, tape[2 * p + 1]);
        p = p + 1;
    }
    peak
}

/// The picture of the first `len` frames of a tape.
pub fn draw(tape: &Vec<u32>, len: usize) -> (r: Vec<u32>)
    requires
        2 * len <= tape@.len(),
        frame::fits(len),
    ensures
        r@ == picture(tape@, len as int),
{
    let mut r: Vec<u32> = Vec::new();
    if len == 0 {
        return r;
    }
    let mut b: usize = 0;
    while b < ENV_BUCKETS
        invariant
            b <= ENV_BUCKETS,
            0 < len,
            2 * len <= tape@.len(),
            frame::fits(len),
            r@.len() == b,
            forall|c: int|
                0 <= c < b ==> #[trigger] r@[c] == peak_of(
                    tape@,
                    stretch_from(c, len as int),
                    stretch_to(c, len as int),
                ),
        decreases ENV_BUCKETS - b,
    {
        let from: usize = stretch(b, len);
        let next: usize = stretch(b + 1, len);
        proof {
            stretch_inside(b as int, len as int);
        }
        let to: usize = num::min(num::max(next, from + 1), len);
        r.push(peak_between(tape, from, to));
        b = b + 1;
    }
    assert(r@ =~= picture(tape@, len as int));
    r
}

/// A stretch starts inside the layer.
proof fn stretch_inside(b: int, len: int)
    requires
        0 <= b < ENV_BUCKETS,
        len > 0,
    ensures
        0 <= stretch_from(b, len) < len,
        0 <= b * len,
{
    assert(0 <= b * len && b * len < ENV_BUCKETS * len) by (nonlinear_arith)
        requires
            0 <= b < ENV_BUCKETS,
            len > 0,
    ;
}

fn stretch(b: usize, len: usize) -> (r: usize)
    requires
        b <= ENV_BUCKETS,
        frame::fits(len),
    ensures
        r == stretch_from(b as int, len as int),
        r <= len,
{
    proof {
        assert(0 <= b * len && b * len <= ENV_BUCKETS * len) by (nonlinear_arith)
            requires
                0 <= b <= ENV_BUCKETS,
                0 <= len,
        ;
        assert(b as u128 * len as u128 == b * len);
    }
    let r: u128 = (b as u128) * (len as u128) / 192u128;
    r as usize
}

/// Which samples a layer is heard from at a position.
#[derive(Clone, Copy, Debug, PartialEq, Eq, Structural)]
pub enum Heard {
    /// None: it is silent there.
    Silence,
    /// The frame `at` of the layer.
    Frame { at: usize },
    /// The wrap: the frame `at`, `step` frames into a fade of `of`, over the
    /// frame `tail` of what was played past the end.
    Wrap { at: usize, tail: usize, step: usize, of: usize },
}

/// How many frames of a layer's wrap can be faded: no more than is asked,
/// than is kept past its end, and than there is room for.
pub open spec fn fadeable(l: Layer, fade: int, max_frames: int) -> int {
    num::smaller(
        num::smaller(fade, l.tail as int),
        num::larger(max_frames - l.len, 0),
    )
}

/// Which samples a layer is heard from at loop position `pos`.
pub open spec fn sampled(l: Layer, fade: usize, max_frames: usize, pos: int) -> Heard {
    match l.placed(pos) {
        None => Heard::Silence,
        Some(p) => {
            let n = fadeable(l, fade as int, max_frames as int);
            if fade == 0 || p >= fade || l.period > 1 || p >= n {
                Heard::Frame { at: p as usize }
            } else {
                Heard::Wrap {
                    at: p as usize,
                    tail: (l.len + p) as usize,
                    step: p as usize,
                    of: n as usize,
                }
            }
        },
    }
}

/// Which samples a layer is heard from at loop position `pos` when it is
/// played: through its own window where it has one.
pub open spec fn played(l: Layer, fade: usize, max_frames: usize, pos: int) -> Heard {
    match l.windowed() {
        Some(_) => match l.in_window(pos) {
            Some(p) => Heard::Frame { at: p as usize },
            None => Heard::Silence,
        },
        None => sampled(l, fade, max_frames, pos),
    }
}

/// A gain below this is not worth mixing: one ten-thousandth, as bits.
pub const FAINT: u32 = 0x38D1_B717;

/// Whether a layer is in the mix: switched on, and not faded away.
pub open spec fn mixed(l: Layer) -> bool {
    bits::below(FAINT, l.gain) && l.on
}

impl Shared {
    /// Silence a layer.
    pub fn zero_layer(&mut self, li: usize, layer: usize)
        requires
            old(self).wf(),
            li < old(self).size.n_loops,
            layer < old(self).size.max_layers,
        ensures
            final(self).wf(),
            final(self).audio() == old(self).audio_with(
                li as int,
                layer as int,
                silence(2 * old(self).size.max_frames),
            ),
            final(self).tape(li as int, layer as int) == silence(2 * old(self).size.max_frames),
            *final(self) == (Shared { arena: final(self).arena, ..*old(self) }),
    {
        let tape = silent(2 * self.size.max_frames);
        self.set_tape(li, layer, tape);
    }

    /// Exchange the audio of a layer.
    pub fn set_tape(&mut self, li: usize, layer: usize, tape: Vec<u32>)
        requires
            old(self).wf(),
            li < old(self).size.n_loops,
            layer < old(self).size.max_layers,
            tape@.len() == 2 * old(self).size.max_frames,
        ensures
            final(self).wf(),
            final(self).audio() == old(self).audio_with(li as int, layer as int, tape@),
            final(self).tape(li as int, layer as int) == tape@,
            *final(self) == (Shared { arena: final(self).arena, ..*old(self) }),
    {
        put_tape(&mut self.arena, li, layer, tape);
        proof {
            shared::audio_changed(*old(self), *self, li as int, layer as int);
        }
    }

    /// Exchange the audio of every layer of a loop.
    pub fn set_bank(&mut self, li: usize, bank: Vec<Vec<u32>>)
        requires
            old(self).wf(),
            li < old(self).size.n_loops,
            bank@.len() == old(self).size.max_layers,
            forall|l: int|
                0 <= l < bank@.len() ==> (#[trigger] bank@[l])@.len() == 2
                    * old(self).size.max_frames,
        ensures
            final(self).wf(),
            final(self).audio() == old(self).audio().update(li as int, tapes(bank@)),
            *final(self) == (Shared { arena: final(self).arena, ..*old(self) }),
    {
        self.arena.set(li, bank);
        proof {
            assert forall|i: int, l: int|
                0 <= i < self.size.n_loops && 0 <= l < self.size.max_layers implies (
            #[trigger] self.arena@[i]@[l])@.len() == 2 * self.size.max_frames by {
                if i != li {
                    assert(old(self).arena@[i]@[l]@.len() == 2 * self.size.max_frames);
                }
            }
            assert(self.audio() =~= old(self).audio().update(li as int, tapes(bank@)));
        }
    }

    /// Draw a layer anew.
    pub fn rebuild_env(&mut self, li: usize, layer: usize)
        requires
            old(self).wf(),
            li < old(self).size.n_loops,
            layer < old(self).size.max_layers,
        ensures
            final(self).wf(),
            old(self).redrawn(li as int, layer as int, *final(self)),
    {
        proof {
            assert(self.loop_ok(self.loops@[li as int]));
            shared::sized(self.loops@[li as int], self.size.max_layers, self.size.max_frames);
        }
        assert(self.arena@[li as int]@[layer as int]@.len() == 2 * self.size.max_frames);
        let len: usize = self.loops[li].layers[layer].len;
        let env = draw(&self.arena[li][layer], len);
        put_env(&mut self.loops, li, layer, env);
        proof {
            picture_keeps_sound(
                old(self).loops@[li as int],
                self.loops@[li as int],
                layer as int,
                env,
                self.size.max_layers,
                self.size.max_frames,
            );
            shared::one_loop_changed(*old(self), *self, li as int);
        }
    }

    /// A layer's picture drawn anew and nothing else changed.
    pub open spec fn redrawn(self, li: int, layer: int, post: Shared) -> bool {
        let a = self.loops@[li];
        let b = post.loops@[li];
        &&& post.loops@.len() == self.loops@.len()
        &&& forall|i: int|
            0 <= i < self.loops@.len() && i != li ==> #[trigger] post.loops@[i] == self.loops@[i]
        &&& b == (Loop { layers: b.layers, ..a })
        &&& b.layers@.len() == a.layers@.len()
        &&& forall|l: int|
            0 <= l < a.layers@.len() && l != layer ==> #[trigger] b.layers@[l] == a.layers@[l]
        &&& b.layers@[layer] == (Layer { env: b.layers@[layer].env, ..a.layers@[layer] })
        &&& b.layers@[layer].env@ == picture(self.tape(li, layer), a.layers@[layer].len as int)
        &&& post == (Shared { loops: post.loops, ..self })
    }

    /// Which samples a layer is heard from at loop position `pos`.
    pub fn sample_at(&self, li: usize, layer: usize, pos: usize) -> (r: Heard)
        requires
            self.wf(),
            li < self.size.n_loops,
            layer < self.size.max_layers,
        ensures
            r == sampled(
                self.loops@[li as int].layers@[layer as int],
                self.loops@[li as int].play.fade,
                self.size.max_frames,
                pos as int,
            ),
    {
        proof {
            reveal(shared::sound);
            reveal(Loop::wf);
            assert(self.loop_ok(self.loops@[li as int]));
        }
        let lp = &self.loops[li];
        let l = &lp.layers[layer];
        assert(lp.layers@[layer as int].len <= self.size.max_frames);
        match l.pos(pos) {
            None => Heard::Silence,
            Some(p) => {
                let fade: usize = lp.play.fade;
                if fade == 0 || p >= fade || l.period > 1 {
                    return Heard::Frame { at: p };
                }
                let n: usize = num::min(num::min(fade, l.tail), self.size.max_frames - l.len);
                if p >= n {
                    return Heard::Frame { at: p };
                }
                Heard::Wrap { at: p, tail: l.len + p, step: p, of: n }
            },
        }
    }

    /// What is mixed at loop position `pos`: for each layer in the mix, its
    /// number, which samples it is heard from and its gain as bits. Played,
    /// a layer goes through its own window; not played, it is as stored.
    pub fn mix_at(&self, li: usize, n: usize, pos: usize, live: bool) -> (r: Vec<
        (usize, Heard, u32),
    >)
        requires
            self.wf(),
            li < self.size.n_loops,
            n <= self.size.max_layers,
            pos <= i64::MAX,
        ensures
            r@ == self.mix_of(li as int, n as int, pos as int, live),
    {
        let mut r: Vec<(usize, Heard, u32)> = Vec::new();
        let mut l: usize = 0;
        while l < n
            invariant
                self.wf(),
                li < self.size.n_loops,
                l <= n <= self.size.max_layers,
                pos <= i64::MAX,
                r@ == self.mix_of(li as int, l as int, pos as int, live),
            decreases n - l,
        {
            proof {
            reveal(shared::sound);
            reveal(Loop::wf);
            assert(self.loop_ok(self.loops@[li as int]));
        }
            let lp = &self.loops[li];
            let g: u32 = lp.layer_gain(l);
            if bits::less(FAINT, g) && lp.layer_on(l) {
                let h: Heard = match if live {
                    lp.windowed_pos(l, pos)
                } else {
                    None
                } {
                    Some(Some(p)) => Heard::Frame { at: p },
                    Some(None) => Heard::Silence,
                    None => self.sample_at(li, l, pos),
                };
                r.push((l, h, g));
            }
            l = l + 1;
        }
        r
    }

    /// What is mixed at loop position `pos` of the first `n` layers.
    pub open spec fn mix_of(self, li: int, n: int, pos: int, live: bool) -> Seq<(usize, Heard, u32)>
        decreases n,
    {
        if n <= 0 {
            Seq::empty()
        } else {
            let before = self.mix_of(li, n - 1, pos, live);
            let lp = self.loops@[li];
            let l = lp.layers@[n - 1];
            if mixed(l) {
                before.push(
                    (
                        (n - 1) as usize,
                        if live {
                            played(l, lp.play.fade, self.size.max_frames, pos)
                        } else {
                            sampled(l, lp.play.fade, self.size.max_frames, pos)
                        },
                        l.gain,
                    ),
                )
            } else {
                before
            }
        }
    }
}

/// A new picture leaves a loop sound.
proof fn picture_keeps_sound(
    a: Loop,
    b: Loop,
    layer: int,
    env: Vec<u32>,
    max_layers: usize,
    max_frames: usize,
)
    requires
        shared::sound(a, max_layers, max_frames),
        0 <= layer < max_layers,
        b == (Loop { layers: b.layers, ..a }),
        b.layers@ == a.layers@.update(layer, (Layer { env, ..a.layers@[layer] })),
    ensures
        shared::sound(b, max_layers, max_frames),
{
    reveal(shared::sound);
        reveal(Loop::wf);
    assert forall|l: int| 0 <= l < b.layers@.len() implies loop_state::layer_wf(#[trigger] b.layers@[l])
        && b.layers@[l].len <= max_frames by {
        assert(loop_state::layer_wf(a.layers@[l]));
        assert(a.layers@[l].len <= max_frames);
    }
}

fn put_tape(arena: &mut Vec<Vec<Vec<u32>>>, li: usize, layer: usize, tape: Vec<u32>)
    requires
        li < old(arena)@.len(),
        layer < old(arena)@[li as int]@.len(),
    ensures
        final(arena)@.len() == old(arena)@.len(),
        forall|j: int|
            0 <= j < old(arena)@.len() && j != li ==> #[trigger] final(arena)@[j] == old(arena)@[j],
        final(arena)@[li as int]@.len() == old(arena)@[li as int]@.len(),
        forall|l: int|
            0 <= l < old(arena)@[li as int]@.len() && l != layer ==>
                #[trigger] final(arena)@[li as int]@[l] == old(arena)@[li as int]@[l],
        final(arena)@[li as int]@[layer as int]@ == tape@,
{
    let bank = &mut arena[li];
    bank.set(layer, tape);
}

fn put_env(loops: &mut Vec<Loop>, li: usize, layer: usize, env: Vec<u32>)
    requires
        li < old(loops)@.len(),
        layer < old(loops)@[li as int].layers@.len(),
    ensures
        final(loops)@.len() == old(loops)@.len(),
        forall|i: int|
            0 <= i < old(loops)@.len() && i != li ==> #[trigger] final(loops)@[i] == old(loops)@[i],
        final(loops)@[li as int] == (Loop {
            layers: final(loops)@[li as int].layers,
            ..old(loops)@[li as int]
        }),
        final(loops)@[li as int].layers@ == old(loops)@[li as int].layers@.update(
            layer as int,
            (Layer { env, ..old(loops)@[li as int].layers@[layer as int] }),
        ),
{
    let lp = &mut loops[li];
    let l = &mut lp.layers[layer];
    l.env = env;
}

/// The wrap is arrived at through what was played past the end: where a layer
/// sounds every time round and has no window of its own, the first frames of
/// it are each faded over the frame a whole length on, so that what follows
/// its last frame is what followed it when it was played. There are as many
/// as were asked for, as were kept past its end and as there is room for, and
/// every frame after them is heard as it is.
pub proof fn a_wrap_is_faded_over_what_was_played_past_the_end(
    l: Layer,
    fade: usize,
    max_frames: usize,
    n: int,
    p: int,
    c: int,
)
    requires
        l.period <= 1,
        l.win_out <= l.win_in,
        0 < l.len <= max_frames,
        n <= fade,
        n <= l.tail,
        n <= max_frames - l.len,
        n == fade || n == l.tail || n == max_frames - l.len,
        0 <= p < l.len,
        0 <= c,
    ensures
        p < n ==> {
            &&& played(l, fade, max_frames, c * l.len + p) == (Heard::Wrap {
                at: p as usize,
                tail: (l.len + p) as usize,
                step: p as usize,
                of: n as usize,
            })
            &&& l.len + p < max_frames
        },
        p >= n ==> played(l, fade, max_frames, c * l.len + p) == (Heard::Frame { at: p as usize }),
        sampled(l, fade, max_frames, c * l.len + p) == played(
            l,
            fade,
            max_frames,
            c * l.len + p,
        ),
{
    let len = l.len as int;
    vstd::arithmetic::div_mod::lemma_mod_multiples_vanish(c, p, len);
    vstd::arithmetic::div_mod::lemma_small_mod(p as nat, len as nat);
    assert(c * len == len * c) by (nonlinear_arith);
}

/// A layer that sounds once in so many of its own lengths is silent in the
/// others, and where it sounds it is heard as it is, without a fade.
pub proof fn a_spread_layer_is_heard_in_its_slot(
    l: Layer,
    fade: usize,
    max_frames: usize,
    slot: int,
    p: int,
)
    requires
        l.period > 1,
        l.win_out <= l.win_in,
        0 < l.len,
        0 <= slot,
        0 <= p < l.len,
    ensures
        played(l, fade, max_frames, slot * l.len + p) == (if slot % l.period as int
            == l.phase as int % l.period as int {
            Heard::Frame { at: p as usize }
        } else {
            Heard::Silence
        }),
{
    vstd::arithmetic::div_mod::lemma_fundamental_div_mod_converse(
        slot * l.len + p,
        l.len as int,
        slot,
        p,
    );
}

/// A layer with a window of its own goes round inside it: what is past either
/// end of its audio is silence, and nothing is faded.
pub proof fn a_windowed_layer_is_heard_inside_its_window(
    l: Layer,
    fade: usize,
    max_frames: usize,
    c: int,
    p: int,
)
    requires
        l.win_in < l.win_out,
        0 <= p < l.win_out - l.win_in,
    ensures
        played(l, fade, max_frames, c * (l.win_out - l.win_in) + p) == (if 0 <= l.win_in + p
            < l.len {
            Heard::Frame { at: (l.win_in + p) as usize }
        } else {
            Heard::Silence
        }),
{
    let span = l.win_out - l.win_in;
    vstd::arithmetic::div_mod::lemma_mod_multiples_vanish(c, p, span);
    vstd::arithmetic::div_mod::lemma_small_mod(p as nat, span as nat);
    assert(c * span == span * c) by (nonlinear_arith);
}

/// What is mixed is every layer that is switched on and loud enough to hear,
/// each once, at what it is worth, and no other.
pub proof fn every_layer_that_is_on_is_mixed(sh: Shared, li: int, n: int, pos: int, live: bool)
    requires
        0 <= li < sh.loops@.len(),
        0 <= n <= sh.loops@[li].layers@.len(),
        n <= usize::MAX,
    ensures
        forall|l: int|
            0 <= l < n && (#[trigger] sh.loops@[li].layers@[l]).on && bits::rank(
                sh.loops@[li].layers@[l].gain,
            ) > FAINT && bits::is_number(sh.loops@[li].layers@[l].gain) ==> exists|j: int|
                0 <= j < sh.mix_of(li, n, pos, live).len() && (#[trigger] sh.mix_of(
                    li,
                    n,
                    pos,
                    live,
                )[j]).0 == l && sh.mix_of(li, n, pos, live)[j].2
                    == sh.loops@[li].layers@[l].gain,
        forall|j: int|
            0 <= j < sh.mix_of(li, n, pos, live).len() ==> ({
                let m = #[trigger] sh.mix_of(li, n, pos, live)[j];
                &&& m.0 < n
                &&& sh.loops@[li].layers@[m.0 as int].on
                &&& m.2 == sh.loops@[li].layers@[m.0 as int].gain
                &&& m.1 == (if live {
                    played(
                        sh.loops@[li].layers@[m.0 as int],
                        sh.loops@[li].play.fade,
                        sh.size.max_frames,
                        pos,
                    )
                } else {
                    sampled(
                        sh.loops@[li].layers@[m.0 as int],
                        sh.loops@[li].play.fade,
                        sh.size.max_frames,
                        pos,
                    )
                })
            }),
        forall|i: int, j: int|
            0 <= i < j < sh.mix_of(li, n, pos, live).len() ==> (#[trigger] sh.mix_of(
                li,
                n,
                pos,
                live,
            )[i]).0 < (#[trigger] sh.mix_of(li, n, pos, live)[j]).0,
    decreases n,
{
    if n > 0 {
        every_layer_that_is_on_is_mixed(sh, li, n - 1, pos, live);
        let before = sh.mix_of(li, n - 1, pos, live);
        let now = sh.mix_of(li, n, pos, live);
        assert forall|l: int|
            0 <= l < n && (#[trigger] sh.loops@[li].layers@[l]).on && bits::rank(
                sh.loops@[li].layers@[l].gain,
            ) > FAINT && bits::is_number(sh.loops@[li].layers@[l].gain) implies exists|j: int|
            0 <= j < now.len() && (#[trigger] now[j]).0 == l && now[j].2
                == sh.loops@[li].layers@[l].gain by {
            if l < n - 1 {
                let j = choose|j: int|
                    0 <= j < before.len() && (#[trigger] before[j]).0 == l && before[j].2
                        == sh.loops@[li].layers@[l].gain;
                assert(now[j] == before[j]);
            } else {
                assert(bits::rank(FAINT) == FAINT && bits::is_number(FAINT));
                assert(now[before.len() as int].0 == l);
            }
        }
    }
}

proof fn a_peak_is_the_loudest(tape: Seq<u32>, from: int, to: int, p: int, ch: int)
    requires
        from <= p < to,
        0 <= ch < 2,
        bits::is_number(tape[2 * p + ch]),
    ensures
        peak_of(tape, from, to) >= bits::magnitude(tape[2 * p + ch]),
    decreases to - from,
{
    if p < to - 1 {
        a_peak_is_the_loudest(tape, from, to - 1, p, ch);
    }
}

/// The picture of a layer shows all of it: whatever frame it is, the stretch
/// that the frame is in is as loud as either of its samples.
pub proof fn a_picture_is_as_loud_as_its_layer(tape: Seq<u32>, len: int, b: int, p: int, ch: int)
    requires
        0 < len,
        0 <= b < ENV_BUCKETS,
        b * len < (p + 1) * ENV_BUCKETS <= (b + 1) * len,
        0 <= ch < 2,
        bits::is_number(tape[2 * p + ch]),
    ensures
        picture(tape, len).len() == ENV_BUCKETS,
        picture(tape, len)[b] >= bits::magnitude(tape[2 * p + ch]),
{
    let n = ENV_BUCKETS as int;
    let lo = b * len;
    let hi = (b + 1) * len;
    vstd::arithmetic::div_mod::lemma_fundamental_div_mod(lo, n);
    vstd::arithmetic::div_mod::lemma_fundamental_div_mod(hi, n);
    let x = lo / n;
    let y = hi / n;
    assert(hi <= n * len) by (nonlinear_arith)
        requires
            hi == (b + 1) * len,
            b + 1 <= n,
            len > 0,
    ;
    a_peak_is_the_loudest(tape, stretch_from(b, len), stretch_to(b, len), p, ch);
}

} // verus!
