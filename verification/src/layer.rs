//! One layer of a loop.

use crate::bits::ONE;
use crate::num;
use vstd::prelude::*;

verus! {

/// What a layer is when it is laid: how long, how much of what followed it
/// was kept, and the pass it was laid on.
#[derive(Clone, Copy, Debug, PartialEq, Eq, Structural)]
pub struct Shape {
    pub len: usize,
    pub tail: usize,
    pub born: i64,
}

/// One layer: audio with its own length and its own place in the cycle.
///
/// A layer keeps the length it was recorded at. It sounds once every
/// `period` of its own lengths, in slot `phase` of them.
#[derive(Debug)]
pub struct Layer {
    pub len: usize,
    /// How many frames of what was played after its end are kept.
    pub tail: usize,
    /// The pass it was laid on, which its decay counts from.
    pub born: i64,
    /// Its picture: the loudest of each stretch of it, as bits.
    pub env: Vec<u32>,
    /// What it is worth now, as the bits of a gain.
    pub gain: u32,
    /// Whether it is in the mix.
    pub on: bool,
    /// Its own window `win_in..win_out`, or none where the out is not past
    /// the in.
    pub win_in: i64,
    pub win_out: i64,
    pub period: usize,
    pub phase: usize,
}

impl Layer {
    /// The period, where zero reads as one.
    pub open spec fn every(self) -> int {
        num::larger(self.period as int, 1)
    }

    /// Where in the layer the loop position `pos` falls, or nowhere where
    /// the layer is silent there.
    pub open spec fn placed(self, pos: int) -> Option<int> {
        if self.len == 0 {
            None
        } else if self.every() > 1 && (pos / self.len as int) % self.every() != self.phase as int
            % self.every() {
            None
        } else {
            Some(pos % self.len as int)
        }
    }

    /// The window, or none.
    pub open spec fn windowed(self) -> Option<(i64, i64)> {
        if self.win_out > self.win_in {
            Some((self.win_in, self.win_out))
        } else {
            None
        }
    }

    /// Where in the layer its window puts the cycle position `pos`, or
    /// nowhere where the window is past the audio.
    pub open spec fn in_window(self, pos: int) -> Option<int> {
        let p = self.win_in + pos % (self.win_out - self.win_in);
        if 0 <= p < self.len {
            Some(p)
        } else {
            None
        }
    }

    /// A layer as it is before anything is in it.
    pub open spec fn fresh(self) -> bool {
        &&& self.len == 0
        &&& self.tail == 0
        &&& self.born == 0
        &&& self.env@ == Seq::<u32>::empty()
        &&& self.gain == ONE
        &&& self.on
        &&& self.win_in == 0
        &&& self.win_out == 0
        &&& self.period == 1
        &&& self.phase == 0
    }

    /// The layer as `shape` declares it: sounding every time round, whole,
    /// at full level and in the mix. Its picture is the caller's to redraw.
    pub open spec fn shaped(self, s: Shape) -> Layer {
        Layer {
            len: s.len,
            tail: s.tail,
            born: s.born,
            gain: ONE,
            on: true,
            win_in: 0,
            win_out: 0,
            period: 1,
            phase: 0,
            ..self
        }
    }

    pub fn new() -> (r: Layer)
        ensures
            r.fresh(),
    {
        Layer {
            len: 0,
            tail: 0,
            born: 0,
            env: Vec::new(),
            gain: ONE,
            on: true,
            win_in: 0,
            win_out: 0,
            period: 1,
            phase: 0,
        }
    }

    /// The picture.
    pub fn env(&self) -> (r: Vec<u32>)
        ensures
            r@ == self.env@,
    {
        let r = self.env.clone();
        assert(r@ =~= self.env@);
        r
    }

    /// What the layer is worth, as the bits of a gain.
    pub fn gain(&self) -> (r: u32)
        ensures
            r == self.gain,
    {
        self.gain
    }

    pub fn on(&self) -> (r: bool)
        ensures
            r == self.on,
    {
        self.on
    }

    /// The pass this layer was laid on.
    pub fn born(&self) -> (r: i64)
        ensures
            r == self.born,
    {
        self.born
    }

    /// How much is kept past the end, for a crossfade.
    pub fn tail(&self) -> (r: usize)
        ensures
            r == self.tail,
    {
        self.tail
    }

    /// Length, period and phase.
    pub fn shape(&self) -> (r: (usize, usize, usize))
        ensures
            r.0 == self.len,
            r.1 == self.every(),
            r.2 == self.phase,
    {
        (self.len, num::max(self.period, 1), self.phase)
    }

    /// Declare what the layer is. A new take is whole: no window of what
    /// was there before stays on it.
    pub fn set_shape(&mut self, s: Shape)
        ensures
            *final(self) == old(self).shaped(s),
    {
        self.len = s.len;
        self.period = 1;
        self.phase = 0;
        self.tail = s.tail;
        self.born = s.born;
        self.gain = ONE;
        self.on = true;
        self.win_in = 0;
        self.win_out = 0;
    }

    /// Where in the layer's own buffer the loop position `pos` falls.
    pub fn pos(&self, pos: usize) -> (r: Option<usize>)
        ensures
            r is Some <==> self.placed(pos as int) is Some,
            r matches Some(p) ==> self.placed(pos as int) == Some(p as int) && p < self.len,
    {
        if self.len == 0 {
            return None;
        }
        let period: usize = num::max(self.period, 1);
        if period > 1 {
            let slot: usize = (pos / self.len) % period;
            if slot != self.phase % period {
                return None;
            }
        }
        Some(pos % self.len)
    }

    /// The layer's own window, or none.
    pub fn window(&self) -> (r: Option<(i64, i64)>)
        ensures
            r == self.windowed(),
    {
        if self.win_out > self.win_in {
            Some((self.win_in, self.win_out))
        } else {
            None
        }
    }

    /// Where a windowed layer is read at cycle position `pos`: `None` where
    /// it has no window, and `Some(None)` where its window is past its audio.
    pub fn windowed_pos(&self, pos: usize) -> (r: Option<Option<usize>>)
        requires
            pos <= i64::MAX,
            self.len <= i64::MAX,
            self.win_out - self.win_in <= i64::MAX,
        ensures
            r is Some <==> self.windowed() is Some,
            r matches Some(p) ==> (p is Some <==> self.in_window(pos as int) is Some),
            r matches Some(Some(p)) ==> self.in_window(pos as int) == Some(p as int) && p
                < self.len,
    {
        match self.window() {
            None => None,
            Some((i, o)) => {
                let p: i64 = i + num::wrap(pos as i64, o - i);
                if p >= 0 && (p as u64) < self.len as u64 {
                    Some(Some(p as usize))
                } else {
                    Some(None)
                }
            },
        }
    }
}

/// A layer is read inside its own audio or not at all.
pub proof fn a_layer_is_read_inside_itself(l: Layer, pos: int)
    requires
        pos >= 0,
    ensures
        l.placed(pos) matches Some(p) ==> 0 <= p < l.len,
        l.in_window(pos) matches Some(p) ==> 0 <= p < l.len,
{
}

/// An ordinary layer sounds at every position.
pub proof fn a_dense_layer_sounds_everywhere(l: Layer, pos: int)
    requires
        l.len > 0,
        l.every() == 1,
    ensures
        l.placed(pos) == Some(pos % l.len as int),
{
}

/// Of any `period` slots in a row, a spread layer sounds in exactly the one
/// that is its own: slot `k` counted from the start of the cycle.
pub proof fn a_spread_layer_sounds_in_one_slot(l: Layer, k: int, within: int)
    requires
        l.len > 0,
        0 <= within < l.len,
        0 <= k < l.every(),
        l.phase < l.every(),
    ensures
        l.placed(k * l.len + within) == (if k == l.phase {
            Some(within)
        } else {
            None::<int>
        }),
{
    let len = l.len as int;
    let pos = k * len + within;
    assert(pos == len * k + within) by (nonlinear_arith)
        requires
            pos == k * len + within,
    ;
    vstd::arithmetic::div_mod::lemma_fundamental_div_mod_converse(pos, len, k, within);
    vstd::arithmetic::div_mod::lemma_small_mod(k as nat, l.every() as nat);
    vstd::arithmetic::div_mod::lemma_small_mod(l.phase as nat, l.every() as nat);
}

/// A spread layer comes round: one period on it is where it was.
pub proof fn a_spread_layer_comes_round(l: Layer, pos: int)
    requires
        l.len > 0,
        pos >= 0,
    ensures
        l.placed(pos + l.len * l.every()) == l.placed(pos),
{
    let len = l.len as int;
    let e = l.every();
    assert(pos + len * e == e * len + pos) by (nonlinear_arith);
    vstd::arithmetic::div_mod::lemma_mod_multiples_vanish(e, pos, len);
    vstd::arithmetic::div_mod::lemma_hoist_over_denominator(pos, e, len as nat);
    assert(e * len == len * e) by (nonlinear_arith);
    let q = pos / len;
    assert((pos + len * e) / len == q + e);
    assert((q + e) % e == q % e) by {
        vstd::arithmetic::div_mod::lemma_mod_add_multiples_vanish(q, e);
    }
}

/// A windowed layer comes round inside its window.
pub proof fn a_windowed_layer_comes_round(l: Layer, pos: int)
    requires
        l.windowed() is Some,
        pos >= 0,
    ensures
        l.in_window(pos + (l.win_out - l.win_in)) == l.in_window(pos),
{
    let span = l.win_out - l.win_in;
    vstd::arithmetic::div_mod::lemma_mod_add_multiples_vanish(pos, span);
    assert((pos + span) % span == (span + pos) % span);
}

} // verus!
