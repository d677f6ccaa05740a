//! The rig: its loops, their audio, the clock and the input.

use crate::beat;
use crate::beat::MAX_BEATS;
use crate::closing;
use crate::frame;
use crate::loop_state::Loop;
use crate::num;
use crate::source::{Source, CHANNELS};
use vstd::prelude::*;

verus! {

/// How many layers a loop has where nothing says otherwise.
pub const DEFAULT_LAYERS: usize = 4;

/// How many loops a rig has where nothing says otherwise.
pub const DEFAULT_LOOPS: usize = 8;

/// No loop gives the grid.
pub const NO_ANCHOR: usize = usize::MAX;

/// How large the rig is. None of it changes while it runs.
#[derive(Clone, Copy, Debug)]
pub struct Size {
    /// The longest a layer may become.
    pub max_frames: usize,
    pub n_loops: usize,
    pub max_layers: usize,
    /// Where it is not zero, an empty loop is an empty tape of this length.
    pub fixed_frames: usize,
    pub ring_len: usize,
    /// The longest wrap fade.
    pub max_fade: usize,
    /// How much of the past is claimed where nothing says otherwise.
    pub claim_frames: usize,
}

/// Where the two streams of the device have got to.
#[derive(Clone, Copy, Debug)]
pub struct Clock {
    pub out_frames: usize,
    pub in_frames: usize,
    /// Output frame minus input frame of one moment.
    pub k: i64,
    pub k_set: bool,
    pub buffer_frames: u32,
    pub p0_needed: bool,
    pub p0_frame: usize,
    pub device_lost: bool,
    pub reopens: usize,
}

/// What a clock outside says.
#[derive(Clone, Copy, Debug)]
pub struct Link {
    pub link_micros: i64,
    pub link_beat: u64,
    pub link_tempo: u64,
    pub link_quantum: u64,
    pub link_frame: usize,
    /// The bar the clock gives, or zero where there is no clock.
    pub link_bar_frames: usize,
    pub link_bar_origin: i64,
    /// How launches wait: for the bar below zero, not at all at zero, and
    /// else for that many beats.
    pub launch_q: i64,
    pub link_anchors: usize,
    pub link_rejected: usize,
}

/// What is set for the whole rig.
#[derive(Clone, Copy, Debug)]
pub struct Desk {
    pub selected: usize,
    /// The loop whose length is the grid, or `NO_ANCHOR`.
    pub anchor: usize,
    pub click: bool,
    pub preroll: usize,
    /// The level a sound has to reach, as bits.
    pub arm_thresh: u32,
    /// How far before that sound a recording begins.
    pub arm_reach: usize,
    pub monitor: bool,
    pub out_peak: u32,
    pub ack_seq: u64,
    pub peaks_seq: u64,
}

/// Everything the loops share.
#[derive(Debug)]
pub struct Shared {
    pub size: Size,
    pub clock: Clock,
    pub link: Link,
    pub desk: Desk,
    /// The audio: for each loop, for each layer, two samples a frame, as
    /// bits.
    pub arena: Vec<Vec<Vec<u32>>>,
    /// For each source, the recent past: two samples a frame, as bits.
    pub ring: Vec<Vec<u32>>,
    pub sources: Vec<Source>,
    pub loops: Vec<Loop>,
    /// The loudest of each source since it was last asked for, as bits.
    pub in_peak: Vec<u32>,
    /// The last thing said.
    pub ack: String,
    /// The last picture drawn.
    pub peaks: String,
}

/// The first line of a grid at or after `from`.
pub open spec fn line_at_or_after(origin: int, len: int, from: int) -> int {
    let elapsed = from - origin;
    let whole = if elapsed % len == 0 {
        elapsed / len
    } else {
        elapsed / len + 1
    };
    origin + whole * len
}

/// A loop is sound and sized for a rig.
#[verifier::opaque]
pub open spec fn sound(lp: Loop, max_layers: usize, max_frames: usize) -> bool {
    &&& lp.wf()
    &&& lp.layers@.len() == max_layers
    &&& lp.body.loop_len <= max_frames
    &&& lp.take.rec_len <= max_frames
    &&& lp.take.reached <= max_frames
    &&& lp.habit.src < usize::MAX
    &&& closing::closing_wf(lp.closing, max_frames)
    &&& forall|l: int| 0 <= l < lp.layers@.len() ==> (#[trigger] lp.layers@[l]).len <= max_frames
}

impl Shared {
    /// A loop is sound and sized as the rig says.
    pub open spec fn loop_ok(self, lp: Loop) -> bool {
        sound(lp, self.size.max_layers, self.size.max_frames)
    }

    pub open spec fn loops_ok(self) -> bool {
        &&& self.loops@.len() == self.size.n_loops
        &&& forall|i: int| 0 <= i < self.size.n_loops ==> self.loop_ok(#[trigger] self.loops@[i])
    }

    /// The audio is as long as the rig says.
    pub open spec fn arena_ok(self) -> bool {
        &&& self.arena@.len() == self.size.n_loops
        &&& forall|i: int|
            0 <= i < self.size.n_loops ==> (#[trigger] self.arena@[i])@.len() == self.size.max_layers
        &&& forall|i: int, l: int|
            0 <= i < self.size.n_loops && 0 <= l < self.size.max_layers ==> (
            #[trigger] self.arena@[i]@[l])@.len() == 2 * self.size.max_frames
    }

    pub open spec fn ring_ok(self) -> bool {
        &&& self.ring@.len() == self.sources@.len()
        &&& self.in_peak@.len() == self.sources@.len()
        &&& self.sources@.len() >= 1
        &&& self.size.ring_len >= 1
        &&& frame::short(self.size.ring_len)
        &&& forall|s: int|
            0 <= s < self.sources@.len() ==> (#[trigger] self.ring@[s])@.len() == 2 * self.size.ring_len
        &&& forall|s: int|
            0 <= s < self.sources@.len() ==> (#[trigger] self.sources@[s]).ch@[0] < usize::MAX
                && self.sources@[s].ch@[1] < usize::MAX
    }

    /// The rig is sound.
    pub open spec fn wf(self) -> bool {
        &&& self.size.n_loops >= 1
        &&& self.size.max_layers >= 1
        &&& self.size.max_layers < usize::MAX
        &&& frame::short(self.size.max_frames)
        &&& self.size.fixed_frames <= self.size.max_frames
        &&& self.loops_ok()
        &&& self.arena_ok()
        &&& self.ring_ok()
        &&& frame::short(self.clock.out_frames)
        &&& frame::short(self.clock.in_frames)
        &&& frame::shortly(self.clock.k)
        &&& frame::short(self.desk.preroll)
        &&& frame::short(self.desk.arm_reach)
        &&& frame::short(self.size.max_fade)
        &&& frame::short(self.link.link_bar_frames)
        &&& frame::near(self.link.link_bar_origin)
        &&& self.link.launch_q <= MAX_BEATS
    }

    /// The audio, as sequences.
    pub open spec fn audio(self) -> Seq<Seq<Seq<u32>>> {
        Seq::new(
            self.arena@.len(),
            |i: int| Seq::new(self.arena@[i]@.len(), |l: int| self.arena@[i]@[l]@),
        )
    }

    /// The audio of one layer.
    pub open spec fn tape(self, li: int, layer: int) -> Seq<u32> {
        self.arena@[li]@[layer]@
    }

    /// The audio with that of one layer exchanged.
    pub open spec fn audio_with(self, li: int, layer: int, tape: Seq<u32>) -> Seq<Seq<Seq<u32>>> {
        self.audio().update(li, self.audio()[li].update(layer, tape))
    }

    /// The grid the anchor gives: where it starts, and its length over the
    /// bars it is.
    pub open spec fn played_grid(self) -> Option<(i64, usize)> {
        if self.desk.anchor >= self.size.n_loops || self.loops@[self.desk.anchor as int].body.loop_len == 0 {
            None
        } else {
            let lp = self.loops@[self.desk.anchor as int];
            Some(
                (
                    lp.body.origin,
                    num::larger(
                        lp.body.loop_len as int / num::larger(lp.body.cycles as int, 1),
                        1,
                    ) as usize,
                ),
            )
        }
    }

    /// The grid: the clock's bar, or else the anchor's. With a clock it
    /// still starts where what was played starts.
    pub open spec fn the_grid(self) -> Option<(i64, usize)> {
        if self.link.link_bar_frames > 0 {
            Some(
                (
                    match self.played_grid() {
                        Some(g) => g.0,
                        None => self.link.link_bar_origin,
                    },
                    self.link.link_bar_frames,
                ),
            )
        } else {
            self.played_grid()
        }
    }

    /// What a launch waits for: the bar, or so many beats of it as it is now.
    pub open spec fn launches(self) -> Option<(i64, usize)> {
        match self.the_grid() {
            None => None,
            Some((origin, bar)) => if self.link.launch_q == 0 {
                None
            } else if self.link.launch_q < 0 {
                Some((origin, bar))
            } else {
                Some(
                    (
                        origin,
                        beat::beats(bar, self.link.link_quantum, self.link.launch_q as int),
                    ),
                )
            },
        }
    }

    /// The frame a launch at `from` waits for, or none.
    pub open spec fn boundary(self, from: int) -> Option<int> {
        match self.launches() {
            None => None,
            Some((origin, len)) => Some(line_at_or_after(origin as int, len as int, from)),
        }
    }

    /// The frame it is.
    pub open spec fn now(self) -> int {
        self.clock.out_frames as int
    }

    /// Which source a loop records from.
    pub open spec fn source_of(self, li: int) -> int {
        num::smaller(self.loops@[li].habit.src as int, self.sources@.len() - 1)
    }

    /// What the ring holds of a source at an input frame: nothing before
    /// the start, nothing still to come, and nothing that the buffer being
    /// written may be overwriting.
    pub open spec fn recalled(self, src: int, in_frame: int, ch: int) -> Option<u32> {
        let newest = self.clock.in_frames as int;
        let oldest = newest - self.size.ring_len + self.clock.buffer_frames;
        if in_frame < 0 || src >= self.sources@.len() || in_frame < oldest || in_frame >= newest {
            None
        } else {
            Some(self.ring@[src]@[2 * (in_frame % self.size.ring_len as int) + ch])
        }
    }

    /// One loop changed and nothing else.
    pub open spec fn but_loop(self, li: int, lp: Loop, post: Shared) -> bool {
        &&& post.loops@ == self.loops@.update(li, lp)
        &&& post == (Shared { loops: post.loops, ..self })
    }

    /// The first loop that records.
    pub open spec fn first_recording(self, r: Option<usize>) -> bool {
        match r {
            Some(i) => i < self.size.n_loops && self.loops@[i as int].recording() && forall|j: int|
                0 <= j < i ==> !(#[trigger] self.loops@[j]).recording(),
            None => forall|j: int|
                0 <= j < self.size.n_loops ==> !(#[trigger] self.loops@[j]).recording(),
        }
    }

    /// The first loop that holds the input.
    pub open spec fn first_claim(self, r: Option<usize>) -> bool {
        match r {
            Some(i) => i < self.size.n_loops && self.loops@[i as int].claims() && forall|j: int|
                0 <= j < i ==> !(#[trigger] self.loops@[j]).claims(),
            None => forall|j: int|
                0 <= j < self.size.n_loops ==> !(#[trigger] self.loops@[j]).claims(),
        }
    }

    /// The first loop that listens for a sound.
    pub open spec fn first_listening(self, r: Option<usize>) -> bool {
        match r {
            Some(i) => i < self.size.n_loops && self.loops@[i as int].listening() && forall|j: int|
                0 <= j < i ==> !(#[trigger] self.loops@[j]).listening(),
            None => forall|j: int|
                0 <= j < self.size.n_loops ==> !(#[trigger] self.loops@[j]).listening(),
        }
    }

    pub fn lp(&self, li: usize) -> (r: &Loop)
        requires
            self.wf(),
        ensures
            *r == self.loops@[num::smaller(li as int, self.size.n_loops - 1)],
            self.loop_ok(*r),
    {
        &self.loops[num::min(li, self.size.n_loops - 1)]
    }

    /// The loop that is selected.
    pub fn sel(&self) -> (r: usize)
        requires
            self.wf(),
        ensures
            r == num::smaller(self.desk.selected as int, self.size.n_loops - 1),
            r < self.size.n_loops,
    {
        num::min(self.desk.selected, self.size.n_loops - 1)
    }

    /// The loop that is recording, if one is.
    pub fn recording_loop(&self) -> (r: Option<usize>)
        requires
            self.wf(),
        ensures
            self.first_recording(r),
    {
        let mut i: usize = 0;
        while i < self.size.n_loops
            invariant
                self.wf(),
                i <= self.size.n_loops,
                forall|j: int| 0 <= j < i ==> !(#[trigger] self.loops@[j]).recording(),
            decreases self.size.n_loops - i,
        {
            if self.loops[i].is_recording() {
                return Some(i);
            }
            i = i + 1;
        }
        None
    }

    /// The loop that holds the input, if one does.
    pub fn input_claimed(&self) -> (r: Option<usize>)
        requires
            self.wf(),
        ensures
            self.first_claim(r),
    {
        let mut i: usize = 0;
        while i < self.size.n_loops
            invariant
                self.wf(),
                i <= self.size.n_loops,
                forall|j: int|
                    0 <= j < i ==> !(#[trigger] self.loops@[j]).claims(),
            decreases self.size.n_loops - i,
        {
            if self.loops[i].wants_input() {
                return Some(i);
            }
            i = i + 1;
        }
        None
    }

    /// The loop that is listening for a sound and has not heard it.
    pub fn armed_loop(&self) -> (r: Option<usize>)
        requires
            self.wf(),
        ensures
            self.first_listening(r),
    {
        let mut i: usize = 0;
        while i < self.size.n_loops
            invariant
                self.wf(),
                i <= self.size.n_loops,
                forall|j: int|
                    0 <= j < i ==> !(#[trigger] self.loops@[j]).listening(),
            decreases self.size.n_loops - i,
        {
            if self.loops[i].is_armed() && !self.loops[i].next.is_pending() {
                return Some(i);
            }
            i = i + 1;
        }
        None
    }

    /// The grid the anchor gives, if there is one.
    pub fn loop_grid(&self) -> (r: Option<(i64, usize)>)
        requires
            self.wf(),
        ensures
            r == self.played_grid(),
            r matches Some((o, l)) ==> frame::near(o) && 1 <= l && frame::short(l) && l <= num::larger(
                self.size.max_frames as int,
                1,
            ),
    {
        let a: usize = self.desk.anchor;
        if a >= self.size.n_loops {
            return None;
        }
        let lp = self.lp(a);
        proof {
            reveal(sound);
            reveal(Loop::wf);
        }
        let len: usize = lp.body.loop_len;
        if len == 0 {
            return None;
        }
        let bars: usize = num::max(lp.body.cycles, 1);
        proof {
            assert(len as int / bars as int <= len) by (nonlinear_arith)
                requires
                    bars >= 1,
                    len >= 0,
            ;
        }
        Some((lp.body.origin, num::max(len / bars, 1)))
    }

    /// The grid, if there is one.
    pub fn grid(&self) -> (r: Option<(i64, usize)>)
        requires
            self.wf(),
        ensures
            r == self.the_grid(),
            r matches Some((o, l)) ==> frame::near(o) && 1 <= l && frame::short(l),
    {
        let bar: usize = self.link.link_bar_frames;
        let played = self.loop_grid();
        if bar > 0 {
            let origin: i64 = match played {
                Some((o, _)) => o,
                None => self.link.link_bar_origin,
            };
            return Some((origin, bar));
        }
        played
    }

    /// What a launch waits for, if it waits.
    pub fn launch_grid(&self) -> (r: Option<(i64, usize)>)
        requires
            self.wf(),
        ensures
            r == self.launches(),
            r matches Some((o, l)) ==> frame::near(o) && 1 <= l <= frame::furthest(),
    {
        match self.grid() {
            None => None,
            Some((origin, bar)) => {
                if self.link.launch_q == 0 {
                    None
                } else if self.link.launch_q < 0 {
                    Some((origin, bar))
                } else {
                    let n: i64 = self.link.launch_q;
                    Some((origin, beat::frames_of(bar, self.link.link_quantum, n)))
                }
            },
        }
    }

    /// The first grid line at or after `from`, where a launch waits at all.
    pub fn next_boundary(&self, from: i64) -> (r: Option<i64>)
        requires
            self.wf(),
            frame::safe(8 * from),
        ensures
            r is Some <==> self.boundary(from as int) is Some,
            r matches Some(t) ==> self.boundary(from as int) == Some(t as int) && from <= t
                && frame::near(t),
    {
        match self.launch_grid() {
            None => None,
            Some((origin, len)) => {
                let len: i64 = len as i64;
                let elapsed: i64 = from - origin;
                let into: i64 = num::wrap(elapsed, len);
                proof {
                    first_line(origin as int, len as int, from as int);
                }
                if into == 0 {
                    Some(from)
                } else {
                    Some(from - into + len)
                }
            },
        }
    }

    /// Give the grid to a loop, where nobody gives it.
    pub fn claim_anchor(&mut self, li: usize)
        ensures
            *final(self) == (Shared {
                desk: Desk { anchor: claimed(old(self).desk.anchor, li), ..old(self).desk },
                ..*old(self)
            }),
    {
        let a: usize = if self.desk.anchor == NO_ANCHOR {
            li
        } else {
            self.desk.anchor
        };
        self.desk.anchor = a;
    }

    /// Take the grid from a loop, where it gives it.
    pub fn release_anchor(&mut self, li: usize)
        ensures
            *final(self) == (Shared {
                desk: Desk { anchor: released(old(self).desk.anchor, li), ..old(self).desk },
                ..*old(self)
            }),
    {
        let a: usize = if self.desk.anchor == li {
            NO_ANCHOR
        } else {
            self.desk.anchor
        };
        self.desk.anchor = a;
    }

    /// Keep the last thing said, and count it.
    pub fn note_ack(&mut self, msg: &str)
        requires
            old(self).desk.ack_seq < u64::MAX,
        ensures
            final(self).ack@ == msg@,
            *final(self) == (Shared {
                ack: final(self).ack,
                desk: Desk { ack_seq: (old(self).desk.ack_seq + 1) as u64, ..old(self).desk },
                ..*old(self)
            }),
    {
        self.ack = msg.to_string();
        self.desk.ack_seq = self.desk.ack_seq + 1;
    }

    /// Which source a loop records from.
    pub fn src_of(&self, li: usize) -> (r: usize)
        requires
            self.wf(),
            li < self.size.n_loops,
        ensures
            r == self.source_of(li as int),
            r < self.sources@.len(),
    {
        let n: usize = num::max(self.sources.len(), 1);
        num::min(self.loops[li].habit.src, n - 1)
    }

    /// One sample of the audio, as bits.
    pub fn read(&self, li: usize, layer: usize, pos: usize, ch: usize) -> (r: u32)
        requires
            self.wf(),
            li < self.size.n_loops,
            layer < self.size.max_layers,
            pos < self.size.max_frames,
            ch < CHANNELS,
        ensures
            r == self.tape(li as int, layer as int)[2 * pos + ch],
    {
        assert(self.arena@[li as int]@[layer as int]@.len() == 2 * self.size.max_frames);
        self.arena[li][layer][2 * pos + ch]
    }

    /// Set one sample of the audio.
    pub fn write(&mut self, li: usize, layer: usize, pos: usize, ch: usize, v: u32)
        requires
            old(self).wf(),
            li < old(self).size.n_loops,
            layer < old(self).size.max_layers,
            pos < old(self).size.max_frames,
            ch < CHANNELS,
        ensures
            final(self).wf(),
            final(self).audio() == old(self).audio_with(
                li as int,
                layer as int,
                old(self).tape(li as int, layer as int).update(2 * pos + ch, v),
            ),
            *final(self) == (Shared { arena: final(self).arena, ..*old(self) }),
    {
        assert(self.arena@[li as int]@[layer as int]@.len() == 2 * self.size.max_frames);
        set_sample(&mut self.arena, li, layer, 2 * pos + ch, v);
        proof {
            audio_changed(*old(self), *self, li as int, layer as int);
        }
    }

    /// What the ring holds of a source at an input frame.
    pub fn ring_at(&self, src: usize, in_frame: i64, ch: usize) -> (r: Option<u32>)
        requires
            self.wf(),
            ch < CHANNELS,
        ensures
            r == self.recalled(src as int, in_frame as int, ch as int),
    {
        if in_frame < 0 || src >= self.sources.len() {
            return None;
        }
        let newest: i64 = self.clock.in_frames as i64;
        let oldest: i64 = newest - self.size.ring_len as i64 + self.clock.buffer_frames as i64;
        if in_frame < oldest || in_frame >= newest {
            return None;
        }
        let slot: usize = (in_frame as usize) % self.size.ring_len;
        assert(self.ring@[src as int]@.len() == 2 * self.size.ring_len);
        Some(self.ring[src][2 * slot + ch])
    }
}

/// Who gives the grid once a loop has asked to.
pub open spec fn claimed(anchor: usize, li: usize) -> usize {
    if anchor == NO_ANCHOR {
        li
    } else {
        anchor
    }
}

/// Who gives the grid once a loop has let go of it.
pub open spec fn released(anchor: usize, li: usize) -> usize {
    if anchor == li {
        NO_ANCHOR
    } else {
        anchor
    }
}

fn set_sample(arena: &mut Vec<Vec<Vec<u32>>>, li: usize, layer: usize, i: usize, v: u32)
    requires
        li < old(arena)@.len(),
        layer < old(arena)@[li as int]@.len(),
        i < old(arena)@[li as int]@[layer as int]@.len(),
    ensures
        final(arena)@.len() == old(arena)@.len(),
        forall|j: int|
            0 <= j < old(arena)@.len() && j != li ==> #[trigger] final(arena)@[j] == old(arena)@[j],
        final(arena)@[li as int]@.len() == old(arena)@[li as int]@.len(),
        forall|l: int|
            0 <= l < old(arena)@[li as int]@.len() && l != layer ==>
                #[trigger] final(arena)@[li as int]@[l] == old(arena)@[li as int]@[l],
        final(arena)@[li as int]@[layer as int]@ == old(arena)@[li as int]@[layer as int]@.update(
            i as int,
            v,
        ),
{
    let bank = &mut arena[li];
    let tape = &mut bank[layer];
    tape.set(i, v);
}

/// What a change to one layer's audio leaves of the whole.
pub proof fn audio_changed(pre: Shared, post: Shared, li: int, layer: int)
    requires
        pre.arena_ok(),
        0 <= li < pre.size.n_loops,
        0 <= layer < pre.size.max_layers,
        post.size.n_loops == pre.size.n_loops,
        post.size.max_layers == pre.size.max_layers,
        post.size.max_frames == pre.size.max_frames,
        post.arena@.len() == pre.arena@.len(),
        forall|j: int|
            0 <= j < pre.arena@.len() && j != li ==> #[trigger] post.arena@[j] == pre.arena@[j],
        post.arena@[li]@.len() == pre.arena@[li]@.len(),
        forall|l: int|
            0 <= l < pre.arena@[li]@.len() && l != layer ==> #[trigger] post.arena@[li]@[l]
                == pre.arena@[li]@[l],
        post.arena@[li]@[layer]@.len() == 2 * pre.size.max_frames,
    ensures
        post.arena_ok(),
        post.audio() == pre.audio_with(li, layer, post.tape(li, layer)),
{
    assert forall|i: int| 0 <= i < post.size.n_loops implies (#[trigger] post.arena@[i])@.len()
        == post.size.max_layers by {
        assert(pre.arena@[i]@.len() == pre.size.max_layers);
    }
    assert forall|i: int, l: int|
        0 <= i < post.size.n_loops && 0 <= l < post.size.max_layers implies (
    #[trigger] post.arena@[i]@[l])@.len() == 2 * post.size.max_frames by {
        assert(pre.arena@[i]@[l]@.len() == 2 * pre.size.max_frames);
    }
    let want = pre.audio_with(li, layer, post.tape(li, layer));
    assert(post.audio().len() == want.len());
    assert forall|i: int| 0 <= i < post.audio().len() implies post.audio()[i] == want[i] by {
        assert(pre.arena@[i]@.len() == pre.size.max_layers);
        assert(post.audio()[i] =~= want[i]);
    }
    assert(post.audio() =~= want);
}

/// What the rig's sizes say of a sound loop.
pub proof fn sized(lp: Loop, max_layers: usize, max_frames: usize)
    requires
        sound(lp, max_layers, max_frames),
    ensures
        lp.layers@.len() == max_layers,
        lp.body.n_layers <= max_layers,
        lp.body.redo_to <= max_layers,
        lp.body.loop_len <= max_frames,
        forall|l: int| 0 <= l < max_layers ==> (#[trigger] lp.layers@[l]).len <= max_frames,
{
    reveal(sound);
    reveal(Loop::wf);
}

/// A rig in which one loop has become another sound one is sound.
pub proof fn one_loop_changed(pre: Shared, post: Shared, li: int)
    requires
        pre.wf(),
        0 <= li < pre.size.n_loops,
        post.loops@.len() == pre.loops@.len(),
        forall|i: int|
            0 <= i < pre.loops@.len() && i != li ==> #[trigger] post.loops@[i] == pre.loops@[i],
        sound(post.loops@[li], pre.size.max_layers, pre.size.max_frames),
        post == (Shared { loops: post.loops, ..pre }),
    ensures
        post.wf(),
{
    assert forall|i: int| 0 <= i < post.size.n_loops implies post.loop_ok(#[trigger] post.loops@[i]) by {
        if i != li {
            assert(pre.loop_ok(pre.loops@[i]));
        }
    }
    assert(post.arena_ok());
    assert(post.ring_ok());
}

/// A rig with one loop exchanged for a sound one is sound.
pub proof fn loop_exchanged(pre: Shared, post: Shared, li: int, lp: Loop)
    requires
        pre.wf(),
        0 <= li < pre.size.n_loops,
        pre.but_loop(li, lp, post),
        sound(lp, pre.size.max_layers, pre.size.max_frames),
    ensures
        post.wf(),
{
    one_loop_changed(pre, post, li);
}

/// The first line of a grid at or after a frame: the frame itself where it
/// is on one, and else the line after the one it is past.
pub proof fn first_line(origin: int, len: int, from: int)
    requires
        len > 0,
    ensures
        line_at_or_after(origin, len, from) == (if (from - origin) % len == 0 {
            from
        } else {
            from - (from - origin) % len + len
        }),
        from <= line_at_or_after(origin, len, from) < from + len,
{
    let e = from - origin;
    vstd::arithmetic::div_mod::lemma_fundamental_div_mod(e, len);
    assert(len * (e / len) == (e / len) * len) by (nonlinear_arith);
    assert((e / len + 1) * len == (e / len) * len + len) by (nonlinear_arith);
}

/// The first loop that asks for it gives the grid, and keeps it against any
/// other until it lets go itself.
pub proof fn the_grid_is_kept_until_it_is_let_go(li: usize, other: usize)
    requires
        li != NO_ANCHOR,
    ensures
        claimed(NO_ANCHOR, li) == li,
        claimed(li, other) == li,
        other != li ==> released(li, other) == li,
        released(li, li) == NO_ANCHOR,
{
}

/// What a launch waits for is a line of the grid, no earlier than the frame
/// it waits from and the first there is.
pub proof fn a_launch_waits_for_the_next_line(origin: int, len: int, from: int, other: int)
    requires
        len > 0,
        (other - origin) % len == 0,
        from <= other,
    ensures
        (line_at_or_after(origin, len, from) - origin) % len == 0,
        from <= line_at_or_after(origin, len, from) <= other,
{
    let line = line_at_or_after(origin, len, from);
    first_line(origin, len, from);
    let elapsed = from - origin;
    let whole = if elapsed % len == 0 {
        elapsed / len
    } else {
        elapsed / len + 1
    };
    vstd::arithmetic::div_mod::lemma_mod_multiples_basic(whole, len);
    if other < line {
        vstd::arithmetic::div_mod::lemma_fundamental_div_mod(other - origin, len);
        let k = (other - origin) / len;
        assert(0 < (whole - k) * len < len) by (nonlinear_arith)
            requires
                line == origin + whole * len,
                other == origin + len * k,
                from <= other < line < from + len,
        ;
        assert(false) by (nonlinear_arith)
            requires
                0 < (whole - k) * len < len,
                len > 0,
        ;
    }
}

/// The past reaches back a ring, less the buffer that is being written: a
/// frame that came in can be recalled until then, on every source, and nothing
/// from before the start or still to come can.
pub proof fn the_past_reaches_back_a_ring(sh: Shared, src: int, t: int, ch: int)
    requires
        0 <= src < sh.sources@.len(),
        0 <= ch < 2,
    ensures
        sh.recalled(src, t, ch) is Some <==> 0 <= t < sh.clock.in_frames && sh.clock.in_frames
            - t <= sh.size.ring_len - sh.clock.buffer_frames,
        sh.recalled(src, t, ch) is Some ==> sh.recalled(src, t, ch) == Some(
            sh.ring@[src]@[2 * (t % sh.size.ring_len as int) + ch],
        ),
{
}

/// A loop records from its source, or from the last there is where it has
/// none.
pub proof fn a_loop_records_from_its_source(sh: Shared, li: int)
    requires
        sh.wf(),
    ensures
        sh.loops@[li].habit.src < sh.sources@.len() ==> sh.source_of(li)
            == sh.loops@[li].habit.src,
        0 <= sh.source_of(li) < sh.sources@.len(),
{
}

/// The grid is the clock's bar where there is a clock, and else the bar of the
/// loop that gives it: as many to its length as the bars it is. Either way it
/// starts where that loop does, and where there is none where the clock says.
pub proof fn the_grid_is_a_bar_from_what_was_played(sh: Shared)
    requires
        sh.wf(),
    ensures
        sh.link.link_bar_frames > 0 ==> {
            &&& sh.the_grid() is Some
            &&& sh.the_grid().unwrap().1 == sh.link.link_bar_frames
        },
        sh.desk.anchor < sh.size.n_loops && sh.loops@[sh.desk.anchor as int].body.loop_len > 0
            ==> {
            let lp = sh.loops@[sh.desk.anchor as int];
            &&& sh.the_grid() is Some
            &&& sh.the_grid().unwrap().0 == lp.body.origin
            &&& sh.link.link_bar_frames == 0 && 0 < lp.body.cycles <= lp.body.loop_len ==> {
                let bar = sh.the_grid().unwrap().1;
                bar * lp.body.cycles <= lp.body.loop_len < (bar + 1) * lp.body.cycles
            }
            &&& sh.link.link_bar_frames == 0 && lp.body.cycles == 0 ==> sh.the_grid().unwrap().1
                == lp.body.loop_len
        },
        sh.desk.anchor >= sh.size.n_loops || sh.loops@[sh.desk.anchor as int].body.loop_len == 0
            ==> {
            &&& sh.link.link_bar_frames == 0 ==> sh.the_grid() is None
            &&& sh.link.link_bar_frames > 0 ==> sh.the_grid().unwrap().0 == sh.link.link_bar_origin
        },
{
    if sh.desk.anchor < sh.size.n_loops && sh.loops@[sh.desk.anchor as int].body.loop_len > 0 {
        let lp = sh.loops@[sh.desk.anchor as int];
        let len = lp.body.loop_len as int;
        let n = lp.body.cycles as int;
        if 0 < n <= len {
            vstd::arithmetic::div_mod::lemma_fundamental_div_mod(len, n);
            let q = len / n;
            assert(q >= 1) by (nonlinear_arith)
                requires
                    len == n * q + len % n,
                    len >= n,
                    0 <= len % n < n,
            ;
            assert(q <= len) by (nonlinear_arith)
                requires
                    len == n * q + len % n,
                    n >= 1,
                    q >= 1,
                    0 <= len % n < n,
            ;
            assert(q * n == n * q && (q + 1) * n == n * q + n) by (nonlinear_arith);
        }
        assert(len / 1 == len);
    }
}

/// A launch waits for the first line of the grid: one bar apart where nothing
/// else is asked for, so many beats of a bar apart where that is, and for
/// nothing where it is to wait for nothing or there is no grid.
pub proof fn a_launch_waits_for_a_line_of_the_grid(sh: Shared, from: int)
    requires
        sh.wf(),
    ensures
        sh.boundary(from) is Some <==> sh.the_grid() is Some && sh.link.launch_q != 0,
        sh.boundary(from) is Some ==> {
            let (origin, bar) = sh.the_grid().unwrap();
            let apart = if sh.link.launch_q < 0 {
                bar
            } else {
                beat::beats(bar, sh.link.link_quantum, sh.link.launch_q as int)
            };
            let t = sh.boundary(from).unwrap();
            apart > 0 ==> {
                &&& (t - origin) % apart as int == 0
                &&& from <= t < from + apart
            }
        },
{
    if sh.boundary(from) is Some {
        let (origin, bar) = sh.the_grid().unwrap();
        let apart = if sh.link.launch_q < 0 {
            bar
        } else {
            beat::beats(bar, sh.link.link_quantum, sh.link.launch_q as int)
        };
        if apart > 0 {
            let t = sh.boundary(from).unwrap();
            first_line(origin as int, apart as int, from);
            let e = from - origin;
            let whole = if e % apart as int == 0 {
                e / apart as int
            } else {
                e / apart as int + 1
            };
            vstd::arithmetic::div_mod::lemma_mod_multiples_basic(whole, apart as int);
        }
    }
}

} // verus!
