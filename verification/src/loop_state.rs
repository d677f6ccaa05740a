//! One loop: what is in it, how it is played, and what is asked of it.

use crate::bits;
use crate::bits::{MINUS_ONE_WIDE, ONE, ONE_WIDE, SIGN_WIDE};
use crate::closing::Closing;
use crate::frame;
use crate::frame::LIMIT;
use crate::layer::{Layer, Shape};
use crate::next_take::{NextTake, NEVER};
use crate::num;
use crate::phase;
use crate::phase::Phase;
use crate::wide;
use vstd::prelude::*;

verus! {

/// How many stretches the picture of a layer is in.
pub const ENV_BUCKETS: usize = 192;

/// The knob's centre.
pub const CENTRE: usize = 64;

/// Three decibels down, as the bits of a gain.
pub const THREE_DOWN: u32 = 0x3F35_3BEF;

/// 6500, as bits.
pub const TAPE_TONE: u32 = 0x45CB_2000;

/// The oldest a layer is counted.
pub const OLDEST: i64 = 4096;

/// What is in a loop.
#[derive(Clone, Copy, Debug)]
pub struct Body {
    /// Its length in frames, or zero for none.
    pub loop_len: usize,
    /// How many bars it is, or zero for "not said".
    pub cycles: usize,
    pub n_layers: usize,
    /// How far up the stack still holds audio.
    pub redo_to: usize,
    /// The output frame at which position zero sits.
    pub origin: i64,
    /// Its one layer is an empty tape.
    pub threaded: bool,
}

/// The take in hand.
#[derive(Clone, Copy, Debug)]
pub struct Progress {
    /// The frame it closes itself at, or `NEVER`.
    pub close_at: i64,
    /// The length a first take was told to be, or zero.
    pub rec_len: usize,
    /// The highest position it reached.
    pub reached: usize,
    /// One past the highest output frame that was written.
    pub rec_reached: i64,
    /// It ran past the end of its layer.
    pub overflowed: bool,
    /// How late the press that started it was, in frames.
    pub started_late: i64,
    /// The output frame at which it has its zero.
    pub rec_from: i64,
}

/// The window and rotation, and those that are held until the edit settles.
#[derive(Clone, Copy, Debug)]
pub struct Edit {
    /// The window, or both zero for none.
    pub win_in: i64,
    pub win_out: i64,
    /// How far into its window or its length a pass starts.
    pub rot: usize,
    /// The frame at which an edit restarts the pass, or zero for none.
    pub edit_restart: i64,
    /// The edit that waits for that frame.
    pub pend_in: i64,
    pub pend_out: i64,
    pub pend_rot: usize,
    pub pend_set: bool,
}

/// How a loop is played.
#[derive(Clone, Copy, Debug)]
pub struct Play {
    /// Loop frames per output frame, as bits; backwards where negative.
    pub speed: u64,
    /// Forward, then back.
    pub pendulum: bool,
    /// Where the play head sits at `origin`, as bits.
    pub warp: u64,
    /// A speed and a swing asked for and not yet adopted.
    pub cfg_speed: u64,
    pub cfg_pend: bool,
    pub cfg_armed: bool,
    /// Silenced, and still turning.
    pub muted: bool,
    /// Where it sits, 0 for left to 127 for right.
    pub pan: usize,
    /// Its two channels are folded together.
    pub mono: bool,
    /// Its level, as the bits of a gain.
    pub vol: u32,
    /// One pass each time it fires.
    pub one_shot: bool,
    /// The frame the pass it is in ends at, or `NEVER`.
    pub shot_end: i64,
    /// Frames of the wrap that are crossfaded.
    pub fade: usize,
    /// What a pass leaves of a layer, as the bits of a gain.
    pub decay: u32,
    /// How often a pass sounds, as the bits of a probability.
    pub chance: u32,
    /// The pass the last roll was for, and what came up.
    pub chance_pass: i64,
    pub chance_sounds: bool,
}

/// How a loop records.
#[derive(Clone, Copy, Debug)]
pub struct Habit {
    /// Which source it records from.
    pub src: usize,
    /// Whether its moves wait for the grid.
    pub quant: bool,
    /// Wait for a sound, where it would start on the press.
    pub level_arm: bool,
    /// It is a tape: an overdub writes over it.
    pub revox: bool,
    /// What a pass over the tape leaves, as the bits of a gain.
    pub fb: u32,
    /// How much top the tape keeps, as the bits of a frequency.
    pub tone: u32,
    /// The tape filter's memory, as bits.
    pub tape_lp: u32,
}

/// One loop.
#[derive(Debug)]
pub struct Loop {
    /// Which loop it is.
    pub index: usize,
    pub state: Phase,
    pub body: Body,
    pub take: Progress,
    pub edit: Edit,
    pub play: Play,
    pub habit: Habit,
    /// What has been asked of it and not done yet.
    pub next: NextTake,
    /// Where the close of a take has got to.
    pub closing: Option<Closing>,
    /// The layers. Those from `n_layers` up are not playing; up to `redo_to`
    /// they are kept for redo.
    pub layers: Vec<Layer>,
    /// The picture of the take in hand: the loudest of each stretch, as bits.
    pub rec_env: Vec<u32>,
}

/// One millionth, as wide bits: the slowest pace a pass is timed at.
pub const MILLIONTH: u64 = 0x3EB0_C6F7_A0B5_ED8D;

/// How fast a play head is, whichever way it goes.
pub open spec fn pace_of(speed: u64) -> u64 {
    if bits::up_to_wide(MILLIONTH, bits::unsigned_wide(speed)) {
        bits::unsigned_wide(speed)
    } else {
        MILLIONTH
    }
}

fn pace(speed: u64) -> (r: u64)
    ensures
        r == pace_of(speed),
        MILLIONTH <= r < 0x8000_0000_0000_0000,
{
    let p: u64 = bits::absolute_wide(speed);
    if bits::at_most_wide(MILLIONTH, p) {
        p
    } else {
        MILLIONTH
    }
}

impl Loop {
    /// The counts are of layers there are, and arithmetic on every frame,
    /// length and position is safe.
    #[verifier::opaque]
    pub open spec fn wf(self) -> bool {
        &&& self.body.n_layers <= self.layers@.len()
        &&& self.body.redo_to <= self.layers@.len()
        &&& self.rec_env@.len() == ENV_BUCKETS
        &&& frame::short(self.body.loop_len)
        &&& frame::fits(self.body.cycles)
        &&& frame::coming(self.take.close_at)
        &&& frame::short(self.take.rec_len)
        &&& frame::near(self.body.origin)
        &&& frame::near(self.edit.win_in)
        &&& frame::near(self.edit.win_out)
        &&& frame::fits(self.edit.rot)
        &&& frame::near(self.edit.edit_restart)
        &&& frame::near(self.edit.pend_in)
        &&& frame::near(self.edit.pend_out)
        &&& frame::fits(self.edit.pend_rot)
        &&& frame::maybe_near(self.next.request_at)
        &&& frame::maybe_near(self.next.arm_from)
        &&& frame::short(self.take.reached)
        &&& frame::near(self.take.rec_reached)
        &&& frame::near(self.take.rec_from)
        &&& frame::safe(2 * self.take.started_late)
        &&& forall|l: int| 0 <= l < self.layers@.len() ==> layer_wf(#[trigger] self.layers@[l])
    }

    /// Forward, at rate one, from `origin`, with no window.
    pub open spec fn is_plain(self) -> bool {
        &&& self.play.speed == ONE_WIDE
        &&& !self.play.pendulum
        &&& bits::is_zero_wide(self.play.warp)
        &&& self.windowed() is None
    }

    /// The window, or none.
    pub open spec fn windowed(self) -> Option<(i64, i64)> {
        if self.edit.win_in == 0 && self.edit.win_out == 0 {
            None
        } else {
            Some((self.edit.win_in, self.edit.win_out))
        }
    }

    /// The window and rotation as they were last set.
    pub open spec fn edited(self) -> (i64, i64, usize) {
        if self.edit.pend_set {
            (self.edit.pend_in, self.edit.pend_out, self.edit.pend_rot)
        } else {
            (self.edit.win_in, self.edit.win_out, self.edit.rot)
        }
    }

    /// Whether the window makes sense of a loop of `len` frames: it ends
    /// after it starts and adds no more than one length at either end.
    pub open spec fn window_holds(self, len: int) -> bool {
        &&& self.windowed() is Some
        &&& self.edit.win_out > self.edit.win_in
        &&& self.edit.win_in >= -len
        &&& self.edit.win_out <= 2 * len
        &&& len > 0
    }

    /// Where one trip round starts, in positions of the loop.
    pub open spec fn cycle_start(self, len: int) -> int {
        if self.window_holds(len) {
            self.edit.win_in as int
        } else {
            0
        }
    }

    /// How long one trip round is.
    pub open spec fn cycle_span(self, len: int) -> int {
        if self.window_holds(len) {
            self.edit.win_out - self.edit.win_in
        } else {
            len
        }
    }

    /// The position of the loop that cycle position `c` is: rotated inside
    /// the window.
    pub open spec fn place(self, c: int, len: int) -> int {
        let span = self.cycle_span(len);
        self.cycle_start(len) + (c + self.edit.rot as int % span) % span
    }

    /// Where in the loop an input frame lands that arrives `raw` frames
    /// after `origin`, or nowhere.
    pub open spec fn written(self, raw: int, len: int) -> Option<int> {
        if len == 0 {
            None
        } else {
            let a = self.place(raw % self.cycle_span(len), len);
            if 0 <= a < len {
                Some(a)
            } else {
                None
            }
        }
    }

    /// How long a pass is, in loop frames: there and back for a pendulum.
    pub open spec fn pass_span(self, len: int) -> int {
        if self.play.pendulum {
            2 * self.cycle_span(len)
        } else {
            self.cycle_span(len)
        }
    }

    /// The cycle position of a play head that has travelled `raw` whole
    /// frames: it comes round, or turns at the ends where it swings.
    pub open spec fn turned(self, raw: int, len: int) -> int {
        let span = self.cycle_span(len);
        if self.play.pendulum {
            let q = raw % (2 * span);
            if q < span {
                q
            } else {
                num::larger(num::smaller(2 * span - q, span - 1), 0)
            }
        } else {
            raw % span
        }
    }

    /// The position of the loop that is heard when the play head has
    /// travelled `raw` whole frames. Outside the loop it is silence.
    pub open spec fn heard(self, raw: int, len: int) -> int {
        if len == 0 {
            0
        } else {
            self.place(self.turned(raw, len), len)
        }
    }

    /// How far the play head has travelled from `origin` at an output
    /// frame, where the rate is one in either direction and nothing offsets
    /// it: a whole number then.
    pub open spec fn whole_travel(self, out_frame: int) -> Option<int> {
        if !bits::is_zero_wide(self.play.warp) {
            None
        } else if self.play.speed == ONE_WIDE {
            Some(out_frame - self.body.origin)
        } else if self.play.speed == MINUS_ONE_WIDE {
            Some(self.body.origin - out_frame)
        } else {
            None
        }
    }

    /// Which pass a play head is on that has travelled `raw` whole frames
    /// from `origin`.
    pub open spec fn pass_of(self, raw: int, len: int) -> int {
        if len == 0 {
            0
        } else {
            raw / self.pass_span(len)
        }
    }

    pub open spec fn recording(self) -> bool {
        self.state == Phase::First || self.state == Phase::Overdub || self.state == Phase::Multiply
    }

    /// Whether it holds the input.
    pub open spec fn claims(self) -> bool {
        self.state == Phase::Armed || self.recording()
    }

    /// Whether it listens for a sound and has not heard it.
    pub open spec fn listening(self) -> bool {
        self.state == Phase::Armed && self.next.request == 0
    }

    /// Whether chance has a say now.
    pub open spec fn chancy(self) -> bool {
        bits::below(self.play.chance, ONE) && !self.recording()
    }

    /// What is in the loop when nothing is asked of it: a loop with layers,
    /// or with a tape, plays; any other is idle.
    pub open spec fn resting(self) -> Phase {
        if self.body.n_layers > 0 || self.body.threaded {
            Phase::Playing
        } else {
            Phase::Idle
        }
    }

    /// The loop at forward, rate one, no offset.
    pub open spec fn made_plain(self) -> Loop {
        Loop { play: plain_play(self.play), ..self }
    }

    /// The loop as a clear leaves it. What stays is how one works: the
    /// source, the fold, the tape's feedback and tone; and what the caller
    /// clears, which holds the audio.
    pub open spec fn emptied(self) -> Loop {
        Loop {
            state: Phase::Idle,
            body: empty_body(self.body.origin),
            take: Progress { close_at: NEVER, rec_len: 0, ..self.take },
            play: fresh_play(self.play.mono),
            habit: cleared_habit(self.habit),
            next: no_plan(),
            closing: None,
            ..self
        }
    }

    /// A loop nothing has been done to, pointed at a source.
    pub open spec fn untouched(self, index: usize, max_layers: usize, src: usize) -> bool {
        &&& self.layers@.len() == max_layers
        &&& forall|l: int| 0 <= l < max_layers ==> (#[trigger] self.layers@[l]).fresh()
        &&& self.rec_env@ == Seq::new(ENV_BUCKETS as nat, |i: int| 0u32)
        &&& self.index == index
        &&& self.state == Phase::Idle
        &&& self.body == empty_body(0)
        &&& self.take == (Progress {
            close_at: NEVER,
            rec_len: 0,
            reached: 0,
            rec_reached: 0,
            overflowed: false,
            started_late: 0,
            rec_from: 0,
        })
        &&& self.edit == (Edit {
            win_in: 0,
            win_out: 0,
            rot: 0,
            edit_restart: 0,
            pend_in: 0,
            pend_out: 0,
            pend_rot: 0,
            pend_set: false,
        })
        &&& self.play == fresh_play(false)
        &&& self.habit == (Habit {
            src,
            quant: false,
            level_arm: false,
            revox: false,
            fb: THREE_DOWN,
            tone: TAPE_TONE,
            tape_lp: 0,
        })
        &&& self.next == no_plan()
        &&& self.closing is None
    }

    pub fn new(index: usize, max_layers: usize) -> (r: Loop)
        ensures
            r.untouched(index, max_layers, 0),
            r.wf(),
    {
        proof {
            reveal(Loop::wf);
        }
        let mut layers: Vec<Layer> = Vec::new();
        let mut l: usize = 0;
        while l < max_layers
            invariant
                l <= max_layers,
                layers@.len() == l,
                forall|k: int| 0 <= k < l ==> (#[trigger] layers@[k]).fresh(),
            decreases max_layers - l,
        {
            layers.push(Layer::new());
            l = l + 1;
        }
        let rec_env: Vec<u32> = blank_env();
        Loop {
            index,
            state: Phase::Idle,
            body: Body {
                loop_len: 0,
                cycles: 0,
                n_layers: 0,
                redo_to: 0,
                origin: 0,
                threaded: false,
            },
            take: Progress {
                close_at: NEVER,
                rec_len: 0,
                reached: 0,
                rec_reached: 0,
                overflowed: false,
                started_late: 0,
                rec_from: 0,
            },
            edit: Edit {
                win_in: 0,
                win_out: 0,
                rot: 0,
                edit_restart: 0,
                pend_in: 0,
                pend_out: 0,
                pend_rot: 0,
                pend_set: false,
            },
            play: Play {
                speed: ONE_WIDE,
                pendulum: false,
                warp: 0,
                cfg_speed: ONE_WIDE,
                cfg_pend: false,
                cfg_armed: false,
                muted: false,
                pan: CENTRE,
                mono: false,
                vol: ONE,
                one_shot: false,
                shot_end: NEVER,
                fade: 0,
                decay: ONE,
                chance: ONE,
                chance_pass: NEVER,
                chance_sounds: true,
            },
            habit: Habit {
                src: 0,
                quant: false,
                level_arm: false,
                revox: false,
                fb: THREE_DOWN,
                tone: TAPE_TONE,
                tape_lp: 0,
            },
            next: NextTake::new(),
            closing: None,
            layers,
            rec_env,
        }
    }

    /// The speed, as bits.
    pub fn speed(&self) -> (r: u64)
        ensures
            r == self.play.speed,
    {
        self.play.speed
    }

    /// Whether the play head is doing the plain thing.
    pub fn plain(&self) -> (r: bool)
        ensures
            r == self.is_plain(),
    {
        self.play.speed == ONE_WIDE && !self.play.pendulum && bits::zero_wide(self.play.warp)
            && self.window().is_none()
    }

    /// The window and rotation as they were last set.
    pub fn edit_view(&self) -> (r: (i64, i64, usize))
        ensures
            r == self.edited(),
    {
        if self.edit.pend_set {
            (self.edit.pend_in, self.edit.pend_out, self.edit.pend_rot)
        } else {
            (self.edit.win_in, self.edit.win_out, self.edit.rot)
        }
    }

    /// The window, or none.
    pub fn window(&self) -> (r: Option<(i64, i64)>)
        ensures
            r == self.windowed(),
    {
        if self.edit.win_in == 0 && self.edit.win_out == 0 {
            None
        } else {
            Some((self.edit.win_in, self.edit.win_out))
        }
    }

    /// One trip round: where it starts and how long it is. The start may be
    /// before zero and the end past the length, which is silence.
    pub fn cycle(&self, len: usize) -> (r: (i64, usize))
        requires
            self.wf(),
            frame::fits(len),
        ensures
            r.0 == self.cycle_start(len as int),
            r.1 == self.cycle_span(len as int),
            r.1 <= 3 * len,
            len > 0 ==> r.1 > 0,
    {
        proof {
            reveal(Loop::wf);
        }
        let l: i64 = len as i64;
        match self.window() {
            Some((i, o)) if o > i && i >= -l && o <= 2 * l && len > 0 => (i, (o - i) as usize),
            _ => (0, len),
        }
    }

    /// How far the play head has travelled from `origin`, where that is a
    /// whole number.
    pub fn travelled(&self, out_frame: i64) -> (r: Option<i64>)
        requires
            self.wf(),
            frame::in_range(out_frame),
        ensures
            r is Some <==> self.whole_travel(out_frame as int) is Some,
            r matches Some(t) ==> self.whole_travel(out_frame as int) == Some(t as int),
    {
        proof {
            reveal(Loop::wf);
        }
        if !bits::zero_wide(self.play.warp) {
            None
        } else if self.play.speed == ONE_WIDE {
            Some(out_frame - self.body.origin)
        } else if self.play.speed == MINUS_ONE_WIDE {
            Some(self.body.origin - out_frame)
        } else {
            None
        }
    }

    /// How many whole passes a play head has made that has travelled `raw`
    /// frames. Before `origin` it is negative.
    pub fn pass_index(&self, raw: i64, len: usize) -> (r: i64)
        requires
            self.wf(),
            frame::fits(len),
        ensures
            r == self.pass_of(raw as int, len as int),
    {
        proof {
            reveal(Loop::wf);
        }
        if len == 0 {
            return 0;
        }
        let (_, cyc) = self.cycle(len);
        if self.play.pendulum {
            num::spans_below(raw, 2 * (cyc as i64))
        } else {
            num::spans_below(raw, cyc as i64)
        }
    }

    /// The position heard when the play head has travelled `raw` frames.
    pub fn play_pos(&self, raw: i64, len: usize) -> (r: i64)
        requires
            self.wf(),
            frame::fits(len),
        ensures
            r == self.heard(raw as int, len as int),
    {
        proof {
            reveal(Loop::wf);
        }
        if len == 0 {
            return 0;
        }
        let (start, span) = self.cycle(len);
        let span: i64 = span as i64;
        let c: i64 = if self.play.pendulum {
            let q: i64 = num::wrap(raw, 2 * span);
            if q < span {
                q
            } else if 2 * span - q < span - 1 {
                2 * span - q
            } else {
                span - 1
            }
        } else {
            num::wrap(raw, span)
        };
        let r: i64 = num::wrap(self.edit.rot as i64, span);
        start + num::wrap(c + r, span)
    }

    /// Where in the loop an input frame lands that arrives `raw` frames
    /// after `origin`: the position heard at that moment, or nowhere where
    /// that is silence past an end.
    pub fn write_pos(&self, raw: i64, len: usize) -> (r: Option<usize>)
        requires
            self.wf(),
            frame::fits(len),
        ensures
            r is Some <==> self.written(raw as int, len as int) is Some,
            r matches Some(p) ==> self.written(raw as int, len as int) == Some(p as int) && p < len,
    {
        proof {
            reveal(Loop::wf);
        }
        if len == 0 {
            return None;
        }
        let (start, span) = self.cycle(len);
        let span: i64 = span as i64;
        let r: i64 = num::wrap(self.edit.rot as i64, span);
        let a: i64 = start + num::wrap(num::wrap(raw, span) + r, span);
        if a >= 0 && (a as usize) < len {
            Some(a as usize)
        } else {
            None
        }
    }

    /// The loop with a speed and a swing taken up.
    pub open spec fn taken_up(
        self,
        len: usize,
        speed: u64,
        pend: bool,
        warp: u64,
        shift: i64,
    ) -> Loop {
        Loop {
            play: Play {
                speed,
                pendulum: pend,
                warp: warp_kept(len, speed, pend, warp),
                ..self.play
            },
            body: Body {
                origin: origin_kept(len, speed, pend, self.body.origin, shift),
                ..self.body
            },
            ..self
        }
    }

    /// Take up a speed and a swing without moving what is heard. `warp` is
    /// the offset that keeps the play head where it is, as bits, and `shift`
    /// the same to the nearest whole frame.
    ///
    /// Back at rate one the offset goes into `origin` as whole frames; an
    /// empty loop has no position to keep.
    pub fn adopt(&mut self, len: usize, speed: u64, pend: bool, warp: u64, shift: i64)
        requires
            old(self).wf(),
            frame::safe(4 * (old(self).body.origin - shift)),
        ensures
            final(self).wf(),
            *final(self) == old(self).taken_up(len, speed, pend, warp, shift),
    {
        proof {
            reveal(Loop::wf);
        }
        let (kept, origin) = adopted(len, speed, pend, warp, self.body.origin, shift);
        self.play.speed = speed;
        self.play.pendulum = pend;
        self.play.warp = kept;
        self.body.origin = origin;
    }

    /// How many output frames a pass takes: its span at rate one in either
    /// direction, and else its span over the pace.
    pub open spec fn pass_time(self, len: int) -> int {
        if self.play.speed == ONE_WIDE || self.play.speed == MINUS_ONE_WIDE {
            self.pass_span(len)
        } else {
            num::smaller(wide::over(self.pass_span(len), pace_of(self.play.speed)), LIMIT as int)
        }
    }

    /// How many output frames a pass takes.
    pub fn pass_frames(&self, len: usize) -> (r: i64)
        requires
            self.wf(),
            frame::short(len),
        ensures
            r == self.pass_time(len as int),
            0 <= r <= LIMIT,
    {
        proof {
            reveal(Loop::wf);
        }
        let (_, cyc) = self.cycle(len);
        let span: i64 = if self.play.pendulum {
            2 * (cyc as i64)
        } else {
            cyc as i64
        };
        if self.play.speed == ONE_WIDE || self.play.speed == MINUS_ONE_WIDE {
            return span;
        }
        wide::divided(span as u64, pace(self.play.speed), LIMIT as u64) as i64
    }

    /// Back to forward, rate one, no offset.
    pub fn plainly(&mut self)
        ensures
            *final(self) == old(self).made_plain(),
    {
        self.play.speed = ONE_WIDE;
        self.play.pendulum = false;
        self.play.warp = 0;
        self.play.cfg_speed = ONE_WIDE;
        self.play.cfg_pend = false;
        self.play.cfg_armed = false;
    }

    /// Everything a clear forgets about one loop. The layers, the picture
    /// and the window are the caller's.
    pub fn cleared(&mut self)
        ensures
            *final(self) == old(self).emptied(),
            old(self).wf() ==> final(self).wf(),
    {
        proof {
            reveal(Loop::wf);
        }
        self.enter(Phase::Idle);
        self.play.muted = false;
        self.play.vol = ONE;
        self.habit.revox = false;
        self.body.threaded = false;
        self.habit.tape_lp = 0;
        self.plainly();
        self.play.pan = CENTRE;
        self.play.one_shot = false;
        self.play.shot_end = NEVER;
        self.habit.level_arm = false;
        self.habit.quant = false;
        self.play.fade = 0;
        self.play.decay = ONE;
        self.play.chance = ONE;
        self.play.chance_pass = NEVER;
        self.play.chance_sounds = true;
        self.body.n_layers = 0;
        self.body.redo_to = 0;
        self.body.loop_len = 0;
        self.body.cycles = 0;
        self.take.close_at = NEVER;
        self.take.rec_len = 0;
        self.next.clear();
        self.closing = None;
    }

    /// The speed and the swing that were asked for and are to be taken up now,
    /// once.
    pub fn take_asked(&mut self) -> (r: Option<(u64, bool)>)
        requires
            old(self).wf(),
        ensures
            final(self).wf(),
            *final(self) == (Loop {
                play: Play { cfg_armed: false, ..old(self).play },
                ..*old(self)
            }),
            r == (if old(self).play.cfg_armed {
                Some((old(self).play.cfg_speed, old(self).play.cfg_pend))
            } else {
                None
            }),
    {
        proof {
            reveal(Loop::wf);
        }
        if !self.play.cfg_armed {
            return None;
        }
        self.play.cfg_armed = false;
        Some((self.play.cfg_speed, self.play.cfg_pend))
    }

    /// Ask for a speed and a swing, to be adopted at a frame.
    pub fn want(&mut self, speed: u64, pend: bool)
        ensures
            *final(self) == (Loop {
                play: Play {
                    cfg_speed: speed,
                    cfg_pend: pend,
                    cfg_armed: true,
                    ..old(self).play
                },
                ..*old(self)
            }),
    {
        self.play.cfg_speed = speed;
        self.play.cfg_pend = pend;
        self.play.cfg_armed = true;
    }

    pub fn phase(&self) -> (r: Phase)
        ensures
            r == self.state,
    {
        self.state
    }

    /// Go to a phase: the one place it is stored. Whether the move is one a
    /// loop may make is what comes back.
    pub fn enter(&mut self, to: Phase) -> (r: bool)
        ensures
            *final(self) == (Loop { state: to, ..*old(self) }),
            r == phase::may_go(old(self).state, to),
    {
        let r = phase::legal(self.state, to);
        self.state = to;
        r
    }

    /// Take a level arm back: the loop returns to what it held, and the
    /// plan goes whole.
    pub fn disarm(&mut self)
        ensures
            *final(self) == (Loop {
                state: old(self).resting(),
                next: no_plan(),
                ..*old(self)
            }),
    {
        let held = self.body.n_layers > 0 || self.body.threaded;
        self.enter(
            if held {
                Phase::Playing
            } else {
                Phase::Idle
            },
        );
        self.next.clear();
    }

    pub fn state_name(&self) -> (r: &'static str)
        ensures
            r@ == phase::word_of(self.state),
    {
        self.phase().wire_word()
    }

    pub fn is_armed(&self) -> (r: bool)
        ensures
            r == (self.state == Phase::Armed),
    {
        self.state == Phase::Armed
    }

    pub fn is_recording(&self) -> (r: bool)
        ensures
            r == self.recording(),
    {
        match self.state {
            Phase::First | Phase::Overdub | Phase::Multiply => true,
            _ => false,
        }
    }

    /// How far a take has got. A first take and a multiply have reached
    /// where they have reached; an overdub that closes itself has come the
    /// loop's length less what is left; any other has no "how far".
    pub fn rec_frames(&self, now: i64) -> (r: usize)
        requires
            self.wf(),
            frame::in_range(now),
        ensures
            r == (match self.state {
                Phase::First | Phase::Multiply => self.take.reached as int,
                Phase::Overdub => if self.take.close_at == NEVER {
                    0
                } else {
                    num::within(
                        self.body.loop_len - (self.take.close_at - now),
                        0,
                        self.body.loop_len as int,
                    )
                },
                _ => 0int,
            }),
    {
        proof {
            reveal(Loop::wf);
        }
        match self.state {
            Phase::First | Phase::Multiply => self.take.reached,
            Phase::Overdub => {
                if self.take.close_at == NEVER {
                    0
                } else {
                    let len: i64 = self.body.loop_len as i64;
                    let come: i64 = len - (self.take.close_at - now);
                    if come < 0 {
                        0
                    } else if come > len {
                        self.body.loop_len
                    } else {
                        come as usize
                    }
                }
            },
            _ => 0,
        }
    }

    /// Whether this loop holds the input: an arm is a claim on it too.
    pub fn wants_input(&self) -> (r: bool)
        ensures
            r == self.claims(),
    {
        self.is_armed() || self.is_recording()
    }

    pub fn quantised(&self) -> (r: bool)
        ensures
            r == self.habit.quant,
    {
        self.habit.quant
    }

    /// Whether a one-shot is inside a pass at this frame.
    pub fn firing(&self, out_frame: i64) -> (r: bool)
        ensures
            r == (self.play.one_shot && out_frame < self.play.shot_end),
    {
        self.play.one_shot && out_frame < self.play.shot_end
    }

    /// What a pass leaves of a layer, as the bits of a gain.
    pub fn decay_of(&self) -> (r: u32)
        ensures
            r == self.play.decay,
    {
        self.play.decay
    }

    /// Forget the picture of the take in hand.
    pub fn clear_rec_env(&mut self)
        ensures
            final(self).rec_env@ == Seq::new(ENV_BUCKETS as nat, |i: int| 0u32),
            *final(self) == (Loop { rec_env: final(self).rec_env, ..*old(self) }),
    {
        self.rec_env = blank_env();
    }

    /// The picture of the take in hand.
    pub fn rec_env_bytes(&self) -> (r: Vec<u32>)
        ensures
            r@ == self.rec_env@,
    {
        let r = self.rec_env.clone();
        assert(r@ =~= self.rec_env@);
        r
    }

    /// Raise one stretch of the picture to a peak. A stretch that is not
    /// there is left alone.
    pub fn mark_rec_env(&mut self, bucket: usize, peak: u32)
        ensures
            final(self).rec_env@ == marked(old(self).rec_env@, bucket as int, peak),
            *final(self) == (Loop { rec_env: final(self).rec_env, ..*old(self) }),
    {
        if bucket < self.rec_env.len() {
            let was: u32 = self.rec_env[bucket];
            self.rec_env.set(bucket, bits::loudest(was, peak));
        }
    }

    /// What a layer is worth, as the bits of a gain.
    pub fn layer_gain(&self, layer: usize) -> (r: u32)
        requires
            layer < self.layers@.len(),
        ensures
            r == self.layers@[layer as int].gain,
    {
        self.layers[layer].gain()
    }

    pub fn layer_on(&self, layer: usize) -> (r: bool)
        requires
            layer < self.layers@.len(),
        ensures
            r == self.layers@[layer as int].on,
    {
        self.layers[layer].on()
    }

    pub fn layer_born(&self, layer: usize) -> (r: i64)
        requires
            layer < self.layers@.len(),
        ensures
            r == self.layers@[layer as int].born,
    {
        self.layers[layer].born()
    }

    /// Set what every layer is worth on pass `now`. `powers` holds, as bits,
    /// what is left of a layer after each number of passes up to the oldest
    /// that is counted.
    pub fn age(&mut self, now: i64, powers: &Vec<u32>)
        requires
            old(self).wf(),
            powers@.len() == OLDEST + 1,
            frame::in_range(now),
        ensures
            final(self).wf(),
            final(self).layers@.len() == old(self).layers@.len(),
            forall|l: int|
                0 <= l < old(self).layers@.len() ==> #[trigger] final(self).layers@[l] == (Layer {
                    gain: aged(old(self).play.decay, old(self).layers@[l].born, now, powers@),
                    ..old(self).layers@[l]
                }),
            *final(self) == (Loop { layers: final(self).layers, ..*old(self) }),
    {
        proof {
            reveal(Loop::wf);
        }
        let decay: u32 = self.play.decay;
        age_layers(&mut self.layers, decay, now, powers);
        proof {
            assert forall|k: int| 0 <= k < self.layers@.len() implies layer_wf(
                #[trigger] self.layers@[k],
            ) by {
                assert(layer_wf(old(self).layers@[k]));
            }
        }
    }

    /// How often a pass sounds, as the bits of a probability.
    pub fn chance_of(&self) -> (r: u32)
        ensures
            r == self.play.chance,
    {
        self.play.chance
    }

    /// Whether chance has a say over this loop now: never while it records.
    pub fn chance_applies(&self) -> (r: bool)
        ensures
            r == self.chancy(),
    {
        bits::less(self.play.chance, ONE) && !self.is_recording()
    }

    /// Whether chance is holding back the pass of a play head that has
    /// travelled `raw` frames.
    pub fn skipping(&self, raw: i64, len: usize) -> (r: bool)
        requires
            self.wf(),
            frame::fits(len),
        ensures
            r == (self.chancy() && self.play.chance_pass == self.pass_of(raw as int, len as int)
                && !self.play.chance_sounds),
    {
        proof {
            reveal(Loop::wf);
        }
        self.chance_applies() && self.play.chance_pass == self.pass_index(raw, len)
            && !self.play.chance_sounds
    }

    /// Frames until what is pending happens, or `-1`.
    pub fn pending_in(&self, now: i64) -> (r: i64)
        requires
            self.wf(),
            frame::in_range(now),
        ensures
            r == (if self.next.request == 0 || self.next.request_at == NEVER {
                -1int
            } else {
                num::larger(self.next.request_at - now, 0)
            }),
    {
        proof {
            reveal(Loop::wf);
        }
        self.next.due_in(now)
    }

    pub fn layer_tail(&self, layer: usize) -> (r: usize)
        requires
            layer < self.layers@.len(),
        ensures
            r == self.layers@[layer as int].tail,
    {
        self.layers[layer].tail()
    }

    /// Length, period and phase of a layer.
    pub fn layer_shape(&self, layer: usize) -> (r: (usize, usize, usize))
        requires
            layer < self.layers@.len(),
        ensures
            r.0 == self.layers@[layer as int].len,
            r.1 == self.layers@[layer as int].every(),
            r.2 == self.layers@[layer as int].phase,
    {
        self.layers[layer].shape()
    }

    /// One more layer playing, and nothing above it to redo.
    pub fn add_layer(&mut self)
        requires
            old(self).body.n_layers < old(self).layers@.len(),
        ensures
            *final(self) == (Loop { body: one_more(old(self).body), ..*old(self) }),
            old(self).wf() ==> final(self).wf(),
    {
        proof {
            reveal(Loop::wf);
        }
        assert(self.layers.len() == self.layers@.len());
        self.body.n_layers = self.body.n_layers + 1;
        self.body.redo_to = self.body.n_layers;
    }

    /// Declare what a layer is.
    pub fn set_layer_shape(&mut self, layer: usize, s: Shape)
        requires
            layer < old(self).layers@.len(),
        ensures
            final(self).layers@ == old(self).layers@.update(
                layer as int,
                old(self).layers@[layer as int].shaped(s),
            ),
            *final(self) == (Loop { layers: final(self).layers, ..*old(self) }),
    {
        let l = &mut self.layers[layer];
        l.set_shape(s);
    }

    /// Where in a layer's own buffer the loop position `pos` falls.
    pub fn layer_pos(&self, layer: usize, pos: usize) -> (r: Option<usize>)
        requires
            layer < self.layers@.len(),
        ensures
            r is Some <==> self.layers@[layer as int].placed(pos as int) is Some,
            r matches Some(p) ==> self.layers@[layer as int].placed(pos as int) == Some(p as int)
                && p < self.layers@[layer as int].len,
    {
        self.layers[layer].pos(pos)
    }

    /// A layer's own window, or none.
    pub fn layer_window(&self, layer: usize) -> (r: Option<(i64, i64)>)
        requires
            layer < self.layers@.len(),
        ensures
            r == self.layers@[layer as int].windowed(),
    {
        self.layers[layer].window()
    }

    /// Where a windowed layer is read at cycle position `pos`.
    pub fn windowed_pos(&self, layer: usize, pos: usize) -> (r: Option<Option<usize>>)
        requires
            self.wf(),
            layer < self.layers@.len(),
            pos <= i64::MAX,
        ensures
            r is Some <==> self.layers@[layer as int].windowed() is Some,
            r matches Some(p) ==> (p is Some <==> self.layers@[layer as int].in_window(pos as int)
                is Some),
            r matches Some(Some(p)) ==> self.layers@[layer as int].in_window(pos as int) == Some(
                p as int,
            ) && p < self.layers@[layer as int].len,
    {
        proof {
            reveal(Loop::wf);
        }
        assert(layer_wf(self.layers@[layer as int]));
        self.layers[layer].windowed_pos(pos)
    }
}

/// A picture with one stretch raised to a peak.
pub open spec fn marked(env: Seq<u32>, bucket: int, peak: u32) -> Seq<u32> {
    if 0 <= bucket < env.len() {
        env.update(bucket, bits::louder(env[bucket], peak))
    } else {
        env
    }
}

/// The play settings at forward, rate one, no offset.
pub open spec fn plain_play(p: Play) -> Play {
    Play {
        speed: ONE_WIDE,
        pendulum: false,
        warp: 0,
        cfg_speed: ONE_WIDE,
        cfg_pend: false,
        cfg_armed: false,
        ..p
    }
}

/// The play settings of a loop nobody has touched, but for its fold.
pub open spec fn fresh_play(mono: bool) -> Play {
    Play {
        speed: ONE_WIDE,
        pendulum: false,
        warp: 0,
        cfg_speed: ONE_WIDE,
        cfg_pend: false,
        cfg_armed: false,
        muted: false,
        pan: CENTRE,
        mono,
        vol: ONE,
        one_shot: false,
        shot_end: NEVER,
        fade: 0,
        decay: ONE,
        chance: ONE,
        chance_pass: NEVER,
        chance_sounds: true,
    }
}

/// The recording settings a clear leaves: the source, the feedback and the
/// tone.
pub open spec fn cleared_habit(h: Habit) -> Habit {
    Habit { quant: false, level_arm: false, revox: false, tape_lp: 0, ..h }
}

/// Nothing in a loop.
pub open spec fn empty_body(origin: i64) -> Body {
    Body { loop_len: 0, cycles: 0, n_layers: 0, redo_to: 0, origin, threaded: false }
}

/// No plan.
pub open spec fn no_plan() -> NextTake {
    NextTake { request: 0, request_at: NEVER, one_pass: false, arm_from: NEVER }
}

/// One more layer playing, and nothing above it to redo.
pub open spec fn one_more(b: Body) -> Body {
    Body { n_layers: (b.n_layers + 1) as usize, redo_to: (b.n_layers + 1) as usize, ..b }
}

/// What a layer born on pass `born` is worth on pass `now`: full where
/// nothing decays, and else what its age leaves of it.
pub open spec fn aged(decay: u32, born: i64, now: i64, powers: Seq<u32>) -> u32 {
    if bits::up_to(ONE, decay) {
        ONE
    } else {
        powers[num::within(now - born, 0, OLDEST as int)]
    }
}

/// The offset that stays when a speed and a swing are taken up: none where
/// there is no length, and none at rate one.
pub open spec fn warp_kept(len: usize, speed: u64, pend: bool, warp: u64) -> u64 {
    if len == 0 || (speed == ONE_WIDE && !pend) {
        0
    } else {
        warp
    }
}

/// Where position zero sits when a speed and a swing have been taken up: at
/// rate one the offset has gone into it.
pub open spec fn origin_kept(len: usize, speed: u64, pend: bool, origin: i64, shift: i64) -> i64 {
    if len > 0 && speed == ONE_WIDE && !pend {
        (origin - shift) as i64
    } else {
        origin
    }
}

/// A number of whole frames as the bits of an offset, either way.
pub open spec fn offset_of(w: int) -> u64 {
    if w >= 0 {
        wide::of_whole(w)
    } else {
        (SIGN_WIDE + wide::of_whole(-w)) as u64
    }
}

impl Loop {
    /// How far the play head has travelled from `origin` at an output frame,
    /// where the rate is one in either direction and what offsets it is `w`
    /// whole frames.
    pub open spec fn offset_travel(self, out_frame: int, w: int) -> Option<int> {
        if self.play.warp != offset_of(w) {
            None
        } else if self.play.speed == ONE_WIDE {
            Some(w + (out_frame - self.body.origin))
        } else if self.play.speed == MINUS_ONE_WIDE {
            Some(w - (out_frame - self.body.origin))
        } else {
            None
        }
    }

    /// The offset, in whole frames, that keeps a play head that has travelled
    /// `raw` where it is at an output frame when the rate is one, forward or
    /// back, from there on.
    pub open spec fn offset_kept(self, raw: int, len: int, out_frame: int, back: bool) -> int {
        if back {
            self.turned(raw, len) + (out_frame - self.body.origin)
        } else {
            self.turned(raw, len) - (out_frame - self.body.origin)
        }
    }
}

/// Taking up a speed and a swing does not move what is heard. At whole frames
/// it moves by nothing at all: rate one either way, before and after, whether
/// or not it swings, goes round a window or is offset. Back at rate one,
/// forward and without a swing, no offset is left.
pub proof fn a_speed_is_taken_up_where_the_play_head_is(
    lp: Loop,
    len: usize,
    out_frame: int,
    was: int,
    raw: int,
    back: bool,
    pend: bool,
    shift: i64,
)
    requires
        len > 0,
        lp.offset_travel(out_frame, was) == Some(raw),
        shift == lp.offset_kept(raw, len as int, out_frame, back),
        frame::safe(4 * (lp.body.origin - shift)),
    ensures
        ({
            let speed = if back {
                MINUS_ONE_WIDE
            } else {
                ONE_WIDE
            };
            let post = lp.taken_up(len, speed, pend, offset_of(shift as int), shift);
            let left: int = if !back && !pend {
                0
            } else {
                shift as int
            };
            let now = lp.turned(raw, len as int);
            &&& post.offset_travel(out_frame, left) == Some(now)
            &&& post.heard(now, len as int) == lp.heard(raw, len as int)
            &&& !back && !pend ==> post.whole_travel(out_frame) == Some(now)
        }),
{
    let span = lp.cycle_span(len as int);
    assert(span > 0);
    if lp.play.pendulum {
        vstd::arithmetic::div_mod::lemma_mod_bound(raw, 2 * span);
    } else {
        vstd::arithmetic::div_mod::lemma_mod_bound(raw, span);
    }
    let now = lp.turned(raw, len as int);
    assert(0 <= now < span);
    vstd::arithmetic::div_mod::lemma_small_mod(now as nat, span as nat);
    vstd::arithmetic::div_mod::lemma_small_mod(now as nat, (2 * span) as nat);
}

fn adopted(len: usize, speed: u64, pend: bool, warp: u64, origin: i64, shift: i64) -> (r: (
    u64,
    i64,
))
    requires
        frame::near(origin),
        frame::safe(4 * (origin - shift)),
    ensures
        r.0 == warp_kept(len, speed, pend, warp),
        r.1 == origin_kept(len, speed, pend, origin, shift),
        frame::near(r.1),
{
    let unit = speed == ONE_WIDE && !pend;
    let kept: u64 = if len == 0 || unit {
        0
    } else {
        warp
    };
    let origin: i64 = if len > 0 && unit {
        origin - shift
    } else {
        origin
    };
    (kept, origin)
}

fn age_layers(layers: &mut Vec<Layer>, decay: u32, now: i64, powers: &Vec<u32>)
    requires
        powers@.len() == OLDEST + 1,
        frame::in_range(now),
        forall|l: int| 0 <= l < old(layers)@.len() ==> layer_wf(#[trigger] old(layers)@[l]),
    ensures
        final(layers)@.len() == old(layers)@.len(),
        forall|l: int|
            0 <= l < old(layers)@.len() ==> #[trigger] final(layers)@[l] == (Layer {
                gain: aged(decay, old(layers)@[l].born, now, powers@),
                ..old(layers)@[l]
            }),
{
    let holds = bits::at_most(ONE, decay);
    let n: usize = layers.len();
    let ghost before = layers@;
    let mut l: usize = 0;
    while l < n
        invariant
            n == before.len(),
            l <= n,
            frame::in_range(now),
            powers@.len() == OLDEST + 1,
            holds == bits::up_to(ONE, decay),
            layers@.len() == n,
            forall|k: int| 0 <= k < n ==> layer_wf(#[trigger] before[k]),
            forall|k: int|
                0 <= k < l ==> #[trigger] layers@[k] == (Layer {
                    gain: aged(decay, before[k].born, now, powers@),
                    ..before[k]
                }),
            forall|k: int| l <= k < n ==> #[trigger] layers@[k] == before[k],
        decreases n - l,
    {
        assert(layer_wf(before[l as int]));
        let g: u32 = if holds {
            ONE
        } else {
            let a: i64 = now - layers[l].born;
            let a: usize = if a < 0 {
                0
            } else if a > OLDEST {
                OLDEST as usize
            } else {
                a as usize
            };
            powers[a]
        };
        let layer = &mut layers[l];
        layer.gain = g;
        l = l + 1;
    }
}

/// Arithmetic on the layer is safe.
pub open spec fn layer_wf(l: Layer) -> bool {
    &&& frame::short(l.len)
    &&& frame::fits(l.tail)
    &&& frame::in_range(l.born)
    &&& frame::near(l.win_in)
    &&& frame::near(l.win_out)
    &&& frame::fits(l.period)
    &&& frame::fits(l.phase)
}

/// A picture with nothing in it.
pub fn blank_env() -> (r: Vec<u32>)
    ensures
        r@ == Seq::new(ENV_BUCKETS as nat, |i: int| 0u32),
{
    let mut r: Vec<u32> = Vec::new();
    let mut i: usize = 0;
    while i < ENV_BUCKETS
        invariant
            i <= ENV_BUCKETS,
            r@ == Seq::new(i as nat, |k: int| 0u32),
        decreases ENV_BUCKETS - i,
    {
        r.push(0);
        assert(r@ =~= Seq::new((i + 1) as nat, |k: int| 0u32));
        i = i + 1;
    }
    r
}

/// What is played lands where it is heard: at rate one, going one way, an
/// input frame is written at the position the play head is at, and nowhere
/// where that is silence past an end.
pub proof fn the_write_head_is_the_play_head(lp: Loop, raw: int, len: int)
    requires
        len > 0,
        !lp.play.pendulum,
    ensures
        lp.written(raw, len) == (if 0 <= lp.heard(raw, len) < len {
            Some(lp.heard(raw, len))
        } else {
            None
        }),
{
}

/// A play head comes round: a pass later it is where it was.
pub proof fn a_pass_comes_round(lp: Loop, raw: int, len: int)
    requires
        len > 0,
    ensures
        lp.heard(raw + lp.pass_span(len), len) == lp.heard(raw, len),
        lp.pass_of(raw + lp.pass_span(len), len) == lp.pass_of(raw, len) + 1,
{
    let span = lp.pass_span(len);
    vstd::arithmetic::div_mod::lemma_mod_add_multiples_vanish(raw, span);
    vstd::arithmetic::div_mod::lemma_div_plus_one(raw, span);
    assert((raw + span) % span == raw % span) by {
        assert(raw + span == span + raw);
    }
    assert((raw + span) / span == raw / span + 1) by {
        assert(span + raw == raw + span);
    }
}

/// What is heard lies in the window, or in the loop where there is none:
/// whichever way the play head goes, and wherever it turns.
pub proof fn a_play_head_stays_in_its_cycle(lp: Loop, raw: int, len: int)
    requires
        len > 0,
    ensures
        lp.cycle_start(len) <= lp.heard(raw, len) < lp.cycle_start(len) + lp.cycle_span(len),
{
    let span = lp.cycle_span(len);
    vstd::arithmetic::div_mod::lemma_mod_bound(
        lp.turned(raw, len) + lp.edit.rot as int % span,
        span,
    );
}

/// A pendulum is heard the same way back as it went: `k` frames before the
/// end of its swing, it is where it was `k` frames into it.
pub proof fn a_pendulum_goes_back_the_way_it_came(lp: Loop, k: int, len: int)
    requires
        len > 0,
        lp.play.pendulum,
        0 < k < lp.cycle_span(len),
    ensures
        lp.heard(lp.pass_span(len) - k, len) == lp.heard(k, len),
{
    let span = lp.cycle_span(len);
    vstd::arithmetic::div_mod::lemma_small_mod(k as nat, (2 * span) as nat);
    vstd::arithmetic::div_mod::lemma_small_mod((2 * span - k) as nat, (2 * span) as nat);
}

/// Every layer recedes from its own beginning: what it is worth depends on
/// how many passes it is old, and not on when it was laid.
pub proof fn a_layer_recedes_from_its_own_beginning(
    decay: u32,
    born: i64,
    now: i64,
    later: i64,
    powers: Seq<u32>,
)
    requires
        i64::MIN <= born + later <= i64::MAX,
        i64::MIN <= now + later <= i64::MAX,
    ensures
        aged(decay, (born + later) as i64, (now + later) as i64, powers) == aged(
            decay,
            born,
            now,
            powers,
        ),
{
}

/// A layer that does not decay is worth all it was, however old it is.
pub proof fn decay_turned_off_brings_a_layer_back(born: i64, now: i64, powers: Seq<u32>)
    ensures
        aged(ONE, born, now, powers) == ONE,
{
}

/// A play head goes round what is played of a loop: the whole of it, or its
/// window where that ends after it starts and reaches no more than a length
/// past either end. It comes in where the rotation says, moves a position a
/// frame, and is back a span later.
pub proof fn a_play_head_goes_round_what_is_played(
    lp: Loop,
    raw: int,
    len: int,
    first: int,
    span: int,
)
    requires
        len > 0,
        !lp.play.pendulum,
        lp.edit.win_in == 0 && lp.edit.win_out == 0 ==> first == 0 && span == len,
        lp.edit.win_in != 0 || lp.edit.win_out != 0 ==> {
            &&& -len <= lp.edit.win_in < lp.edit.win_out <= 2 * len
            &&& first == lp.edit.win_in
            &&& span == lp.edit.win_out - lp.edit.win_in
        },
    ensures
        lp.heard(raw, len) == first + (raw + lp.edit.rot) % span,
        lp.written(raw, len) == (if 0 <= first + (raw + lp.edit.rot) % span < len {
            Some(first + (raw + lp.edit.rot) % span)
        } else {
            None
        }),
        lp.pass_of(raw, len) == raw / span,
        lp.play.speed == ONE_WIDE || lp.play.speed == MINUS_ONE_WIDE ==> lp.pass_time(len) == span,
{
    vstd::arithmetic::div_mod::lemma_add_mod_noop(raw, lp.edit.rot as int, span);
}

/// A play head that swings goes out over what is played and comes back the
/// same way, and turns at both ends without leaving it.
pub proof fn a_swinging_play_head_goes_out_and_back(
    lp: Loop,
    c: int,
    q: int,
    len: int,
    first: int,
    span: int,
)
    requires
        len > 0,
        lp.play.pendulum,
        lp.edit.rot == 0,
        lp.edit.win_in == 0 && lp.edit.win_out == 0 ==> first == 0 && span == len,
        lp.edit.win_in != 0 || lp.edit.win_out != 0 ==> {
            &&& -len <= lp.edit.win_in < lp.edit.win_out <= 2 * len
            &&& first == lp.edit.win_in
            &&& span == lp.edit.win_out - lp.edit.win_in
        },
        0 <= q < span,
    ensures
        lp.heard(2 * span * c + q, len) == first + q,
        q > 0 ==> lp.heard(2 * span * c - q, len) == first + q,
        lp.heard(2 * span * c + span, len) == first + span - 1,
        lp.pass_of(2 * span * c + q, len) == c,
        lp.play.speed == ONE_WIDE || lp.play.speed == MINUS_ONE_WIDE ==> lp.pass_time(len) == 2
            * span,
{
    let both = 2 * span;
    assert(both * c == c * both && both * (c - 1) == (c - 1) * both) by (nonlinear_arith);
    vstd::arithmetic::div_mod::lemma_fundamental_div_mod_converse(both * c + q, both, c, q);
    assert(both * c - q == both * (c - 1) + (both - q)) by (nonlinear_arith);
    if q > 0 {
        vstd::arithmetic::div_mod::lemma_fundamental_div_mod_converse(
            both * c - q,
            both,
            c - 1,
            both - q,
        );
    }
    vstd::arithmetic::div_mod::lemma_fundamental_div_mod_converse(both * c + span, both, c, span);
    vstd::arithmetic::div_mod::lemma_small_mod(q as nat, span as nat);
    vstd::arithmetic::div_mod::lemma_small_mod((span - 1) as nat, span as nat);
    vstd::arithmetic::div_mod::lemma_small_mod(0, span as nat);
}

/// At rate one a play head has gone a frame for every output frame since its
/// zero, forward or back.
pub proof fn a_play_head_moves_a_frame_a_frame(lp: Loop, out_frame: int)
    requires
        lp.play.warp == 0,
    ensures
        lp.play.speed == ONE_WIDE ==> lp.whole_travel(out_frame) == Some(
            out_frame - lp.body.origin,
        ),
        lp.play.speed == MINUS_ONE_WIDE ==> lp.whole_travel(out_frame) == Some(
            lp.body.origin - out_frame,
        ),
{
}

/// A layer is worth what so many passes leave of it: all of it on the pass it
/// was laid, and never less than what the oldest that is counted is worth.
pub proof fn a_layer_is_worth_what_its_passes_leave(
    decay: u32,
    born: i64,
    now: i64,
    powers: Seq<u32>,
)
    requires
        powers.len() == OLDEST + 1,
        !bits::up_to(ONE, decay),
    ensures
        born <= now <= born + OLDEST ==> aged(decay, born, now, powers) == powers[now - born],
        now < born ==> aged(decay, born, now, powers) == powers[0],
        now > born + OLDEST ==> aged(decay, born, now, powers) == powers[OLDEST as int],
{
}

/// A loop that records, listens or does neither is told apart by its phase
/// alone, and only a loop that does neither leaves the input to another.
pub proof fn a_phase_says_who_has_the_input(lp: Loop)
    ensures
        lp.recording() <==> lp.state == Phase::First || lp.state == Phase::Overdub || lp.state
            == Phase::Multiply,
        lp.claims() <==> lp.state != Phase::Idle && lp.state != Phase::Playing,
        lp.listening() <==> lp.state == Phase::Armed && lp.next.request == 0,
{
}

/// A loop that is at rest plays what it holds, be it layers or an empty tape,
/// and is idle where it holds nothing.
pub proof fn a_loop_at_rest_plays_what_it_holds(lp: Loop)
    ensures
        lp.body.n_layers > 0 ==> lp.resting() == Phase::Playing,
        lp.body.threaded ==> lp.resting() == Phase::Playing,
        lp.body.n_layers == 0 && !lp.body.threaded ==> lp.resting() == Phase::Idle,
{
}

/// A loop that is made plain plays at its own rate from its own zero, and no
/// speed or swing that was asked for is taken up later. An emptied one holds
/// nothing, does nothing and waits for nothing, and goes by no grid.
pub proof fn a_plain_loop_has_nothing_asked_of_it(lp: Loop)
    ensures
        ({
            let b = lp.made_plain();
            &&& b.play.speed == ONE_WIDE
            &&& !b.play.pendulum
            &&& b.play.warp == 0
            &&& !b.play.cfg_armed
            &&& b.play.cfg_speed == ONE_WIDE
            &&& !b.play.cfg_pend
            &&& b.play.vol == lp.play.vol
            &&& b.play.chance == lp.play.chance
            &&& b.body == lp.body
        }),
        ({
            let b = lp.emptied();
            &&& b.state == Phase::Idle
            &&& b.body.n_layers == 0
            &&& b.body.redo_to == 0
            &&& b.body.loop_len == 0
            &&& b.body.cycles == 0
            &&& !b.body.threaded
            &&& !b.habit.quant
            &&& !b.habit.revox
            &&& !b.habit.level_arm
            &&& b.habit.tape_lp == 0
            &&& b.habit.src == lp.habit.src
            &&& b.next.empty()
            &&& b.closing is None
            &&& b.take.close_at == NEVER
            &&& b.take.rec_len == 0
            &&& !b.play.cfg_armed
            &&& b.play.mono == lp.play.mono
        }),
{
}

/// A pass at any rate takes the frames that, times the rate, come to what is
/// passed over, to within a frame; at a loop's own rate it takes just those.
pub proof fn a_pass_takes_as_long_as_its_rate_says(lp: Loop, len: int)
    requires
        lp.pass_span(len) >= 1,
        wide::FIRST <= wide::significand(pace_of(lp.play.speed)),
        lp.pass_span(len) * wide::beneath(pace_of(lp.play.speed)) <= wide::FIRST * wide::FIRST,
        bits::up_to_wide(MILLIONTH, bits::unsigned_wide(lp.play.speed)),
        lp.pass_time(len) < LIMIT,
    ensures
        ({
            let span = lp.pass_span(len);
            let pace = bits::unsigned_wide(lp.play.speed);
            &&& lp.play.speed == ONE_WIDE || lp.play.speed == MINUS_ONE_WIDE ==> lp.pass_time(len)
                == span
            &&& lp.play.speed != ONE_WIDE && lp.play.speed != MINUS_ONE_WIDE ==> -wide::above(pace)
                <= lp.pass_time(len) * wide::above(pace) - span * wide::beneath(pace)
                <= wide::above(pace)
        }),
{
    wide::what_is_divided_comes_back(lp.pass_span(len), pace_of(lp.play.speed));
}

} // verus!
