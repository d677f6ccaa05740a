//! Recording that is not looping: arm, record, stop, write.
//!
//! A capture has a start and an end, and that is the whole of its state. It
//! records from the moment it is asked to; a threshold only decides where
//! the file begins, over audio that is already there.

use crate::bits;
use crate::bits::INFINITY;
use crate::frame;
use crate::num;
use crate::source::CHANNELS;
use crate::text;
use vstd::prelude::*;
use vstd::string::*;

verus! {

/// Minus infinity, as bits.
pub const MINUS_INFINITY: u32 = 0xFF80_0000;

/// One take that is being recorded, or that has been.
#[derive(Debug)]
pub struct Capture {
    /// How much room there is, in frames.
    pub cap_frames: usize,
    /// Two samples a frame, as bits; empty until the first start.
    pub buf: Vec<u32>,
    pub on: bool,
    /// The two input channels it reads.
    pub ch0: usize,
    pub ch1: usize,
    /// Which source it reads, counted from one.
    pub src: usize,
    pub frames: usize,
    /// There was no more room, and the rest was dropped.
    pub full: bool,
    /// The file begins at the first sound.
    pub armed: bool,
    /// Where it closes itself, or zero.
    pub stop_at: usize,
    /// The lowest and the highest sample so far, as bits.
    pub lo: u32,
    pub hi: u32,
}

/// The lower of two samples; one that is not a number counts for nothing.
pub open spec fn lower(a: u32, b: u32) -> u32 {
    if bits::below(b, a) {
        b
    } else {
        a
    }
}

/// The higher of two samples.
pub open spec fn higher(a: u32, b: u32) -> u32 {
    if bits::below(a, b) {
        b
    } else {
        a
    }
}

fn min_of(a: u32, b: u32) -> (r: u32)
    ensures
        r == lower(a, b),
{
    if bits::less(b, a) {
        b
    } else {
        a
    }
}

fn max_of(a: u32, b: u32) -> (r: u32)
    ensures
        r == higher(a, b),
{
    if bits::less(a, b) {
        b
    } else {
        a
    }
}

/// One channel of one frame of a buffer of input.
pub open spec fn sample(data: Seq<u32>, inputs: int, f: int, c: int) -> u32 {
    data[f * inputs + c]
}

/// A tape with the first `n` frames of a buffer on it from frame `at`.
pub open spec fn taped(
    buf: Seq<u32>,
    at: int,
    data: Seq<u32>,
    inputs: int,
    c0: int,
    c1: int,
    n: int,
) -> Seq<u32> {
    Seq::new(
        buf.len(),
        |i: int|
            if 2 * at <= i < 2 * (at + n) {
                sample(
                    data,
                    inputs,
                    i / 2 - at,
                    if i % 2 == 0 {
                        c0
                    } else {
                        c1
                    },
                )
            } else {
                buf[i]
            },
    )
}

/// The lowest of a start and the first `n` frames of a buffer.
pub open spec fn lowest(lo: u32, data: Seq<u32>, inputs: int, c0: int, c1: int, n: int) -> u32
    decreases n,
{
    if n <= 0 {
        lo
    } else {
        lower(
            lower(lowest(lo, data, inputs, c0, c1, n - 1), sample(data, inputs, n - 1, c0)),
            sample(data, inputs, n - 1, c1),
        )
    }
}

/// The highest of a start and the first `n` frames of a buffer.
pub open spec fn highest(hi: u32, data: Seq<u32>, inputs: int, c0: int, c1: int, n: int) -> u32
    decreases n,
{
    if n <= 0 {
        hi
    } else {
        higher(
            higher(highest(hi, data, inputs, c0, c1, n - 1), sample(data, inputs, n - 1, c0)),
            sample(data, inputs, n - 1, c1),
        )
    }
}

/// The lowest sample of the first `n` frames of a tape; infinity where there
/// is none.
pub open spec fn bottom(buf: Seq<u32>, n: int) -> u32
    decreases n,
{
    if n <= 0 {
        INFINITY
    } else {
        lower(lower(bottom(buf, n - 1), buf[2 * (n - 1)]), buf[2 * (n - 1) + 1])
    }
}

/// The highest sample of the first `n` frames of a tape.
pub open spec fn top(buf: Seq<u32>, n: int) -> u32
    decreases n,
{
    if n <= 0 {
        MINUS_INFINITY
    } else {
        higher(higher(top(buf, n - 1), buf[2 * (n - 1)]), buf[2 * (n - 1) + 1])
    }
}

/// The extremes of the first frames of a tape are of those frames alone.
proof fn extremes_are_of_the_front(a: Seq<u32>, b: Seq<u32>, n: int)
    requires
        0 <= n,
        2 * n <= a.len(),
        2 * n <= b.len(),
        forall|i: int| 0 <= i < 2 * n ==> a[i] == b[i],
    ensures
        bottom(a, n) == bottom(b, n),
        top(a, n) == top(b, n),
    decreases n,
{
    if n > 0 {
        extremes_are_of_the_front(a, b, n - 1);
    }
}

/// Whether a frame reaches a level, in either channel.
pub open spec fn crosses(buf: Seq<u32>, thresh: u32, f: int) -> bool {
    bits::up_to(thresh, bits::unsigned(buf[2 * f])) || bits::up_to(
        thresh,
        bits::unsigned(buf[2 * f + 1]),
    )
}

/// The lowest of nothing and the frames `from..to`.
pub open spec fn trough(c: Capture, from: int, to: int) -> u32
    decreases to - from,
{
    if to <= from {
        0
    } else {
        lower(lower(trough(c, from, to - 1), c.got(to - 1, 0)), c.got(to - 1, 1))
    }
}

/// The highest of nothing and the frames `from..to`.
pub open spec fn crest(c: Capture, from: int, to: int) -> u32
    decreases to - from,
{
    if to <= from {
        0
    } else {
        higher(higher(crest(c, from, to - 1), c.got(to - 1, 0)), c.got(to - 1, 1))
    }
}

/// Where a stretch of a picture starts.
pub open spec fn stretch_from(from: int, total: int, buckets: int, b: int) -> int {
    from + b * total / buckets
}

/// Where it ends: a frame later at least, and with the picture.
pub open spec fn stretch_to(from: int, to: int, total: int, buckets: int, b: int) -> int {
    num::smaller(
        num::larger(
            from + (b + 1) * total / buckets,
            stretch_from(from, total, buckets, b) + 1,
        ),
        to,
    )
}

impl Capture {
    /// The audio is not there yet or is as long as the room, and it is there
    /// while something is recorded; what is recorded fits it, its extremes are
    /// known, and arithmetic on it is safe.
    pub open spec fn wf(self) -> bool {
        &&& frame::short(self.cap_frames)
        &&& self.buf@.len() == 0 || self.buf@.len() == 2 * self.cap_frames
        &&& self.on ==> self.buf@.len() == 2 * self.cap_frames
        &&& self.frames <= self.cap_frames
        &&& self.buf@.len() == 0 ==> self.frames == 0
        &&& self.lo == bottom(self.buf@, self.frames as int)
        &&& self.hi == top(self.buf@, self.frames as int)
    }

    pub fn new(cap_frames: usize) -> (r: Capture)
        requires
            frame::short(cap_frames),
        ensures
            r.wf(),
            r.cap_frames == cap_frames,
            r.buf@.len() == 0,
            !r.on,
            r.frames == 0,
            !r.full,
            !r.armed,
            r.stop_at == 0,
            r.src == 0,
            r.lo == INFINITY,
            r.hi == MINUS_INFINITY,
    {
        Capture {
            cap_frames,
            buf: Vec::new(),
            on: false,
            ch0: 0,
            ch1: 1,
            src: 0,
            frames: 0,
            full: false,
            armed: false,
            stop_at: 0,
            lo: INFINITY,
            hi: MINUS_INFINITY,
        }
    }

    pub fn is_on(&self) -> (r: bool)
        ensures
            r == self.on,
    {
        self.on
    }

    pub fn frames(&self) -> (r: usize)
        ensures
            r == self.frames,
    {
        self.frames
    }

    pub fn source(&self) -> (r: usize)
        ensures
            r == self.src,
    {
        self.src
    }

    pub fn full(&self) -> (r: bool)
        ensures
            r == self.full,
    {
        self.full
    }

    pub fn armed(&self) -> (r: bool)
        ensures
            r == self.armed,
    {
        self.armed
    }

    pub fn stop_at(&self) -> (r: usize)
        ensures
            r == self.stop_at,
    {
        self.stop_at
    }

    /// The extremes so far, or none where nothing was heard. Half of what is
    /// between them is the peak, with any offset of the input off it.
    pub fn peak(&self) -> (r: Option<(u32, u32)>)
        ensures
            r == (if bits::below(self.hi, self.lo) {
                None
            } else {
                Some((self.lo, self.hi))
            }),
    {
        if bits::less(self.hi, self.lo) {
            None
        } else {
            Some((self.lo, self.hi))
        }
    }

    /// Whether something has been captured that was not written or dropped.
    pub fn holds(&self) -> (r: bool)
        ensures
            r == (!self.on && self.frames > 0),
    {
        !self.on && self.frames > 0
    }

    pub fn set_armed(&mut self, on: bool)
        ensures
            *final(self) == (Capture { armed: on, ..*old(self) }),
    {
        self.armed = on;
    }

    pub fn set_stop_at(&mut self, frames: usize)
        ensures
            *final(self) == (Capture { stop_at: frames, ..*old(self) }),
    {
        self.stop_at = frames;
    }

    /// Begin. Whatever was held is dropped.
    pub fn start(&mut self, src1: usize, ch: [usize; 2])
        requires
            old(self).wf(),
        ensures
            final(self).wf(),
            final(self).buf@.len() == 2 * old(self).cap_frames,
            old(self).buf@.len() > 0 ==> final(self).buf@ == old(self).buf@,
            old(self).buf@.len() == 0 ==> final(self).buf@ == Seq::new(
                (2 * old(self).cap_frames) as nat,
                |i: int| 0u32,
            ),
            *final(self) == (Capture {
                buf: final(self).buf,
                ch0: ch@[0],
                ch1: ch@[1],
                src: src1,
                frames: 0,
                full: false,
                lo: INFINITY,
                hi: MINUS_INFINITY,
                on: true,
                ..*old(self)
            }),
    {
        if self.buf.len() == 0 {
            let n: usize = 2 * self.cap_frames;
            let mut buf: Vec<u32> = Vec::new();
            let mut i: usize = 0;
            while i < n
                invariant
                    i <= n,
                    buf@ == Seq::new(i as nat, |k: int| 0u32),
                decreases n - i,
            {
                buf.push(0);
                assert(buf@ =~= Seq::new((i + 1) as nat, |k: int| 0u32));
                i = i + 1;
            }
            self.buf = buf;
        }
        self.ch0 = ch[0];
        self.ch1 = ch[1];
        self.src = src1;
        self.frames = 0;
        self.full = false;
        self.lo = INFINITY;
        self.hi = MINUS_INFINITY;
        self.on = true;
    }

    /// End, and say how much was caught.
    pub fn stop(&mut self) -> (r: usize)
        ensures
            *final(self) == (Capture { on: false, ..*old(self) }),
            r == old(self).frames,
    {
        self.on = false;
        self.frames
    }

    /// Throw it away.
    pub fn discard(&mut self)
        requires
            old(self).wf(),
        ensures
            final(self).wf(),
            *final(self) == (Capture {
                on: false,
                frames: 0,
                full: false,
                lo: INFINITY,
                hi: MINUS_INFINITY,
                ..*old(self)
            }),
    {
        self.on = false;
        self.frames = 0;
        self.full = false;
        self.lo = INFINITY;
        self.hi = MINUS_INFINITY;
    }

    /// Whether a buffer of input is taken at all.
    pub open spec fn takes(self, inputs: int) -> bool {
        self.on && self.ch0 < inputs && self.ch1 < inputs
    }

    /// How many frames of a buffer are wanted: all of them, or no more than
    /// are left to its count.
    pub open spec fn wanted(self, len: int, inputs: int) -> int {
        if self.stop_at > 0 {
            num::smaller(len / inputs, num::larger(self.stop_at - self.frames, 0))
        } else {
            len / inputs
        }
    }

    /// How many frames of a buffer are wanted and fit.
    pub open spec fn fits(self, len: int, inputs: int) -> int {
        num::smaller(self.wanted(len, inputs), self.cap_frames - self.frames)
    }

    /// Whether taking a buffer ends the capture: there is no more room, or
    /// it has come to its count.
    pub open spec fn ends(self, len: int, inputs: int) -> bool {
        let n = self.fits(len, inputs);
        n < self.wanted(len, inputs) || (self.stop_at > 0 && self.frames + n >= self.stop_at)
    }

    /// Take a buffer of input: the two channels of the source, as far as
    /// they are wanted and there is room. It stops where there is no more
    /// room, or at the frame of its count.
    pub fn take(&mut self, data: &Vec<u32>, in_channels: usize)
        requires
            old(self).wf(),
        ensures
            final(self).wf(),
            !old(self).takes(in_channels as int) ==> *final(self) == *old(self),
            old(self).takes(in_channels as int) ==> {
                let pre = *old(self);
                let inputs = in_channels as int;
                let n = pre.fits(data@.len() as int, inputs);
                let c0 = pre.ch0 as int;
                let c1 = pre.ch1 as int;
                &&& final(self).buf@ == taped(
                    pre.buf@,
                    pre.frames as int,
                    data@,
                    inputs,
                    c0,
                    c1,
                    n,
                )
                &&& *final(self) == (Capture {
                    buf: final(self).buf,
                    frames: (pre.frames + n) as usize,
                    full: pre.full || n < pre.wanted(data@.len() as int, inputs),
                    on: !pre.ends(data@.len() as int, inputs),
                    lo: lowest(pre.lo, data@, inputs, c0, c1, n),
                    hi: highest(pre.hi, data@, inputs, c0, c1, n),
                    ..pre
                })
            },
    {
        if !self.on {
            return;
        }
        let c0: usize = self.ch0;
        let c1: usize = self.ch1;
        if c0 >= in_channels || c1 >= in_channels {
            return;
        }
        let ghost pre = *self;
        let at: usize = self.frames;
        let frames: usize = data.len() / in_channels;
        let stop: usize = self.stop_at;
        let wanted: usize = if stop == 0 {
            frames
        } else if at < stop {
            num::min(frames, stop - at)
        } else {
            0
        };
        let n: usize = num::min(wanted, self.cap_frames - at);
        let mut lo: u32 = self.lo;
        let mut hi: u32 = self.hi;
        let mut f: usize = 0;
        proof {
            let l = data@.len() as int;
            let i = in_channels as int;
            assert(i * (l / i) <= l) by (nonlinear_arith)
                requires
                    i > 0,
                    l >= 0,
            ;
            assert(taped(
                pre.buf@,
                at as int,
                data@,
                in_channels as int,
                c0 as int,
                c1 as int,
                0,
            ) =~= pre.buf@);
        }
        while f < n
            invariant
                f <= n <= frames,
                c0 < in_channels,
                c1 < in_channels,
                in_channels * frames <= data@.len(),
                at + n <= pre.cap_frames,
                frame::short(pre.cap_frames),
                pre.buf@.len() == 2 * pre.cap_frames,
                *self == (Capture { buf: self.buf, ..pre }),
                self.buf@ == taped(
                    pre.buf@,
                    at as int,
                    data@,
                    in_channels as int,
                    c0 as int,
                    c1 as int,
                    f as int,
                ),
                lo == lowest(
                    pre.lo,
                    data@,
                    in_channels as int,
                    c0 as int,
                    c1 as int,
                    f as int,
                ),
                hi == highest(
                    pre.hi,
                    data@,
                    in_channels as int,
                    c0 as int,
                    c1 as int,
                    f as int,
                ),
                lo == bottom(self.buf@, at + f),
                hi == top(self.buf@, at + f),
            decreases n - f,
        {
            let ghost before = self.buf@;
            proof {
                assert(f * in_channels + in_channels <= in_channels * frames && 0 <= f
                    * in_channels) by (nonlinear_arith)
                    requires
                        f + 1 <= frames,
                        f >= 0,
                        in_channels >= 0,
                ;
            }
            assert(data.len() == data@.len());
            let l: u32 = data[f * in_channels + c0];
            let r: u32 = data[f * in_channels + c1];
            self.buf.set(2 * (at + f), l);
            self.buf.set(2 * (at + f) + 1, r);
            lo = min_of(min_of(lo, l), r);
            hi = max_of(max_of(hi, l), r);
            assert(self.buf@ =~= taped(
                pre.buf@,
                at as int,
                data@,
                in_channels as int,
                c0 as int,
                c1 as int,
                f + 1,
            ));
            proof {
                extremes_are_of_the_front(before, self.buf@, at + f);
            }
            f = f + 1;
        }
        self.lo = lo;
        self.hi = hi;
        self.frames = at + n;
        if n < wanted {
            self.full = true;
        }
        if n < wanted || (stop > 0 && at + n >= stop) {
            self.on = false;
        }
    }

    /// One sample of a frame, as bits; nothing where there is none.
    pub open spec fn got(self, frame: int, ch: int) -> u32 {
        if self.buf@.len() > 0 && frame < self.cap_frames {
            self.buf@[2 * frame + ch]
        } else {
            0
        }
    }

    /// One sample of a frame, as bits; nothing where there is none.
    pub fn at(&self, frame: usize, ch: usize) -> (r: u32)
        requires
            self.wf(),
            ch < CHANNELS,
        ensures
            r == self.got(frame as int, ch as int),
    {
        if self.buf.len() > 0 && frame < self.cap_frames {
            self.buf[2 * frame + ch]
        } else {
            0
        }
    }

    /// Where the file begins: at the start, or so far before the first frame
    /// that reaches a level where it is armed and one does.
    pub open spec fn begins(self, thresh: u32, reach: usize, r: int) -> bool {
        if !self.armed || forall|f: int|
            0 <= f < self.frames ==> !#[trigger] crosses(self.buf@, thresh, f) {
            r == 0
        } else {
            exists|f: int|
                {
                    &&& 0 <= f < self.frames
                    &&& #[trigger] crosses(self.buf@, thresh, f)
                    &&& r == num::larger(f - reach, 0)
                    &&& forall|g: int| 0 <= g < f ==> !#[trigger] crosses(self.buf@, thresh, g)
                }
        }
    }

    /// Where the file begins.
    pub fn head(&self, thresh: u32, reach: usize) -> (r: usize)
        requires
            self.wf(),
        ensures
            self.begins(thresh, reach, r as int),
            r <= self.frames,
    {
        if !self.armed {
            return 0;
        }
        let n: usize = self.frames;
        let mut f: usize = 0;
        while f < n
            invariant
                self.wf(),
                self.armed,
                n == self.frames,
                f <= n,
                forall|g: int| 0 <= g < f ==> !#[trigger] crosses(self.buf@, thresh, g),
            decreases n - f,
        {
            let l: u32 = bits::absolute(self.at(f, 0));
            let r: u32 = bits::absolute(self.at(f, 1));
            if bits::at_most(thresh, l) || bits::at_most(thresh, r) {
                assert(crosses(self.buf@, thresh, f as int));
                return if f > reach {
                    f - reach
                } else {
                    0
                };
            }
            f = f + 1;
        }
        0
    }

    /// The lowest and the highest of one of so many stretches of the frames
    /// `from..to`.
    pub open spec fn drawn(self, from: int, to: int, buckets: int, b: int) -> (u32, u32) {
        let total = num::larger(to - from, 0);
        let a = stretch_from(from, total, buckets, b);
        let z = stretch_to(from, to, total, buckets, b);
        (trough(self, a, z), crest(self, a, z))
    }

    /// The picture of the frames `from..to` in so many stretches: the
    /// lowest and the highest of each, as bits.
    pub fn picture(&self, from: usize, to: usize, buckets: usize) -> (r: (Vec<u32>, Vec<u32>))
        requires
            self.wf(),
            frame::fits(from),
            frame::fits(to),
            frame::fits(buckets),
        ensures
            r.0@.len() == buckets,
            r.1@.len() == buckets,
            forall|b: int|
                0 <= b < buckets ==> #[trigger] r.0@[b] == self.drawn(
                    from as int,
                    to as int,
                    buckets as int,
                    b,
                ).0,
            forall|b: int|
                0 <= b < buckets ==> #[trigger] r.1@[b] == self.drawn(
                    from as int,
                    to as int,
                    buckets as int,
                    b,
                ).1,
    {
        let total: usize = if to > from {
            to - from
        } else {
            0
        };
        let mut lo: Vec<u32> = Vec::new();
        let mut hi: Vec<u32> = Vec::new();
        let mut b: usize = 0;
        while b < buckets
            invariant
                self.wf(),
                frame::fits(from),
                frame::fits(to),
                total == num::larger(to - from, 0),
                frame::fits(buckets),
                b <= buckets,
                lo@.len() == b,
                hi@.len() == b,
                forall|c: int|
                    0 <= c < b ==> #[trigger] lo@[c] == self.drawn(
                        from as int,
                        to as int,
                        buckets as int,
                        c,
                    ).0,
                forall|c: int|
                    0 <= c < b ==> #[trigger] hi@[c] == self.drawn(
                        from as int,
                        to as int,
                        buckets as int,
                        c,
                    ).1,
            decreases buckets - b,
        {
            let a: usize = from + share(b, total, buckets);
            let z: usize = num::min(num::max(from + share(b + 1, total, buckets), a + 1), to);
            let (mn, mx) = self.extremes(a, z);
            lo.push(mn);
            hi.push(mx);
            b = b + 1;
        }
        (lo, hi)
    }

    fn extremes(&self, from: usize, to: usize) -> (r: (u32, u32))
        requires
            self.wf(),
        ensures
            r.0 == trough(*self, from as int, to as int),
            r.1 == crest(*self, from as int, to as int),
    {
        let mut mn: u32 = 0;
        let mut mx: u32 = 0;
        let mut p: usize = from;
        while p < to
            invariant
                self.wf(),
                from <= p,
                p <= to || p == from,
                mn == trough(*self, from as int, p as int),
                mx == crest(*self, from as int, p as int),
            decreases to - p,
        {
            let l: u32 = self.at(p, 0);
            let r: u32 = self.at(p, 1);
            mn = min_of(min_of(mn, l), r);
            mx = max_of(max_of(mx, l), r);
            p = p + 1;
        }
        (mn, mx)
    }

    /// The samples of `from..to`, two a frame, as bits.
    pub open spec fn between(self, from: int, to: int) -> Seq<u32> {
        Seq::new((2 * (to - from)) as nat, |i: int| self.got(from + i / 2, i % 2))
    }

    /// What a file of `from..to` holds and what is said of it, where a file
    /// addresses so many frames at most.
    pub open spec fn written(
        self,
        from: usize,
        to: usize,
        most: usize,
        rate: u32,
        secs: Seq<char>,
    ) -> Result<(Seq<u32>, Seq<char>), Unwritten> {
        if to <= from {
            Err(Unwritten::Empty)
        } else if to - from > most {
            Err(Unwritten::TooLong)
        } else {
            Ok((self.between(from as int, to as int), manifest((to - from) as nat, rate, secs)))
        }
    }

    /// Write `from..to` as a take of one layer: the samples of its file, and
    /// its manifest. `secs` is how long it is.
    pub fn write(&self, from: usize, to: usize, most: usize, rate: u32, secs: &str) -> (r: Result<
        (Vec<u32>, String),
        Unwritten,
    >)
        requires
            self.wf(),
        ensures
            match r {
                Ok((v, m)) => self.written(from, to, most, rate, secs@) == Ok::<
                    (Seq<u32>, Seq<char>),
                    Unwritten,
                >((v@, m@)),
                Err(e) => self.written(from, to, most, rate, secs@) == Err::<
                    (Seq<u32>, Seq<char>),
                    Unwritten,
                >(e),
            },
    {
        if to <= from {
            return Err(Unwritten::Empty);
        }
        if to - from > most {
            return Err(Unwritten::TooLong);
        }
        let mut v: Vec<u32> = Vec::new();
        let mut p: usize = from;
        assert(v@ =~= self.between(from as int, p as int));
        while p < to
            invariant
                self.wf(),
                from <= p <= to,
                v@ == self.between(from as int, p as int),
            decreases to - p,
        {
            let l: u32 = self.at(p, 0);
            let r: u32 = self.at(p, 1);
            v.push(l);
            v.push(r);
            assert(v@ =~= self.between(from as int, p + 1));
            p = p + 1;
        }
        Ok((v, write_manifest(to - from, rate, secs)))
    }
}

/// Why a capture is not written.
#[derive(Clone, Copy, Debug, PartialEq, Eq, Structural)]
pub enum Unwritten {
    /// Nothing was captured.
    Empty,
    /// It is longer than a file can address.
    TooLong,
}

/// The manifest of a capture: a take of one layer that sounds every time
/// round.
pub open spec fn manifest(frames: nat, rate: u32, secs: Seq<char>) -> Seq<char> {
    "{\n  \"version\": 1,\n  \"sampleRate\": "@ + text::decimal(rate as nat) + ",\n  \"loopFrames\": "@
        + text::decimal(frames) + ",\n  \"loopSecs\": "@ + secs
        + ",\n  \"layers\": [\n    {\"file\":\"capture-00.wav\",\"len\":"@ + text::decimal(frames)
        + ",\"channels\":"@ + text::decimal(CHANNELS as nat)
        + ",\"period\":1,\"phase\":0}\n  ]\n}\n"@
}

fn write_manifest(frames: usize, rate: u32, secs: &str) -> (r: String)
    ensures
        r@ == manifest(frames as nat, rate, secs@),
{
    let mut out = String::new();
    out.append("{\n  \"version\": 1,\n  \"sampleRate\": ");
    assert(out@ =~= "{\n  \"version\": 1,\n  \"sampleRate\": "@);
    text::push_number(&mut out, rate as usize);
    out.append(",\n  \"loopFrames\": ");
    text::push_number(&mut out, frames);
    out.append(",\n  \"loopSecs\": ");
    out.append(secs);
    out.append(",\n  \"layers\": [\n    {\"file\":\"capture-00.wav\",\"len\":");
    text::push_number(&mut out, frames);
    out.append(",\"channels\":");
    text::push_number(&mut out, CHANNELS);
    out.append(",\"period\":1,\"phase\":0}\n  ]\n}\n");
    out
}

fn share(b: usize, total: usize, buckets: usize) -> (r: usize)
    requires
        b <= buckets,
        buckets > 0,
        frame::fits(total),
    ensures
        r == b * total / buckets as int,
        r <= total,
{
    proof {
        assert(0 <= b * total && b * total <= buckets * total) by (nonlinear_arith)
            requires
                0 <= b <= buckets,
                0 <= total,
        ;
        assert(b * total / buckets as int <= total) by (nonlinear_arith)
            requires
                0 <= b * total <= buckets * total,
                buckets > 0,
        ;
        assert(0 <= b * total / buckets as int) by (nonlinear_arith)
            requires
                0 <= b * total,
                buckets > 0,
        ;
        assert(b as u128 * total as u128 <= u128::MAX) by (nonlinear_arith)
            requires
                b <= u64::MAX,
                total <= u64::MAX,
        ;
    }
    let r: u128 = (b as u128) * (total as u128) / (buckets as u128);
    r as usize
}

/// The extremes of a capture are those of everything it has recorded since
/// it started: no sample is below the one or above the other.
pub proof fn the_extremes_are_of_all_that_was_recorded(c: Capture, f: int, ch: int)
    requires
        c.wf(),
        0 <= f < c.frames,
        0 <= ch < CHANNELS,
        bits::is_number(c.got(f, ch)),
    ensures
        bits::up_to(c.lo, c.got(f, ch)),
        bits::up_to(c.got(f, ch), c.hi),
{
    bounds_hold(c.buf@, c.frames as int, f, ch);
}

/// What nothing was recorded of has no peak, and what was recorded in
/// numbers has one: between the lowest and the highest sample there is.
pub proof fn a_peak_is_between_two_samples(c: Capture)
    requires
        c.wf(),
        forall|f: int, ch: int|
            0 <= f < c.frames && 0 <= ch < CHANNELS ==> bits::is_number(#[trigger] c.got(f, ch)),
    ensures
        c.frames == 0 <==> bits::below(c.hi, c.lo),
        c.frames > 0 ==> exists|f: int, ch: int|
            0 <= f < c.frames && 0 <= ch < CHANNELS && #[trigger] c.got(f, ch) == c.lo,
        c.frames > 0 ==> exists|f: int, ch: int|
            0 <= f < c.frames && 0 <= ch < CHANNELS && #[trigger] c.got(f, ch) == c.hi,
{
    if c.frames > 0 {
        met(c, c.frames as int);
        assert(bits::is_number(c.got(0, 0)));
        bounds_hold(c.buf@, c.frames as int, 0, 0);
    }
}

proof fn bounds_hold(buf: Seq<u32>, n: int, f: int, ch: int)
    requires
        2 * n <= buf.len(),
        0 <= f < n,
        0 <= ch < 2,
        bits::is_number(buf[2 * f + ch]),
    ensures
        bits::up_to(bottom(buf, n), buf[2 * f + ch]),
        bits::up_to(buf[2 * f + ch], top(buf, n)),
    decreases n,
{
    extremes_are_numbers(buf, n - 1);
    if f < n - 1 {
        bounds_hold(buf, n - 1, f, ch);
    }
}

proof fn extremes_are_numbers(buf: Seq<u32>, n: int)
    ensures
        bits::is_number(bottom(buf, n)),
        bits::is_number(top(buf, n)),
    decreases n,
{
    if n > 0 {
        extremes_are_numbers(buf, n - 1);
    }
}

proof fn met(c: Capture, n: int)
    requires
        c.wf(),
        0 < n <= c.frames,
        forall|f: int, ch: int|
            0 <= f < c.frames && 0 <= ch < CHANNELS ==> bits::is_number(#[trigger] c.got(f, ch)),
    ensures
        exists|f: int, ch: int|
            0 <= f < n && 0 <= ch < CHANNELS && #[trigger] c.got(f, ch) == bottom(c.buf@, n),
        exists|f: int, ch: int|
            0 <= f < n && 0 <= ch < CHANNELS && #[trigger] c.got(f, ch) == top(c.buf@, n),
    decreases n,
{
    assert(bits::is_number(c.got(n - 1, 0)) && bits::is_number(c.got(n - 1, 1)));
    let s0 = c.got(n - 1, 0);
    let s1 = c.got(n - 1, 1);
    if n > 1 {
        met(c, n - 1);
    } else {
        assert(bottom(c.buf@, 0) == INFINITY && top(c.buf@, 0) == MINUS_INFINITY);
        assert(lower(INFINITY, s0) == s0);
        assert(higher(MINUS_INFINITY, s0) == s0);
    }
    assert(bottom(c.buf@, n) == lower(lower(bottom(c.buf@, n - 1), s0), s1));
    assert(top(c.buf@, n) == higher(higher(top(c.buf@, n - 1), s0), s1));
}

/// A capture never holds more than its room, and what it dropped it says.
pub proof fn a_capture_stays_in_its_room(c: Capture, len: int, inputs: int)
    requires
        c.wf(),
        c.takes(inputs),
        len >= 0,
    ensures
        c.frames + c.fits(len, inputs) <= c.cap_frames,
        c.fits(len, inputs) < c.wanted(len, inputs) ==> c.frames + c.fits(len, inputs)
            == c.cap_frames && c.ends(len, inputs),
{
}

/// A capture with a count closes itself at that frame, neither before it nor
/// past it, and a count that there is room for never fills it.
pub proof fn a_capture_closes_at_its_count(c: Capture, len: int, inputs: int)
    requires
        c.wf(),
        c.takes(inputs),
        len >= 0,
        c.frames < c.stop_at <= c.cap_frames,
    ensures
        c.frames + c.fits(len, inputs) <= c.stop_at,
        c.ends(len, inputs) <==> c.frames + c.fits(len, inputs) == c.stop_at,
        c.fits(len, inputs) == c.wanted(len, inputs),
{
}

/// A capture is what came in on its two channels: frame after frame from
/// where it stood, and what it held before stays as it was.
pub proof fn a_capture_is_what_came_in(
    c: Capture,
    data: Seq<u32>,
    inputs: int,
    f: int,
    ch: int,
    old: int,
)
    requires
        c.wf(),
        c.on,
        c.ch0 < inputs,
        c.ch1 < inputs,
        0 <= f < c.fits(data.len() as int, inputs),
        0 <= ch < 2,
        0 <= old < 2 * c.frames,
    ensures
        ({
            let n = c.fits(data.len() as int, inputs);
            let after = taped(
                c.buf@,
                c.frames as int,
                data,
                inputs,
                c.ch0 as int,
                c.ch1 as int,
                n,
            );
            &&& c.takes(inputs)
            &&& after.len() == c.buf@.len()
            &&& after[2 * (c.frames + f) + ch] == data[f * inputs + if ch == 0 {
                c.ch0 as int
            } else {
                c.ch1 as int
            }]
            &&& after[old] == c.buf@[old]
        }),
{
    let i = 2 * (c.frames + f) + ch;
    assert(i / 2 == c.frames + f && i % 2 == ch);
}

/// A capture takes every whole frame of a buffer while there is room and no
/// count to close at, and goes on.
pub proof fn a_capture_goes_on_while_there_is_room(c: Capture, len: int, inputs: int)
    requires
        c.wf(),
        c.takes(inputs),
        0 <= len,
        c.stop_at == 0,
        (c.cap_frames - c.frames) * inputs >= len,
    ensures
        c.fits(len, inputs) * inputs <= len < (c.fits(len, inputs) + 1) * inputs,
        !c.ends(len, inputs),
{
    let n = len / inputs;
    vstd::arithmetic::div_mod::lemma_fundamental_div_mod(len, inputs);
    vstd::arithmetic::div_mod::lemma_mod_bound(len, inputs);
    let room = c.cap_frames - c.frames;
    assert(n <= room) by (nonlinear_arith)
        requires
            room * inputs >= len,
            len == inputs * n + len % inputs,
            0 <= len % inputs,
            inputs > 0,
    ;
    assert(n * inputs <= len < (n + 1) * inputs) by (nonlinear_arith)
        requires
            len == inputs * n + len % inputs,
            0 <= len % inputs < inputs,
    ;
}

/// A file begins with the capture, or where it waits for a sound with its
/// reach before the first frame that is loud enough in either channel, as
/// far as the capture goes back.
pub proof fn a_file_begins_before_its_first_sound(
    c: Capture,
    thresh: u32,
    reach: usize,
    r: int,
    f: int,
)
    requires
        c.begins(thresh, reach, r),
        0 <= f < c.frames,
        bits::up_to(thresh, bits::unsigned(c.buf@[2 * f])) || bits::up_to(
            thresh,
            bits::unsigned(c.buf@[2 * f + 1]),
        ),
        forall|g: int|
            0 <= g < f ==> !bits::up_to(thresh, bits::unsigned(#[trigger] c.buf@[2 * g]))
                && !bits::up_to(thresh, bits::unsigned(c.buf@[2 * g + 1])),
    ensures
        !c.armed ==> r == 0,
        c.armed ==> 0 <= r <= f && f - r <= reach,
        c.armed && r > 0 ==> f - r == reach,
{
    assert(crosses(c.buf@, thresh, f));
    assert forall|g: int| 0 <= g < f implies !#[trigger] crosses(c.buf@, thresh, g) by {
        assert(c.buf@[2 * g] == c.buf@[2 * g]);
    }
}

/// A capture that nothing in it is loud enough for begins at its start.
pub proof fn a_quiet_capture_begins_at_its_start(c: Capture, thresh: u32, reach: usize, r: int)
    requires
        c.begins(thresh, reach, r),
        forall|g: int|
            0 <= g < c.frames ==> !bits::up_to(thresh, bits::unsigned(#[trigger] c.buf@[2 * g]))
                && !bits::up_to(thresh, bits::unsigned(c.buf@[2 * g + 1])),
    ensures
        r == 0,
{
    assert forall|g: int| 0 <= g < c.frames implies !#[trigger] crosses(c.buf@, thresh, g) by {
        assert(c.buf@[2 * g] == c.buf@[2 * g]);
    }
}

/// A capture is written as it was recorded: the frames that are asked for,
/// every one and in order, wherever there are some and a file holds them.
pub proof fn a_capture_is_written_as_it_was_recorded(
    c: Capture,
    from: usize,
    to: usize,
    most: usize,
    rate: u32,
    secs: Seq<char>,
    f: int,
    ch: int,
)
    requires
        c.wf(),
        from <= f < to <= c.frames,
        0 <= ch < 2,
    ensures
        ({
            let w = c.written(from, to, most, rate, secs);
            &&& w is Ok <==> to - from <= most
            &&& w matches Ok((v, _)) ==> v.len() == 2 * (to - from) && v[2 * (f - from) + ch]
                == c.buf@[2 * f + ch]
        }),
{
    let i = 2 * (f - from) + ch;
    assert(i / 2 == f - from && i % 2 == ch);
}

proof fn a_stretch_is_bounded(c: Capture, from: int, to: int, f: int, ch: int)
    requires
        from <= f < to,
        0 <= ch < 2,
        bits::is_number(c.got(f, ch)),
    ensures
        bits::is_number(trough(c, from, to)),
        bits::is_number(crest(c, from, to)),
        bits::up_to(trough(c, from, to), c.got(f, ch)),
        bits::up_to(c.got(f, ch), crest(c, from, to)),
    decreases to - from,
{
    a_stretch_is_of_numbers(c, from, to - 1);
    if f < to - 1 {
        a_stretch_is_bounded(c, from, to - 1, f, ch);
    }
}

proof fn a_stretch_is_of_numbers(c: Capture, from: int, to: int)
    ensures
        bits::is_number(trough(c, from, to)),
        bits::is_number(crest(c, from, to)),
    decreases to - from,
{
    if to > from {
        a_stretch_is_of_numbers(c, from, to - 1);
    }
}

/// A picture of a capture shows all of it: whatever frame it is of, the
/// stretch that the frame is in reaches as low and as high.
pub proof fn a_picture_reaches_every_sample(
    c: Capture,
    from: int,
    to: int,
    buckets: int,
    b: int,
    f: int,
    ch: int,
)
    requires
        0 <= from < to,
        0 <= b < buckets,
        b * (to - from) < (f - from + 1) * buckets <= (b + 1) * (to - from),
        0 <= ch < 2,
        bits::is_number(c.got(f, ch)),
    ensures
        bits::up_to(c.drawn(from, to, buckets, b).0, c.got(f, ch)),
        bits::up_to(c.got(f, ch), c.drawn(from, to, buckets, b).1),
{
    let total = to - from;
    let a = stretch_from(from, total, buckets, b);
    let z = stretch_to(from, to, total, buckets, b);
    let lo = b * total;
    let hi = (b + 1) * total;
    vstd::arithmetic::div_mod::lemma_fundamental_div_mod(lo, buckets);
    vstd::arithmetic::div_mod::lemma_fundamental_div_mod(hi, buckets);
    vstd::arithmetic::div_mod::lemma_mod_bound(lo, buckets);
    vstd::arithmetic::div_mod::lemma_mod_bound(hi, buckets);
    let p = lo / buckets;
    let q = hi / buckets;
    assert(p <= f - from < q) by (nonlinear_arith)
        requires
            lo < (f - from + 1) * buckets <= hi,
            lo == buckets * p + lo % buckets,
            hi == buckets * q + hi % buckets,
            0 <= lo % buckets,
            hi % buckets < buckets,
            buckets > 0,
    ;
    assert(f < to) by (nonlinear_arith)
        requires
            (f - from + 1) * buckets <= (b + 1) * (to - from),
            b + 1 <= buckets,
            from < to,
            buckets > 0,
    ;
    a_stretch_is_bounded(c, a, z, f, ch);
}

} // verus!
