//! A loop rendered without its clock, and the picture of one that is asked
//! for: which positions they are made of.

use crate::bits;
use crate::bits::{INFINITY_WIDE, MINUS_ONE_WIDE, ONE_WIDE};
use crate::frame;
use crate::loop_state::{Loop, Play};
use crate::mixer;
use crate::mixer::Reading;
use crate::num;
use crate::shared;
use crate::shared::{Desk, Shared};
use crate::text;
use crate::wide;
use crate::wide::FIRST;
use vstd::prelude::*;
use vstd::string::*;

verus! {

/// Whether a play head gets anywhere at a speed: not at one so tiny that no
/// pass would end.
pub open spec fn moves(speed: u64) -> bool {
    FIRST <= bits::magnitude_wide(speed) < INFINITY_WIDE
}

/// Whether a play head travels whole frames: at rate one in either
/// direction, with nothing offset.
pub open spec fn steps(lp: Loop) -> bool {
    (lp.play.speed == ONE_WIDE || lp.play.speed == MINUS_ONE_WIDE) && bits::is_zero_wide(
        lp.play.warp,
    )
}

/// How long a rendered loop is: one pass, which is its span over the speed.
pub open spec fn pass_len(lp: Loop) -> int {
    let span = lp.pass_span(lp.body.loop_len as int);
    if lp.play.speed == ONE_WIDE || lp.play.speed == MINUS_ONE_WIDE {
        span
    } else {
        wide::over(span, bits::unsigned_wide(lp.play.speed))
    }
}

/// Where the play head is at frame `f` of a rendered loop. `given` says so of
/// every frame, for one that does not travel whole frames.
pub open spec fn head_at(lp: Loop, given: Seq<i64>, f: int) -> int {
    if !steps(lp) {
        given[f] as int
    } else if lp.play.speed == ONE_WIDE {
        lp.heard(f, lp.body.loop_len as int)
    } else {
        lp.heard(-f, lp.body.loop_len as int)
    }
}

/// Whether there is something to render, and a file can hold it.
pub open spec fn renders(lp: Loop, most: usize) -> bool {
    &&& lp.body.loop_len > 0
    &&& lp.body.n_layers > 0
    &&& moves(lp.play.speed)
    &&& 0 < pass_len(lp) <= most
}

/// What a loop is rendered from: one pass from where the play head is at
/// zero, heard as it plays, whatever decides whether it is heard.
pub open spec fn rendered(lp: Loop, given: Seq<i64>) -> Seq<Reading> {
    Seq::new(
        pass_len(lp) as nat,
        |f: int| mixer::read_of(lp, head_at(lp, given, f)),
    )
}

/// A pass is a few times the loop at most.
proof fn pass_is_short(lp: Loop)
    requires
        lp.wf(),
        lp.body.loop_len > 0,
    ensures
        lp.pass_span(lp.body.loop_len as int) <= 6 * lp.body.loop_len,
{
    reveal(Loop::wf);
}

/// What is heard lies in the loop or no further than a length beside it.
proof fn heard_in_range(lp: Loop, raw: int)
    requires
        lp.wf(),
        lp.body.loop_len > 0,
    ensures
        frame::safe(lp.heard(raw, lp.body.loop_len as int)),
{
    reveal(Loop::wf);
    let len = lp.body.loop_len as int;
    let span = lp.cycle_span(len);
    let c = lp.turned(raw, len) + lp.edit.rot as int % span;
    vstd::arithmetic::div_mod::lemma_mod_bound(c, span);
}

/// How many frames a loop renders to, or nothing where there is nothing to
/// render or no file can hold it.
pub fn frames(lp: &Loop, most: usize) -> (r: Option<usize>)
    requires
        lp.wf(),
        most < usize::MAX,
    ensures
        r is Some <==> renders(*lp, most),
        r matches Some(n) ==> n == pass_len(*lp),
{
    let len: usize = lp.body.loop_len;
    let pace: u64 = bits::absolute_wide(lp.play.speed);
    if len == 0 || lp.body.n_layers == 0 || pace < FIRST || pace >= INFINITY_WIDE {
        return None;
    }
    assert(frame::fits(len) && frame::short(len)) by {
        reveal(Loop::wf);
    }
    proof {
        reveal(Loop::wf);
    }
    let (_, cyc) = lp.cycle(len);
    let span: u64 = if lp.play.pendulum {
        2 * (cyc as u64)
    } else {
        cyc as u64
    };
    let n: u64 = if lp.play.speed == ONE_WIDE || lp.play.speed == MINUS_ONE_WIDE {
        span
    } else {
        wide::divided(span, pace, most as u64 + 1)
    };
    if n == 0 || n > most as u64 {
        return None;
    }
    Some(n as usize)
}

impl Shared {
    /// Render a loop: which positions each frame of one pass is made of, or
    /// nothing where there is nothing to render or no file can hold it.
    pub fn render_loop(&self, li: usize, given: &Vec<i64>, most: usize) -> (r: Option<Vec<Reading>>)
        requires
            self.wf(),
            li < self.size.n_loops,
            most < usize::MAX,
            !steps(self.loops@[li as int]) && renders(self.loops@[li as int], most)
                ==> given@.len() == pass_len(self.loops@[li as int]),
            forall|f: int| 0 <= f < given@.len() ==> frame::in_range(#[trigger] given@[f]),
        ensures
            r is Some <==> renders(self.loops@[li as int], most),
            r matches Some(v) ==> v@ == rendered(self.loops@[li as int], given@),
    {
        let lp = &self.loops[li];
        proof {
            assert(self.loop_ok(self.loops@[li as int]));
            reveal(shared::sound);
        }
        let frames: usize = match frames(lp, most) {
            None => {
                return None;
            },
            Some(n) => n,
        };
        let len: usize = lp.body.loop_len;
        let whole: bool = (lp.play.speed == ONE_WIDE || lp.play.speed == MINUS_ONE_WIDE)
            && bits::zero_wide(lp.play.warp);
        assert(frame::fits(len) && frame::short(len)) by {
            reveal(Loop::wf);
        }
        proof {
            if whole {
                pass_is_short(*lp);
            }
        }
        let mut out: Vec<Reading> = Vec::new();
        let mut f: usize = 0;
        while f < frames
            invariant
                lp.wf(),
                len == lp.body.loop_len,
                len > 0,
                frame::fits(len),
                whole == steps(*lp),
                frames == pass_len(*lp),
                !whole ==> frames == given@.len(),
                whole ==> frames <= 6 * len,
                frame::short(len),
                forall|f: int| 0 <= f < given@.len() ==> frame::in_range(#[trigger] given@[f]),
                f <= frames,
                out@ =~= rendered(*lp, given@).subrange(0, f as int),
            decreases frames - f,
        {
            let p: i64 = if !whole {
                given[f]
            } else {
                let raw: i64 = if lp.play.speed == ONE_WIDE {
                    f as i64
                } else {
                    -(f as i64)
                };
                proof {
                    heard_in_range(*lp, raw as int);
                }
                lp.play_pos(raw, len)
            };
            let got = mixer::loop_at(lp, p);
            out.push(got);
            f = f + 1;
        }
        assert(out@ =~= rendered(*lp, given@));
        Some(out)
    }
}

/// A loop is rendered as it plays: frame `f` of the render is what is heard
/// `f` frames after the loop's origin, where the play head travels whole
/// frames.
pub proof fn a_render_is_one_pass_as_played(lp: Loop, given: Seq<i64>, f: int)
    requires
        steps(lp),
        0 <= f < pass_len(lp),
    ensures
        lp.whole_travel(lp.body.origin + f) is Some,
        rendered(lp, given)[f] == mixer::read_of(
            lp,
            lp.heard(lp.whole_travel(lp.body.origin + f).unwrap(), lp.body.loop_len as int),
        ),
{
}

/// What a picture of a loop spans: the loop, and whatever silence its window
/// reaches into.
pub open spec fn span_from(lp: Loop) -> int {
    num::smaller(
        if lp.windowed() is Some {
            lp.edit.win_in as int
        } else {
            0
        },
        0,
    )
}

/// Where the picture ends.
pub open spec fn span_to(lp: Loop) -> int {
    num::larger(
        if lp.windowed() is Some {
            lp.edit.win_out as int
        } else {
            0
        },
        lp.body.loop_len as int,
    )
}

/// Where stretch `b` of `buckets` starts, in frames of the picture.
pub open spec fn stretch_from(b: int, buckets: int, total: int) -> int {
    b * total / buckets
}

/// Where it ends: a frame later at least, and with the picture at most.
pub open spec fn stretch_to(b: int, buckets: int, total: int) -> int {
    num::smaller(
        num::larger((b + 1) * total / buckets, stretch_from(b, buckets, total) + 1),
        total,
    )
}

/// The positions of a loop that stretch `b` of its picture is drawn from:
/// those of the stretch that lie in the loop, from the first to one past the
/// last.
pub open spec fn drawn_from(lp: Loop, b: int, buckets: int) -> (int, int) {
    let total = span_to(lp) - span_from(lp);
    let len = lp.body.loop_len as int;
    (
        num::within(span_from(lp) + stretch_from(b, buckets, total), 0, len),
        num::within(span_from(lp) + stretch_to(b, buckets, total), 0, len),
    )
}

/// The window, with none as both zero.
fn ends(lp: &Loop) -> (r: (i64, i64))
    ensures
        r.0 == if lp.windowed() is Some {
            lp.edit.win_in
        } else {
            0
        },
        r.1 == if lp.windowed() is Some {
            lp.edit.win_out
        } else {
            0
        },
{
    match lp.window() {
        Some((i, o)) => (i, o),
        None => (0, 0),
    }
}

/// What a picture of a loop spans.
pub fn picture_span(lp: &Loop) -> (r: (i64, i64))
    requires
        lp.wf(),
    ensures
        r.0 == span_from(*lp),
        r.1 == span_to(*lp),
{
    proof {
        reveal(Loop::wf);
    }
    let (i, o) = ends(lp);
    let l: i64 = lp.body.loop_len as i64;
    (
        if i < 0 {
            i
        } else {
            0
        },
        if o > l {
            o
        } else {
            l
        },
    )
}

proof fn share_fits(b: int, buckets: int, total: int)
    requires
        0 <= b <= buckets,
        0 < buckets,
        0 <= total,
    ensures
        0 <= b * total / buckets <= total,
{
    assert(0 <= b * total <= buckets * total) by (nonlinear_arith)
        requires
            0 <= b <= buckets,
            0 <= total,
    ;
    vstd::arithmetic::div_mod::lemma_div_pos_is_pos(b * total, buckets);
    vstd::arithmetic::div_mod::lemma_div_is_ordered(b * total, buckets * total, buckets);
    vstd::arithmetic::div_mod::lemma_div_multiples_vanish(total, buckets);
}

fn share(b: usize, buckets: usize, total: i64) -> (r: i64)
    requires
        b <= buckets,
        0 < buckets,
        0 <= total,
    ensures
        r == b * total / buckets as int,
        0 <= r <= total,
{
    proof {
        share_fits(b as int, buckets as int, total as int);
        assert(b * total <= 0xFFFF_FFFF_FFFF_FFFF * 0x7FFF_FFFF_FFFF_FFFF) by (nonlinear_arith)
            requires
                0 <= b <= 0xFFFF_FFFF_FFFF_FFFF,
                0 <= total <= 0x7FFF_FFFF_FFFF_FFFF,
        ;
    }
    ((b as u128) * (total as u128) / (buckets as u128)) as i64
}

fn clip(v: i64, len: i64) -> (r: usize)
    requires
        0 <= len <= usize::MAX,
    ensures
        r == num::within(v as int, 0, len as int),
{
    if v < 0 {
        0
    } else if v > len {
        len as usize
    } else {
        v as usize
    }
}

/// The positions of a loop that stretch `b` of its picture is drawn from.
pub fn stretch(lp: &Loop, b: usize, buckets: usize) -> (r: (usize, usize))
    requires
        lp.wf(),
        b < buckets,
    ensures
        r.0 == drawn_from(*lp, b as int, buckets as int).0,
        r.1 == drawn_from(*lp, b as int, buckets as int).1,
{
    proof {
        reveal(Loop::wf);
    }
    let (first, past) = picture_span(lp);
    let total: i64 = past - first;
    let from: i64 = share(b, buckets, total);
    let mut to: i64 = share(b + 1, buckets, total);
    if to < from + 1 {
        to = from + 1;
    }
    if to > total {
        to = total;
    }
    let len: i64 = lp.body.loop_len as i64;
    (clip(first + from, len), clip(first + to, len))
}

/// A picture's levels, in thousandths, as they are written.
pub open spec fn levels_text(v: Seq<i64>) -> Seq<char> {
    text::joined(
        Seq::new(v.len(), |i: int| text::signed_decimal(num::within(v[i] as int, -1000, 1000))),
        ","@,
    )
}

/// How the picture of a loop is written.
pub open spec fn picture_text(lp: Loop, li: int, buckets: int, lo: Seq<i64>, hi: Seq<i64>) -> Seq<
    char,
> {
    let (i, o) = match lp.windowed() {
        Some(w) => w,
        None => (0, 0),
    };
    "{\"peaks\":{\"loop\":"@ + text::decimal(li as nat) + ",\"frames\":"@ + text::decimal(
        lp.body.loop_len as nat,
    ) + ",\"from\":"@ + text::signed_decimal(span_from(lp)) + ",\"to\":"@ + text::signed_decimal(
        span_to(lp),
    ) + ",\"buckets\":"@ + text::decimal(buckets as nat) + ",\"winIn\":"@ + text::signed_decimal(
        i as int,
    ) + ",\"winOut\":"@ + text::signed_decimal(o as int) + ",\"rot\":"@ + text::decimal(
        lp.edit.rot as nat,
    ) + ",\"lo\":["@ + levels_text(lo) + "],\"hi\":["@ + levels_text(hi) + "]}}"@
}

fn levels(v: &Vec<i64>) -> (r: String)
    ensures
        r@ == levels_text(v@),
{
    let ghost whole = Seq::new(
        v@.len(),
        |i: int| text::signed_decimal(num::within(v@[i] as int, -1000, 1000)),
    );
    let mut parts: Vec<String> = Vec::new();
    let mut i: usize = 0;
    while i < v.len()
        invariant
            whole == Seq::new(
                v@.len(),
                |i: int| text::signed_decimal(num::within(v@[i] as int, -1000, 1000)),
            ),
            i <= v@.len(),
            text::views(parts@) =~= whole.subrange(0, i as int),
        decreases v@.len() - i,
    {
        let x: i64 = v[i];
        let x: i64 = if x < -1000 {
            -1000
        } else if x > 1000 {
            1000
        } else {
            x
        };
        let mut one = String::new();
        text::push_signed(&mut one, x);
        assert(one@ =~= whole[i as int]);
        let ghost before = parts@;
        parts.push(one);
        assert(text::views(parts@) =~= text::views(before).push(one@));
        i = i + 1;
    }
    assert(text::views(parts@) =~= whole);
    text::join(&parts, ",")
}

/// Keep the picture of a loop, and count it. `lo` and `hi` are the lowest and
/// the highest of each stretch, in thousandths.
pub fn note_peaks(sh: &mut Shared, li: usize, buckets: usize, lo: &Vec<i64>, hi: &Vec<i64>)
    requires
        old(sh).wf(),
        li < old(sh).size.n_loops,
        old(sh).desk.peaks_seq < u64::MAX,
    ensures
        final(sh).wf(),
        final(sh).peaks@ == picture_text(
            old(sh).loops@[li as int],
            li as int,
            buckets as int,
            lo@,
            hi@,
        ),
        *final(sh) == (Shared {
            peaks: final(sh).peaks,
            desk: Desk { peaks_seq: (old(sh).desk.peaks_seq + 1) as u64, ..old(sh).desk },
            ..*old(sh)
        }),
{
    let mut out = String::new();
    {
        let lp = &sh.loops[li];
        assert(lp.wf()) by {
            assert(sh.loop_ok(sh.loops@[li as int]));
            reveal(shared::sound);
        }
        let (i, o) = ends(lp);
        let (from, to) = picture_span(lp);
        out.append("{\"peaks\":{\"loop\":");
        assert(out@ =~= "{\"peaks\":{\"loop\":"@);
        text::push_number(&mut out, li);
        out.append(",\"frames\":");
        text::push_number(&mut out, lp.body.loop_len);
        out.append(",\"from\":");
        text::push_signed(&mut out, from);
        out.append(",\"to\":");
        text::push_signed(&mut out, to);
        out.append(",\"buckets\":");
        text::push_number(&mut out, buckets);
        out.append(",\"winIn\":");
        text::push_signed(&mut out, i);
        out.append(",\"winOut\":");
        text::push_signed(&mut out, o);
        out.append(",\"rot\":");
        text::push_number(&mut out, lp.edit.rot);
        out.append(",\"lo\":[");
        out.append(levels(lo).as_str());
        out.append("],\"hi\":[");
        out.append(levels(hi).as_str());
        out.append("]}}");
    }
    sh.peaks = out;
    sh.desk.peaks_seq = sh.desk.peaks_seq + 1;
}

/// A render is of the loop, and not of whether it happens to be heard: being
/// stopped, firing once, and chance have no say in it.
pub proof fn a_render_ignores_whether_it_is_heard(a: Loop, b: Loop, given: Seq<i64>, most: usize)
    requires
        b == (Loop {
            play: Play {
                muted: b.play.muted,
                one_shot: b.play.one_shot,
                shot_end: b.play.shot_end,
                chance: b.play.chance,
                chance_pass: b.play.chance_pass,
                chance_sounds: b.play.chance_sounds,
                ..a.play
            },
            ..a
        }),
    ensures
        renders(b, most) == renders(a, most),
        rendered(b, given) == rendered(a, given),
{
    assert forall|f: int| 0 <= f < pass_len(a) implies #[trigger] rendered(b, given)[f]
        == rendered(a, given)[f] by {
        assert(head_at(a, given, f) == head_at(b, given, f));
    }
    assert(rendered(b, given) =~= rendered(a, given));
}

/// A render is as long as a pass is at rate one, there and back where it
/// swings, and begins where the play head is at its zero: with no window and
/// no rotation frame `f` of it is position `f`, and backwards the position as
/// far from the end.
pub proof fn a_render_is_a_pass_from_its_zero(lp: Loop, given: Seq<i64>, f: int)
    requires
        lp.body.loop_len > 0,
        lp.play.warp == 0,
        !lp.play.pendulum,
        lp.edit.win_in == 0,
        lp.edit.win_out == 0,
        lp.edit.rot == 0,
        lp.play.speed == ONE_WIDE || lp.play.speed == MINUS_ONE_WIDE,
        0 <= f < lp.body.loop_len,
    ensures
        rendered(lp, given).len() == lp.body.loop_len,
        lp.play.speed == ONE_WIDE ==> rendered(lp, given)[f].at == Some(f as usize),
        lp.play.speed == MINUS_ONE_WIDE && f == 0 ==> rendered(lp, given)[f].at == Some(0usize),
        lp.play.speed == MINUS_ONE_WIDE && f > 0 ==> rendered(lp, given)[f].at == Some(
            (lp.body.loop_len - f) as usize,
        ),
        rendered(lp, given)[f].wrap is None,
{
    let len = lp.body.loop_len as int;
    vstd::arithmetic::div_mod::lemma_small_mod(f as nat, len as nat);
    vstd::arithmetic::div_mod::lemma_small_mod(0, len as nat);
    if f > 0 {
        vstd::arithmetic::div_mod::lemma_fundamental_div_mod_converse(-f, len, -1, len - f);
        vstd::arithmetic::div_mod::lemma_small_mod((len - f) as nat, len as nat);
    }
}

/// There is something to render of a loop that holds something, whatever
/// decides whether it is heard.
pub proof fn a_loop_that_holds_something_renders(lp: Loop, most: usize)
    requires
        lp.play.speed == ONE_WIDE || lp.play.speed == MINUS_ONE_WIDE,
        !lp.play.pendulum,
        lp.edit.win_in == 0,
        lp.edit.win_out == 0,
    ensures
        renders(lp, most) <==> 0 < lp.body.loop_len <= most && lp.body.n_layers > 0,
{
    assert(bits::magnitude_wide(ONE_WIDE) == ONE_WIDE);
    assert(bits::magnitude_wide(MINUS_ONE_WIDE) == ONE_WIDE);
}

/// The stretches a picture is drawn in cover it: one begins where the one
/// before ends, the first at its start and the last to its end.
pub proof fn a_picture_covers_the_whole(b: int, buckets: int, total: int)
    requires
        0 <= b < buckets,
        buckets <= total,
    ensures
        stretch_from(0, buckets, total) == 0,
        stretch_to(buckets - 1, buckets, total) == total,
        b + 1 < buckets ==> stretch_to(b, buckets, total) == stretch_from(b + 1, buckets, total),
        stretch_from(b, buckets, total) < stretch_to(b, buckets, total),
{
    let lo = b * total;
    let hi = (b + 1) * total;
    assert(hi == lo + total && 0 <= lo) by (nonlinear_arith)
        requires
            lo == b * total,
            hi == (b + 1) * total,
            b >= 0,
            total > 0,
    ;
    vstd::arithmetic::div_mod::lemma_fundamental_div_mod(lo, buckets);
    vstd::arithmetic::div_mod::lemma_fundamental_div_mod(hi, buckets);
    vstd::arithmetic::div_mod::lemma_mod_bound(lo, buckets);
    vstd::arithmetic::div_mod::lemma_mod_bound(hi, buckets);
    let q = lo / buckets;
    let p = hi / buckets;
    assert(hi <= buckets * total) by (nonlinear_arith)
        requires
            hi == (b + 1) * total,
            b + 1 <= buckets,
            total > 0,
    ;
    assert(p >= q + 1) by (nonlinear_arith)
        requires
            lo == buckets * q + lo % buckets,
            hi == buckets * p + hi % buckets,
            hi >= lo + buckets,
            0 <= lo % buckets,
            hi % buckets < buckets,
            buckets > 0,
    ;
    assert(p <= total) by (nonlinear_arith)
        requires
            hi == buckets * p + hi % buckets,
            0 <= hi % buckets,
            hi <= buckets * total,
            buckets > 0,
    ;
    assert(0 * total == 0);
    assert((buckets - 1 + 1) * total == total * buckets) by (nonlinear_arith);
    vstd::arithmetic::div_mod::lemma_div_multiples_vanish(total, buckets);
    vstd::arithmetic::div_mod::lemma_div_basics(buckets);
    let last = (buckets - 1) * total;
    vstd::arithmetic::div_mod::lemma_fundamental_div_mod(last, buckets);
    vstd::arithmetic::div_mod::lemma_mod_bound(last, buckets);
    let z = last / buckets;
    assert(last == buckets * total - total) by (nonlinear_arith)
        requires
            last == (buckets - 1) * total,
    ;
    assert(z + 1 <= total) by (nonlinear_arith)
        requires
            last == buckets * z + last % buckets,
            0 <= last % buckets,
            last == buckets * total - total,
            buckets > 0,
            total >= buckets,
    ;
}

/// A render takes as long as a pass is played: at its own rate that is the
/// pass itself, and at any other the frames times the rate come to it, to
/// within a frame.
pub proof fn a_render_takes_as_long_as_its_pass(lp: Loop)
    requires
        lp.body.loop_len > 0,
        lp.pass_span(lp.body.loop_len as int) >= 1,
        moves(lp.play.speed),
        lp.pass_span(lp.body.loop_len as int) * wide::beneath(
            bits::unsigned_wide(lp.play.speed),
        ) <= FIRST * FIRST,
    ensures
        ({
            let span = lp.pass_span(lp.body.loop_len as int);
            let pace = bits::unsigned_wide(lp.play.speed);
            &&& lp.play.speed == ONE_WIDE || lp.play.speed == MINUS_ONE_WIDE ==> pass_len(lp)
                == span
            &&& lp.play.speed != ONE_WIDE && lp.play.speed != MINUS_ONE_WIDE ==> -wide::above(pace)
                <= pass_len(lp) * wide::above(pace) - span * wide::beneath(pace) <= wide::above(
                pace,
            )
        }),
{
    wide::what_is_divided_comes_back(
        lp.pass_span(lp.body.loop_len as int),
        bits::unsigned_wide(lp.play.speed),
    );
}

/// A picture is of the loop and of the silence that its window reaches into,
/// and of no more: it starts with the earlier of the two and ends with the
/// later.
pub proof fn a_picture_is_of_the_loop_and_its_window(lp: Loop, b: int, buckets: int, f: int)
    requires
        0 < lp.body.loop_len,
        0 <= f < lp.body.loop_len,
    ensures
        span_from(lp) <= 0,
        span_to(lp) >= lp.body.loop_len,
        lp.windowed() is None ==> span_from(lp) == 0 && span_to(lp) == lp.body.loop_len,
        lp.windowed() matches Some((i, o)) ==> span_from(lp) <= i && span_to(lp) >= o && (
        span_from(lp) == 0 || span_from(lp) == i) && (span_to(lp) == lp.body.loop_len || span_to(lp)
            == o),
        ({
            let total = span_to(lp) - span_from(lp);
            let (x, y) = drawn_from(lp, b, buckets);
            &&& span_from(lp) + stretch_from(b, buckets, total) <= f < span_from(lp) + stretch_to(
                b,
                buckets,
                total,
            ) <==> x <= f < y
            &&& 0 <= x <= lp.body.loop_len
            &&& 0 <= y <= lp.body.loop_len
        }),
{
}

} // verus!
