//! The self-test: a click through a cable, and where it came back to.

use crate::bits;
use crate::cycle;
use crate::frame;
use crate::loop_state::{Body, Loop};
use crate::next_take::{NextTake, ARMED, NEVER};
use crate::num;
use crate::shared;
use crate::shared::Shared;
use vstd::prelude::*;

verus! {

/// A hundredth of full scale, as bits: a click is at least that.
pub const CLICK: u32 = 0x3C23_D70A;

/// How many frames to either side of a boundary a click is looked for.
pub const REACH: usize = 64;

/// How many frames out a recording may be.
pub const SLACK: i64 = 2;

/// The louder of the two samples of a frame, as bits.
pub open spec fn level(tape: Seq<u32>, p: int) -> u32 {
    bits::louder(bits::louder(0, tape[2 * p]), tape[2 * p + 1])
}

/// The loudest of the first `n` frames, and the first frame it is at. Where
/// nothing is louder than silence it is silence, at the start.
pub open spec fn loudest(tape: Seq<u32>, n: int) -> (u32, int)
    decreases n,
{
    if n <= 0 {
        (0, 0)
    } else {
        let (peak, at) = loudest(tape, n - 1);
        if bits::below(peak, level(tape, n - 1)) {
            (level(tape, n - 1), n - 1)
        } else {
            (peak, at)
        }
    }
}

/// The frame before one, coming round.
pub open spec fn before(p: int, len: int) -> int {
    if p == 0 {
        len - 1
    } else {
        p - 1
    }
}

/// Where what is at a frame begins: back from there for as long as it is
/// audible, and once round at most.
pub open spec fn walked(tape: Seq<u32>, len: int, at: int, n: int) -> int
    decreases n,
{
    if n <= 0 || bits::up_to(level(tape, before(at, len)), CLICK) {
        at
    } else {
        walked(tape, len, before(at, len), n - 1)
    }
}

/// A position as an offset from zero: what is past the middle is early.
pub open spec fn signed(p: int, len: int) -> int {
    if p > len / 2 {
        p - len
    } else {
        p
    }
}

/// Where the loudest thing in the first `len` frames begins, as an offset,
/// and how loud it is; nothing where it is not a click.
pub open spec fn onset(tape: Seq<u32>, len: int) -> Option<(int, u32)> {
    let (peak, at) = loudest(tape, len);
    if bits::below(peak, CLICK) {
        None
    } else {
        Some((signed(walked(tape, len, at, len), len), peak))
    }
}

fn level_at(tape: &Vec<u32>, p: usize) -> (r: u32)
    requires
        2 * p + 1 < tape@.len(),
    ensures
        r == level(tape@, p as int),
{
    assert(tape.len() == tape@.len());
    bits::loudest(bits::loudest(0, tape[2 * p]), tape[2 * p + 1])
}

proof fn loudest_inside(tape: Seq<u32>, n: int)
    requires
        n > 0,
    ensures
        0 <= loudest(tape, n).1 < n,
    decreases n,
{
    reveal_with_fuel(loudest, 2);
    if n > 1 {
        loudest_inside(tape, n - 1);
    }
}

/// Where the loudest thing in a layer begins, and how loud it is.
pub fn onset_of(sh: &Shared, li: usize, layer: usize, len: usize) -> (r: Option<(i64, u32)>)
    requires
        sh.wf(),
        li < sh.size.n_loops,
        layer < sh.size.max_layers,
        len <= sh.size.max_frames,
    ensures
        match r {
            Some((e, peak)) => onset(sh.tape(li as int, layer as int), len as int) == Some(
                (e as int, peak),
            ),
            None => onset(sh.tape(li as int, layer as int), len as int) is None,
        },
{
    let tape = &sh.arena[li][layer];
    assert(tape@.len() == 2 * sh.size.max_frames);
    let mut peak: u32 = 0;
    let mut at: usize = 0;
    let mut i: usize = 0;
    while i < len
        invariant
            2 * len <= tape@.len(),
            i <= len,
            (peak, at as int) == loudest(tape@, i as int),
        decreases len - i,
    {
        let v: u32 = level_at(tape, i);
        if bits::less(peak, v) {
            peak = v;
            at = i;
        }
        i = i + 1;
    }
    if bits::less(peak, CLICK) {
        return None;
    }
    assert(bits::below(0, CLICK));
    proof {
        loudest_inside(tape@, len as int);
    }
    let start: usize = walk_back(tape, len, at);
    Some((offset(start, len), peak))
}

/// Where what is at a frame begins.
fn walk_back(tape: &Vec<u32>, len: usize, at: usize) -> (r: usize)
    requires
        2 * len <= tape@.len(),
        at < len,
    ensures
        r < len,
        r == walked(tape@, len as int, at as int, len as int),
{
    let mut p: usize = at;
    let mut left: usize = len;
    while left > 0
        invariant
            2 * len <= tape@.len(),
            p < len,
            left <= len,
            walked(tape@, len as int, at as int, len as int) == walked(
                tape@,
                len as int,
                p as int,
                left as int,
            ),
        decreases left,
    {
        let prev: usize = if p == 0 {
            len - 1
        } else {
            p - 1
        };
        if bits::at_most(level_at(tape, prev), CLICK) {
            return p;
        }
        p = prev;
        left = left - 1;
    }
    p
}

fn offset(p: usize, len: usize) -> (r: i64)
    requires
        p < len,
        frame::fits(len),
    ensures
        r == signed(p as int, len as int),
{
    if p > len / 2 {
        p as i64 - len as i64
    } else {
        p as i64
    }
}

/// How many times a loop has been multiplied, or nothing where it is not a
/// whole number of times as long as it was.
pub fn multiple(grown: usize, len: usize) -> (r: Option<usize>)
    requires
        len > 0,
    ensures
        match r {
            Some(n) => grown % len == 0 && n == grown / len,
            None => grown % len != 0,
        },
{
    if grown % len != 0 {
        None
    } else {
        Some(grown / len)
    }
}

/// Where a click is looked for: the first `n` frames from the boundary before
/// cycle `c` on and the `n` before it, nearest first.
pub open spec fn around(c: int, len: int, grown: int, n: int) -> Seq<int>
    decreases n,
{
    if n <= 0 {
        Seq::empty()
    } else {
        let d = n - 1;
        let ahead = around(c, len, grown, d).push((c * len + d) % grown);
        if c * len + len > d {
            ahead.push((c * len + grown - d - 1) % grown)
        } else {
            ahead
        }
    }
}

/// Where a click is looked for around the boundary before cycle `c`.
pub fn boundary(c: usize, len: usize, grown: usize) -> (r: Vec<usize>)
    requires
        0 < len,
        frame::short(grown),
        c * len < grown,
        len <= grown,
    ensures
        r@.len() == around(c as int, len as int, grown as int, REACH as int).len(),
        forall|k: int|
            0 <= k < r@.len() ==> #[trigger] r@[k] == around(
                c as int,
                len as int,
                grown as int,
                REACH as int,
            )[k],
{
    let at: usize = c * len;
    let mut out: Vec<usize> = Vec::new();
    let mut d: usize = 0;
    while d < REACH
        invariant
            0 < len <= grown,
            frame::short(grown),
            at == c * len,
            at < grown,
            d <= REACH,
            out@.len() == around(c as int, len as int, grown as int, d as int).len(),
            forall|k: int|
                0 <= k < out@.len() ==> #[trigger] out@[k] == around(
                    c as int,
                    len as int,
                    grown as int,
                    d as int,
                )[k],
        decreases REACH - d,
    {
        proof {
            reveal_with_fuel(around, 2);
        }
        let ahead: usize = (at + d) % grown;
        out.push(ahead);
        if at + len > d {
            let back: i64 = num::wrap(at as i64 + grown as i64 - d as i64 - 1, grown as i64);
            out.push(back as usize);
        }
        d = d + 1;
    }
    out
}

/// The cycles of the first `n` at whose boundary there is a click.
pub open spec fn clicked(levels: Seq<u32>, n: int) -> Seq<usize>
    decreases n,
{
    if n <= 0 {
        Seq::empty()
    } else if !bits::below(levels[n - 1], CLICK) {
        clicked(levels, n - 1).push((n - 1) as usize)
    } else {
        clicked(levels, n - 1)
    }
}

/// The cycles at whose boundary there is a click, from the loudest that was
/// found around each.
pub fn sounding(levels: &Vec<u32>) -> (r: Vec<usize>)
    ensures
        r@ == clicked(levels@, levels@.len() as int),
{
    let mut out: Vec<usize> = Vec::new();
    let mut i: usize = 0;
    while i < levels.len()
        invariant
            i <= levels@.len(),
            out@ == clicked(levels@, i as int),
        decreases levels@.len() - i,
    {
        if !bits::less(levels[i], CLICK) {
            out.push(i);
        }
        i = i + 1;
    }
    out
}

/// Whether there is a click at one cycle alone.
pub fn alone(levels: &Vec<u32>, c: usize) -> (r: bool)
    ensures
        r == (clicked(levels@, levels@.len() as int) == seq![c]),
{
    let found = sounding(levels);
    if found.len() == 1 && found[0] == c {
        assert(found@ =~= seq![c]);
        true
    } else {
        assert(found@ != seq![c]) by {
            if found@ == seq![c] {
                assert(found@.len() == 1);
                assert(found@[0] == c);
            }
        }
        false
    }
}

/// What the self-test found.
#[derive(Clone, Copy, Debug, PartialEq, Eq, Structural)]
pub enum Verdict {
    /// Everything lands where it was heard.
    Aligned,
    /// What is claimed from the past is out by so many frames.
    PastOut(i64),
    /// The first recording is out.
    FirstOut(i64),
    /// The overdub slips against it.
    Slips(i64),
}

/// How far from zero a number is.
pub open spec fn size_of(n: int) -> int {
    if n < 0 {
        -n
    } else {
        n
    }
}

/// Give a loop the length that is tested.
pub fn size_loop(sh: &mut Shared, li: usize, len: usize)
    requires
        old(sh).wf(),
        li < old(sh).size.n_loops,
        len <= old(sh).size.max_frames,
    ensures
        final(sh).wf(),
        old(sh).but_loop(
            li as int,
            Loop {
                body: Body { loop_len: len, ..old(sh).loops@[li as int].body },
                ..old(sh).loops@[li as int]
            },
            *final(sh),
        ),
{
    let ghost a = sh.loops@[li as int];
    assert(sh.loop_ok(a));
    let lp = &mut sh.loops[li];
    lp.body.loop_len = len;
    proof {
        let b = sh.loops@[li as int];
        assert(frame::near(a.body.origin) && frame::fits(a.body.cycles)) by {
            reveal(shared::sound);
            reveal(Loop::wf);
        }
        cycle::resized_sound(a, b.body, sh.size.max_layers, sh.size.max_frames);
        shared::loop_exchanged(*old(sh), *sh, li as int, b);
    }
}

/// Have a loop record from the next buffer on.
pub fn arm(sh: &mut Shared, li: usize)
    requires
        old(sh).wf(),
        li < old(sh).size.n_loops,
    ensures
        final(sh).wf(),
        old(sh).but_loop(
            li as int,
            Loop {
                next: NextTake {
                    request: ARMED,
                    request_at: NEVER,
                    ..old(sh).loops@[li as int].next
                },
                ..old(sh).loops@[li as int]
            },
            *final(sh),
        ),
{
    let ghost a = sh.loops@[li as int];
    assert(sh.loop_ok(a));
    let lp = &mut sh.loops[li];
    lp.next.set(ARMED, NEVER);
    proof {
        let b = sh.loops@[li as int];
        assert(sh.loop_ok(b)) by {
            reveal(shared::sound);
            reveal(Loop::wf);
        }
        shared::loop_exchanged(*old(sh), *sh, li as int, b);
    }
}

/// What the self-test found: where the first recording, the overdub and the
/// claim landed.
pub open spec fn found(first: int, over: int, past: int) -> Verdict {
    let slip = over - first;
    if size_of(past) > SLACK {
        Verdict::PastOut(size_of(past) as i64)
    } else if size_of(first) > SLACK {
        Verdict::FirstOut(size_of(first) as i64)
    } else if size_of(slip) > SLACK {
        Verdict::Slips(size_of(slip) as i64)
    } else {
        Verdict::Aligned
    }
}

fn distance(n: i64) -> (r: i64)
    requires
        n > i64::MIN,
    ensures
        r == size_of(n as int),
{
    if n < 0 {
        -n
    } else {
        n
    }
}

/// What the self-test found.
pub fn verdict(first: i64, over: i64, past: i64) -> (r: Verdict)
    requires
        frame::in_range(first),
        frame::in_range(over),
        frame::in_range(past),
    ensures
        r == found(first as int, over as int, past as int),
{
    let slip: i64 = over - first;
    if distance(past) > SLACK {
        Verdict::PastOut(distance(past))
    } else if distance(first) > SLACK {
        Verdict::FirstOut(distance(first))
    } else if distance(slip) > SLACK {
        Verdict::Slips(distance(slip))
    } else {
        Verdict::Aligned
    }
}

proof fn loudest_is_loudest(tape: Seq<u32>, n: int, p: int)
    requires
        0 <= p < n,
    ensures
        !bits::below(loudest(tape, n).0, level(tape, p)),
        bits::is_number(loudest(tape, n).0),
    decreases n,
{
    if n > 1 {
        loudest_is_loudest(tape, n - 1, if p < n - 1 {
            p
        } else {
            0
        });
    } else {
        assert(loudest(tape, 0) == (0u32, 0int));
    }
}

/// A click is found wherever there is one, and nothing that is not at least
/// as loud is taken for one; how loud it is is what nothing exceeds.
pub proof fn a_click_is_found_where_there_is_one(tape: Seq<u32>, len: int, p: int)
    requires
        0 <= p < len,
        2 * len <= tape.len(),
    ensures
        bits::up_to(CLICK, level(tape, p)) ==> onset(tape, len) is Some,
        onset(tape, len) matches Some((_, peak)) ==> !bits::below(peak, CLICK) && !bits::below(
            peak,
            level(tape, p),
        ),
{
    loudest_is_loudest(tape, len, p);
}

/// A position is an offset from the start that comes round to it, and the
/// nearer of the two: early past the middle, late before it.
pub proof fn an_offset_is_the_shorter_way(p: int, len: int)
    requires
        0 <= p < len,
    ensures
        signed(p, len) == p || signed(p, len) == p - len,
        -len <= 2 * signed(p, len) <= len,
{
}

/// The self-test passes where everything landed within two frames of where
/// it was heard, and else says what is out and by how much.
pub proof fn a_verdict_is_what_is_out(first: int, over: int, past: int)
    requires
        frame::safe(first),
        frame::safe(over),
        frame::safe(past),
    ensures
        found(first, over, past) == Verdict::Aligned <==> -2 <= past <= 2 && -2 <= first <= 2 && -2
            <= over - first <= 2,
        past > 2 ==> found(first, over, past) == Verdict::PastOut(past as i64),
        past < -2 ==> found(first, over, past) == Verdict::PastOut((-past) as i64),
        -2 <= past <= 2 && first > 2 ==> found(first, over, past) == Verdict::FirstOut(first as i64),
        -2 <= past <= 2 && first < -2 ==> found(first, over, past) == Verdict::FirstOut(
            (-first) as i64,
        ),
        -2 <= past <= 2 && -2 <= first <= 2 && over - first > 2 ==> found(first, over, past)
            == Verdict::Slips((over - first) as i64),
{
}

/// The cycles with a click are those whose level reaches one, each once.
pub proof fn a_cycle_sounds_where_its_level_says(levels: Seq<u32>, n: int, c: int)
    requires
        0 <= c < n <= levels.len(),
        n <= usize::MAX,
    ensures
        clicked(levels, n).contains(c as usize) <==> !bits::below(levels[c], CLICK),
        forall|k: int| 0 <= k < clicked(levels, n).len() ==> #[trigger] clicked(levels, n)[k] < n,
    decreases n,
{
    let before = clicked(levels, n - 1);
    let after = clicked(levels, n);
    if n > 1 {
        a_cycle_sounds_where_its_level_says(levels, n - 1, if c < n - 1 {
            c
        } else {
            0
        });
    } else {
        assert(before.len() == 0);
    }
    if after.contains(c as usize) {
        let k = choose|k: int| 0 <= k < after.len() && after[k] == c as usize;
        if k < before.len() {
            assert(before[k] == c as usize);
            assert(before.contains(c as usize));
        }
    }
    if c < n - 1 && before.contains(c as usize) {
        let k = choose|k: int| 0 <= k < before.len() && before[k] == c as usize;
        assert(after[k] == c as usize);
    }
    if c == n - 1 && after.len() > before.len() {
        assert(after[after.len() - 1] == c as usize);
    }
}

/// A frame is as loud as the louder of its two samples.
pub proof fn a_frame_is_as_loud_as_either_channel(tape: Seq<u32>, p: int, ch: int)
    requires
        0 <= ch < 2,
        bits::is_number(tape[2 * p + ch]),
    ensures
        level(tape, p) >= bits::magnitude(tape[2 * p + ch]),
        bits::is_number(tape[2 * p]) && bits::is_number(tape[2 * p + 1]) ==> level(tape, p)
            == bits::magnitude(tape[2 * p]) || level(tape, p) == bits::magnitude(tape[2 * p + 1]),
{
}

/// What is at a frame begins where what is before it is not audible, or else
/// goes on all the way back that was looked.
pub proof fn a_click_begins_after_what_is_quiet(tape: Seq<u32>, len: int, at: int, n: int)
    requires
        0 <= at < len,
        0 <= n,
    ensures
        ({
            let s = walked(tape, len, at, n);
            &&& 0 <= s < len
            &&& bits::up_to(level(tape, if s == 0 {
                len - 1
            } else {
                s - 1
            }), CLICK) || s == (at - n) % len
            &&& bits::up_to(level(tape, if at == 0 {
                len - 1
            } else {
                at - 1
            }), CLICK) ==> s == at
        }),
    decreases n,
{
    if n <= 0 {
        vstd::arithmetic::div_mod::lemma_small_mod(at as nat, len as nat);
    } else if !bits::up_to(level(tape, before(at, len)), CLICK) {
        let p = before(at, len);
        a_click_begins_after_what_is_quiet(tape, len, p, n - 1);
        if at == 0 {
            vstd::arithmetic::div_mod::lemma_mod_add_multiples_vanish(-n, len);
            assert(p - (n - 1) == len + (-n));
        } else {
            assert(p - (n - 1) == at - n);
        }
    }
}

/// A click is looked for on every frame from the boundary on, as far as it is
/// looked.
pub proof fn a_click_is_looked_for_from_its_boundary_on(c: int, len: int, grown: int, n: int, d: int)
    requires
        0 <= d < n,
    ensures
        around(c, len, grown, n).contains((c * len + d) % grown),
    decreases n,
{
    let all = around(c, len, grown, n);
    let before = around(c, len, grown, n - 1);
    if d < n - 1 {
        a_click_is_looked_for_from_its_boundary_on(c, len, grown, n - 1, d);
        let k = choose|k: int| 0 <= k < before.len() && before[k] == (c * len + d) % grown;
        assert(all[k] == before[k]);
    } else {
        assert(all[before.len() as int] == (c * len + d) % grown);
    }
}

} // verus!
