//! What closing a take comes to, beside the sentence it is answered with: how
//! much of it was behind, dropped, recovered or moved.

use crate::closing;
use crate::closing::Take;
use crate::finish;
use crate::frame;
use crate::loop_state::Loop;
use crate::num;
use crate::past;
use crate::phase::Phase;
use crate::shared;
use crate::shared::Shared;
use vstd::prelude::*;

verus! {

/// Something about a take that is closed, in frames.
#[derive(Clone, Copy, Debug, PartialEq, Eq, Structural)]
pub enum Note {
    /// The input was so far behind the length the take was told.
    Behind(usize),
    /// So much was recorded after the press and is no part of the loop.
    Dropped(usize),
    /// The front does not fit.
    FrontSkipped,
    /// So much of the front was recovered.
    FrontRecovered { got: usize, of: usize },
    /// The loop is so long.
    Length(usize),
    /// So much was recorded after the press and is off the head of the layer
    /// again, and so much of that is kept past its end.
    Unwrapped { undone: usize, kept: usize },
}

/// One note where something holds, and else none.
pub open spec fn noted(holds: bool, n: Note) -> Seq<Note> {
    if holds {
        seq![n]
    } else {
        Seq::empty()
    }
}

/// What is noted of a first take: where it was told a length that the input
/// had not come to, where it was closed as of an earlier press, what became of
/// its front, and its length.
pub open spec fn first_notes(sh: Shared, li: int, t: Take) -> Seq<Note> {
    let lp = sh.loops@[li];
    let told = lp.take.rec_len;
    let reached = lp.take.reached;
    let len = finish::first_len(lp, t);
    let pre = finish::front(lp, t, sh.desk.preroll);
    let behind = noted(told > 0 && reached < told, Note::Behind((told - reached) as usize));
    if len == 0 {
        behind
    } else {
        behind + noted(
            t.late > 0 && t.quantised_len is None && len < reached,
            Note::Dropped((reached - len) as usize),
        ) + noted(
            pre > 0 && finish::extent(lp, t) + pre > sh.size.max_frames,
            Note::FrontSkipped,
        ) + noted(
            finish::claims_front(lp, t, sh.desk.preroll, sh.size.max_frames),
            Note::FrontRecovered {
                got: past::held(sh, sh.source_of(li), lp.body.origin - pre, pre) as usize,
                of: pre as usize,
            },
        ) + noted(
            true,
            Note::Length(
                finish::final_len(lp, t, sh.desk.preroll, sh.size.max_frames) as usize,
            ),
        )
    }
}

/// How much of an overdub came after the press that closed it and is still in
/// the past.
pub open spec fn undone(sh: Shared, li: int, t: Take) -> nat {
    let lp = sh.loops@[li];
    if lp.body.loop_len == 0 || lp.habit.revox {
        0
    } else {
        past::held(sh, sh.source_of(li), t.closed_at as int, lp.take.rec_reached - t.closed_at)
    }
}

/// What is noted of a take that is closed. Nothing is, where it does not
/// become a layer for want of room.
pub open spec fn notes_of(sh: Shared, li: int, t: Take) -> Seq<Note> {
    let lp = sh.loops@[li];
    if lp.body.n_layers >= sh.size.max_layers && (t.was != Phase::Overdub || !lp.habit.revox) {
        Seq::empty()
    } else if t.was == Phase::First {
        first_notes(sh, li, t)
    } else if t.was == Phase::Overdub && t.late > 0 {
        noted(
            undone(sh, li, t) > 0,
            Note::Unwrapped {
                undone: undone(sh, li, t) as usize,
                kept: finish::taken_tail(sh, li, t) as usize,
            },
        )
    } else {
        Seq::empty()
    }
}

fn note_first(sh: &Shared, li: usize, t: &Take) -> (r: Vec<Note>)
    requires
        sh.wf(),
        li < sh.size.n_loops,
        closing::take_wf(*t, sh.size.max_frames),
    ensures
        r@ == first_notes(*sh, li as int, *t),
{
    let ghost lp = sh.loops@[li as int];
    proof {
        assert(sh.loop_ok(lp));
        finish::front_fits(lp, *t, sh.desk.preroll, sh.size.max_layers, sh.size.max_frames);
    }
    let mut r: Vec<Note> = Vec::new();
    let told: usize = sh.loops[li].take.rec_len;
    let reached: usize = sh.loops[li].take.reached;
    let len: usize = finish::length_of(&sh.loops[li], t);
    let pre: usize = finish::front_of(&sh.loops[li], t, sh.desk.preroll);
    let extent: usize = num::max(reached, len);
    let origin: i64 = sh.loops[li].body.origin;
    let max: usize = sh.size.max_frames;
    if told > 0 && reached < told {
        r.push(Note::Behind(told - reached));
    }
    assert(r@ =~= noted(told > 0 && reached < told, Note::Behind((told - reached) as usize)));
    if len == 0 {
        return r;
    }
    let ghost a = r@;
    if t.late > 0 && t.quantised_len.is_none() && len < reached {
        r.push(Note::Dropped(reached - len));
    }
    let ghost b = noted(
        t.late > 0 && t.quantised_len is None && len < reached,
        Note::Dropped((reached - len) as usize),
    );
    assert(r@ =~= a + b);
    let fits = pre <= max && extent <= max - pre;
    if pre > 0 && !fits {
        r.push(Note::FrontSkipped);
    }
    let ghost c = noted(pre > 0 && extent + pre > max, Note::FrontSkipped);
    assert(r@ =~= a + b + c);
    let mut long: usize = len;
    let claims = pre > 0 && fits && origin >= pre as i64;
    let mut got: usize = 0;
    if claims {
        got = past::held_of(sh, sh.src_of(li), origin - pre as i64, pre as i64);
        r.push(Note::FrontRecovered { got, of: pre });
        if told == 0 {
            long = len + pre;
        }
    }
    let ghost d = noted(
        claims,
        Note::FrontRecovered {
            got: past::held(*sh, sh.source_of(li as int), origin - pre, pre as int) as usize,
            of: pre,
        },
    );
    assert(r@ =~= a + b + c + d);
    r.push(Note::Length(long));
    assert(r@ =~= a + b + c + d + noted(true, Note::Length(long)));
    r
}

/// What is noted of a take that is about to be finished.
pub fn notes(sh: &Shared, li: usize, t: &Take) -> (r: Vec<Note>)
    requires
        sh.wf(),
        li < sh.size.n_loops,
        closing::take_wf(*t, sh.size.max_frames),
    ensures
        r@ == notes_of(*sh, li as int, *t),
{
    let ghost lp = sh.loops@[li as int];
    assert(sh.loop_ok(lp));
    let mut r: Vec<Note> = Vec::new();
    let full = sh.loops[li].body.n_layers >= sh.size.max_layers;
    if full && (t.was != Phase::Overdub || !sh.loops[li].habit.revox) {
        return r;
    }
    if t.was == Phase::First {
        return note_first(sh, li, t);
    }
    if t.was != Phase::Overdub || t.late <= 0 || sh.loops[li].body.loop_len == 0
        || sh.loops[li].habit.revox {
        return r;
    }
    assert(frame::near(lp.take.rec_reached) && lp.body.loop_len <= sh.size.max_frames) by {
        reveal(shared::sound);
        reveal(Loop::wf);
    }
    let src: usize = sh.src_of(li);
    let n: i64 = sh.loops[li].take.rec_reached - t.closed_at;
    let undone: usize = past::held_of(sh, src, t.closed_at, n);
    let room: i64 = (sh.size.max_frames - sh.loops[li].body.loop_len) as i64;
    let most: i64 = if n < 0 {
        0
    } else if n < room {
        n
    } else {
        room
    };
    let kept: usize = past::held_of(sh, src, t.closed_at, most);
    if undone > 0 {
        r.push(Note::Unwrapped { undone, kept });
    }
    assert(r@ =~= notes_of(*sh, li as int, *t));
    r
}

/// What is noted of a take is what came of it: that it fell behind where it
/// was told its length and did not reach it, that its end was dropped where a
/// late press was off the grid and it had gone on, and its length wherever it
/// has one.
pub proof fn a_note_is_of_what_came_of_a_take(sh: Shared, li: int, t: Take, k: int)
    requires
        0 <= k < first_notes(sh, li, t).len(),
    ensures
        ({
            let lp = sh.loops@[li];
            let notes = first_notes(sh, li, t);
            &&& lp.take.rec_len > 0 && lp.take.reached < lp.take.rec_len ==> notes[0]
                == Note::Behind((lp.take.rec_len - lp.take.reached) as usize)
            &&& notes[k] is Behind ==> lp.take.rec_len > 0 && lp.take.reached < lp.take.rec_len
            &&& notes[k] is Dropped ==> t.late > 0 && t.quantised_len is None
            &&& notes[k] matches Note::Dropped(n) ==> finish::first_len(lp, t) < lp.take.reached
            &&& notes[k] is FrontRecovered ==> finish::claims_front(
                lp,
                t,
                sh.desk.preroll,
                sh.size.max_frames,
            )
            &&& finish::first_len(lp, t) != 0 ==> notes[notes.len() - 1] is Length
        }),
{
}

/// Nothing is noted of an overdub that was not closed late, nor of one that
/// records over its tape.
pub proof fn a_tape_has_nothing_unwrapped(sh: Shared, li: int, t: Take)
    requires
        t.was == Phase::Overdub,
        sh.loops@[li].habit.revox || t.late <= 0,
    ensures
        notes_of(sh, li, t).len() == 0,
{
}

} // verus!
