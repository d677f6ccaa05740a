//! One command, from wherever it came.
//!
//! What only real numbers can say comes with the command as a reading: the
//! argument as its bits, and what so many decibels, seconds or milliseconds
//! are.

use crate::ack::{Ack, Misread, Said, Writing};
use crate::bars;
use crate::bits;
use crate::claim;
use crate::clear;
use crate::closing::Caller;
use crate::copy;
use crate::cycle;
use crate::cycle::MAX_BARS;
use crate::frame;
use crate::guards;
use crate::knobs;
use crate::line;
use crate::line::Address;
use crate::num;
use crate::record;
use crate::shared::{Desk, Shared};
use crate::stack;
use crate::tape;
use crate::text;
use crate::verb::Verb;
use crate::window;
use vstd::prelude::*;
use vstd::string::*;

verus! {

/// 5000, as wide bits: a press is less late than this, in milliseconds.
pub const LATEST: u64 = 0x40B3_8800_0000_0000;

/// How many stretches a picture is drawn in where nothing says otherwise,
/// and between what.
pub const STRETCHES: usize = 600;

pub const FEWEST_STRETCHES: usize = 16;

pub const MOST_STRETCHES: usize = 4000;

/// A lateness: in milliseconds as wide bits, and in frames.
#[derive(Clone, Copy, Debug)]
pub struct Lateness {
    pub bits: u64,
    pub frames: i64,
}

/// What was worked out for a command.
#[allow(inconsistent_fields)]
#[derive(Debug)]
pub enum Reading {
    /// Nothing, or its argument is no number.
    Unread,
    /// The argument as bits, and what so many decibels are as a gain.
    Single { bits: u32, gain: u32 },
    /// The argument as wide bits, what it is in frames, and as a gain.
    Wide { bits: u64, frames: usize, gain: u32 },
    /// The loop's layers folded into one: what is mixed at each position.
    Folded(Vec<u32>),
}

/// What a command was sent with.
#[derive(Clone, Copy, Debug)]
pub struct Sent {
    /// How late it was, in frames.
    pub late: i64,
    pub from: Caller,
    /// When it came, in milliseconds of a clock.
    pub clock_ms: u64,
}

/// Something was said.
pub open spec fn says(a: Ack, s: Said) -> bool {
    a matches Ack::Said(t) && t == s
}

/// Something could not be read.
pub open spec fn misreads(a: Ack, m: Misread, t: Seq<char>) -> bool {
    a matches Ack::Misread(n, u) && n == m && u@ == t
}

/// Something is to be written.
pub open spec fn writes(a: Ack, w: Writing, li: int, name: Seq<char>) -> bool {
    a matches Ack::Write(v, i, u) && v == w && i == li && u@ == name
}

/// What is said where something was, and else what could not be read.
pub open spec fn said_or(a: Ack, s: Option<Said>, m: Misread, t: Seq<char>) -> bool {
    match s {
        Some(s) => says(a, s),
        None => misreads(a, m, t),
    }
}

fn misread(m: Misread, t: &str) -> (r: Ack)
    ensures
        misreads(r, m, t@),
{
    Ack::Misread(m, t.to_string())
}

fn say_or(s: Option<Said>, m: Misread, t: &str) -> (r: Ack)
    ensures
        said_or(r, s, m, t@),
{
    match s {
        Some(s) => Ack::Said(s),
        None => misread(m, t),
    }
}

/// Nothing changed, and one thing is said.
pub open spec fn refused(pre: Shared, post: Shared, a: Ack, s: Said) -> bool {
    post == pre && says(a, s)
}

/// Nothing changed, and something could not be read.
pub open spec fn unread(pre: Shared, post: Shared, a: Ack, m: Misread, t: Seq<char>) -> bool {
    post == pre && misreads(a, m, t)
}

/// How many stretches a picture is asked for in.
pub open spec fn stretches(arg: Seq<char>) -> int {
    num::within(
        match text::number(arg) {
            Some(n) => n as int,
            None => STRETCHES as int,
        },
        FEWEST_STRETCHES as int,
        MOST_STRETCHES as int,
    )
}

/// What is said of a picture that was asked for.
pub open spec fn drawn(sh: Shared, li: int, arg: Seq<char>) -> Said {
    let lp = sh.loops@[li];
    if lp.body.loop_len == 0 || lp.body.n_layers == 0 {
        Said::NothingToDraw { li: li as usize }
    } else {
        Said::Drawn {
            li: li as usize,
            buckets: stretches(arg) as usize,
            len: lp.body.loop_len,
        }
    }
}

/// Whether a verb is about what of a loop is played.
pub open spec fn edits(v: Verb) -> bool {
    match v {
        Verb::Whole | Verb::In | Verb::Out | Verb::Rot | Verb::Peaks => true,
        _ => false,
    }
}

/// The verbs about what of a loop is played.
pub open spec fn edit_step(
    pre: Shared,
    li: int,
    v: Verb,
    arg: Seq<char>,
    rest: Seq<char>,
    post: Shared,
    a: Ack,
) -> bool {
    match v {
        Verb::Whole => exists|s: Said| #[trigger]
            window::whole_step(pre, li, post, s) && says(a, s),
        Verb::In => exists|s: Option<Said>| #[trigger]
            window::edge_step(pre, li, true, text::integer(arg), post, s) && said_or(
                a,
                s,
                Misread::Position,
                rest,
            ),
        Verb::Out => exists|s: Option<Said>| #[trigger]
            window::edge_step(pre, li, false, text::integer(arg), post, s) && said_or(
                a,
                s,
                Misread::Position,
                rest,
            ),
        Verb::Rot => exists|s: Option<Said>| #[trigger]
            window::turn_step(pre, li, text::integer(arg), post, s) && said_or(
                a,
                s,
                Misread::Rotation,
                rest,
            ),
        _ => refused(pre, post, a, drawn(pre, li, arg)),
    }
}

fn edit_verb(sh: &mut Shared, li: usize, v: Verb, arg: &str, rest: &str) -> (a: Ack)
    requires
        old(sh).wf(),
        li < old(sh).size.n_loops,
        edits(v),
    ensures
        final(sh).wf(),
        edit_step(*old(sh), li as int, v, arg@, rest@, *final(sh), a),
{
    match v {
        Verb::Whole => {
            let s = window::whole(sh, li);
            assert(window::whole_step(*old(sh), li as int, *sh, s));
            Ack::Said(s)
        },
        Verb::In => {
            let s = window::set_edge(sh, li, true, text::parse_i64(arg));
            assert(window::edge_step(*old(sh), li as int, true, text::integer(arg@), *sh, s));
            say_or(s, Misread::Position, rest)
        },
        Verb::Out => {
            let s = window::set_edge(sh, li, false, text::parse_i64(arg));
            assert(window::edge_step(*old(sh), li as int, false, text::integer(arg@), *sh, s));
            say_or(s, Misread::Position, rest)
        },
        Verb::Rot => {
            let s = window::turn(sh, li, text::parse_i64(arg));
            assert(window::turn_step(*old(sh), li as int, text::integer(arg@), *sh, s));
            say_or(s, Misread::Rotation, rest)
        },
        _ => {
            let len: usize = sh.loops[li].body.loop_len;
            if len == 0 || sh.loops[li].body.n_layers == 0 {
                return Ack::Said(Said::NothingToDraw { li });
            }
            let n: usize = match text::parse_usize(arg) {
                Some(n) => n,
                None => STRETCHES,
            };
            let buckets: usize = num::min(num::max(n, FEWEST_STRETCHES), MOST_STRETCHES);
            Ack::Said(Said::Drawn { li, buckets, len })
        },
    }
}

/// Whether a verb is a press, or about what a loop holds.
pub open spec fn presses(v: Verb) -> bool {
    match v {
        Verb::Record
        | Verb::Multiply
        | Verb::Fire
        | Verb::Take
        | Verb::Undo
        | Verb::Redo
        | Verb::Clear
        | Verb::Free
        | Verb::Len
        | Verb::Fix
        | Verb::Blank
        | Verb::Revox => true,
        _ => false,
    }
}

/// How much of the past a claim asks for.
pub open spec fn claim_frames(sh: Shared, reading: Reading) -> usize {
    match reading {
        Reading::Wide { bits: _, frames, gain: _ } => frames,
        _ => sh.size.claim_frames,
    }
}

/// The samples that were folded, or none.
pub open spec fn folded_of(reading: Reading) -> Seq<u32> {
    match reading {
        Reading::Folded(v) => v@,
        _ => Seq::empty(),
    }
}

/// Claiming the past, where the loop is whole and no take is on the way.
pub open spec fn claim_step(
    pre: Shared,
    li: int,
    reading: Reading,
    late: i64,
    post: Shared,
    a: Ack,
) -> bool {
    let lp = pre.loops@[li];
    if lp.windowed() is Some {
        refused(pre, post, a, Said::WindowFirst { li: li as usize })
    } else {
        match guards::in_hand(lp, li) {
            Some(why) => refused(pre, post, a, why),
            None => exists|s: Said| #[trigger]
                claim::take_step(pre, li, claim_frames(pre, reading), late, post, s) && says(a, s),
        }
    }
}

/// Forgetting the length, where no take is on the way.
pub open spec fn free_step(pre: Shared, li: int, post: Shared, a: Ack) -> bool {
    match guards::in_hand(pre.loops@[li], li) {
        Some(why) => refused(pre, post, a, why),
        None => exists|s: Said| #[trigger] cycle::free_step(pre, li, post, s) && says(a, s),
    }
}

/// Saying how many bars a loop is: as many as a loop may be, and where no take
/// is on the way.
pub open spec fn len_step(
    pre: Shared,
    li: int,
    arg: Seq<char>,
    rest: Seq<char>,
    post: Shared,
    a: Ack,
) -> bool {
    match text::number(arg) {
        None => unread(pre, post, a, Misread::Bars, rest),
        Some(n) => if n < 1 || n > MAX_BARS {
            refused(pre, post, a, Said::BarsRange { asked: n })
        } else {
            match guards::in_hand(pre.loops@[li], li) {
                Some(why) => refused(pre, post, a, why),
                None => exists|s: Said| #[trigger]
                    bars::bars_step(pre, li, n, post, s) && says(a, s),
            }
        },
    }
}

/// The presses.
pub open spec fn press_step(
    pre: Shared,
    li: int,
    v: Verb,
    arg: Seq<char>,
    rest: Seq<char>,
    reading: Reading,
    sent: Sent,
    post: Shared,
    a: Ack,
) -> bool {
    match v {
        Verb::Record => exists|s: Said| #[trigger]
            record::press_step(pre, li, sent.late, sent.from, sent.clock_ms, post, s) && says(a, s),
        Verb::Multiply => exists|s: Said| #[trigger]
            record::multiply_step(pre, li, sent.from, sent.clock_ms, post, s) && says(a, s),
        Verb::Fire => exists|s: Said| #[trigger] record::fire_step(pre, li, post, s) && says(a, s),
        Verb::Take => claim_step(pre, li, reading, sent.late, post, a),
        Verb::Undo => exists|s: Said| #[trigger] stack::undo_step(pre, li, post, s) && says(a, s),
        Verb::Redo => exists|s: Said| #[trigger] stack::redo_step(pre, li, post, s) && says(a, s),
        Verb::Clear => exists|s: Said| #[trigger] clear::clear_step(pre, li, post, s) && says(a, s),
        Verb::Free => free_step(pre, li, post, a),
        Verb::Len => len_step(pre, li, arg, rest, post, a),
        Verb::Fix => match reading {
            Reading::Wide { bits, frames, gain: _ } if bits::below_wide(0, bits) => exists|s: Said|
             #[trigger]
                cycle::fix_step(pre, li, frames, bits, post, s) && says(a, s),
            _ => unread(pre, post, a, Misread::FixLength, rest),
        },
        Verb::Blank => match reading {
            Reading::Wide { bits, frames, gain: _ } => if bits::below_wide(0, bits) {
                exists|s: Said| #[trigger]
                    tape::blank_step(pre, li, frames, bits, post, s) && says(a, s)
            } else {
                unread(pre, post, a, Misread::TapeLength, arg)
            },
            _ => unread(pre, post, a, Misread::Tape, arg),
        },
        _ => exists|s: Said| #[trigger]
            tape::revox_step(pre, li, line::flag_of(arg), folded_of(reading), post, s) && says(
                a,
                s,
            ),
    }
}

fn claim_verb(sh: &mut Shared, li: usize, reading: &Reading, late: i64) -> (a: Ack)
    requires
        old(sh).wf(),
        li < old(sh).size.n_loops,
        frame::near(late),
    ensures
        final(sh).wf(),
        claim_step(*old(sh), li as int, *reading, late, *final(sh), a),
{
    if sh.loops[li].window().is_some() {
        return Ack::Said(Said::WindowFirst { li });
    }
    if let Some(why) = guards::still_recording(&sh.loops[li], li) {
        return Ack::Said(why);
    }
    let frames: usize = match reading {
        Reading::Wide { bits: _, frames, gain: _ } => *frames,
        _ => sh.size.claim_frames,
    };
    let s = claim::take(sh, li, frames, late);
    assert(frames == claim_frames(*old(sh), *reading));
    assert(claim::take_step(
        *old(sh),
        li as int,
        claim_frames(*old(sh), *reading),
        late,
        *sh,
        s,
    ));
    Ack::Said(s)
}

fn length_verb(
    sh: &mut Shared,
    li: usize,
    v: Verb,
    arg: &str,
    rest: &str,
    reading: &Reading,
    sent: Sent,
) -> (a: Ack)
    requires
        old(sh).wf(),
        li < old(sh).size.n_loops,
        v == Verb::Free || v == Verb::Len || v == Verb::Fix || v == Verb::Blank || v == Verb::Revox,
    ensures
        final(sh).wf(),
        press_step(*old(sh), li as int, v, arg@, rest@, *reading, sent, *final(sh), a),
{
    match v {
        Verb::Free => {
            if let Some(why) = guards::still_recording(&sh.loops[li], li) {
                return Ack::Said(why);
            }
            let s = cycle::free_length(sh, li);
            assert(cycle::free_step(*old(sh), li as int, *sh, s));
            Ack::Said(s)
        },
        Verb::Len => {
            match text::parse_usize(arg) {
                None => misread(Misread::Bars, rest),
                Some(n) => {
                    if n < 1 || n > MAX_BARS {
                        return Ack::Said(Said::BarsRange { asked: n });
                    }
                    if let Some(why) = guards::still_recording(&sh.loops[li], li) {
                        return Ack::Said(why);
                    }
                    let s = bars::set_bars(sh, li, n);
                    assert(bars::bars_step(*old(sh), li as int, n, *sh, s));
                    Ack::Said(s)
                },
            }
        },
        Verb::Fix => {
            if let Reading::Wide { bits, frames, gain: _ } = reading {
                if bits::less_wide(0, *bits) {
                    let s = cycle::fix_next(sh, li, *frames, *bits);
                    assert(cycle::fix_step(*old(sh), li as int, *frames, *bits, *sh, s));
                    return Ack::Said(s);
                }
            }
            misread(Misread::FixLength, rest)
        },
        Verb::Blank => {
            if let Reading::Wide { bits, frames, gain: _ } = reading {
                if bits::less_wide(0, *bits) {
                    let s = tape::blank(sh, li, *frames, *bits);
                    assert(tape::blank_step(*old(sh), li as int, *frames, *bits, *sh, s));
                    return Ack::Said(s);
                }
                return misread(Misread::TapeLength, arg);
            }
            misread(Misread::Tape, arg)
        },
        _ => {
            let none: Vec<u32> = Vec::new();
            let folded: &Vec<u32> = match reading {
                Reading::Folded(v) => v,
                _ => &none,
            };
            assert(folded@ =~= folded_of(*reading));
            let s = tape::revox(sh, li, line::flag(arg), folded);
            assert(tape::revox_step(
                *old(sh),
                li as int,
                line::flag_of(arg@),
                folded_of(*reading),
                *sh,
                s,
            ));
            Ack::Said(s)
        },
    }
}

fn press_verb(
    sh: &mut Shared,
    li: usize,
    v: Verb,
    arg: &str,
    rest: &str,
    reading: &Reading,
    sent: Sent,
) -> (a: Ack)
    requires
        old(sh).wf(),
        li < old(sh).size.n_loops,
        presses(v),
        frame::near(sent.late),
    ensures
        final(sh).wf(),
        press_step(*old(sh), li as int, v, arg@, rest@, *reading, sent, *final(sh), a),
{
    match v {
        Verb::Record => {
            let s = record::press(sh, li, sent.late, sent.from, sent.clock_ms);
            assert(record::press_step(
                *old(sh),
                li as int,
                sent.late,
                sent.from,
                sent.clock_ms,
                *sh,
                s,
            ));
            Ack::Said(s)
        },
        Verb::Multiply => {
            let s = record::press_multiply(sh, li, sent.from, sent.clock_ms);
            assert(record::multiply_step(
                *old(sh),
                li as int,
                sent.from,
                sent.clock_ms,
                *sh,
                s,
            ));
            Ack::Said(s)
        },
        Verb::Fire => {
            let s = record::fire(sh, li);
            assert(record::fire_step(*old(sh), li as int, *sh, s));
            Ack::Said(s)
        },
        Verb::Take => claim_verb(sh, li, reading, sent.late),
        Verb::Undo => {
            let s = stack::undo(sh, li);
            assert(stack::undo_step(*old(sh), li as int, *sh, s));
            Ack::Said(s)
        },
        Verb::Redo => {
            let s = stack::redo(sh, li);
            assert(stack::redo_step(*old(sh), li as int, *sh, s));
            Ack::Said(s)
        },
        Verb::Clear => {
            let s = clear::clear(sh, li);
            assert(clear::clear_step(*old(sh), li as int, *sh, s));
            Ack::Said(s)
        },
        _ => length_verb(sh, li, v, arg, rest, reading, sent),
    }
}

/// Whether a verb is about the layers of a loop, or about all the loops.
pub open spec fn layers(v: Verb) -> bool {
    match v {
        Verb::Sparse
        | Verb::Phase
        | Verb::Rotate
        | Verb::Dense
        | Verb::LayerOn
        | Verb::LayerWindow
        | Verb::Duplicate
        | Verb::Copy
        | Verb::Go
        | Verb::Tempo => true,
        _ => false,
    }
}

/// The count `s` is given: two where none is.
pub open spec fn spread_count(arg: Seq<char>) -> Option<usize> {
    if arg.len() == 0 {
        Some(2)
    } else {
        text::number(arg)
    }
}

/// The newest layer is spread over so many slots.
pub open spec fn spread_over(pre: Shared, li: int, n: usize, post: Shared, a: Ack) -> bool {
    exists|s: Said| #[trigger] cycle::sparse_step(pre, li, n, post, s) && says(a, s)
}

/// A slot, which counts from one where it is written.
pub open spec fn slot_of(n: usize) -> usize {
    if n > 0 {
        (n - 1) as usize
    } else {
        0
    }
}

/// The newest layer is placed in a slot.
pub open spec fn placed(pre: Shared, li: int, slot: usize, post: Shared, a: Ack) -> bool {
    exists|s: Said| #[trigger] cycle::place_step(pre, li, slot, post, s) && says(a, s)
}

/// Switching a layer: its number, and then on or off in the last character.
pub open spec fn switch_step(
    pre: Shared,
    li: int,
    arg: Seq<char>,
    rest: Seq<char>,
    post: Shared,
    a: Ack,
) -> bool {
    let n = arg.len() - 1;
    let on = arg[n] == '1';
    if arg.len() == 0 || (arg[n] != '0' && arg[n] != '1') {
        unread(pre, post, a, Misread::LayerSwitch, rest)
    } else {
        match text::number(arg.subrange(0, n)) {
            None => unread(pre, post, a, Misread::LayerSwitch, rest),
            Some(k) => exists|s: Said| #[trigger]
                stack::switch_step(pre, li, k, on, post, s) && says(a, s),
        }
    }
}

fn switch_verb(sh: &mut Shared, li: usize, arg: &str, rest: &str) -> (a: Ack)
    requires
        old(sh).wf(),
        li < old(sh).size.n_loops,
    ensures
        final(sh).wf(),
        switch_step(*old(sh), li as int, arg@, rest@, *final(sh), a),
{
    let n: usize = arg.unicode_len();
    if n == 0 {
        return misread(Misread::LayerSwitch, rest);
    }
    let c = arg.get_char(n - 1);
    if c != '0' && c != '1' {
        return misread(Misread::LayerSwitch, rest);
    }
    match text::parse_usize(arg.substring_char(0, n - 1)) {
        None => misread(Misread::LayerSwitch, rest),
        Some(k) => {
            let on = c == '1';
            let s = stack::switch_layer(sh, li, k, on);
            assert(stack::switch_step(*old(sh), li as int, k, on, *sh, s));
            Ack::Said(s)
        },
    }
}

/// Windowing a layer: `layer` for none, or `layer:in:out`.
pub open spec fn stretch_step(
    pre: Shared,
    li: int,
    arg: Seq<char>,
    rest: Seq<char>,
    post: Shared,
    a: Ack,
) -> bool {
    let n = pre.loops@[li].body.n_layers;
    let (first, more) = text::cut(arg, ':');
    match text::number(text::trimmed(first)) {
        None => unread(pre, post, a, Misread::LayerWindow, rest),
        Some(k) => if !(1 <= k <= n) {
            refused(pre, post, a, Said::NoSuchLayer { li: li as usize, n, layer: k })
        } else {
            match more {
                None => exists|s: Said| #[trigger]
                    stack::stretch_step(pre, li, k, None, post, s) && says(a, s),
                Some(m) => stretch_edges(pre, li, k, m, rest, post, a),
            }
        },
    }
}

/// The two edges of a layer's window.
pub open spec fn stretch_edges(
    pre: Shared,
    li: int,
    k: usize,
    m: Seq<char>,
    rest: Seq<char>,
    post: Shared,
    a: Ack,
) -> bool {
    let (from, more) = text::cut(m, ':');
    match more {
        None => unread(pre, post, a, Misread::LayerWindowShape, rest),
        Some(m) => {
            let to = text::cut(m, ':').0;
            match (text::integer(text::trimmed(from)), text::integer(text::trimmed(to))) {
                (Some(i), Some(o)) => exists|s: Said| #[trigger]
                    stack::stretch_step(pre, li, k, Some((i, o)), post, s) && says(a, s),
                _ => unread(pre, post, a, Misread::TwoFrames, rest),
            }
        },
    }
}

fn edges_verb(sh: &mut Shared, li: usize, k: usize, m: &str, rest: &str) -> (a: Ack)
    requires
        old(sh).wf(),
        li < old(sh).size.n_loops,
    ensures
        final(sh).wf(),
        stretch_edges(*old(sh), li as int, k, m@, rest@, *final(sh), a),
{
    let (from, more) = text::cut_at(m, ':');
    match more {
        None => misread(Misread::LayerWindowShape, rest),
        Some(m) => {
            let (to, _) = text::cut_at(m, ':');
            let i = text::parse_i64(text::trim(from));
            let o = text::parse_i64(text::trim(to));
            match (i, o) {
                (Some(i), Some(o)) => {
                    let s = stack::window_layer(sh, li, k, Some((i, o)));
                    assert(stack::stretch_step(*old(sh), li as int, k, Some((i, o)), *sh, s));
                    Ack::Said(s)
                },
                _ => misread(Misread::TwoFrames, rest),
            }
        },
    }
}

fn stretch_verb(sh: &mut Shared, li: usize, arg: &str, rest: &str) -> (a: Ack)
    requires
        old(sh).wf(),
        li < old(sh).size.n_loops,
    ensures
        final(sh).wf(),
        stretch_step(*old(sh), li as int, arg@, rest@, *final(sh), a),
{
    let (first, more) = text::cut_at(arg, ':');
    let k: usize = match text::parse_usize(text::trim(first)) {
        None => {
            return misread(Misread::LayerWindow, rest);
        },
        Some(k) => k,
    };
    let n: usize = sh.loops[li].body.n_layers;
    if k < 1 || k > n {
        return Ack::Said(Said::NoSuchLayer { li, n, layer: k });
    }
    match more {
        None => {
            let s = stack::window_layer(sh, li, k, None);
            assert(stack::stretch_step(*old(sh), li as int, k, None, *sh, s));
            Ack::Said(s)
        },
        Some(m) => edges_verb(sh, li, k, m, rest),
    }
}

/// Copying layers onto a loop: `source`, or `source l layer`.
pub open spec fn copy_step(
    pre: Shared,
    li: int,
    arg: Seq<char>,
    rest: Seq<char>,
    post: Shared,
    a: Ack,
) -> bool {
    let (first, more) = text::cut(arg, 'l');
    match (text::number(text::trimmed(first)), more) {
        (Some(src), None) => exists|s: Said| #[trigger]
            copy::copy_step(pre, li, src, None, post, s) && says(a, s),
        (Some(src), Some(m)) => match text::number(text::trimmed(m)) {
            Some(k) if k >= 1 => {
                let layer = Some((k - 1) as usize);
                exists|s: Said| #[trigger]
                    copy::copy_step(pre, li, src, layer, post, s) && says(a, s)
            },
            _ => unread(pre, post, a, Misread::Copy, rest),
        },
        _ => unread(pre, post, a, Misread::Copy, rest),
    }
}

fn copy_verb(sh: &mut Shared, li: usize, arg: &str, rest: &str) -> (a: Ack)
    requires
        old(sh).wf(),
        li < old(sh).size.n_loops,
    ensures
        final(sh).wf(),
        copy_step(*old(sh), li as int, arg@, rest@, *final(sh), a),
{
    let (first, more) = text::cut_at(arg, 'l');
    let src: usize = match text::parse_usize(text::trim(first)) {
        None => {
            return misread(Misread::Copy, rest);
        },
        Some(src) => src,
    };
    match more {
        None => {
            let s = copy::copy_layers(sh, li, src, None);
            assert(copy::copy_step(*old(sh), li as int, src, None, *sh, s));
            Ack::Said(s)
        },
        Some(m) => {
            let k: usize = match text::parse_usize(text::trim(m)) {
                None => {
                    return misread(Misread::Copy, rest);
                },
                Some(k) => k,
            };
            if k == 0 {
                return misread(Misread::Copy, rest);
            }
            let layer: Option<usize> = Some(k - 1);
            let s = copy::copy_layers(sh, li, src, layer);
            assert(copy::copy_step(*old(sh), li as int, src, layer, *sh, s));
            Ack::Said(s)
        },
    }
}

/// The verbs about the layers of a loop, and about all the loops.
pub open spec fn layer_step(
    pre: Shared,
    li: int,
    v: Verb,
    arg: Seq<char>,
    rest: Seq<char>,
    post: Shared,
    a: Ack,
) -> bool {
    match v {
        Verb::Sparse => match spread_count(arg) {
            Some(n) => spread_over(pre, li, n, post, a),
            None => unread(pre, post, a, Misread::Count, rest),
        },
        Verb::Phase => match text::number(arg) {
            Some(n) => placed(pre, li, slot_of(n), post, a),
            None => unread(pre, post, a, Misread::Slot, rest),
        },
        Verb::Rotate => exists|s: Said| #[trigger]
            cycle::rotate_step(pre, li, post, s) && says(a, s),
        Verb::Dense => exists|s: Said| #[trigger] cycle::dense_step(pre, li, post, s) && says(a, s),
        Verb::LayerOn => switch_step(pre, li, arg, rest, post, a),
        Verb::LayerWindow => stretch_step(pre, li, arg, rest, post, a),
        Verb::Duplicate => match text::number(arg) {
            Some(k) => exists|s: Said| #[trigger]
                copy::duplicate_step(pre, li, k, post, s) && says(a, s),
            None => unread(pre, post, a, Misread::Duplicate, rest),
        },
        Verb::Copy => copy_step(pre, li, arg, rest, post, a),
        Verb::Go => exists|s: Said| #[trigger] bars::go_step(pre, post, s) && says(a, s),
        _ => refused(pre, post, a, bars::tempo_from(pre, li)),
    }
}

fn spread_verb(sh: &mut Shared, li: usize, n: usize) -> (a: Ack)
    requires
        old(sh).wf(),
        li < old(sh).size.n_loops,
    ensures
        final(sh).wf(),
        spread_over(*old(sh), li as int, n, *final(sh), a),
{
    let s = cycle::sparse(sh, li, n);
    assert(cycle::sparse_step(*old(sh), li as int, n, *sh, s));
    Ack::Said(s)
}

fn place_verb(sh: &mut Shared, li: usize, n: usize) -> (a: Ack)
    requires
        old(sh).wf(),
        li < old(sh).size.n_loops,
    ensures
        final(sh).wf(),
        placed(*old(sh), li as int, slot_of(n), *final(sh), a),
{
    let slot: usize = if n > 0 {
        n - 1
    } else {
        0
    };
    let s = cycle::place_at(sh, li, slot);
    assert(cycle::place_step(*old(sh), li as int, slot_of(n), *sh, s));
    Ack::Said(s)
}

fn layer_verb(sh: &mut Shared, li: usize, v: Verb, arg: &str, rest: &str) -> (a: Ack)
    requires
        old(sh).wf(),
        li < old(sh).size.n_loops,
        layers(v),
    ensures
        final(sh).wf(),
        layer_step(*old(sh), li as int, v, arg@, rest@, *final(sh), a),
{
    if v == Verb::Phase {
        return match text::parse_usize(arg) {
            None => misread(Misread::Slot, rest),
            Some(n) => place_verb(sh, li, n),
        };
    }
    match v {
        Verb::Sparse => {
            let n: usize = if arg.unicode_len() == 0 {
                2
            } else {
                match text::parse_usize(arg) {
                    None => {
                        return misread(Misread::Count, rest);
                    },
                    Some(n) => n,
                }
            };
            return spread_verb(sh, li, n);
        },
        Verb::Rotate => {
            let s = cycle::rotate(sh, li);
            assert(cycle::rotate_step(*old(sh), li as int, *sh, s));
            return Ack::Said(s);
        },
        Verb::Dense => {
            let s = cycle::dense(sh, li);
            assert(cycle::dense_step(*old(sh), li as int, *sh, s));
            return Ack::Said(s);
        },
        Verb::LayerOn => {
            return switch_verb(sh, li, arg, rest);
        },
        Verb::LayerWindow => {
            return stretch_verb(sh, li, arg, rest);
        },
        Verb::Duplicate => match text::parse_usize(arg) {
            None => {
                return misread(Misread::Duplicate, rest);
            },
            Some(k) => {
                let s = copy::duplicate(sh, li, k);
                assert(copy::duplicate_step(*old(sh), li as int, k, *sh, s));
                return Ack::Said(s);
            },
        },
        Verb::Copy => {
            return copy_verb(sh, li, arg, rest);
        },
        Verb::Go => {
            let s = bars::start_all(sh);
            assert(bars::go_step(*old(sh), *sh, s));
            return Ack::Said(s);
        },
        _ => {},
    }
    Ack::Said(bars::take_tempo(sh, li))
}

/// The verbs that set a real number: what is said where nothing is asked
/// for.
pub open spec fn setting_of(sh: Shared, li: int, v: Verb) -> Said {
    match v {
        Verb::Tone => Said::Tone { li: li as usize },
        Verb::Feedback => Said::Feedback { li: li as usize },
        Verb::Decay => Said::Decay { li: li as usize },
        Verb::Chance => Said::Odds { li: li as usize, bits: sh.loops@[li].play.chance },
        Verb::Vol => Said::Level { li: li as usize },
        Verb::Fade => Said::Fade { li: li as usize },
        _ => Said::ArmLevel { now: false },
    }
}

/// Whether a verb sets a real number.
pub open spec fn numbers(v: Verb) -> bool {
    match v {
        Verb::Tone
        | Verb::Feedback
        | Verb::Decay
        | Verb::Chance
        | Verb::Vol
        | Verb::Fade
        | Verb::ArmLevel
        | Verb::Speed => true,
        _ => false,
    }
}

/// The verbs that set a real number.
pub open spec fn number_step(
    pre: Shared,
    li: int,
    v: Verb,
    arg: Seq<char>,
    reading: Reading,
    post: Shared,
    a: Ack,
) -> bool {
    if arg.len() == 0 && v != Verb::Speed {
        refused(pre, post, a, setting_of(pre, li, v))
    } else {
        match (v, reading) {
            (Verb::Tone, Reading::Single { bits, gain: _ }) => exists|s: Said| #[trigger]
                knobs::tone_step(pre, li, bits, post, s) && says(a, s),
            (Verb::Tone, _) => unread(pre, post, a, Misread::Tone, arg),
            (Verb::Feedback, Reading::Single { bits, gain }) => exists|s: Said| #[trigger]
                knobs::feedback_step(pre, li, bits, gain, post, s) && says(a, s),
            (Verb::Feedback, _) => unread(pre, post, a, Misread::Feedback, arg),
            (Verb::Decay, Reading::Single { bits, gain }) => exists|s: Said| #[trigger]
                knobs::decay_step(pre, li, bits, gain, post, s) && says(a, s),
            (Verb::Decay, _) => unread(pre, post, a, Misread::Decay, arg),
            (Verb::Chance, Reading::Single { bits, gain: _ }) => exists|s: Said| #[trigger]
                knobs::chance_step(pre, li, bits, post, s) && says(a, s),
            (Verb::Chance, _) => unread(pre, post, a, Misread::Chance, arg),
            (Verb::Vol, Reading::Single { bits, gain }) => exists|s: Said| #[trigger]
                knobs::level_step(pre, li, bits, gain, post, s) && says(a, s),
            (Verb::Vol, _) => unread(pre, post, a, Misread::Level, arg),
            (Verb::Fade, Reading::Wide { bits, frames, gain: _ }) => exists|s: Said| #[trigger]
                knobs::fade_step(pre, li, bits, frames, post, s) && says(a, s),
            (Verb::Fade, _) => unread(pre, post, a, Misread::Fade, arg),
            (Verb::ArmLevel, Reading::Wide { bits, frames: _, gain }) => exists|s: Said| #[trigger]
                knobs::arm_level_step(pre, bits, gain, post, s) && says(a, s),
            (Verb::ArmLevel, _) => unread(pre, post, a, Misread::ArmLevel, arg),
            (_, Reading::Wide { bits, frames: _, gain: _ }) => exists|s: Said| #[trigger]
                knobs::speed_step(pre, li, bits, post, s) && says(a, s),
            (_, _) => unread(pre, post, a, Misread::Speed, arg),
        }
    }
}

fn single_verb(sh: &mut Shared, li: usize, v: Verb, arg: &str, reading: &Reading) -> (a: Ack)
    requires
        old(sh).wf(),
        li < old(sh).size.n_loops,
        v == Verb::Tone || v == Verb::Feedback || v == Verb::Decay || v == Verb::Chance || v
            == Verb::Vol,
        arg@.len() > 0,
    ensures
        final(sh).wf(),
        number_step(*old(sh), li as int, v, arg@, *reading, *final(sh), a),
{
    let (bits, gain): (u32, u32) = match reading {
        Reading::Single { bits, gain } => (*bits, *gain),
        _ => {
            return match v {
                Verb::Tone => misread(Misread::Tone, arg),
                Verb::Feedback => misread(Misread::Feedback, arg),
                Verb::Decay => misread(Misread::Decay, arg),
                Verb::Chance => misread(Misread::Chance, arg),
                _ => misread(Misread::Level, arg),
            };
        },
    };
    match v {
        Verb::Tone => {
            let s = knobs::tone(sh, li, bits);
            assert(knobs::tone_step(*old(sh), li as int, bits, *sh, s));
            Ack::Said(s)
        },
        Verb::Feedback => {
            let s = knobs::feedback(sh, li, bits, gain);
            assert(knobs::feedback_step(*old(sh), li as int, bits, gain, *sh, s));
            Ack::Said(s)
        },
        Verb::Decay => {
            let s = knobs::decay(sh, li, bits, gain);
            assert(knobs::decay_step(*old(sh), li as int, bits, gain, *sh, s));
            Ack::Said(s)
        },
        Verb::Chance => {
            let s = knobs::chance(sh, li, bits);
            assert(knobs::chance_step(*old(sh), li as int, bits, *sh, s));
            Ack::Said(s)
        },
        _ => {
            let s = knobs::level(sh, li, bits, gain);
            assert(knobs::level_step(*old(sh), li as int, bits, gain, *sh, s));
            Ack::Said(s)
        },
    }
}

fn number_verb(sh: &mut Shared, li: usize, v: Verb, arg: &str, reading: &Reading) -> (a: Ack)
    requires
        old(sh).wf(),
        li < old(sh).size.n_loops,
        numbers(v),
    ensures
        final(sh).wf(),
        number_step(*old(sh), li as int, v, arg@, *reading, *final(sh), a),
{
    if arg.unicode_len() == 0 && v != Verb::Speed {
        return Ack::Said(
            match v {
                Verb::Tone => Said::Tone { li },
                Verb::Feedback => Said::Feedback { li },
                Verb::Decay => Said::Decay { li },
                Verb::Chance => Said::Odds { li, bits: sh.loops[li].chance_of() },
                Verb::Vol => Said::Level { li },
                Verb::Fade => Said::Fade { li },
                _ => Said::ArmLevel { now: false },
            },
        );
    }
    if v != Verb::Fade && v != Verb::ArmLevel && v != Verb::Speed {
        return single_verb(sh, li, v, arg, reading);
    }
    let (bits, frames, gain): (u64, usize, u32) = match reading {
        Reading::Wide { bits, frames, gain } => (*bits, *frames, *gain),
        _ => {
            return match v {
                Verb::Fade => misread(Misread::Fade, arg),
                Verb::ArmLevel => misread(Misread::ArmLevel, arg),
                _ => misread(Misread::Speed, arg),
            };
        },
    };
    match v {
        Verb::Fade => {
            let s = knobs::fade(sh, li, bits, frames);
            assert(knobs::fade_step(*old(sh), li as int, bits, frames, *sh, s));
            Ack::Said(s)
        },
        Verb::ArmLevel => {
            let s = knobs::arm_level(sh, bits, gain);
            assert(knobs::arm_level_step(*old(sh), bits, gain, *sh, s));
            Ack::Said(s)
        },
        _ => {
            let s = knobs::speed(sh, li, bits);
            assert(knobs::speed_step(*old(sh), li as int, bits, *sh, s));
            Ack::Said(s)
        },
    }
}

/// Pointing a loop at a source, or saying which it is.
pub open spec fn source_step(pre: Shared, li: int, arg: Seq<char>, post: Shared, a: Ack) -> bool {
    if arg.len() == 0 {
        refused(
            pre,
            post,
            a,
            Said::RecordsFrom { li: li as usize, source: pre.source_of(li) as usize },
        )
    } else {
        match text::number(arg) {
            None => unread(pre, post, a, Misread::Source, arg),
            Some(n) => exists|s: Said| #[trigger]
                knobs::source_step(pre, li, n, post, s) && says(a, s),
        }
    }
}

fn source_verb(sh: &mut Shared, li: usize, arg: &str) -> (a: Ack)
    requires
        old(sh).wf(),
        li < old(sh).size.n_loops,
    ensures
        final(sh).wf(),
        source_step(*old(sh), li as int, arg@, *final(sh), a),
{
    if arg.unicode_len() == 0 {
        return Ack::Said(Said::RecordsFrom { li, source: sh.src_of(li) });
    }
    match text::parse_usize(arg) {
        None => misread(Misread::Source, arg),
        Some(n) => {
            let s = knobs::source(sh, li, n);
            assert(knobs::source_step(*old(sh), li as int, n, *sh, s));
            Ack::Said(s)
        },
    }
}

/// Placing a loop between left and right.
pub open spec fn pan_step(pre: Shared, li: int, arg: Seq<char>, post: Shared, a: Ack) -> bool {
    match text::number(arg) {
        None => unread(pre, post, a, Misread::Pan, arg),
        Some(n) => exists|s: Option<Said>| #[trigger]
            knobs::pan_step(pre, li, n, post, s) && said_or(a, s, Misread::Pan, arg),
    }
}

fn pan_verb(sh: &mut Shared, li: usize, arg: &str) -> (a: Ack)
    requires
        old(sh).wf(),
        li < old(sh).size.n_loops,
    ensures
        final(sh).wf(),
        pan_step(*old(sh), li as int, arg@, *final(sh), a),
{
    match text::parse_usize(arg) {
        None => misread(Misread::Pan, arg),
        Some(n) => {
            let s = knobs::pan(sh, li, n);
            assert(knobs::pan_step(*old(sh), li as int, n, *sh, s));
            say_or(s, Misread::Pan, arg)
        },
    }
}

/// Saying what a launch waits for.
pub open spec fn launch_step(
    pre: Shared,
    arg: Seq<char>,
    rest: Seq<char>,
    post: Shared,
    a: Ack,
) -> bool {
    match text::integer(arg) {
        None => unread(pre, post, a, Misread::Beats, rest),
        Some(n) => exists|s: Said| #[trigger] knobs::launch_step(pre, n, post, s) && says(a, s),
    }
}

fn launch_verb(sh: &mut Shared, arg: &str, rest: &str) -> (a: Ack)
    requires
        old(sh).wf(),
    ensures
        final(sh).wf(),
        launch_step(*old(sh), arg@, rest@, *final(sh), a),
{
    match text::parse_i64(arg) {
        None => misread(Misread::Beats, rest),
        Some(n) => {
            let s = knobs::launch(sh, n);
            assert(knobs::launch_step(*old(sh), n, *sh, s));
            Ack::Said(s)
        },
    }
}

/// Whether a verb sets something on or off.
pub open spec fn flags(v: Verb) -> bool {
    match v {
        Verb::Mono
        | Verb::Grid
        | Verb::Reverse
        | Verb::Pendulum
        | Verb::OneShot
        | Verb::LevelArm
        | Verb::Halt
        | Verb::Click
        | Verb::Monitor => true,
        _ => false,
    }
}

/// The verbs that set something on or off. Where nothing says which, all but
/// the fold go to the other of what they are.
pub open spec fn flag_step(
    pre: Shared,
    li: int,
    v: Verb,
    flag: Option<bool>,
    post: Shared,
    a: Ack,
) -> bool {
    match v {
        Verb::Mono => if flag == Some(false) {
            exists|s: Said| #[trigger] knobs::mono_step(pre, li, false, post, s) && says(a, s)
        } else {
            exists|s: Said| #[trigger] knobs::mono_step(pre, li, true, post, s) && says(a, s)
        },
        Verb::Grid => exists|s: Said| #[trigger]
            knobs::grid_step(pre, li, flag, post, s) && says(a, s),
        Verb::Reverse => exists|s: Said| #[trigger]
            knobs::reverse_step(pre, li, flag, post, s) && says(a, s),
        Verb::Pendulum => exists|s: Said| #[trigger]
            knobs::swing_step(pre, li, flag, post, s) && says(a, s),
        Verb::OneShot => exists|s: Said| #[trigger]
            knobs::one_shot_step(pre, li, flag, post, s) && says(a, s),
        Verb::LevelArm => exists|s: Said| #[trigger]
            knobs::level_arm_step(pre, li, flag, post, s) && says(a, s),
        Verb::Halt => exists|s: Said| #[trigger]
            knobs::halt_step(pre, li, flag, post, s) && says(a, s),
        Verb::Click => exists|s: Said| #[trigger]
            knobs::click_step(pre, flag, post, s) && says(a, s),
        _ => exists|s: Said| #[trigger] knobs::monitor_step(pre, flag, post, s) && says(a, s),
    }
}

fn flag_verb(sh: &mut Shared, li: usize, v: Verb, flag: Option<bool>) -> (a: Ack)
    requires
        old(sh).wf(),
        li < old(sh).size.n_loops,
        flags(v),
    ensures
        final(sh).wf(),
        flag_step(*old(sh), li as int, v, flag, *final(sh), a),
{
    match v {
        Verb::Mono => {
            if let Some(false) = flag {
                let s = knobs::mono(sh, li, false);
                assert(knobs::mono_step(*old(sh), li as int, false, *sh, s));
                return Ack::Said(s);
            }
            let s = knobs::mono(sh, li, true);
            assert(knobs::mono_step(*old(sh), li as int, true, *sh, s));
            Ack::Said(s)
        },
        Verb::Grid => {
            let s = knobs::grid(sh, li, flag);
            assert(knobs::grid_step(*old(sh), li as int, flag, *sh, s));
            Ack::Said(s)
        },
        Verb::Reverse => {
            let s = knobs::reverse(sh, li, flag);
            assert(knobs::reverse_step(*old(sh), li as int, flag, *sh, s));
            Ack::Said(s)
        },
        Verb::Pendulum => {
            let s = knobs::swing(sh, li, flag);
            assert(knobs::swing_step(*old(sh), li as int, flag, *sh, s));
            Ack::Said(s)
        },
        Verb::OneShot => {
            let s = knobs::one_shot(sh, li, flag);
            assert(knobs::one_shot_step(*old(sh), li as int, flag, *sh, s));
            Ack::Said(s)
        },
        Verb::LevelArm => {
            let s = knobs::level_arm(sh, li, flag);
            assert(knobs::level_arm_step(*old(sh), li as int, flag, *sh, s));
            Ack::Said(s)
        },
        Verb::Halt => {
            let s = knobs::halt(sh, li, flag);
            assert(knobs::halt_step(*old(sh), li as int, flag, *sh, s));
            Ack::Said(s)
        },
        Verb::Click => {
            let s = knobs::click(sh, flag);
            assert(knobs::click_step(*old(sh), flag, *sh, s));
            Ack::Said(s)
        },
        _ => {
            let s = knobs::monitor(sh, flag);
            assert(knobs::monitor_step(*old(sh), flag, *sh, s));
            Ack::Said(s)
        },
    }
}

/// The verbs that are left: settings of the rig, and what something outside
/// is asked for.
pub open spec fn other_step(
    pre: Shared,
    li: int,
    v: Verb,
    arg: Seq<char>,
    rest: Seq<char>,
    post: Shared,
    a: Ack,
) -> bool {
    match v {
        Verb::Src => source_step(pre, li, arg, post, a),
        Verb::Pan => pan_step(pre, li, arg, post, a),
        Verb::LaunchQ => launch_step(pre, arg, rest, post, a),
        Verb::Play => match line::flag_of(arg) {
            Some(on) => refused(pre, post, a, Said::Transport { on }),
            None => unread(pre, post, a, Misread::Unknown, rest),
        },
        Verb::Lose => exists|s: Said| #[trigger] knobs::lose_step(pre, post, s) && says(a, s),
        Verb::Levels => exists|s: Said| #[trigger] knobs::levels_step(pre, post, s) && says(a, s),
        Verb::ExportLayers => post == pre && writes(a, Writing::Layers, li, arg),
        Verb::Export => post == pre && writes(a, Writing::Loops, li, arg),
        Verb::Save => post == pre && writes(a, Writing::Take, li, arg),
        _ => refused(pre, post, a, Said::Show { li: li as usize }),
    }
}

fn other_verb(sh: &mut Shared, li: usize, v: Verb, arg: &str, rest: &str) -> (a: Ack)
    requires
        old(sh).wf(),
        li < old(sh).size.n_loops,
    ensures
        final(sh).wf(),
        other_step(*old(sh), li as int, v, arg@, rest@, *final(sh), a),
{
    match v {
        Verb::Src => source_verb(sh, li, arg),
        Verb::Pan => pan_verb(sh, li, arg),
        Verb::LaunchQ => launch_verb(sh, arg, rest),
        Verb::Play => match line::flag(arg) {
            Some(on) => Ack::Said(Said::Transport { on }),
            None => misread(Misread::Unknown, rest),
        },
        Verb::Lose => {
            let s = knobs::lose(sh);
            assert(knobs::lose_step(*old(sh), *sh, s));
            Ack::Said(s)
        },
        Verb::Levels => {
            let s = knobs::levels(sh);
            assert(knobs::levels_step(*old(sh), *sh, s));
            Ack::Said(s)
        },
        Verb::ExportLayers => Ack::Write(Writing::Layers, li, arg.to_string()),
        Verb::Export => Ack::Write(Writing::Loops, li, arg.to_string()),
        Verb::Save => Ack::Write(Writing::Take, li, arg.to_string()),
        _ => Ack::Said(Said::Show { li }),
    }
}

/// What a verb does to a loop.
pub open spec fn verb_step(
    pre: Shared,
    li: int,
    v: Verb,
    arg: Seq<char>,
    rest: Seq<char>,
    reading: Reading,
    sent: Sent,
    post: Shared,
    a: Ack,
) -> bool {
    if edits(v) {
        edit_step(pre, li, v, arg, rest, post, a)
    } else if presses(v) {
        press_step(pre, li, v, arg, rest, reading, sent, post, a)
    } else if layers(v) {
        layer_step(pre, li, v, arg, rest, post, a)
    } else if numbers(v) {
        number_step(pre, li, v, arg, reading, post, a)
    } else if flags(v) {
        flag_step(pre, li, v, line::flag_of(arg), post, a)
    } else {
        other_step(pre, li, v, arg, rest, post, a)
    }
}

fn carry_out(
    sh: &mut Shared,
    li: usize,
    v: Verb,
    arg: &str,
    rest: &str,
    reading: &Reading,
    sent: Sent,
) -> (a: Ack)
    requires
        old(sh).wf(),
        li < old(sh).size.n_loops,
        frame::near(sent.late),
    ensures
        final(sh).wf(),
        verb_step(*old(sh), li as int, v, arg@, rest@, *reading, sent, *final(sh), a),
{
    match v {
        Verb::Whole | Verb::In | Verb::Out | Verb::Rot | Verb::Peaks => edit_verb(
            sh,
            li,
            v,
            arg,
            rest,
        ),
        Verb::Record
        | Verb::Multiply
        | Verb::Fire
        | Verb::Take
        | Verb::Undo
        | Verb::Redo
        | Verb::Clear
        | Verb::Free
        | Verb::Len
        | Verb::Fix
        | Verb::Blank
        | Verb::Revox => press_verb(sh, li, v, arg, rest, reading, sent),
        Verb::Sparse
        | Verb::Phase
        | Verb::Rotate
        | Verb::Dense
        | Verb::LayerOn
        | Verb::LayerWindow
        | Verb::Duplicate
        | Verb::Copy
        | Verb::Go
        | Verb::Tempo => layer_verb(sh, li, v, arg, rest),
        Verb::Tone
        | Verb::Feedback
        | Verb::Decay
        | Verb::Chance
        | Verb::Vol
        | Verb::Fade
        | Verb::ArmLevel
        | Verb::Speed => number_verb(sh, li, v, arg, reading),
        Verb::Mono
        | Verb::Grid
        | Verb::Reverse
        | Verb::Pendulum
        | Verb::OneShot
        | Verb::LevelArm
        | Verb::Halt
        | Verb::Click
        | Verb::Monitor => flag_verb(sh, li, v, line::flag(arg)),
        _ => other_verb(sh, li, v, arg, rest),
    }
}

/// Whether a lateness is one: from none to just under the most.
pub open spec fn late_ok(late: Option<Lateness>) -> bool {
    match late {
        Some(l) => bits::up_to_wide(0, l.bits) && bits::below_wide(l.bits, LATEST),
        None => false,
    }
}

/// How late a command was, in frames.
pub open spec fn late_frames(line: Seq<char>, late: Option<Lateness>) -> i64 {
    match (line::late_of(line), late) {
        (Some(_), Some(l)) => l.frames,
        _ => 0,
    }
}

/// What a command comes to. A lateness that is none, a loop that there is
/// not and a word that is no command change nothing; a loop alone is
/// selected; and any other command is carried out on its loop.
pub open spec fn dispatch_step(
    pre: Shared,
    line: Seq<char>,
    late: Option<Lateness>,
    reading: Reading,
    from: Caller,
    clock_ms: u64,
    post: Shared,
    a: Ack,
) -> bool {
    let body = line::body_of(line);
    let rest = line::rest_of(body);
    let sent = Sent { late: late_frames(line, late), from, clock_ms };
    if line::late_of(line) is Some && !late_ok(late) {
        unread(pre, post, a, Misread::Lateness, line::late_of(line).unwrap())
    } else {
        match line::address_of(pre, body) {
            Address::Nothing => post == pre && a is Nothing,
            Address::NoNumber => unread(pre, post, a, Misread::LoopNumber, line::digits_of(body)),
            Address::NoLoop => refused(
                pre,
                post,
                a,
                Said::LoopCount { n_loops: pre.size.n_loops },
            ),
            Address::Select(li) => {
                &&& post == (Shared { desk: Desk { selected: li, ..pre.desk }, ..pre })
                &&& says(a, Said::Selected { li })
            },
            Address::Loop(li) => match line::asked(rest) {
                None => unread(pre, post, a, Misread::Unknown, rest),
                Some((v, arg)) => verb_step(
                    pre,
                    li as int,
                    v,
                    arg,
                    rest,
                    reading,
                    sent,
                    post,
                    a,
                ),
            },
        }
    }
}

/// Carry out a command, from wherever it came.
pub fn dispatch(
    sh: &mut Shared,
    line: &str,
    late: Option<Lateness>,
    reading: &Reading,
    from: Caller,
    clock_ms: u64,
) -> (a: Ack)
    requires
        old(sh).wf(),
        late matches Some(l) ==> frame::near(l.frames),
    ensures
        final(sh).wf(),
        dispatch_step(*old(sh), line@, late, *reading, from, clock_ms, *final(sh), a),
{
    let (body, late_text) = line::split_late(line);
    let mut frames: i64 = 0;
    if let Some(t) = late_text {
        match late {
            None => {
                return misread(Misread::Lateness, t);
            },
            Some(l) => {
                if !(bits::at_most_wide(0, l.bits) && bits::less_wide(l.bits, LATEST)) {
                    return misread(Misread::Lateness, t);
                }
                frames = l.frames;
            },
        }
    }
    let sent = Sent { late: frames, from, clock_ms };
    let (to, rest) = line::address(sh, body);
    match to {
        Address::Nothing => {
            return Ack::Nothing;
        },
        Address::NoNumber => {
            return misread(Misread::LoopNumber, rest);
        },
        Address::NoLoop => {
            return Ack::Said(Said::LoopCount { n_loops: sh.size.n_loops });
        },
        Address::Select(li) => {
            sh.desk.selected = li;
            return Ack::Said(Said::Selected { li });
        },
        Address::Loop(li) => {
            match line::ask(rest) {
                None => {
                    return misread(Misread::Unknown, rest);
                },
                Some((v, arg)) => {
                    return carry_out(sh, li, v, arg, rest, reading, sent);
                },
            }
        },
    }
}

} // verus!
