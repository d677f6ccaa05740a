//! The one lane every command comes down: which commands of a batch are
//! carried out, and which loops a command has to wait for.

use crate::closing::{Caller, Closing, Take};
use crate::commit;
use crate::commit::Closed;
use crate::frame;
use crate::line;
use crate::line::Address;
use crate::loop_state::Loop;
use crate::shared::Shared;
use crate::text;
use crate::verb;
use crate::verb::Verb;
use vstd::prelude::*;
use vstd::string::*;

verus! {

/// One command on its way.
#[derive(Debug)]
pub struct Command {
    pub from: Caller,
    pub line: String,
}

/// What a command says after its digits.
pub open spec fn words(line: Seq<char>) -> Seq<char> {
    let body = line::body_of(line);
    text::trimmed(body.subrange(line::lead(body) as int, body.len() as int))
}

/// Whether a command asks for a picture.
pub open spec fn pictures(line: Seq<char>) -> bool {
    match verb::command_of(words(line)) {
        Some((v, _)) => v == Verb::Peaks,
        None => false,
    }
}

/// Which loop's picture a command asks for: by its number, or that of the
/// one that is selected.
pub open spec fn pictured(line: Seq<char>) -> Option<usize> {
    text::number(line::digits_of(line::body_of(line)))
}

/// Whether one line asks for the picture another has asked for.
pub open spec fn supersedes(later: Seq<char>, line: Seq<char>) -> bool {
    pictures(line) && pictures(later) && pictured(line) == pictured(later)
}

/// Whether a command of a batch is carried out: it is, but for one that asks
/// for a picture that is asked for again after it.
pub open spec fn kept(batch: Seq<Command>, i: int) -> bool {
    forall|j: int| i < j < batch.len() ==> !supersedes(#[trigger] batch[j].line@, batch[i].line@)
}

/// Which of the first `n` commands of a batch are carried out, in order.
pub open spec fn kept_of(batch: Seq<Command>, n: int) -> Seq<int>
    decreases n,
{
    if n <= 0 {
        Seq::empty()
    } else {
        let before = kept_of(batch, n - 1);
        if kept(batch, n - 1) {
            before.push(n - 1)
        } else {
            before
        }
    }
}

/// The picture a line asks for, where it asks for one.
fn picture(line: &str) -> (r: Option<Option<usize>>)
    ensures
        r is Some <==> pictures(line@),
        r matches Some(n) ==> n == pictured(line@),
{
    let (body, _) = line::split_late(line);
    let d: usize = line::leading(body);
    let digits = body.substring_char(0, d);
    let rest = text::trim(text::skip(body, d));
    match verb::tokenize(rest) {
        Some((v, _)) => {
            if v == Verb::Peaks {
                Some(text::parse_usize(digits))
            } else {
                None
            }
        },
        None => None,
    }
}

fn keeps(batch: &Vec<Command>, i: usize) -> (r: bool)
    requires
        i < batch@.len(),
    ensures
        r == kept(batch@, i as int),
{
    let asked: Option<usize> = match picture(batch[i].line.as_str()) {
        None => {
            return true;
        },
        Some(n) => n,
    };
    let n: usize = batch.len();
    let mut j: usize = i + 1;
    while j < n
        invariant
            n == batch@.len(),
            i < j <= n,
            pictures(batch@[i as int].line@),
            asked == pictured(batch@[i as int].line@),
            forall|k: int|
                i < k < j ==> !supersedes(#[trigger] batch@[k].line@, batch@[i as int].line@),
        decreases n - j,
    {
        if let Some(m) = picture(batch[j].line.as_str()) {
            let same = match (asked, m) {
                (Some(a), Some(b)) => a == b,
                (None, None) => true,
                _ => false,
            };
            if same {
                assert(supersedes(batch@[j as int].line@, batch@[i as int].line@));
                return false;
            }
        }
        j = j + 1;
    }
    true
}

/// Keep every command of a batch, in order, but only the last picture of
/// each loop.
pub fn coalesce(batch: Vec<Command>) -> (r: Vec<Command>)
    ensures
        r@.len() == kept_of(batch@, batch@.len() as int).len(),
        forall|k: int|
            0 <= k < r@.len() ==> (#[trigger] r@[k]).line@ == batch@[kept_of(
                batch@,
                batch@.len() as int,
            )[k]].line@ && r@[k].from == batch@[kept_of(batch@, batch@.len() as int)[k]].from,
{
    let n: usize = batch.len();
    let mut r: Vec<Command> = Vec::new();
    let mut i: usize = 0;
    while i < n
        invariant
            n == batch@.len(),
            i <= n,
            r@.len() == kept_of(batch@, i as int).len(),
            forall|k: int|
                0 <= k < r@.len() ==> (#[trigger] r@[k]).line@ == batch@[kept_of(
                    batch@,
                    i as int,
                )[k]].line@ && r@[k].from == batch@[kept_of(batch@, i as int)[k]].from,
        decreases n - i,
    {
        if keeps(&batch, i) {
            let line = batch[i].line.as_str().to_string();
            r.push(Command { from: batch[i].from, line });
        }
        i = i + 1;
    }
    r
}

/// What a batch keeps stands in the order it came in, and is all there but
/// for pictures that are asked for again.
pub proof fn a_batch_keeps_its_order(batch: Seq<Command>, n: int)
    requires
        0 <= n <= batch.len(),
    ensures
        forall|a: int, b: int|
            0 <= a < b < kept_of(batch, n).len() ==> #[trigger] kept_of(batch, n)[a]
                < #[trigger] kept_of(batch, n)[b],
        forall|k: int|
            0 <= k < kept_of(batch, n).len() ==> 0 <= #[trigger] kept_of(batch, n)[k] < n,
        forall|i: int|
            0 <= i < n && !pictures(#[trigger] batch[i].line@) ==> kept_of(batch, n).contains(i),
    decreases n,
{
    if n > 0 {
        a_batch_keeps_its_order(batch, n - 1);
        let before = kept_of(batch, n - 1);
        let after = kept_of(batch, n);
        assert forall|i: int| 0 <= i < n && !pictures(#[trigger] batch[i].line@) implies after.contains(
            i,
        ) by {
            if i == n - 1 {
                assert(kept(batch, n - 1));
                assert(after[after.len() - 1] == i);
            } else {
                assert(before.contains(i));
                let k = choose|k: int| 0 <= k < before.len() && before[k] == i;
                assert(after[k] == i);
            }
        }
    }
}

/// The last picture that is asked for of a loop is drawn.
pub proof fn the_last_picture_is_drawn(batch: Seq<Command>, i: int)
    requires
        0 <= i < batch.len(),
        forall|j: int|
            i < j < batch.len() ==> !supersedes(#[trigger] batch[j].line@, batch[i].line@),
    ensures
        kept_of(batch, batch.len() as int).contains(i),
{
    kept_stays(batch, i, batch.len() as int);
}

proof fn kept_stays(batch: Seq<Command>, i: int, n: int)
    requires
        0 <= i < n <= batch.len(),
        kept(batch, i),
    ensures
        kept_of(batch, n).contains(i),
    decreases n,
{
    let before = kept_of(batch, n - 1);
    let after = kept_of(batch, n);
    if i == n - 1 {
        assert(after[after.len() - 1] == i);
    } else {
        kept_stays(batch, i, n - 1);
        let k = choose|k: int| 0 <= k < before.len() && before[k] == i;
        assert(after[k] == i);
    }
}

/// The loop a command is for, and its verb. One that will be refused reads
/// as the loop that is selected and no verb.
pub open spec fn parsed(sh: Shared, line: Seq<char>) -> (usize, Option<Verb>) {
    let body = line::body_of(line);
    match line::address_of(sh, body) {
        Address::Loop(li) => (
            li,
            match verb::command_of(line::rest_of(body)) {
                Some((v, _)) => Some(v),
                None => None,
            },
        ),
        Address::Select(li) => (li, None),
        _ => (line::selected(sh), None),
    }
}

/// The loop a command is for, and its verb.
pub fn parse(sh: &Shared, line: &str) -> (r: (usize, Option<Verb>))
    requires
        sh.wf(),
    ensures
        r == parsed(*sh, line@),
        r.0 < sh.size.n_loops,
{
    let (body, _) = line::split_late(line);
    match line::address(sh, body) {
        (Address::Loop(li), rest) => (
            li,
            match verb::tokenize(rest) {
                Some((v, _)) => Some(v),
                None => None,
            },
        ),
        (Address::Select(li), _) => (li, None),
        _ => (sh.sel(), None),
    }
}

/// Whether a command may change every loop, or reads them all.
pub open spec fn everywhere(v: Option<Verb>) -> bool {
    v == Some(Verb::Go) || v == Some(Verb::Export) || v == Some(Verb::ExportLayers)
}

/// The loops a command has to wait for.
pub fn touched(sh: &Shared, line: &str) -> (r: Vec<usize>)
    requires
        sh.wf(),
    ensures
        r@ == (if everywhere(parsed(*sh, line@).1) {
            Seq::new(sh.size.n_loops as nat, |i: int| i as usize)
        } else {
            seq![parsed(*sh, line@).0]
        }),
{
    let (li, v) = parse(sh, line);
    let all = match v {
        Some(v) => v == Verb::Go || v == Verb::Export || v == Verb::ExportLayers,
        None => false,
    };
    let mut r: Vec<usize> = Vec::new();
    if !all {
        r.push(li);
        assert(r@ =~= seq![li]);
        return r;
    }
    let n: usize = sh.size.n_loops;
    let mut i: usize = 0;
    while i < n
        invariant
            i <= n,
            r@ == Seq::new(i as nat, |k: int| k as usize),
        decreases n - i,
    {
        r.push(i);
        assert(r@ =~= Seq::new((i + 1) as nat, |k: int| k as usize));
        i = i + 1;
    }
    r
}

/// Where a loop's close stands.
#[derive(Clone, Copy, Debug, PartialEq, Eq, Structural)]
pub enum Stage {
    /// Filed for a frame.
    Filed(i64),
    /// Waiting for the input until a time, in milliseconds of a clock.
    Draining(u64),
}

/// Where a loop's close stands, if one is on its way.
pub open spec fn stage_of(lp: Loop) -> Option<Stage> {
    match lp.closing {
        None => None,
        Some(Closing::Filed(_)) => Some(Stage::Filed(lp.take.close_at)),
        Some(Closing::Draining(t)) => Some(Stage::Draining(t.due)),
    }
}

pub fn closing_stage(lp: &Loop) -> (r: Option<Stage>)
    ensures
        r == stage_of(*lp),
{
    match lp.closing {
        None => None,
        Some(Closing::Filed(_)) => Some(Stage::Filed(lp.take.close_at)),
        Some(Closing::Draining(t)) => Some(Stage::Draining(t.due)),
    }
}

/// How long a command that touches a loop has to wait for its take to drain,
/// in milliseconds: not at all where it is due, and there may be none.
pub open spec fn wait_of(lp: Loop, clock_ms: u64) -> Option<u64> {
    match lp.closing {
        Some(Closing::Draining(t)) => if t.due > clock_ms {
            Some((t.due - clock_ms) as u64)
        } else {
            Some(0)
        },
        _ => None,
    }
}

/// Before a command touches a loop: fire its close where its frame has come,
/// and say how long to wait where its take is draining. A close that is
/// filed for a frame still to come is left standing.
pub fn hold_for(sh: &mut Shared, li: usize, clock_ms: u64) -> (r: (Option<Closed>, Option<u64>))
    requires
        old(sh).wf(),
        li < old(sh).size.n_loops,
    ensures
        final(sh).wf(),
        commit::fire_step(*old(sh), li as int, old(sh).now(), clock_ms, *final(sh), r.0),
        r.1 == wait_of(final(sh).loops@[li as int], clock_ms),
{
    let now: i64 = sh.clock.out_frames as i64;
    let fired = commit::fire_due(sh, li, now, clock_ms);
    let wait: Option<u64> = match sh.loops[li].closing {
        Some(Closing::Draining(t)) => {
            if t.due > clock_ms {
                Some(t.due - clock_ms)
            } else {
                Some(0)
            }
        },
        _ => None,
    };
    (fired, wait)
}

/// Closes fired one loop after another, from a rig to a rig by way of the
/// ones between.
pub open spec fn fired_through(
    between: Seq<Shared>,
    now: int,
    clock_ms: u64,
    r: Seq<Option<Closed>>,
) -> bool {
    &&& between.len() == r.len() + 1
    &&& forall|i: int|
        0 <= i < r.len() ==> commit::fire_step(
            #[trigger] between[i],
            i,
            now,
            clock_ms,
            between[i + 1],
            r[i],
        )
}

/// Fire every close whose frame has come. What came of each is what comes
/// back, loop by loop.
pub fn tick(sh: &mut Shared, clock_ms: u64) -> (r: Vec<Option<Closed>>)
    requires
        old(sh).wf(),
    ensures
        final(sh).wf(),
        r@.len() == old(sh).size.n_loops,
        exists|between: Seq<Shared>|
            {
                &&& #[trigger] fired_through(between, old(sh).now(), clock_ms, r@)
                &&& between[0] == *old(sh)
                &&& between[r@.len() as int] == *final(sh)
            },
{
    let now: i64 = sh.clock.out_frames as i64;
    let n: usize = sh.size.n_loops;
    let mut out: Vec<Option<Closed>> = Vec::new();
    let ghost mut between: Seq<Shared> = seq![*sh];
    let mut i: usize = 0;
    while i < n
        invariant
            old(sh).wf(),
            sh.wf(),
            now == old(sh).now(),
            0 <= now,
            frame::shortly(now),
            n == old(sh).size.n_loops,
            sh.size == old(sh).size,
            i <= n,
            out@.len() == i,
            fired_through(between, now as int, clock_ms, out@),
            between[0] == *old(sh),
            between[i as int] == *sh,
        decreases n - i,
    {
        let fired = commit::fire_due(sh, i, now, clock_ms);
        let ghost before = between;
        proof {
            between = between.push(*sh);
            assert(forall|k: int| 0 <= k <= i ==> between[k] == before[k]);
        }
        out.push(fired);
        i = i + 1;
    }
    assert(fired_through(between, old(sh).now(), clock_ms, out@));
    out
}

/// Whether what is said back is carried to every client: not what the
/// console asked for.
pub fn carried(from: Caller) -> (r: bool)
    ensures
        r == (from != Caller::Console),
{
    match from {
        Caller::Console => false,
        _ => true,
    }
}

/// A command that may change every loop, or reads them all, waits for every
/// one; any other waits for the one it is for.
pub proof fn a_command_waits_for_what_it_touches(sh: Shared, line: Seq<char>, li: int)
    requires
        0 <= li < sh.size.n_loops,
    ensures
        parsed(sh, line).1 == Some(Verb::Go) ==> everywhere(parsed(sh, line).1),
        parsed(sh, line).1 == Some(Verb::Export) ==> everywhere(parsed(sh, line).1),
        parsed(sh, line).1 == Some(Verb::ExportLayers) ==> everywhere(parsed(sh, line).1),
        line::command_in(sh, line) matches Some((i, v, _)) ==> parsed(sh, line) == (i, Some(v)),
{
}

/// A command waits for a take that drains until it is due and no longer, and
/// for nothing else.
pub proof fn a_wait_is_until_the_take_is_due(lp: Loop, clock_ms: u64, t: Take)
    ensures
        lp.closing == Some(Closing::Draining(t)) ==> wait_of(lp, clock_ms) is Some,
        lp.closing == Some(Closing::Draining(t)) && clock_ms <= t.due ==> clock_ms + wait_of(
            lp,
            clock_ms,
        ).unwrap() == t.due,
        lp.closing == Some(Closing::Draining(t)) && t.due <= clock_ms ==> wait_of(
            lp,
            clock_ms,
        ).unwrap() == 0,
        lp.closing is None ==> wait_of(lp, clock_ms) is None,
        lp.closing matches Some(c) ==> c is Filed ==> wait_of(lp, clock_ms) is None,
{
}

/// A picture takes the place of one of the same loop that was asked for before
/// it, and of nothing else.
pub proof fn a_picture_replaces_one_of_its_loop(later: Seq<char>, line: Seq<char>)
    ensures
        pictured(line) != pictured(later) ==> !supersedes(later, line),
        !pictures(line) ==> !supersedes(later, line),
        !pictures(later) ==> !supersedes(later, line),
        pictures(line) && pictures(later) && pictured(line) == pictured(later) ==> supersedes(
            later,
            line,
        ),
{
}

/// A line that names a loop waits for that loop, even where it says no more;
/// and a close stands where it was filed or for as long as it drains.
pub proof fn a_line_waits_for_the_loop_it_names(sh: Shared, line: Seq<char>, li: usize, lp: Loop)
    ensures
        line::address_of(sh, line::body_of(line)) == Address::Select(li) ==> parsed(sh, line) == (
            li,
            None::<Verb>,
        ),
        line::address_of(sh, line::body_of(line)) == Address::Loop(li) ==> parsed(sh, line).0 == li,
        lp.closing is None ==> stage_of(lp) is None,
        lp.closing matches Some(Closing::Filed(_)) ==> stage_of(lp) == Some(
            Stage::Filed(lp.take.close_at),
        ),
        lp.closing matches Some(Closing::Draining(t)) ==> stage_of(lp) == Some(
            Stage::Draining(t.due),
        ),
{
}

} // verus!
