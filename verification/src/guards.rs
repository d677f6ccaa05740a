//! The refusals a command can meet before it acts.

use crate::ack::Said;
use crate::loop_state::Loop;
use crate::next_take::{ARMED, NEVER};
use crate::phase::Phase;
use crate::shared::Shared;
use vstd::prelude::*;

verus! {

/// Why a loop may not be changed: a take is on the way or under way.
pub open spec fn in_hand(lp: Loop, li: int) -> Option<Said> {
    if lp.next.waits() {
        Some(Said::WaitingForBar { li: li as usize })
    } else if lp.claims() {
        if lp.recording() {
            Some(Said::Recording { li: li as usize })
        } else {
            Some(Said::Listening { li: li as usize })
        }
    } else {
        None
    }
}

/// Refuse to change a loop while it waits for the bar, listens or records.
pub fn still_recording(lp: &Loop, li: usize) -> (r: Option<Said>)
    ensures
        r == in_hand(*lp, li as int),
{
    if lp.next.waits_for_boundary() {
        return Some(Said::WaitingForBar { li });
    }
    if lp.is_armed() {
        return Some(Said::Listening { li });
    }
    if lp.is_recording() {
        return Some(Said::Recording { li });
    }
    None
}

/// The first loop from `i` on that holds the input.
pub open spec fn claimant(sh: Shared, i: int) -> Option<usize>
    decreases sh.size.n_loops - i,
{
    if i < 0 || i >= sh.size.n_loops {
        None
    } else if sh.loops@[i].claims() {
        Some(i as usize)
    } else {
        claimant(sh, i + 1)
    }
}

/// Why a loop may not have the input: another has it.
pub open spec fn taken(sh: Shared, li: int) -> Option<Said> {
    match claimant(sh, 0) {
        Some(other) if other != li => Some(
            Said::InputHeld { other, phase: sh.loops@[other as int].state },
        ),
        _ => None,
    }
}

proof fn first_is_claimant(sh: Shared, i: int, r: Option<usize>)
    requires
        sh.first_claim(r),
        0 <= i <= sh.size.n_loops,
        r matches Some(c) ==> i <= c,
    ensures
        claimant(sh, i) == r,
    decreases sh.size.n_loops - i,
{
    if i < sh.size.n_loops && !sh.loops@[i].claims() {
        first_is_claimant(sh, i + 1, r);
    }
}

/// Refuse the input to a loop while another has it: there is one converter.
pub fn busy_elsewhere(sh: &Shared, li: usize) -> (r: Option<Said>)
    requires
        sh.wf(),
    ensures
        r == taken(*sh, li as int),
{
    let first = sh.input_claimed();
    proof {
        first_is_claimant(*sh, 0, first);
    }
    match first {
        Some(other) if other != li => Some(
            Said::InputHeld { other, phase: sh.loops[other].state },
        ),
        _ => None,
    }
}

/// Why a loop may not be recorded into as it plays now.
pub open spec fn unplain(lp: Loop, li: int) -> Option<Said> {
    if lp.is_plain() {
        None
    } else {
        Some(
            Said::NotPlain {
                li: li as usize,
                speed: lp.play.speed,
                pendulum: lp.play.pendulum,
            },
        )
    }
}

/// Why a loop may not be written into now: a write head cannot follow one
/// that swings, a tape runs at rate one, and a first take has no play head to
/// follow, whether or not the loop has a length.
pub open spec fn unwritable(lp: Loop, li: int) -> Option<Said> {
    if lp.play.pendulum {
        Some(Said::Swinging { li: li as usize })
    } else if lp.habit.revox && !lp.is_plain() {
        Some(Said::TapeSpeed { li: li as usize, speed: lp.play.speed })
    } else if lp.body.n_layers == 0 {
        unplain(lp, li)
    } else {
        None
    }
}

/// Refuse to record into a loop that does not play plainly.
pub fn not_plain(lp: &Loop, li: usize) -> (r: Option<Said>)
    ensures
        r == unplain(*lp, li as int),
{
    if lp.plain() {
        return None;
    }
    Some(Said::NotPlain { li, speed: lp.play.speed, pendulum: lp.play.pendulum })
}

/// Refuse to write into a loop whose play head cannot be followed.
pub fn not_writable(lp: &Loop, li: usize) -> (r: Option<Said>)
    ensures
        r == unwritable(*lp, li as int),
{
    if lp.play.pendulum {
        return Some(Said::Swinging { li });
    }
    if lp.habit.revox && !lp.plain() {
        return Some(Said::TapeSpeed { li, speed: lp.play.speed });
    }
    if lp.body.n_layers == 0 {
        return not_plain(lp, li);
    }
    None
}

/// One loop has the input at a time: it is refused while another records or
/// listens, which is the one that is named, and never for any other reason.
pub proof fn the_input_is_refused_while_another_has_it(sh: Shared, li: int, j: int)
    requires
        0 <= li < sh.size.n_loops,
        0 <= j < sh.size.n_loops,
        !sh.loops@[li].claims(),
    ensures
        sh.loops@[j].state == Phase::Armed || sh.loops@[j].recording() ==> taken(sh, li) is Some,
        taken(sh, li) matches Some(why) ==> (why matches Said::InputHeld { other, phase } && other
            != li && other < sh.size.n_loops && phase == sh.loops@[other as int].state
            && sh.loops@[other as int].state != Phase::Idle && sh.loops@[other as int].state
            != Phase::Playing),
{
    first_found(sh, 0, j);
}

proof fn first_found(sh: Shared, i: int, j: int)
    requires
        0 <= i <= sh.size.n_loops,
        0 <= j < sh.size.n_loops,
    ensures
        i <= j && sh.loops@[j].claims() ==> claimant(sh, i) is Some,
        claimant(sh, i) matches Some(c) ==> i <= c < sh.size.n_loops
            && sh.loops@[c as int].claims(),
    decreases sh.size.n_loops - i,
{
    if i < sh.size.n_loops && !sh.loops@[i].claims() {
        first_found(sh, i + 1, j);
    }
}

/// A loop may be changed unless a take is on its way to it or under way: it
/// waits for a line to record from, it listens or it records.
pub proof fn a_loop_is_in_hand_while_a_take_is(lp: Loop, li: int)
    ensures
        in_hand(lp, li) is None <==> (lp.state == Phase::Idle || lp.state == Phase::Playing)
            && !(lp.next.request == ARMED && lp.next.request_at != NEVER),
{
}

/// A loop can be written into where its play head can be followed: never where
/// it swings, on a tape only at rate one and whole, and a first take only so
/// too.
pub proof fn a_loop_is_written_into_where_it_can_be_followed(lp: Loop, li: int)
    ensures
        unwritable(lp, li) is None <==> !lp.play.pendulum && (lp.habit.revox || lp.body.n_layers
            == 0 ==> lp.is_plain()),
{
}

proof fn none_found(sh: Shared, i: int, li: int)
    requires
        0 <= i,
        forall|j: int|
            0 <= j < sh.size.n_loops && j != li ==> !(#[trigger] sh.loops@[j]).claims(),
    ensures
        claimant(sh, i) matches Some(k) ==> k == li,
    decreases sh.size.n_loops - i,
{
    if i < sh.size.n_loops {
        none_found(sh, i + 1, li);
    }
}

/// The input is a loop's own to take where no other has it, whatever the loop
/// itself is doing.
pub proof fn the_input_is_free_where_no_other_has_it(sh: Shared, li: int)
    requires
        forall|j: int|
            0 <= j < sh.size.n_loops && j != li ==> sh.loops@[j].state == Phase::Idle || (
            #[trigger] sh.loops@[j]).state == Phase::Playing,
    ensures
        taken(sh, li) is None,
{
    none_found(sh, 0, li);
}

} // verus!
