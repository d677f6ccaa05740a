//! What every command keeps to, whatever it is: what could not be read
//! changes nothing, no other loop is touched, a loop goes from phase to phase
//! as it may, the input stays with the loop that has it, and no loop is pointed at
//! a source that is off.

use crate::ack::{Ack, Said};
use crate::bits;
use crate::clear;
use crate::closing::{Caller, Take};
use crate::cycle;
use crate::dispatch;
use crate::dispatch::{Lateness, Reading, Sent};
use crate::finish;
use crate::guards;
use crate::input;
use crate::input::Landed;
use crate::knobs;
use crate::line;
use crate::line::Address;
use crate::loop_state::{Habit, Loop, Play};
use crate::multiply;
use crate::next_take::{ARMED, NEVER};
use crate::phase;
use crate::phase::Phase;
use crate::record;
use crate::shared;
use crate::shared::Shared;
use crate::stack;
use crate::text;
use crate::verb::Verb;
use crate::window;
use vstd::prelude::*;

verus! {

proof fn unread_press(
    pre: Shared,
    li: int,
    v: Verb,
    arg: Seq<char>,
    rest: Seq<char>,
    reading: Reading,
    sent: Sent,
    post: Shared,
    a: Ack,
)
    requires
        dispatch::press_step(pre, li, v, arg, rest, reading, sent, post, a),
        a is Misread,
    ensures
        post == pre,
{
}

proof fn unread_layer(
    pre: Shared,
    li: int,
    v: Verb,
    arg: Seq<char>,
    rest: Seq<char>,
    post: Shared,
    a: Ack,
)
    requires
        dispatch::layer_step(pre, li, v, arg, rest, post, a),
        a is Misread,
    ensures
        post == pre,
{
}

proof fn unread_number(
    pre: Shared,
    li: int,
    v: Verb,
    arg: Seq<char>,
    reading: Reading,
    post: Shared,
    a: Ack,
)
    requires
        dispatch::number_step(pre, li, v, arg, reading, post, a),
        a is Misread,
    ensures
        post == pre,
{
}

/// What a verb does to a loop, where it cannot be read.
proof fn unread_verb(
    pre: Shared,
    li: int,
    v: Verb,
    arg: Seq<char>,
    rest: Seq<char>,
    reading: Reading,
    sent: Sent,
    post: Shared,
    a: Ack,
)
    requires
        dispatch::verb_step(pre, li, v, arg, rest, reading, sent, post, a),
        a is Misread,
    ensures
        post == pre,
{
    if dispatch::edits(v) {
    } else if dispatch::presses(v) {
        unread_press(pre, li, v, arg, rest, reading, sent, post, a);
    } else if dispatch::layers(v) {
        unread_layer(pre, li, v, arg, rest, post, a);
    } else if dispatch::numbers(v) {
        unread_number(pre, li, v, arg, reading, post, a);
    }
}

/// A command that could not be read changes nothing.
pub proof fn what_cannot_be_read_changes_nothing(
    pre: Shared,
    line: Seq<char>,
    late: Option<Lateness>,
    reading: Reading,
    from: Caller,
    clock_ms: u64,
    post: Shared,
    a: Ack,
)
    requires
        dispatch::dispatch_step(pre, line, late, reading, from, clock_ms, post, a),
        a is Misread,
    ensures
        post == pre,
{
    let body = line::body_of(line);
    let rest = line::rest_of(body);
    let sent = Sent { late: dispatch::late_frames(line, late), from, clock_ms };
    if line::late_of(line) is Some && !dispatch::late_ok(late) {
    } else if let Address::Loop(li) = line::address_of(pre, body) {
        if let Some((v, arg)) = line::asked(rest) {
            unread_verb(pre, li as int, v, arg, rest, reading, sent, post, a);
        }
    }
}

/// Only one loop is touched: the others, and their audio, are what they were.
pub open spec fn touches_only(pre: Shared, li: int, post: Shared) -> bool {
    &&& post.size == pre.size
    &&& post.loops@.len() == pre.loops@.len()
    &&& forall|i: int|
        0 <= i < pre.loops@.len() && i != li ==> #[trigger] post.loops@[i] == pre.loops@[i]
    &&& post.audio().len() == pre.audio().len()
    &&& forall|i: int|
        0 <= i < pre.audio().len() && i != li ==> #[trigger] post.audio()[i] == pre.audio()[i]
}

proof fn edits_touch_one(
    pre: Shared,
    li: int,
    v: Verb,
    arg: Seq<char>,
    rest: Seq<char>,
    post: Shared,
    a: Ack,
)
    requires
        pre.wf(),
        0 <= li < pre.size.n_loops,
        dispatch::edit_step(pre, li, v, arg, rest, post, a),
    ensures
        touches_only(pre, li, post),
{
}

proof fn flags_touch_one(
    pre: Shared,
    li: int,
    v: Verb,
    flag: Option<bool>,
    post: Shared,
    a: Ack,
)
    requires
        pre.wf(),
        0 <= li < pre.size.n_loops,
        dispatch::flag_step(pre, li, v, flag, post, a),
    ensures
        touches_only(pre, li, post),
{
}

proof fn numbers_touch_one(
    pre: Shared,
    li: int,
    v: Verb,
    arg: Seq<char>,
    reading: Reading,
    post: Shared,
    a: Ack,
)
    requires
        pre.wf(),
        0 <= li < pre.size.n_loops,
        dispatch::number_step(pre, li, v, arg, reading, post, a),
    ensures
        touches_only(pre, li, post),
{
}

proof fn others_touch_one(
    pre: Shared,
    li: int,
    v: Verb,
    arg: Seq<char>,
    rest: Seq<char>,
    post: Shared,
    a: Ack,
)
    requires
        pre.wf(),
        0 <= li < pre.size.n_loops,
        dispatch::other_step(pre, li, v, arg, rest, post, a),
    ensures
        touches_only(pre, li, post),
{
}

proof fn layers_touch_one(
    pre: Shared,
    li: int,
    v: Verb,
    arg: Seq<char>,
    rest: Seq<char>,
    post: Shared,
    a: Ack,
)
    requires
        pre.wf(),
        0 <= li < pre.size.n_loops,
        v != Verb::Go,
        dispatch::layer_step(pre, li, v, arg, rest, post, a),
    ensures
        touches_only(pre, li, post),
{
}

proof fn presses_touch_one(
    pre: Shared,
    li: int,
    v: Verb,
    arg: Seq<char>,
    rest: Seq<char>,
    reading: Reading,
    sent: Sent,
    post: Shared,
    a: Ack,
)
    requires
        pre.wf(),
        0 <= li < pre.size.n_loops,
        dispatch::press_step(pre, li, v, arg, rest, reading, sent, post, a),
    ensures
        touches_only(pre, li, post),
{
}

/// A command changes the loop it addresses and no other: only starting them
/// all together is about more than one.
pub proof fn a_command_touches_its_own_loop(
    pre: Shared,
    li: int,
    v: Verb,
    arg: Seq<char>,
    rest: Seq<char>,
    reading: Reading,
    sent: Sent,
    post: Shared,
    a: Ack,
)
    requires
        pre.wf(),
        0 <= li < pre.size.n_loops,
        v != Verb::Go,
        dispatch::verb_step(pre, li, v, arg, rest, reading, sent, post, a),
    ensures
        touches_only(pre, li, post),
{
    if dispatch::edits(v) {
        edits_touch_one(pre, li, v, arg, rest, post, a);
    } else if dispatch::presses(v) {
        presses_touch_one(pre, li, v, arg, rest, reading, sent, post, a);
    } else if dispatch::layers(v) {
        layers_touch_one(pre, li, v, arg, rest, post, a);
    } else if dispatch::numbers(v) {
        numbers_touch_one(pre, li, v, arg, reading, post, a);
    } else if dispatch::flags(v) {
        flags_touch_one(pre, li, v, line::flag_of(arg), post, a);
    } else {
        others_touch_one(pre, li, v, arg, rest, post, a);
    }
}

/// A loop has stayed in its phase, or gone to one that it may go to.
pub open spec fn moved_as_it_may(from: Phase, to: Phase) -> bool {
    to == from || phase::may_go(from, to)
}

proof fn edits_keep_the_phase(
    pre: Shared,
    li: int,
    v: Verb,
    arg: Seq<char>,
    rest: Seq<char>,
    post: Shared,
    a: Ack,
)
    requires
        pre.wf(),
        0 <= li < pre.size.n_loops,
        dispatch::edit_step(pre, li, v, arg, rest, post, a),
    ensures
        post.loops@[li].state == pre.loops@[li].state,
{
}

proof fn tone_keeps_the_phase(
    pre: Shared,
    li: int,
    v: Verb,
    arg: Seq<char>,
    reading: Reading,
    post: Shared,
    a: Ack,
)
    requires
        pre.wf(),
        0 <= li < pre.size.n_loops,
        v == Verb::Tone || v == Verb::Feedback,
        dispatch::number_step(pre, li, v, arg, reading, post, a),
    ensures
        post.loops@[li].state == pre.loops@[li].state,
{
}

proof fn level_keeps_the_phase(
    pre: Shared,
    li: int,
    v: Verb,
    arg: Seq<char>,
    reading: Reading,
    post: Shared,
    a: Ack,
)
    requires
        pre.wf(),
        0 <= li < pre.size.n_loops,
        v == Verb::Decay || v == Verb::Vol,
        dispatch::number_step(pre, li, v, arg, reading, post, a),
    ensures
        post.loops@[li].state == pre.loops@[li].state,
{
}

proof fn chance_keeps_the_phase(
    pre: Shared,
    li: int,
    v: Verb,
    arg: Seq<char>,
    reading: Reading,
    post: Shared,
    a: Ack,
)
    requires
        pre.wf(),
        0 <= li < pre.size.n_loops,
        v == Verb::Chance,
        dispatch::number_step(pre, li, v, arg, reading, post, a),
    ensures
        post.loops@[li].state == pre.loops@[li].state,
{
}

proof fn fade_keeps_the_phase(
    pre: Shared,
    li: int,
    v: Verb,
    arg: Seq<char>,
    reading: Reading,
    post: Shared,
    a: Ack,
)
    requires
        pre.wf(),
        0 <= li < pre.size.n_loops,
        v == Verb::Fade || v == Verb::ArmLevel,
        dispatch::number_step(pre, li, v, arg, reading, post, a),
    ensures
        post.loops@[li].state == pre.loops@[li].state,
{
}

proof fn speed_keeps_the_phase(
    pre: Shared,
    li: int,
    v: Verb,
    arg: Seq<char>,
    reading: Reading,
    post: Shared,
    a: Ack,
)
    requires
        pre.wf(),
        0 <= li < pre.size.n_loops,
        v == Verb::Speed,
        dispatch::number_step(pre, li, v, arg, reading, post, a),
    ensures
        post.loops@[li].state == pre.loops@[li].state,
{
}

proof fn numbers_keep_the_phase(
    pre: Shared,
    li: int,
    v: Verb,
    arg: Seq<char>,
    reading: Reading,
    post: Shared,
    a: Ack,
)
    requires
        pre.wf(),
        0 <= li < pre.size.n_loops,
        dispatch::numbers(v),
        dispatch::number_step(pre, li, v, arg, reading, post, a),
    ensures
        post.loops@[li].state == pre.loops@[li].state,
{
    match v {
        Verb::Tone | Verb::Feedback => tone_keeps_the_phase(pre, li, v, arg, reading, post, a),
        Verb::Decay | Verb::Vol => level_keeps_the_phase(pre, li, v, arg, reading, post, a),
        Verb::Chance => chance_keeps_the_phase(pre, li, v, arg, reading, post, a),
        Verb::Fade | Verb::ArmLevel => fade_keeps_the_phase(pre, li, v, arg, reading, post, a),
        _ => speed_keeps_the_phase(pre, li, v, arg, reading, post, a),
    }
}

proof fn others_keep_the_phase(
    pre: Shared,
    li: int,
    v: Verb,
    arg: Seq<char>,
    rest: Seq<char>,
    post: Shared,
    a: Ack,
)
    requires
        pre.wf(),
        0 <= li < pre.size.n_loops,
        dispatch::other_step(pre, li, v, arg, rest, post, a),
    ensures
        post.loops@[li].state == pre.loops@[li].state,
{
}

proof fn reverse_keeps_the_phase(
    pre: Shared,
    li: int,
    v: Verb,
    flag: Option<bool>,
    post: Shared,
    a: Ack,
)
    requires
        pre.wf(),
        0 <= li < pre.size.n_loops,
        v == Verb::Reverse || v == Verb::Pendulum,
        dispatch::flag_step(pre, li, v, flag, post, a),
    ensures
        post.loops@[li].state == pre.loops@[li].state,
{
}

proof fn level_arm_moves_as_it_may(
    pre: Shared,
    li: int,
    v: Verb,
    flag: Option<bool>,
    post: Shared,
    a: Ack,
)
    requires
        pre.wf(),
        0 <= li < pre.size.n_loops,
        v == Verb::LevelArm,
        dispatch::flag_step(pre, li, v, flag, post, a),
    ensures
        moved_as_it_may(pre.loops@[li].state, post.loops@[li].state),
{
}

proof fn switches_keep_the_phase(
    pre: Shared,
    li: int,
    v: Verb,
    flag: Option<bool>,
    post: Shared,
    a: Ack,
)
    requires
        pre.wf(),
        0 <= li < pre.size.n_loops,
        v == Verb::Mono || v == Verb::Halt || v == Verb::OneShot,
        dispatch::flag_step(pre, li, v, flag, post, a),
    ensures
        post.loops@[li].state == pre.loops@[li].state,
{
}

proof fn rig_flags_keep_the_phase(
    pre: Shared,
    li: int,
    v: Verb,
    flag: Option<bool>,
    post: Shared,
    a: Ack,
)
    requires
        pre.wf(),
        0 <= li < pre.size.n_loops,
        v == Verb::Grid || v == Verb::Click || v == Verb::Monitor,
        dispatch::flag_step(pre, li, v, flag, post, a),
    ensures
        post.loops@[li].state == pre.loops@[li].state,
{
}

proof fn flags_move_as_they_may(
    pre: Shared,
    li: int,
    v: Verb,
    flag: Option<bool>,
    post: Shared,
    a: Ack,
)
    requires
        pre.wf(),
        0 <= li < pre.size.n_loops,
        dispatch::flags(v),
        dispatch::flag_step(pre, li, v, flag, post, a),
    ensures
        moved_as_it_may(pre.loops@[li].state, post.loops@[li].state),
{
    match v {
        Verb::Reverse | Verb::Pendulum => reverse_keeps_the_phase(pre, li, v, flag, post, a),
        Verb::LevelArm => level_arm_moves_as_it_may(pre, li, v, flag, post, a),
        Verb::Grid | Verb::Click | Verb::Monitor => rig_flags_keep_the_phase(
            pre,
            li,
            v,
            flag,
            post,
            a,
        ),
        _ => switches_keep_the_phase(pre, li, v, flag, post, a),
    }
}

proof fn layers_move_as_they_may(
    pre: Shared,
    li: int,
    v: Verb,
    arg: Seq<char>,
    rest: Seq<char>,
    post: Shared,
    a: Ack,
)
    requires
        pre.wf(),
        0 <= li < pre.size.n_loops,
        dispatch::layer_step(pre, li, v, arg, rest, post, a),
    ensures
        moved_as_it_may(pre.loops@[li].state, post.loops@[li].state),
{
}

proof fn presses_move_as_they_may(
    pre: Shared,
    li: int,
    v: Verb,
    arg: Seq<char>,
    rest: Seq<char>,
    reading: Reading,
    sent: Sent,
    post: Shared,
    a: Ack,
)
    requires
        pre.wf(),
        0 <= li < pre.size.n_loops,
        dispatch::press_step(pre, li, v, arg, rest, reading, sent, post, a),
    ensures
        moved_as_it_may(pre.loops@[li].state, post.loops@[li].state),
{
}

/// Whatever a verb asks of a loop, the loop stays in its phase or goes to one
/// that it may go to.
pub proof fn a_command_makes_only_legal_moves(
    pre: Shared,
    li: int,
    v: Verb,
    arg: Seq<char>,
    rest: Seq<char>,
    reading: Reading,
    sent: Sent,
    post: Shared,
    a: Ack,
)
    requires
        pre.wf(),
        0 <= li < pre.size.n_loops,
        dispatch::verb_step(pre, li, v, arg, rest, reading, sent, post, a),
    ensures
        moved_as_it_may(pre.loops@[li].state, post.loops@[li].state),
{
    if dispatch::edits(v) {
        edits_keep_the_phase(pre, li, v, arg, rest, post, a);
    } else if dispatch::presses(v) {
        presses_move_as_they_may(pre, li, v, arg, rest, reading, sent, post, a);
    } else if dispatch::layers(v) {
        layers_move_as_they_may(pre, li, v, arg, rest, post, a);
    } else if dispatch::numbers(v) {
        numbers_keep_the_phase(pre, li, v, arg, reading, post, a);
    } else if dispatch::flags(v) {
        flags_move_as_they_may(pre, li, v, line::flag_of(arg), post, a);
    } else {
        others_keep_the_phase(pre, li, v, arg, rest, post, a);
    }
}

/// Where a loop claims the input, the first that does is found.
proof fn claimed_is_found(sh: Shared, i: int, other: int)
    requires
        0 <= i <= other < sh.size.n_loops,
        sh.loops@[other].claims(),
    ensures
        guards::claimant(sh, i) is Some,
        i <= guards::claimant(sh, i).unwrap() < sh.size.n_loops,
        sh.loops@[guards::claimant(sh, i).unwrap() as int].claims(),
    decreases other - i,
{
    if !sh.loops@[i].claims() {
        claimed_is_found(sh, i + 1, other);
    }
}

/// A loop has not come to have the input, nor is it to have it.
pub open spec fn no_nearer_the_input(pre: Loop, post: Loop) -> bool {
    &&& !post.claims()
    &&& post.next.request == ARMED ==> pre.next.request == ARMED
}

proof fn edits_leave_the_input(
    pre: Shared,
    li: int,
    v: Verb,
    arg: Seq<char>,
    rest: Seq<char>,
    post: Shared,
    a: Ack,
)
    requires
        pre.wf(),
        0 <= li < pre.size.n_loops,
        !pre.loops@[li].claims(),
        dispatch::edit_step(pre, li, v, arg, rest, post, a),
    ensures
        no_nearer_the_input(pre.loops@[li], post.loops@[li]),
{
}

proof fn numbers_leave_the_input(
    pre: Shared,
    li: int,
    v: Verb,
    arg: Seq<char>,
    reading: Reading,
    post: Shared,
    a: Ack,
)
    requires
        pre.wf(),
        0 <= li < pre.size.n_loops,
        !pre.loops@[li].claims(),
        dispatch::numbers(v),
        dispatch::number_step(pre, li, v, arg, reading, post, a),
    ensures
        no_nearer_the_input(pre.loops@[li], post.loops@[li]),
{
}

proof fn flags_leave_the_input(
    pre: Shared,
    li: int,
    v: Verb,
    flag: Option<bool>,
    post: Shared,
    a: Ack,
)
    requires
        pre.wf(),
        0 <= li < pre.size.n_loops,
        !pre.loops@[li].claims(),
        dispatch::flags(v),
        dispatch::flag_step(pre, li, v, flag, post, a),
    ensures
        no_nearer_the_input(pre.loops@[li], post.loops@[li]),
{
}

proof fn layers_leave_the_input(
    pre: Shared,
    li: int,
    v: Verb,
    arg: Seq<char>,
    rest: Seq<char>,
    post: Shared,
    a: Ack,
)
    requires
        pre.wf(),
        0 <= li < pre.size.n_loops,
        !pre.loops@[li].claims(),
        dispatch::layer_step(pre, li, v, arg, rest, post, a),
    ensures
        no_nearer_the_input(pre.loops@[li], post.loops@[li]),
{
}

proof fn others_leave_the_input(
    pre: Shared,
    li: int,
    v: Verb,
    arg: Seq<char>,
    rest: Seq<char>,
    post: Shared,
    a: Ack,
)
    requires
        pre.wf(),
        0 <= li < pre.size.n_loops,
        !pre.loops@[li].claims(),
        dispatch::other_step(pre, li, v, arg, rest, post, a),
    ensures
        no_nearer_the_input(pre.loops@[li], post.loops@[li]),
{
}

proof fn presses_leave_the_input(
    pre: Shared,
    li: int,
    v: Verb,
    arg: Seq<char>,
    rest: Seq<char>,
    reading: Reading,
    sent: Sent,
    post: Shared,
    a: Ack,
)
    requires
        pre.wf(),
        0 <= li < pre.size.n_loops,
        !pre.loops@[li].claims(),
        guards::taken(pre, li) is Some,
        dispatch::press_step(pre, li, v, arg, rest, reading, sent, post, a),
    ensures
        no_nearer_the_input(pre.loops@[li], post.loops@[li]),
{
}

/// Starting every loop together leaves one that has the input alone.
proof fn starting_all_leaves_a_take(
    pre: Shared,
    li: int,
    arg: Seq<char>,
    rest: Seq<char>,
    post: Shared,
    a: Ack,
    other: int,
)
    requires
        pre.wf(),
        0 <= other < pre.size.n_loops,
        pre.loops@[other].claims(),
        dispatch::layer_step(pre, li, Verb::Go, arg, rest, post, a),
    ensures
        post.loops@[other] == pre.loops@[other],
{
}

/// There is one converter: while one loop has the input, a command for any
/// other leaves it there and as it is, and brings its own no nearer to it.
pub proof fn a_command_leaves_the_input_with_its_loop(
    pre: Shared,
    li: int,
    v: Verb,
    arg: Seq<char>,
    rest: Seq<char>,
    reading: Reading,
    sent: Sent,
    post: Shared,
    a: Ack,
    other: int,
)
    requires
        pre.wf(),
        0 <= li < pre.size.n_loops,
        0 <= other < pre.size.n_loops,
        pre.loops@[other].claims(),
        !pre.loops@[li].claims(),
        dispatch::verb_step(pre, li, v, arg, rest, reading, sent, post, a),
    ensures
        no_nearer_the_input(pre.loops@[li], post.loops@[li]),
        post.loops@[other] == pre.loops@[other],
{
    claimed_is_found(pre, 0, other);
    if v == Verb::Go {
        starting_all_leaves_a_take(pre, li, arg, rest, post, a, other);
    } else {
        a_command_touches_its_own_loop(pre, li, v, arg, rest, reading, sent, post, a);
    }
    if dispatch::edits(v) {
        edits_leave_the_input(pre, li, v, arg, rest, post, a);
    } else if dispatch::presses(v) {
        presses_leave_the_input(pre, li, v, arg, rest, reading, sent, post, a);
    } else if dispatch::layers(v) {
        layers_leave_the_input(pre, li, v, arg, rest, post, a);
    } else if dispatch::numbers(v) {
        numbers_leave_the_input(pre, li, v, arg, reading, post, a);
    } else if dispatch::flags(v) {
        flags_leave_the_input(pre, li, v, line::flag_of(arg), post, a);
    } else {
        others_leave_the_input(pre, li, v, arg, rest, post, a);
    }
}

/// Every loop records from the source it recorded from.
pub open spec fn keep_their_sources(pre: Shared, post: Shared) -> bool {
    &&& post.sources == pre.sources
    &&& post.loops@.len() == pre.loops@.len()
    &&& forall|i: int|
        0 <= i < pre.loops@.len() ==> (#[trigger] post.loops@[i]).habit.src
            == pre.loops@[i].habit.src
}

proof fn edits_keep_the_sources(
    pre: Shared,
    li: int,
    v: Verb,
    arg: Seq<char>,
    rest: Seq<char>,
    post: Shared,
    a: Ack,
)
    requires
        pre.wf(),
        0 <= li < pre.size.n_loops,
        dispatch::edits(v),
        dispatch::edit_step(pre, li, v, arg, rest, post, a),
    ensures
        keep_their_sources(pre, post),
{
}

proof fn numbers_keep_the_sources(
    pre: Shared,
    li: int,
    v: Verb,
    arg: Seq<char>,
    reading: Reading,
    post: Shared,
    a: Ack,
)
    requires
        pre.wf(),
        0 <= li < pre.size.n_loops,
        dispatch::numbers(v),
        dispatch::number_step(pre, li, v, arg, reading, post, a),
    ensures
        keep_their_sources(pre, post),
{
}

proof fn flags_keep_the_sources(
    pre: Shared,
    li: int,
    v: Verb,
    flag: Option<bool>,
    post: Shared,
    a: Ack,
)
    requires
        pre.wf(),
        0 <= li < pre.size.n_loops,
        dispatch::flags(v),
        dispatch::flag_step(pre, li, v, flag, post, a),
    ensures
        keep_their_sources(pre, post),
{
}

proof fn layers_keep_the_sources(
    pre: Shared,
    li: int,
    v: Verb,
    arg: Seq<char>,
    rest: Seq<char>,
    post: Shared,
    a: Ack,
)
    requires
        pre.wf(),
        0 <= li < pre.size.n_loops,
        dispatch::layers(v),
        dispatch::layer_step(pre, li, v, arg, rest, post, a),
    ensures
        keep_their_sources(pre, post),
{
}

proof fn presses_keep_the_sources(
    pre: Shared,
    li: int,
    v: Verb,
    arg: Seq<char>,
    rest: Seq<char>,
    reading: Reading,
    sent: Sent,
    post: Shared,
    a: Ack,
)
    requires
        pre.wf(),
        0 <= li < pre.size.n_loops,
        dispatch::presses(v),
        dispatch::press_step(pre, li, v, arg, rest, reading, sent, post, a),
    ensures
        keep_their_sources(pre, post),
{
}

proof fn others_point_at_what_is_on(
    pre: Shared,
    li: int,
    v: Verb,
    arg: Seq<char>,
    rest: Seq<char>,
    post: Shared,
    a: Ack,
)
    requires
        pre.wf(),
        0 <= li < pre.size.n_loops,
        dispatch::other_step(pre, li, v, arg, rest, post, a),
    ensures
        keep_their_sources(pre, post) || {
            &&& post.sources == pre.sources
            &&& touches_only(pre, li, post)
            &&& post.sources@[post.source_of(li)].available
        },
{
}

/// A source whose interface is off cannot be selected: a command leaves every
/// loop on the source it is on, or points one at a source that is on. The
/// sources and their numbers stay as they are.
pub proof fn a_command_selects_no_source_that_is_off(
    pre: Shared,
    li: int,
    v: Verb,
    arg: Seq<char>,
    rest: Seq<char>,
    reading: Reading,
    sent: Sent,
    post: Shared,
    a: Ack,
    i: int,
)
    requires
        pre.wf(),
        0 <= li < pre.size.n_loops,
        0 <= i < pre.size.n_loops,
        dispatch::verb_step(pre, li, v, arg, rest, reading, sent, post, a),
    ensures
        post.sources == pre.sources,
        post.loops@[i].habit.src == pre.loops@[i].habit.src || post.sources@[post.source_of(
            i,
        )].available,
{
    if dispatch::edits(v) {
        edits_keep_the_sources(pre, li, v, arg, rest, post, a);
    } else if dispatch::presses(v) {
        presses_keep_the_sources(pre, li, v, arg, rest, reading, sent, post, a);
    } else if dispatch::layers(v) {
        layers_keep_the_sources(pre, li, v, arg, rest, post, a);
    } else if dispatch::numbers(v) {
        numbers_keep_the_sources(pre, li, v, arg, reading, post, a);
    } else if dispatch::flags(v) {
        flags_keep_the_sources(pre, li, v, line::flag_of(arg), post, a);
    } else {
        others_point_at_what_is_on(pre, li, v, arg, rest, post, a);
    }
}

/// What a loop keeps for redo, it kept or played before, sample for sample.
pub open spec fn keeps_for_redo(pre: Shared, post: Shared, i: int) -> bool {
    forall|l: int|
        post.loops@[i].body.n_layers <= l < post.loops@[i].body.redo_to ==> {
            &&& l < pre.loops@[i].body.n_layers || l < pre.loops@[i].body.redo_to
            &&& #[trigger] post.audio()[i][l] == pre.audio()[i][l]
        }
}

proof fn edits_keep_for_redo(
    pre: Shared,
    li: int,
    v: Verb,
    arg: Seq<char>,
    rest: Seq<char>,
    post: Shared,
    a: Ack,
)
    requires
        pre.wf(),
        0 <= li < pre.size.n_loops,
        dispatch::edits(v),
        dispatch::edit_step(pre, li, v, arg, rest, post, a),
    ensures
        keeps_for_redo(pre, post, li),
{
}

proof fn numbers_keep_for_redo(
    pre: Shared,
    li: int,
    v: Verb,
    arg: Seq<char>,
    reading: Reading,
    post: Shared,
    a: Ack,
)
    requires
        pre.wf(),
        0 <= li < pre.size.n_loops,
        dispatch::numbers(v),
        dispatch::number_step(pre, li, v, arg, reading, post, a),
    ensures
        keeps_for_redo(pre, post, li),
{
}

proof fn flags_keep_for_redo(
    pre: Shared,
    li: int,
    v: Verb,
    flag: Option<bool>,
    post: Shared,
    a: Ack,
)
    requires
        pre.wf(),
        0 <= li < pre.size.n_loops,
        dispatch::flags(v),
        dispatch::flag_step(pre, li, v, flag, post, a),
    ensures
        keeps_for_redo(pre, post, li),
{
}

proof fn layers_keep_for_redo(
    pre: Shared,
    li: int,
    v: Verb,
    arg: Seq<char>,
    rest: Seq<char>,
    post: Shared,
    a: Ack,
)
    requires
        pre.wf(),
        0 <= li < pre.size.n_loops,
        dispatch::layers(v),
        dispatch::layer_step(pre, li, v, arg, rest, post, a),
    ensures
        keeps_for_redo(pre, post, li),
{
}

proof fn presses_keep_for_redo(
    pre: Shared,
    li: int,
    v: Verb,
    arg: Seq<char>,
    rest: Seq<char>,
    reading: Reading,
    sent: Sent,
    post: Shared,
    a: Ack,
)
    requires
        pre.wf(),
        0 <= li < pre.size.n_loops,
        dispatch::presses(v),
        dispatch::press_step(pre, li, v, arg, rest, reading, sent, post, a),
    ensures
        keeps_for_redo(pre, post, li),
{
    assert(pre.loop_ok(pre.loops@[li]));
    shared::sized(pre.loops@[li], pre.size.max_layers, pre.size.max_frames);
    assert(pre.audio()[li].len() == pre.size.max_layers);
}

proof fn others_keep_for_redo(
    pre: Shared,
    li: int,
    v: Verb,
    arg: Seq<char>,
    rest: Seq<char>,
    post: Shared,
    a: Ack,
)
    requires
        pre.wf(),
        0 <= li < pre.size.n_loops,
        dispatch::other_step(pre, li, v, arg, rest, post, a),
    ensures
        keeps_for_redo(pre, post, li),
{
}

/// Redo never offers what was recorded over: whatever a verb asks of a loop,
/// each layer that redo would bring back after it holds what it held before
/// it, and was playing then or kept for redo.
pub proof fn redo_offers_nothing_that_was_recorded_over(
    pre: Shared,
    li: int,
    v: Verb,
    arg: Seq<char>,
    rest: Seq<char>,
    reading: Reading,
    sent: Sent,
    post: Shared,
    a: Ack,
)
    requires
        pre.wf(),
        0 <= li < pre.size.n_loops,
        dispatch::verb_step(pre, li, v, arg, rest, reading, sent, post, a),
    ensures
        keeps_for_redo(pre, post, li),
{
    if dispatch::edits(v) {
        edits_keep_for_redo(pre, li, v, arg, rest, post, a);
    } else if dispatch::presses(v) {
        presses_keep_for_redo(pre, li, v, arg, rest, reading, sent, post, a);
    } else if dispatch::layers(v) {
        layers_keep_for_redo(pre, li, v, arg, rest, post, a);
    } else if dispatch::numbers(v) {
        numbers_keep_for_redo(pre, li, v, arg, reading, post, a);
    } else if dispatch::flags(v) {
        flags_keep_for_redo(pre, li, v, line::flag_of(arg), post, a);
    } else {
        others_keep_for_redo(pre, li, v, arg, rest, post, a);
    }
}

/// Nor does a buffer of input record over what redo offers: a take begins with
/// nothing above its layer that is kept, and writes that layer.
pub proof fn a_buffer_records_over_nothing_kept_for_redo(
    pre: Shared,
    data: Seq<u32>,
    inputs: int,
    frames: int,
    post: Shared,
    r: Landed,
    i: int,
)
    requires
        pre.wf(),
        0 <= i < pre.size.n_loops,
        pre.loops@[i].recording() ==> pre.loops@[i].body.redo_to <= pre.loops@[i].body.n_layers,
        input::taken_in(pre, data, inputs, frames, post, r),
    ensures
        keeps_for_redo(pre, post, i),
        post.loops@[i].recording() ==> post.loops@[i].body.redo_to <= post.loops@[i].body.n_layers,
{
    assert(pre.loop_ok(pre.loops@[i]));
    shared::sized(pre.loops@[i], pre.size.max_layers, pre.size.max_frames);
    assert(pre.audio()[i].len() == pre.size.max_layers);
}

/// Nor does closing a take: what it leaves for redo was there before it.
pub proof fn a_closed_take_leaves_for_redo_what_was_kept(
    pre: Shared,
    li: int,
    t: Take,
    post: Shared,
    r: Said,
)
    requires
        pre.wf(),
        0 <= li < pre.size.n_loops,
        pre.loops@[li].body.redo_to <= pre.loops@[li].body.n_layers,
        finish::finish_step(pre, li, t, post, r),
    ensures
        post.loops@[li].body.redo_to <= post.loops@[li].body.n_layers,
        keeps_for_redo(pre, post, li),
{
    reveal(finish::read_out);
}

/// Every take begins with nothing above its layer that is kept for redo.
pub proof fn a_press_leaves_nothing_to_redo(
    pre: Shared,
    li: int,
    late: i64,
    post: Shared,
    r: Said,
)
    requires
        pre.wf(),
        0 <= li < pre.size.n_loops,
        record::press_refused(pre, li) is None && record::begin_step(pre, li, late, post, r)
            || r is Multiplying && multiply::start_step(pre, li, post, r),
    ensures
        post.loops@[li].body.redo_to == post.loops@[li].body.n_layers,
        forall|q: Shared, s: Said| #[trigger]
            stack::redo_step(post, li, q, s) ==> q == post && s !is Redone,
{
}

/// A word with a number sets what it names, on the loop it is for, where the
/// number is on its scale; with nothing said it changes nothing.
pub proof fn a_word_with_a_number_sets_what_it_names(
    pre: Shared,
    li: int,
    v: Verb,
    arg: Seq<char>,
    rest: Seq<char>,
    x: u32,
    gain: u32,
    sent: Sent,
    post: Shared,
    a: Ack,
)
    requires
        0 <= li < pre.loops@.len(),
        dispatch::verb_step(
            pre,
            li,
            v,
            arg,
            rest,
            Reading::Single { bits: x, gain },
            sent,
            post,
            a,
        ),
    ensures
        v == Verb::Vol || v == Verb::Decay || v == Verb::Feedback || v == Verb::Chance || v
            == Verb::Tone ==> {
            let was = pre.loops@[li];
            let after = post.loops@[li];
            let db = bits::is_number(x) && -0x4270_0000 < bits::rank(x) <= 0;
            let share = bits::is_number(x) && 0 <= bits::rank(x) <= 0x3F80_0000;
            let hertz = bits::is_number(x) && 0x4348_0000 <= bits::rank(x) <= 0x469C_4000;
            &&& arg.len() == 0 ==> post == pre
            &&& arg.len() > 0 && v == Verb::Vol && db ==> after == (Loop {
                play: Play { vol: gain, ..was.play },
                ..was
            })
            &&& arg.len() > 0 && v == Verb::Decay && db ==> after == (Loop {
                play: Play { decay: gain, ..was.play },
                ..was
            })
            &&& arg.len() > 0 && v == Verb::Feedback && db ==> after == (Loop {
                habit: Habit { fb: gain, ..was.habit },
                ..was
            })
            &&& arg.len() > 0 && v == Verb::Chance && share ==> after.play.chance == x && after.body
                == was.body
            &&& arg.len() > 0 && v == Verb::Tone && hertz ==> after == (Loop {
                habit: Habit { tone: x, ..was.habit },
                ..was
            })
        },
{
    if arg.len() > 0 {
        match v {
            Verb::Vol => {
                let s = choose|s: Said| #[trigger] knobs::level_step(pre, li, x, gain, post, s);
                knobs::a_knob_sets_one_thing(pre, li, 0, x, gain, 0, post, s, None);
            },
            Verb::Decay => {
                let s = choose|s: Said| #[trigger] knobs::decay_step(pre, li, x, gain, post, s);
                knobs::a_knob_sets_one_thing(pre, li, 0, x, gain, 0, post, s, None);
            },
            Verb::Feedback => {
                let s = choose|s: Said| #[trigger] knobs::feedback_step(pre, li, x, gain, post, s);
                knobs::a_knob_sets_one_thing(pre, li, 0, x, gain, 0, post, s, None);
            },
            Verb::Chance => {
                let s = choose|s: Said| #[trigger] knobs::chance_step(pre, li, x, post, s);
                knobs::a_knob_sets_one_thing(pre, li, 0, x, gain, 0, post, s, None);
            },
            Verb::Tone => {
                let s = choose|s: Said| #[trigger] knobs::tone_step(pre, li, x, post, s);
                knobs::a_knob_sets_one_thing(pre, li, 0, x, gain, 0, post, s, None);
            },
            _ => {},
        }
    }
}

/// A word that switches sets what it names to what is said, and where nothing
/// is said to the other of what it was; the fold alone is switched on.
pub proof fn a_word_that_switches_sets_what_it_names(
    pre: Shared,
    li: int,
    v: Verb,
    flag: Option<bool>,
    post: Shared,
    a: Ack,
)
    requires
        0 <= li < pre.loops@.len(),
        dispatch::flags(v),
        dispatch::flag_step(pre, li, v, flag, post, a),
    ensures
        ({
            let was = pre.loops@[li];
            let after = post.loops@[li];
            let told = |now: bool, before: bool| (flag is Some ==> now == flag.unwrap()) && (
            flag is None ==> now != before);
            &&& v == Verb::Mono ==> after.play.mono == (flag != Some(false))
            &&& v == Verb::Grid ==> told(after.habit.quant, was.habit.quant)
            &&& v == Verb::OneShot ==> told(after.play.one_shot, was.play.one_shot)
            &&& v == Verb::LevelArm ==> told(after.habit.level_arm, was.habit.level_arm)
            &&& v == Verb::Halt ==> told(!after.play.muted, !was.play.muted)
            &&& v == Verb::Pendulum ==> told(after.play.cfg_pend, was.play.pendulum)
            &&& v == Verb::Click ==> told(post.desk.click, pre.desk.click) && after == was
            &&& v == Verb::Monitor ==> told(post.desk.monitor, pre.desk.monitor) && after == was
            &&& after.body == was.body
        }),
{
    match v {
        Verb::Mono => {
            let on = flag != Some(false);
            let s = choose|s: Said| #[trigger] knobs::mono_step(pre, li, on, post, s);
            knobs::a_switch_sets_one_thing(pre, li, flag, on, post, s);
        },
        Verb::Grid => {
            let s = choose|s: Said| #[trigger] knobs::grid_step(pre, li, flag, post, s);
            knobs::a_switch_sets_one_thing(pre, li, flag, true, post, s);
        },
        Verb::OneShot => {
            let s = choose|s: Said| #[trigger] knobs::one_shot_step(pre, li, flag, post, s);
            knobs::a_switch_sets_one_thing(pre, li, flag, true, post, s);
        },
        Verb::LevelArm => {
            let s = choose|s: Said| #[trigger] knobs::level_arm_step(pre, li, flag, post, s);
            knobs::a_switch_sets_one_thing(pre, li, flag, true, post, s);
        },
        Verb::Halt => {
            let s = choose|s: Said| #[trigger] knobs::halt_step(pre, li, flag, post, s);
            knobs::a_switch_sets_one_thing(pre, li, flag, true, post, s);
        },
        Verb::Click => {
            let s = choose|s: Said| #[trigger] knobs::click_step(pre, flag, post, s);
            knobs::a_switch_sets_one_thing(pre, li, flag, true, post, s);
        },
        Verb::Monitor => {
            let s = choose|s: Said| #[trigger] knobs::monitor_step(pre, flag, post, s);
            knobs::a_switch_sets_one_thing(pre, li, flag, true, post, s);
        },
        Verb::Pendulum => {
            let s = choose|s: Said| #[trigger] knobs::swing_step(pre, li, flag, post, s);
            knobs::a_speed_is_asked_for_and_taken_up_later(pre, li, 0, flag, post, s);
        },
        _ => {},
    }
}

/// The word for an undo takes a layer off and the word for a redo puts one
/// back, of the loop it is for, where nothing of it is in hand.
pub proof fn an_undo_and_a_redo_go_opposite_ways(
    pre: Shared,
    li: int,
    v: Verb,
    arg: Seq<char>,
    rest: Seq<char>,
    reading: Reading,
    sent: Sent,
    post: Shared,
    a: Ack,
)
    requires
        0 <= li < pre.loops@.len(),
        dispatch::verb_step(pre, li, v, arg, rest, reading, sent, post, a),
        pre.loops@[li].state == Phase::Idle || pre.loops@[li].state == Phase::Playing,
        pre.loops@[li].next.request != ARMED || pre.loops@[li].next.request_at == NEVER,
        pre.loops@[li].body.n_layers < usize::MAX,
    ensures
        v == Verb::Undo && pre.loops@[li].body.n_layers > 0 ==> post.loops@[li].body.n_layers
            == pre.loops@[li].body.n_layers - 1,
        v == Verb::Redo && pre.loops@[li].body.n_layers < pre.loops@[li].body.redo_to
            ==> post.loops@[li].body.n_layers == pre.loops@[li].body.n_layers + 1,
        v == Verb::Undo || v == Verb::Redo ==> post.arena == pre.arena,
{
    if v == Verb::Undo {
        let s = choose|s: Said| #[trigger] stack::undo_step(pre, li, post, s);
        stack::an_undo_takes_one_layer_off(pre, li, post, s);
    }
    if v == Verb::Redo {
        let s = choose|s: Said| #[trigger] stack::redo_step(pre, li, post, s);
        stack::a_redo_puts_one_layer_back(pre, li, post, s);
    }
}

/// The word for the start of a window moves its start and the word for its
/// end its end, to the frame that is said.
pub proof fn each_edge_has_its_word(
    pre: Shared,
    li: int,
    v: Verb,
    arg: Seq<char>,
    rest: Seq<char>,
    f: i64,
    post: Shared,
    a: Ack,
)
    requires
        pre.wf(),
        0 <= li < pre.size.n_loops,
        dispatch::edit_step(pre, li, v, arg, rest, post, a),
        text::integer(arg) == Some(f),
        pre.loops@[li].body.loop_len > 0,
        !pre.loops@[li].edit.pend_set,
        pre.loops@[li].edit.win_in == 0,
        pre.loops@[li].edit.win_out == 0,
        f != 0,
        f != pre.loops@[li].body.loop_len,
    ensures
        v == Verb::In && -pre.loops@[li].body.loop_len <= f < pre.loops@[li].body.loop_len ==> {
            &&& post.loops@[li].edit.pend_set
            &&& post.loops@[li].edit.pend_in == f
            &&& post.loops@[li].edit.pend_out == pre.loops@[li].body.loop_len
        },
        v == Verb::Out && 0 < f <= 2 * pre.loops@[li].body.loop_len ==> {
            &&& post.loops@[li].edit.pend_set
            &&& post.loops@[li].edit.pend_in == 0
            &&& post.loops@[li].edit.pend_out == f
        },
{
    if v == Verb::In {
        let s = choose|s: Option<Said>| #[trigger]
            window::edge_step(pre, li, true, text::integer(arg), post, s);
        window::an_edge_moves_to_where_it_is_asked(
            pre,
            li,
            true,
            f,
            post,
            s,
            f as int,
            pre.loops@[li].body.loop_len as int,
        );
    }
    if v == Verb::Out {
        let s = choose|s: Option<Said>| #[trigger]
            window::edge_step(pre, li, false, text::integer(arg), post, s);
        window::an_edge_moves_to_where_it_is_asked(pre, li, false, f, post, s, 0, f as int);
    }
}

/// A slot counts from one where it is written, and a layer is spread over two
/// slots where it is not said how many.
pub proof fn a_slot_counts_from_one(
    pre: Shared,
    li: int,
    arg: Seq<char>,
    rest: Seq<char>,
    n: usize,
    post: Shared,
    a: Ack,
)
    requires
        pre.wf(),
        0 <= li < pre.size.n_loops,
        pre.loops@[li].body.n_layers > 0,
    ensures
        ({
            let top = pre.loops@[li].body.n_layers - 1;
            let was = pre.loops@[li].layers@[top];
            let after = post.loops@[li].layers@[top];
            &&& dispatch::layer_step(pre, li, Verb::Phase, arg, rest, post, a) && text::number(arg)
                == Some(n) && 1 <= n <= was.period && was.period > 1 ==> after.phase + 1 == n
            &&& dispatch::layer_step(pre, li, Verb::Sparse, arg, rest, post, a) && arg.len() == 0
                && was.len > 0 ==> after.period == 2
            &&& dispatch::layer_step(pre, li, Verb::Sparse, arg, rest, post, a) && arg.len() > 0
                && text::number(arg) == Some(n) && 1 <= n <= 32 && was.len > 0 ==> after.period == n
        }),
{
    let top = pre.loops@[li].body.n_layers - 1;
    let was = pre.loops@[li].layers@[top];
    if dispatch::layer_step(pre, li, Verb::Phase, arg, rest, post, a) && text::number(arg) == Some(n)
        && 1 <= n <= was.period && was.period > 1 {
        let slot = (n - 1) as usize;
        assert(dispatch::slot_of(n) == slot);
        let s = choose|s: Said| #[trigger] cycle::place_step(pre, li, slot, post, s);
        cycle::the_newest_layer_is_placed_in_a_slot(pre, li, slot, post, s, 0);
        vstd::arithmetic::div_mod::lemma_small_mod(slot as nat, was.period as nat);
    }
    if dispatch::layer_step(pre, li, Verb::Sparse, arg, rest, post, a) && was.len > 0 {
        if arg.len() == 0 {
            let s = choose|s: Said| #[trigger] cycle::sparse_step(pre, li, 2, post, s);
            cycle::the_newest_layer_is_placed_in_a_slot(pre, li, 2, post, s, 0);
        } else if text::number(arg) == Some(n) {
            let s = choose|s: Said| #[trigger] cycle::sparse_step(pre, li, n, post, s);
            cycle::the_newest_layer_is_placed_in_a_slot(pre, li, n, post, s, 0);
        }
    }
}

/// A command is carried out as of when it was meant: its lateness in frames
/// is what it says, and none where it says none; and one that says what is no
/// lateness changes nothing.
pub proof fn a_command_is_as_late_as_it_says(
    pre: Shared,
    line: Seq<char>,
    l: Option<Lateness>,
    reading: Reading,
    from: Caller,
    clock_ms: u64,
    post: Shared,
    a: Ack,
)
    requires
        dispatch::dispatch_step(pre, line, l, reading, from, clock_ms, post, a),
    ensures
        line::late_of(line) is None ==> dispatch::late_frames(line, l) == 0,
        line::late_of(line) is Some && l is Some ==> dispatch::late_frames(line, l)
            == l.unwrap().frames,
        line::late_of(line) is Some && l is None ==> post == pre,
        line::late_of(line) is Some && l is Some && !(bits::is_number_wide(l.unwrap().bits) && 0
            <= bits::rank_wide(l.unwrap().bits)) ==> post == pre,
{
}

/// A picture is in as many stretches as are asked for, where it can be, and
/// in no fewer and no more than it can be.
pub proof fn a_picture_is_in_the_stretches_asked_for(arg: Seq<char>, n: usize)
    requires
        text::number(arg) == Some(n),
    ensures
        dispatch::FEWEST_STRETCHES <= n <= dispatch::MOST_STRETCHES ==> dispatch::stretches(arg)
            == n,
        dispatch::FEWEST_STRETCHES <= dispatch::stretches(arg) <= dispatch::MOST_STRETCHES,
{
}

/// A claim takes as much of the past as is asked for, as far as there is room,
/// and what the rig is set to where nothing is asked.
pub proof fn a_claim_takes_what_is_asked_for(
    pre: Shared,
    li: int,
    x: u64,
    frames: usize,
    gain: u32,
    late: i64,
    post: Shared,
    a: Ack,
    n: usize,
    got: usize,
    layers: usize,
)
    requires
        0 <= li < pre.loops@.len(),
        li <= usize::MAX,
        a == Ack::Said(Said::TookLoop { li: li as usize, len: n, got, layers }),
    ensures
        dispatch::claim_step(
            pre,
            li,
            Reading::Wide { bits: x, frames, gain },
            late,
            post,
            a,
        ) ==> n == frames || n == pre.size.max_frames && n < frames,
        dispatch::claim_step(pre, li, Reading::Unread, late, post, a) ==> n
            == pre.size.claim_frames || n == pre.size.max_frames && n < pre.size.claim_frames,
{
}

/// A layer is switched by its number and on or off by what follows it: one is
/// on, nothing is off.
pub proof fn a_layer_is_switched_as_it_is_written(
    pre: Shared,
    li: int,
    arg: Seq<char>,
    rest: Seq<char>,
    post: Shared,
    a: Ack,
    k: usize,
)
    requires
        pre.wf(),
        0 <= li < pre.size.n_loops,
        dispatch::switch_step(pre, li, arg, rest, post, a),
        arg.len() > 0,
        text::number(arg.subrange(0, arg.len() - 1)) == Some(k),
        1 <= k <= pre.loops@[li].body.n_layers,
    ensures
        arg[arg.len() - 1] == '1' ==> post.loops@[li].layers@[k - 1].on,
        arg[arg.len() - 1] == '0' ==> !post.loops@[li].layers@[k - 1].on,
        arg[arg.len() - 1] != '0' && arg[arg.len() - 1] != '1' ==> post == pre,
{
    let on = arg[arg.len() - 1] == '1';
    assert(pre.loop_ok(pre.loops@[li]));
    assert(pre.loops@[li].body.n_layers <= pre.size.max_layers) by {
        reveal(shared::sound);
        reveal(Loop::wf);
    }
    if arg[arg.len() - 1] == '0' || on {
        let s = choose|s: Said| #[trigger] stack::switch_step(pre, li, k, on, post, s);
        stack::a_switch_switches_one_layer(pre, li, k, on, post, s, k - 1);
    }
}

/// The layer that is copied is the one that is named, counted from one.
pub proof fn the_layer_copied_is_the_one_named(
    pre: Shared,
    li: int,
    arg: Seq<char>,
    rest: Seq<char>,
    post: Shared,
    a: Ack,
    k: usize,
    layer: usize,
    src: usize,
    to: usize,
    len: usize,
)
    requires
        dispatch::copy_step(pre, li, arg, rest, post, a),
        a == Ack::Said(Said::CopiedLayer { layer, src, li: to, len }),
        text::cut(arg, 'l').1 is Some,
        text::number(text::trimmed(text::cut(arg, 'l').1.unwrap())) == Some(k),
    ensures
        layer == k,
        text::number(text::trimmed(text::cut(arg, 'l').0)) == Some(src),
{
}

/// The word for a clear empties its loop, on a rig whose loops are of no fixed
/// length.
pub proof fn a_clear_empties_its_loop(
    pre: Shared,
    li: int,
    arg: Seq<char>,
    rest: Seq<char>,
    reading: Reading,
    sent: Sent,
    post: Shared,
    a: Ack,
)
    requires
        0 <= li < pre.loops@.len(),
        dispatch::verb_step(pre, li, Verb::Clear, arg, rest, reading, sent, post, a),
        pre.size.fixed_frames == 0,
    ensures
        post.loops@[li].body.n_layers == 0,
        post.loops@[li].body.loop_len == 0,
        post.loops@[li].state == Phase::Idle,
{
    let s = choose|s: Said| #[trigger] clear::clear_step(pre, li, post, s);
    assert(clear::clear_step(pre, li, post, s));
}

/// What was more than five seconds late is not carried out.
pub proof fn what_is_too_late_is_not_carried_out(
    pre: Shared,
    line: Seq<char>,
    l: Lateness,
    reading: Reading,
    from: Caller,
    clock_ms: u64,
    post: Shared,
    a: Ack,
)
    requires
        dispatch::dispatch_step(pre, line, Some(l), reading, from, clock_ms, post, a),
        line::late_of(line) is Some,
        bits::rank_wide(l.bits) >= 0x40B3_8800_0000_0000,
    ensures
        post == pre,
{
}

} // verus!
