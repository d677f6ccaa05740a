//! The settings of a loop and of the rig: what a switch or a knob changes,
//! and nothing else. A real number comes as its bits.

use crate::ack::Said;
use crate::beat::MAX_BEATS;
use crate::bits;
use crate::bits::{ONE, SIGN_WIDE};
use crate::loop_state::{Habit, Loop, Play};
use crate::next_take::NEVER;
use crate::phase::Phase;
use crate::record;
use crate::shared;
use crate::shared::{Clock, Desk, Link, Shared};
use vstd::prelude::*;

verus! {

/// 200, as bits.
pub const TONE_LOW: u32 = 0x4348_0000;

/// 20000, as bits.
pub const TONE_HIGH: u32 = 0x469C_4000;

/// Minus 60, as bits.
pub const SIXTY_DOWN: u32 = 0xC270_0000;

/// Minus 80, as wide bits.
pub const EIGHTY_DOWN: u64 = 0xC054_0000_0000_0000;

/// 500, as wide bits.
pub const MAX_FADE_MS: u64 = 0x407F_4000_0000_0000;

/// An eighth, as wide bits.
pub const SLOWEST: u64 = 0x3FC0_0000_0000_0000;

/// Four, as wide bits.
pub const FASTEST: u64 = 0x4010_0000_0000_0000;

/// The far right of the pan knob.
pub const PAN_TOP: usize = 127;

/// What a flag asks for: on, off, or the other of what it is.
pub open spec fn flagged(flag: Option<bool>, was: bool) -> bool {
    match flag {
        Some(on) => on,
        None => !was,
    }
}

fn asked(flag: Option<bool>, was: bool) -> (r: bool)
    ensures
        r == flagged(flag, was),
{
    match flag {
        Some(on) => on,
        None => !was,
    }
}

/// A loop plays otherwise and nothing else changed.
pub open spec fn replayed(pre: Shared, li: int, play: Play, post: Shared) -> bool {
    pre.but_loop(li, Loop { play, ..pre.loops@[li] }, post)
}

/// A loop records otherwise and nothing else changed.
pub open spec fn rehabited(pre: Shared, li: int, habit: Habit, post: Shared) -> bool {
    pre.but_loop(li, Loop { habit, ..pre.loops@[li] }, post)
}

proof fn played_sound(lp: Loop, play: Play, max_layers: usize, max_frames: usize)
    requires
        shared::sound(lp, max_layers, max_frames),
    ensures
        shared::sound(Loop { play, ..lp }, max_layers, max_frames),
{
    reveal(shared::sound);
    reveal(Loop::wf);
}

proof fn habit_sound(lp: Loop, habit: Habit, max_layers: usize, max_frames: usize)
    requires
        shared::sound(lp, max_layers, max_frames),
        habit.src < usize::MAX,
    ensures
        shared::sound(Loop { habit, ..lp }, max_layers, max_frames),
{
    reveal(shared::sound);
    reveal(Loop::wf);
}

fn put_play(sh: &mut Shared, li: usize, play: Play)
    requires
        old(sh).wf(),
        li < old(sh).size.n_loops,
    ensures
        final(sh).wf(),
        replayed(*old(sh), li as int, play, *final(sh)),
{
    assert(sh.loop_ok(sh.loops@[li as int]));
    let lp = &mut sh.loops[li];
    lp.play = play;
    proof {
        played_sound(old(sh).loops@[li as int], play, sh.size.max_layers, sh.size.max_frames);
        shared::loop_exchanged(*old(sh), *sh, li as int, sh.loops@[li as int]);
    }
}

fn put_habit(sh: &mut Shared, li: usize, habit: Habit)
    requires
        old(sh).wf(),
        li < old(sh).size.n_loops,
        habit.src == old(sh).loops@[li as int].habit.src || habit.src < usize::MAX,
    ensures
        final(sh).wf(),
        rehabited(*old(sh), li as int, habit, *final(sh)),
{
    assert(sh.loop_ok(sh.loops@[li as int]));
    assert(sh.loops@[li as int].habit.src < usize::MAX) by {
        reveal(shared::sound);
    }
    let lp = &mut sh.loops[li];
    lp.habit = habit;
    proof {
        habit_sound(old(sh).loops@[li as int], habit, sh.size.max_layers, sh.size.max_frames);
        shared::loop_exchanged(*old(sh), *sh, li as int, sh.loops@[li as int]);
    }
}

/// Folding a loop's two channels together.
pub open spec fn mono_step(pre: Shared, li: int, on: bool, post: Shared, r: Said) -> bool {
    &&& replayed(pre, li, Play { mono: on, ..pre.loops@[li].play }, post)
    &&& r == (Said::Folds { li: li as usize, on })
}

pub fn mono(sh: &mut Shared, li: usize, on: bool) -> (r: Said)
    requires
        old(sh).wf(),
        li < old(sh).size.n_loops,
    ensures
        final(sh).wf(),
        mono_step(*old(sh), li as int, on, *final(sh), r),
{
    let mut p = sh.loops[li].play;
    p.mono = on;
    put_play(sh, li, p);
    Said::Folds { li, on }
}

/// Silencing a loop, or bringing it back, while it goes on turning. The flag
/// says whether it plays.
pub open spec fn halt_step(
    pre: Shared,
    li: int,
    flag: Option<bool>,
    post: Shared,
    r: Said,
) -> bool {
    let on = match flag {
        Some(plays) => !plays,
        None => !pre.loops@[li].play.muted,
    };
    &&& replayed(pre, li, Play { muted: on, ..pre.loops@[li].play }, post)
    &&& r == (Said::Halted { li: li as usize, on })
}

pub fn halt(sh: &mut Shared, li: usize, flag: Option<bool>) -> (r: Said)
    requires
        old(sh).wf(),
        li < old(sh).size.n_loops,
    ensures
        final(sh).wf(),
        halt_step(*old(sh), li as int, flag, *final(sh), r),
{
    let mut p = sh.loops[li].play;
    let on = match flag {
        Some(plays) => !plays,
        None => !p.muted,
    };
    p.muted = on;
    put_play(sh, li, p);
    Said::Halted { li, on }
}

/// Whether a speed is one a loop may play at, either way.
pub open spec fn speed_ok(v: u64) -> bool {
    bits::up_to_wide(SLOWEST, bits::unsigned_wide(v)) && bits::up_to_wide(
        bits::unsigned_wide(v),
        FASTEST,
    )
}

/// Play settings with a speed and a swing asked for.
pub open spec fn wanting(p: Play, speed: u64, pend: bool) -> Play {
    Play { cfg_speed: speed, cfg_pend: pend, cfg_armed: true, ..p }
}

/// Asking for a speed.
pub open spec fn speed_step(pre: Shared, li: int, v: u64, post: Shared, r: Said) -> bool {
    let lp = pre.loops@[li];
    if !speed_ok(v) {
        post == pre && r == (Said::SpeedRange { bits: v })
    } else if lp.recording() {
        post == pre && r == (Said::SpeedMidTake { li: li as usize })
    } else {
        &&& replayed(pre, li, wanting(lp.play, v, lp.play.pendulum), post)
        &&& r == (Said::Speed { li: li as usize, speed: v })
    }
}

pub fn speed(sh: &mut Shared, li: usize, v: u64) -> (r: Said)
    requires
        old(sh).wf(),
        li < old(sh).size.n_loops,
    ensures
        final(sh).wf(),
        speed_step(*old(sh), li as int, v, *final(sh), r),
{
    let rate: u64 = bits::absolute_wide(v);
    if !(bits::at_most_wide(SLOWEST, rate) && bits::at_most_wide(rate, FASTEST)) {
        return Said::SpeedRange { bits: v };
    }
    if sh.loops[li].is_recording() {
        return Said::SpeedMidTake { li };
    }
    let mut p = sh.loops[li].play;
    p.cfg_speed = v;
    p.cfg_pend = p.pendulum;
    p.cfg_armed = true;
    put_play(sh, li, p);
    Said::Speed { li, speed: v }
}

/// A rate in a direction, as wide bits.
pub open spec fn directed(rate: u64, back: bool) -> u64 {
    if back {
        (bits::unsigned_wide(rate) + SIGN_WIDE) as u64
    } else {
        bits::unsigned_wide(rate)
    }
}

/// Turning a loop round, at the rate it has.
pub open spec fn reverse_step(
    pre: Shared,
    li: int,
    flag: Option<bool>,
    post: Shared,
    r: Said,
) -> bool {
    let p = pre.loops@[li].play;
    let back = match flag {
        Some(b) => b,
        None => bits::below_wide(0, p.speed),
    };
    let want = directed(p.speed, back);
    &&& replayed(pre, li, wanting(p, want, p.pendulum), post)
    &&& r == (Said::PlaysWay { li: li as usize, back, speed: want })
}

pub fn reverse(sh: &mut Shared, li: usize, flag: Option<bool>) -> (r: Said)
    requires
        old(sh).wf(),
        li < old(sh).size.n_loops,
    ensures
        final(sh).wf(),
        reverse_step(*old(sh), li as int, flag, *final(sh), r),
{
    let mut p = sh.loops[li].play;
    let back = match flag {
        Some(b) => b,
        None => bits::less_wide(0, p.speed),
    };
    let rate: u64 = bits::absolute_wide(p.speed);
    let want: u64 = if back {
        rate + SIGN_WIDE
    } else {
        rate
    };
    p.cfg_speed = want;
    p.cfg_pend = p.pendulum;
    p.cfg_armed = true;
    put_play(sh, li, p);
    Said::PlaysWay { li, back, speed: want }
}

/// Asking for a swing.
pub open spec fn swing_step(
    pre: Shared,
    li: int,
    flag: Option<bool>,
    post: Shared,
    r: Said,
) -> bool {
    let p = pre.loops@[li].play;
    let on = flagged(flag, p.pendulum);
    &&& replayed(pre, li, wanting(p, p.speed, on), post)
    &&& r == (Said::Swings { li: li as usize, on })
}

pub fn swing(sh: &mut Shared, li: usize, flag: Option<bool>) -> (r: Said)
    requires
        old(sh).wf(),
        li < old(sh).size.n_loops,
    ensures
        final(sh).wf(),
        swing_step(*old(sh), li as int, flag, *final(sh), r),
{
    let mut p = sh.loops[li].play;
    let on = asked(flag, p.pendulum);
    p.cfg_speed = p.speed;
    p.cfg_pend = on;
    p.cfg_armed = true;
    put_play(sh, li, p);
    Said::Swings { li, on }
}

/// Making a loop a one-shot, or letting it turn again. Turning, no pass of
/// it is running out.
pub open spec fn one_shot_step(
    pre: Shared,
    li: int,
    flag: Option<bool>,
    post: Shared,
    r: Said,
) -> bool {
    let p = pre.loops@[li].play;
    let on = flagged(flag, p.one_shot);
    &&& replayed(
        pre,
        li,
        Play {
            one_shot: on,
            shot_end: if on {
                p.shot_end
            } else {
                NEVER
            },
            ..p
        },
        post,
    )
    &&& r == (Said::OneShot { li: li as usize, on })
}

pub fn one_shot(sh: &mut Shared, li: usize, flag: Option<bool>) -> (r: Said)
    requires
        old(sh).wf(),
        li < old(sh).size.n_loops,
    ensures
        final(sh).wf(),
        one_shot_step(*old(sh), li as int, flag, *final(sh), r),
{
    let mut p = sh.loops[li].play;
    let on = asked(flag, p.one_shot);
    p.one_shot = on;
    if !on {
        p.shot_end = NEVER;
    }
    put_play(sh, li, p);
    Said::OneShot { li, on }
}

/// Placing a loop between left and right.
pub open spec fn pan_step(pre: Shared, li: int, v: usize, post: Shared, r: Option<Said>) -> bool {
    if v > PAN_TOP {
        post == pre && r is None
    } else {
        &&& replayed(pre, li, Play { pan: v, ..pre.loops@[li].play }, post)
        &&& r == Some(Said::Panned { li: li as usize, pan: v })
    }
}

pub fn pan(sh: &mut Shared, li: usize, v: usize) -> (r: Option<Said>)
    requires
        old(sh).wf(),
        li < old(sh).size.n_loops,
    ensures
        final(sh).wf(),
        pan_step(*old(sh), li as int, v, *final(sh), r),
{
    if v > PAN_TOP {
        return None;
    }
    let mut p = sh.loops[li].play;
    p.pan = v;
    put_play(sh, li, p);
    Some(Said::Panned { li, pan: v })
}

/// Setting a loop's level in decibels. `gain` is what so many are. At the
/// bottom it is silent; above unity it is refused.
pub open spec fn level_step(
    pre: Shared,
    li: int,
    db: u32,
    gain: u32,
    post: Shared,
    r: Said,
) -> bool {
    if bits::below(0, db) {
        post == pre && r == (Said::LevelGain { bits: db })
    } else if !bits::up_to(SIXTY_DOWN, db) {
        post == pre && r == (Said::LevelRange { bits: db })
    } else {
        &&& replayed(pre, li, Play { vol: at_bottom(db, gain), ..pre.loops@[li].play }, post)
        &&& r == (Said::Level { li: li as usize })
    }
}

/// A gain, which is none at the bottom of the scale.
pub open spec fn at_bottom(db: u32, gain: u32) -> u32 {
    if bits::up_to(db, SIXTY_DOWN) {
        0
    } else {
        gain
    }
}

fn bottomed(db: u32, gain: u32) -> (r: u32)
    ensures
        r == at_bottom(db, gain),
{
    if bits::at_most(db, SIXTY_DOWN) {
        0
    } else {
        gain
    }
}

pub fn level(sh: &mut Shared, li: usize, db: u32, gain: u32) -> (r: Said)
    requires
        old(sh).wf(),
        li < old(sh).size.n_loops,
    ensures
        final(sh).wf(),
        level_step(*old(sh), li as int, db, gain, *final(sh), r),
{
    if bits::less(0, db) {
        return Said::LevelGain { bits: db };
    }
    if !bits::at_most(SIXTY_DOWN, db) {
        return Said::LevelRange { bits: db };
    }
    let mut p = sh.loops[li].play;
    p.vol = bottomed(db, gain);
    put_play(sh, li, p);
    Said::Level { li }
}

/// Setting what a pass costs a layer, in decibels.
pub open spec fn decay_step(
    pre: Shared,
    li: int,
    db: u32,
    gain: u32,
    post: Shared,
    r: Said,
) -> bool {
    if bits::below(0, db) {
        post == pre && r == (Said::DecayGain { bits: db })
    } else if !bits::up_to(SIXTY_DOWN, db) {
        post == pre && r == (Said::DecayRange { bits: db })
    } else {
        &&& replayed(pre, li, Play { decay: gain, ..pre.loops@[li].play }, post)
        &&& r == (Said::Decay { li: li as usize })
    }
}

pub fn decay(sh: &mut Shared, li: usize, db: u32, gain: u32) -> (r: Said)
    requires
        old(sh).wf(),
        li < old(sh).size.n_loops,
    ensures
        final(sh).wf(),
        decay_step(*old(sh), li as int, db, gain, *final(sh), r),
{
    if bits::less(0, db) {
        return Said::DecayGain { bits: db };
    }
    if !bits::at_most(SIXTY_DOWN, db) {
        return Said::DecayRange { bits: db };
    }
    let mut p = sh.loops[li].play;
    p.decay = gain;
    put_play(sh, li, p);
    Said::Decay { li }
}

/// Setting how often a pass sounds. The roll that was made is forgotten.
pub open spec fn chance_step(pre: Shared, li: int, p: u32, post: Shared, r: Said) -> bool {
    if bits::up_to(0, p) && bits::up_to(p, ONE) {
        &&& replayed(
            pre,
            li,
            Play { chance: p, chance_pass: NEVER, chance_sounds: true, ..pre.loops@[li].play },
            post,
        )
        &&& r == (Said::Odds { li: li as usize, bits: p })
    } else {
        post == pre && r == (Said::ChanceRange { bits: p })
    }
}

pub fn chance(sh: &mut Shared, li: usize, p: u32) -> (r: Said)
    requires
        old(sh).wf(),
        li < old(sh).size.n_loops,
    ensures
        final(sh).wf(),
        chance_step(*old(sh), li as int, p, *final(sh), r),
{
    if !(bits::at_most(0, p) && bits::at_most(p, ONE)) {
        return Said::ChanceRange { bits: p };
    }
    let mut play = sh.loops[li].play;
    play.chance = p;
    play.chance_pass = NEVER;
    play.chance_sounds = true;
    put_play(sh, li, play);
    Said::Odds { li, bits: p }
}

/// How many of the first `n` layers kept something past their end.
pub open spec fn continued(lp: Loop, n: int) -> nat
    decreases n,
{
    if n <= 0 {
        0
    } else {
        let rest = continued(lp, n - 1);
        if lp.layers@[n - 1].tail > 0 {
            rest + 1
        } else {
            rest
        }
    }
}

/// Setting how long the wrap is faded: in milliseconds, which are `frames`.
pub open spec fn fade_step(
    pre: Shared,
    li: int,
    ms: u64,
    frames: usize,
    post: Shared,
    r: Said,
) -> bool {
    let lp = pre.loops@[li];
    if bits::up_to_wide(0, ms) && bits::up_to_wide(ms, MAX_FADE_MS) {
        &&& replayed(pre, li, Play { fade: frames, ..lp.play }, post)
        &&& r == (Said::FadeSet {
            li: li as usize,
            on: bits::below_wide(0, ms),
            kept: continued(lp, lp.body.n_layers as int) as usize,
            n: lp.body.n_layers,
        })
    } else {
        post == pre && r == (Said::FadeRange { bits: ms })
    }
}

pub fn fade(sh: &mut Shared, li: usize, ms: u64, frames: usize) -> (r: Said)
    requires
        old(sh).wf(),
        li < old(sh).size.n_loops,
    ensures
        final(sh).wf(),
        fade_step(*old(sh), li as int, ms, frames, *final(sh), r),
{
    if !(bits::at_most_wide(0, ms) && bits::at_most_wide(ms, MAX_FADE_MS)) {
        return Said::FadeRange { bits: ms };
    }
    let ghost lp = sh.loops@[li as int];
    proof {
        assert(sh.loop_ok(lp));
        shared::sized(lp, sh.size.max_layers, sh.size.max_frames);
    }
    let n: usize = sh.loops[li].body.n_layers;
    let mut kept: usize = 0;
    let mut l: usize = 0;
    while l < n
        invariant
            sh.wf(),
            li < sh.size.n_loops,
            lp == sh.loops@[li as int],
            l <= n <= lp.layers@.len(),
            kept <= l,
            kept == continued(lp, l as int),
        decreases n - l,
    {
        if sh.loops[li].layer_tail(l) > 0 {
            kept = kept + 1;
        }
        l = l + 1;
    }
    let mut p = sh.loops[li].play;
    p.fade = frames;
    put_play(sh, li, p);
    Said::FadeSet { li, on: bits::less_wide(0, ms), kept, n }
}

/// Setting how much top a tape keeps, in hertz.
pub open spec fn tone_step(pre: Shared, li: int, hz: u32, post: Shared, r: Said) -> bool {
    if bits::up_to(TONE_LOW, hz) && bits::up_to(hz, TONE_HIGH) {
        &&& rehabited(pre, li, Habit { tone: hz, ..pre.loops@[li].habit }, post)
        &&& r == (Said::Tone { li: li as usize })
    } else {
        post == pre && r == (Said::ToneRange { bits: hz })
    }
}

pub fn tone(sh: &mut Shared, li: usize, hz: u32) -> (r: Said)
    requires
        old(sh).wf(),
        li < old(sh).size.n_loops,
    ensures
        final(sh).wf(),
        tone_step(*old(sh), li as int, hz, *final(sh), r),
{
    if !(bits::at_most(TONE_LOW, hz) && bits::at_most(hz, TONE_HIGH)) {
        return Said::ToneRange { bits: hz };
    }
    let mut h = sh.loops[li].habit;
    h.tone = hz;
    put_habit(sh, li, h);
    Said::Tone { li }
}

/// Setting what a pass over the tape leaves, in decibels.
pub open spec fn feedback_step(
    pre: Shared,
    li: int,
    db: u32,
    gain: u32,
    post: Shared,
    r: Said,
) -> bool {
    if bits::below(0, db) {
        post == pre && r == (Said::FeedbackGain { bits: db })
    } else if !bits::up_to(SIXTY_DOWN, db) {
        post == pre && r == (Said::FeedbackRange { bits: db })
    } else {
        &&& rehabited(pre, li, Habit { fb: at_bottom(db, gain), ..pre.loops@[li].habit }, post)
        &&& r == (Said::Feedback { li: li as usize })
    }
}

pub fn feedback(sh: &mut Shared, li: usize, db: u32, gain: u32) -> (r: Said)
    requires
        old(sh).wf(),
        li < old(sh).size.n_loops,
    ensures
        final(sh).wf(),
        feedback_step(*old(sh), li as int, db, gain, *final(sh), r),
{
    if bits::less(0, db) {
        return Said::FeedbackGain { bits: db };
    }
    if !bits::at_most(SIXTY_DOWN, db) {
        return Said::FeedbackRange { bits: db };
    }
    let mut h = sh.loops[li].habit;
    h.fb = bottomed(db, gain);
    put_habit(sh, li, h);
    Said::Feedback { li }
}

/// Pointing a loop at a source. Sources count from one here, those that are
/// off with them, and one that is off is refused.
pub open spec fn source_step(pre: Shared, li: int, n: usize, post: Shared, r: Said) -> bool {
    let lp = pre.loops@[li];
    if !(1 <= n <= pre.sources@.len()) {
        post == pre && r == (Said::NoSource { sources: pre.sources@.len() as usize, asked: n })
    } else if !pre.sources@[n - 1].available {
        post == pre && r == (Said::SourceAway { li: li as usize, source: (n - 1) as usize })
    } else if lp.claims() {
        post == pre && r == (Said::SourceMidTake { li: li as usize })
    } else {
        &&& rehabited(pre, li, Habit { src: (n - 1) as usize, ..lp.habit }, post)
        &&& r == (Said::RecordsFrom { li: li as usize, source: (n - 1) as usize })
    }
}

pub fn source(sh: &mut Shared, li: usize, n: usize) -> (r: Said)
    requires
        old(sh).wf(),
        li < old(sh).size.n_loops,
    ensures
        final(sh).wf(),
        source_step(*old(sh), li as int, n, *final(sh), r),
{
    if n < 1 || n > sh.sources.len() {
        return Said::NoSource { sources: sh.sources.len(), asked: n };
    }
    if !sh.sources[n - 1].available {
        return Said::SourceAway { li, source: n - 1 };
    }
    if sh.loops[li].wants_input() {
        return Said::SourceMidTake { li };
    }
    let mut h = sh.loops[li].habit;
    h.src = n - 1;
    put_habit(sh, li, h);
    Said::RecordsFrom { li, source: n - 1 }
}

/// Letting a loop follow the grid, or not.
pub open spec fn grid_step(
    pre: Shared,
    li: int,
    flag: Option<bool>,
    post: Shared,
    r: Said,
) -> bool {
    let lp = pre.loops@[li];
    let on = flagged(flag, lp.habit.quant);
    &&& rehabited(pre, li, Habit { quant: on, ..lp.habit }, post)
    &&& r == (if !on {
        Said::Free { li: li as usize }
    } else {
        match pre.the_grid() {
            None => Said::NoGridYet { li: li as usize },
            Some((_, bar)) => if pre.link.link_bar_frames > 0 {
                Said::FollowsClock { li: li as usize, bar }
            } else {
                Said::FollowsLoop { li: li as usize, bar, anchor: pre.desk.anchor }
            },
        }
    })
}

pub fn grid(sh: &mut Shared, li: usize, flag: Option<bool>) -> (r: Said)
    requires
        old(sh).wf(),
        li < old(sh).size.n_loops,
    ensures
        final(sh).wf(),
        grid_step(*old(sh), li as int, flag, *final(sh), r),
{
    let mut h = sh.loops[li].habit;
    let on = asked(flag, h.quant);
    let g = sh.grid();
    h.quant = on;
    put_habit(sh, li, h);
    if !on {
        return Said::Free { li };
    }
    match g {
        None => Said::NoGridYet { li },
        Some((_, bar)) => {
            if sh.link.link_bar_frames > 0 {
                Said::FollowsClock { li, bar }
            } else {
                Said::FollowsLoop { li, bar, anchor: sh.desk.anchor }
            }
        },
    }
}

/// Letting a loop wait for a sound, or record on the press. A wait that is
/// on ends with it.
pub open spec fn level_arm_step(
    pre: Shared,
    li: int,
    flag: Option<bool>,
    post: Shared,
    r: Said,
) -> bool {
    let lp = pre.loops@[li];
    let on = flagged(flag, lp.habit.level_arm);
    let set = Loop { habit: Habit { level_arm: on, ..lp.habit }, ..lp };
    if on {
        pre.but_loop(li, set, post) && r == (Said::WaitsForSound { li: li as usize })
    } else {
        &&& r == (Said::OnThePress { li: li as usize })
        &&& if lp.state == Phase::Armed {
            pre.but_loop(li, record::disarmed(set), post)
        } else {
            pre.but_loop(li, set, post)
        }
    }
}

pub fn level_arm(sh: &mut Shared, li: usize, flag: Option<bool>) -> (r: Said)
    requires
        old(sh).wf(),
        li < old(sh).size.n_loops,
    ensures
        final(sh).wf(),
        level_arm_step(*old(sh), li as int, flag, *final(sh), r),
{
    let mut h = sh.loops[li].habit;
    let on = asked(flag, h.level_arm);
    h.level_arm = on;
    put_habit(sh, li, h);
    if on {
        return Said::WaitsForSound { li };
    }
    let ghost mid = *sh;
    if sh.loops[li].is_armed() {
        record::disarm(sh, li);
        assert(mid.loops@.update(
            li as int,
            record::disarmed(mid.loops@[li as int]),
        ) =~= old(sh).loops@.update(li as int, record::disarmed(mid.loops@[li as int])));
    }
    Said::OnThePress { li }
}

/// Setting the level a sound has to reach, in decibels. `gain` is what so
/// many are.
pub open spec fn arm_level_step(pre: Shared, db: u64, gain: u32, post: Shared, r: Said) -> bool {
    if bits::up_to_wide(db, 0) && bits::up_to_wide(EIGHTY_DOWN, db) {
        &&& post == (Shared { desk: Desk { arm_thresh: gain, ..pre.desk }, ..pre })
        &&& r == (Said::ArmLevel { now: true })
    } else {
        post == pre && r == (Said::ArmRange { bits: db })
    }
}

pub fn arm_level(sh: &mut Shared, db: u64, gain: u32) -> (r: Said)
    requires
        old(sh).wf(),
    ensures
        final(sh).wf(),
        arm_level_step(*old(sh), db, gain, *final(sh), r),
{
    if !(bits::at_most_wide(db, 0) && bits::at_most_wide(EIGHTY_DOWN, db)) {
        return Said::ArmRange { bits: db };
    }
    sh.desk.arm_thresh = gain;
    Said::ArmLevel { now: true }
}

/// Turning the click on or off.
pub open spec fn click_step(pre: Shared, flag: Option<bool>, post: Shared, r: Said) -> bool {
    let on = flagged(flag, pre.desk.click);
    &&& post == (Shared { desk: Desk { click: on, ..pre.desk }, ..pre })
    &&& r == (Said::Click { on })
}

pub fn click(sh: &mut Shared, flag: Option<bool>) -> (r: Said)
    requires
        old(sh).wf(),
    ensures
        final(sh).wf(),
        click_step(*old(sh), flag, *final(sh), r),
{
    let on = asked(flag, sh.desk.click);
    sh.desk.click = on;
    Said::Click { on }
}

/// Letting the input through, or not.
pub open spec fn monitor_step(pre: Shared, flag: Option<bool>, post: Shared, r: Said) -> bool {
    let on = flagged(flag, pre.desk.monitor);
    &&& post == (Shared { desk: Desk { monitor: on, ..pre.desk }, ..pre })
    &&& r == (Said::Monitoring { on })
}

pub fn monitor(sh: &mut Shared, flag: Option<bool>) -> (r: Said)
    requires
        old(sh).wf(),
    ensures
        final(sh).wf(),
        monitor_step(*old(sh), flag, *final(sh), r),
{
    let on = asked(flag, sh.desk.monitor);
    sh.desk.monitor = on;
    Said::Monitoring { on }
}

/// Setting what a launch waits for: the bar below zero, nothing at zero, and
/// else so many beats.
pub open spec fn launch_step(pre: Shared, n: i64, post: Shared, r: Said) -> bool {
    if -1 <= n <= MAX_BEATS {
        &&& post == (Shared { link: Link { launch_q: n, ..pre.link }, ..pre })
        &&& r == (if n < 0 {
            Said::LaunchBar
        } else if n == 0 {
            Said::LaunchNow
        } else {
            Said::LaunchBeats { beats: n }
        })
    } else {
        post == pre && r == (Said::LaunchRange { asked: n })
    }
}

pub fn launch(sh: &mut Shared, n: i64) -> (r: Said)
    requires
        old(sh).wf(),
    ensures
        final(sh).wf(),
        launch_step(*old(sh), n, *final(sh), r),
{
    if n < -1 || n > MAX_BEATS {
        return Said::LaunchRange { asked: n };
    }
    sh.link.launch_q = n;
    if n < 0 {
        Said::LaunchBar
    } else if n == 0 {
        Said::LaunchNow
    } else {
        Said::LaunchBeats { beats: n }
    }
}

/// Counting the device as lost.
pub open spec fn lose_step(pre: Shared, post: Shared, r: Said) -> bool {
    &&& post == (Shared { clock: Clock { device_lost: true, ..pre.clock }, ..pre })
    &&& r == Said::DeviceLost
}

pub fn lose(sh: &mut Shared) -> (r: Said)
    requires
        old(sh).wf(),
    ensures
        final(sh).wf(),
        lose_step(*old(sh), *final(sh), r),
{
    sh.clock.device_lost = true;
    Said::DeviceLost
}

/// The loudest of the first `n` peaks.
pub open spec fn loudest_of(peaks: Seq<u32>, n: int) -> u32
    decreases n,
{
    if n <= 0 {
        0
    } else {
        bits::louder(loudest_of(peaks, n - 1), peaks[n - 1])
    }
}

/// Asking for the peaks since they were last asked for, which starts them
/// over.
pub open spec fn levels_step(pre: Shared, post: Shared, r: Said) -> bool {
    &&& r == (Said::Levels {
        input: loudest_of(pre.in_peak@, pre.in_peak@.len() as int),
        output: pre.desk.out_peak,
    })
    &&& post.in_peak@ == Seq::new(pre.in_peak@.len(), |i: int| 0u32)
    &&& post == (Shared {
        in_peak: post.in_peak,
        desk: Desk { out_peak: 0, ..pre.desk },
        ..pre
    })
}

pub fn levels(sh: &mut Shared) -> (r: Said)
    requires
        old(sh).wf(),
    ensures
        final(sh).wf(),
        levels_step(*old(sh), *final(sh), r),
{
    let n: usize = sh.in_peak.len();
    let mut peaks: Vec<u32> = Vec::new();
    let mut input: u32 = 0;
    let mut i: usize = 0;
    while i < n
        invariant
            sh.wf(),
            n == sh.in_peak@.len(),
            i <= n,
            input == loudest_of(sh.in_peak@, i as int),
            peaks@ == Seq::new(i as nat, |k: int| 0u32),
        decreases n - i,
    {
        input = bits::loudest(input, sh.in_peak[i]);
        peaks.push(0);
        assert(peaks@ =~= Seq::new((i + 1) as nat, |k: int| 0u32));
        i = i + 1;
    }
    let output: u32 = sh.desk.out_peak;
    sh.in_peak = peaks;
    sh.desk.out_peak = 0;
    Said::Levels { input, output }
}

/// A switch sets one thing of one loop, to what it is told or to the other of
/// what it was, and moves nothing else: the fold, whether the loop is heard,
/// whether it is a one-shot, whether it follows the grid and whether it waits
/// for a sound.
pub proof fn a_switch_sets_one_thing(
    pre: Shared,
    li: int,
    flag: Option<bool>,
    on: bool,
    post: Shared,
    r: Said,
)
    requires
        0 <= li < pre.loops@.len(),
    ensures
        ({
            let a = pre.loops@[li];
            let b = post.loops@[li];
            &&& mono_step(pre, li, on, post, r) ==> b == (Loop {
                play: Play { mono: on, ..a.play },
                ..a
            })
            &&& halt_step(pre, li, flag, post, r) ==> {
                &&& flag == Some(true) ==> !b.play.muted
                &&& flag == Some(false) ==> b.play.muted
                &&& flag is None ==> b.play.muted != a.play.muted
                &&& b == (Loop { play: Play { muted: b.play.muted, ..a.play }, ..a })
            }
            &&& one_shot_step(pre, li, flag, post, r) ==> {
                &&& flag is Some ==> b.play.one_shot == flag.unwrap()
                &&& flag is None ==> b.play.one_shot != a.play.one_shot
                &&& !b.play.one_shot ==> b.play.shot_end == NEVER
                &&& b.play.one_shot ==> b.play.shot_end == a.play.shot_end
                &&& b.body == a.body
            }
            &&& grid_step(pre, li, flag, post, r) ==> {
                &&& flag is Some ==> b.habit.quant == flag.unwrap()
                &&& flag is None ==> b.habit.quant != a.habit.quant
                &&& b == (Loop { habit: Habit { quant: b.habit.quant, ..a.habit }, ..a })
            }
            &&& level_arm_step(pre, li, flag, post, r) ==> {
                &&& flag is Some ==> b.habit.level_arm == flag.unwrap()
                &&& flag is None ==> b.habit.level_arm != a.habit.level_arm
                &&& b.habit.level_arm || a.state != Phase::Armed ==> b.state == a.state && b.next
                    == a.next
                &&& !b.habit.level_arm ==> b.state != Phase::Armed
                &&& b.body == a.body
            }
            &&& click_step(pre, flag, post, r) ==> {
                &&& flag is Some ==> post.desk.click == flag.unwrap()
                &&& flag is None ==> post.desk.click != pre.desk.click
                &&& post.loops == pre.loops
            }
            &&& monitor_step(pre, flag, post, r) ==> {
                &&& flag is Some ==> post.desk.monitor == flag.unwrap()
                &&& flag is None ==> post.desk.monitor != pre.desk.monitor
                &&& post.loops == pre.loops
            }
        }),
{
}

/// A speed, a way round and a swing are asked for and not taken up at once: what
/// is heard goes on as it was until they are. A loop may go from an eighth of
/// its speed to four times it, either way, and not while it records; turning it
/// round keeps its rate, and twice round it goes the way it went.
pub proof fn a_speed_is_asked_for_and_taken_up_later(
    pre: Shared,
    li: int,
    v: u64,
    flag: Option<bool>,
    post: Shared,
    r: Said,
)
    requires
        0 <= li < pre.loops@.len(),
    ensures
        ({
            let a = pre.loops@[li].play;
            let b = post.loops@[li].play;
            let asked = b.cfg_armed && b == (Play {
                cfg_speed: b.cfg_speed,
                cfg_pend: b.cfg_pend,
                cfg_armed: true,
                ..a
            });
            let rate = bits::magnitude_wide(v);
            &&& speed_step(pre, li, v, post, r) ==> if 0x3FC0_0000_0000_0000 <= rate
                <= 0x4010_0000_0000_0000 && !pre.loops@[li].recording() {
                &&& asked
                &&& b.cfg_speed == v
                &&& b.cfg_pend == a.pendulum
            } else {
                post == pre
            }
            &&& reverse_step(pre, li, flag, post, r) ==> {
                &&& asked
                &&& bits::magnitude_wide(b.cfg_speed) == bits::magnitude_wide(a.speed)
                &&& flag == Some(true) ==> b.cfg_speed >= SIGN_WIDE
                &&& flag == Some(false) ==> b.cfg_speed < SIGN_WIDE
                &&& flag is None && bits::is_number_wide(a.speed) && bits::magnitude_wide(a.speed)
                    > 0 ==> (b.cfg_speed >= SIGN_WIDE <==> a.speed < SIGN_WIDE)
                &&& b.cfg_pend == a.pendulum
            }
            &&& swing_step(pre, li, flag, post, r) ==> {
                &&& asked
                &&& flag is Some ==> b.cfg_pend == flag.unwrap()
                &&& flag is None ==> b.cfg_pend != a.pendulum
                &&& b.cfg_speed == a.speed
            }
        }),
{
    assert(bits::magnitude_wide(SLOWEST) == SLOWEST && bits::magnitude_wide(FASTEST) == FASTEST);
    assert(bits::rank_wide(0) == 0 && bits::is_number_wide(0));
    let m = bits::magnitude_wide(v);
    assert(bits::magnitude_wide(m as u64) == m);
    assert(0 <= m < SIGN_WIDE);
    let w = bits::magnitude_wide(pre.loops@[li].play.speed);
    assert(0 <= w < SIGN_WIDE);
    assert(bits::magnitude_wide(w as u64) == w);
    assert(bits::magnitude_wide((w + SIGN_WIDE) as u64) == w);
}

/// A knob sets one thing of one loop to what it is told, where that is on its
/// scale, and off it nothing changes: the place between left and right, the
/// level, what a pass costs a layer and a tape, how often a pass sounds, how
/// long a wrap is faded and how much top a tape keeps.
pub proof fn a_knob_sets_one_thing(
    pre: Shared,
    li: int,
    n: usize,
    v: u32,
    gain: u32,
    ms: u64,
    post: Shared,
    r: Said,
    o: Option<Said>,
)
    requires
        0 <= li < pre.loops@.len(),
    ensures
        ({
            let a = pre.loops@[li];
            let b = post.loops@[li];
            let rank = bits::rank(v);
            let counts = bits::is_number(v);
            &&& pan_step(pre, li, n, post, o) ==> if n <= 127 {
                b == (Loop { play: Play { pan: n, ..a.play }, ..a })
            } else {
                post == pre
            }
            &&& level_step(pre, li, v, gain, post, r) ==> if counts && -0x4270_0000 < rank <= 0 {
                b == (Loop { play: Play { vol: gain, ..a.play }, ..a })
            } else if counts && rank == -0x4270_0000 {
                b == (Loop { play: Play { vol: 0, ..a.play }, ..a })
            } else {
                post == pre
            }
            &&& decay_step(pre, li, v, gain, post, r) ==> if counts && -0x4270_0000 <= rank <= 0 {
                b == (Loop { play: Play { decay: gain, ..a.play }, ..a })
            } else {
                post == pre
            }
            &&& feedback_step(pre, li, v, gain, post, r) ==> if counts && -0x4270_0000 < rank <= 0 {
                b == (Loop { habit: Habit { fb: gain, ..a.habit }, ..a })
            } else if counts && rank == -0x4270_0000 {
                b == (Loop { habit: Habit { fb: 0, ..a.habit }, ..a })
            } else {
                post == pre
            }
            &&& chance_step(pre, li, v, post, r) ==> if counts && 0 <= rank <= 0x3F80_0000 {
                &&& b.play.chance == v
                &&& b.play.chance_pass == NEVER
                &&& b == (Loop {
                    play: Play {
                        chance: v,
                        chance_pass: NEVER,
                        chance_sounds: b.play.chance_sounds,
                        ..a.play
                    },
                    ..a
                })
            } else {
                post == pre
            }
            &&& fade_step(pre, li, ms, n, post, r) ==> if bits::is_number_wide(ms) && 0
                <= bits::rank_wide(ms) <= 0x407F_4000_0000_0000 {
                b == (Loop { play: Play { fade: n, ..a.play }, ..a })
            } else {
                post == pre
            }
            &&& tone_step(pre, li, v, post, r) ==> if counts && 0x4348_0000 <= rank <= 0x469C_4000 {
                b == (Loop { habit: Habit { tone: v, ..a.habit }, ..a })
            } else {
                post == pre
            }
        }),
{
    assert(bits::rank(SIXTY_DOWN) == -0x4270_0000 && bits::is_number(SIXTY_DOWN));
    assert(bits::rank(0) == 0 && bits::is_number(0));
    assert(bits::rank(ONE) == 0x3F80_0000 && bits::is_number(ONE));
    assert(bits::rank(TONE_LOW) == 0x4348_0000 && bits::is_number(TONE_LOW));
    assert(bits::rank(TONE_HIGH) == 0x469C_4000 && bits::is_number(TONE_HIGH));
    assert(bits::rank_wide(0) == 0 && bits::is_number_wide(0));
    assert(bits::rank_wide(MAX_FADE_MS) == 0x407F_4000_0000_0000 && bits::is_number_wide(
        MAX_FADE_MS,
    ));
}

/// A loop is pointed at the source it is told, counted from one, where there
/// is one and it is on and no take of the loop is in hand. What a launch waits
/// for, and the level a sound has to reach, are the rig's and touch no loop.
pub proof fn a_source_and_a_launch_are_what_they_are_told(
    pre: Shared,
    li: int,
    n: usize,
    q: i64,
    db: u64,
    gain: u32,
    post: Shared,
    r: Said,
)
    requires
        0 <= li < pre.loops@.len(),
    ensures
        source_step(pre, li, n, post, r) ==> if 1 <= n <= pre.sources@.len()
            && pre.sources@[n - 1].available && (pre.loops@[li].state == Phase::Idle
            || pre.loops@[li].state == Phase::Playing) {
            post.loops@[li] == (Loop {
                habit: Habit { src: (n - 1) as usize, ..pre.loops@[li].habit },
                ..pre.loops@[li]
            })
        } else {
            post == pre
        },
        launch_step(pre, q, post, r) ==> if -1 <= q <= 64 {
            post.link.launch_q == q && post.loops == pre.loops
        } else {
            post == pre
        },
        arm_level_step(pre, db, gain, post, r) ==> if bits::is_number_wide(db)
            && -0x4054_0000_0000_0000 <= bits::rank_wide(db) <= 0 {
            post.desk.arm_thresh == gain && post.loops == pre.loops
        } else {
            post == pre
        },
{
    assert(bits::rank_wide(EIGHTY_DOWN) == -0x4054_0000_0000_0000 && bits::is_number_wide(
        EIGHTY_DOWN,
    ));
    assert(bits::rank_wide(0) == 0 && bits::is_number_wide(0));
}

/// Asking for the peaks says the loudest there was on any source and in the
/// mix, and starts them over.
pub proof fn the_peaks_start_over_when_they_are_asked_for(pre: Shared, post: Shared, r: Said, s: int)
    requires
        levels_step(pre, post, r),
        0 <= s < pre.in_peak@.len(),
        bits::is_number(pre.in_peak@[s]),
    ensures
        post.in_peak@[s] == 0,
        post.desk.out_peak == 0,
        post.loops == pre.loops,
        r matches Said::Levels { input, output } && output == pre.desk.out_peak
            && bits::magnitude(pre.in_peak@[s]) <= input,
{
    loudest_bounds(pre.in_peak@, pre.in_peak@.len() as int, s);
}

proof fn loudest_bounds(peaks: Seq<u32>, n: int, s: int)
    requires
        0 <= s < n <= peaks.len(),
        bits::is_number(peaks[s]),
    ensures
        bits::magnitude(peaks[s]) <= loudest_of(peaks, n),
    decreases n,
{
    if s < n - 1 {
        loudest_bounds(peaks, n - 1, s);
    }
}

proof fn continued_is_counted(lp: Loop, n: int)
    requires
        0 <= n,
    ensures
        continued(lp, n) <= n,
        (forall|l: int| 0 <= l < n ==> (#[trigger] lp.layers@[l]).tail > 0) ==> continued(lp, n)
            == n,
        (forall|l: int| 0 <= l < n ==> (#[trigger] lp.layers@[l]).tail == 0) ==> continued(lp, n)
            == 0,
    decreases n,
{
    if n > 0 {
        continued_is_counted(lp, n - 1);
    }
}

/// What is said of a fade is whether there is one, and how many of the layers
/// have something past their end to fade from.
pub proof fn a_fade_says_what_it_fades(
    pre: Shared,
    li: int,
    ms: u64,
    frames: usize,
    post: Shared,
    r: Said,
)
    requires
        0 <= li < pre.loops@.len(),
        li <= usize::MAX,
        fade_step(pre, li, ms, frames, post, r),
    ensures
        r matches Said::FadeSet { li: l, on, kept, n } ==> {
            let lp = pre.loops@[li];
            &&& l == li
            &&& on <==> bits::rank_wide(ms) > 0
            &&& n == lp.body.n_layers
            &&& kept <= n
            &&& (forall|l: int| 0 <= l < n ==> (#[trigger] lp.layers@[l]).tail > 0) ==> kept == n
            &&& (forall|l: int| 0 <= l < n ==> (#[trigger] lp.layers@[l]).tail == 0) ==> kept == 0
        },
{
    continued_is_counted(pre.loops@[li], pre.loops@[li].body.n_layers as int);
}

} // verus!
