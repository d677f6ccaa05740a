//! Emptying a loop, threading a tape onto it, and making it one.

use crate::ack::Said;
use crate::audio;
use crate::audio::Heard;
use crate::bits::ONE;
use crate::edit;
use crate::finish;
use crate::frame;
use crate::layer::{Layer, Shape};
use crate::loop_state;
use crate::loop_state::{Body, Edit, Loop, Progress};
use crate::next_take::NEVER;
use crate::past;
use crate::phase::Phase;
use crate::shared;
use crate::shared::{Desk, Shared};
use vstd::prelude::*;

verus! {

/// No window, no rotation and nothing pending.
pub open spec fn unedited(e: Edit) -> Edit {
    Edit { win_in: 0, win_out: 0, rot: 0, edit_restart: 0, pend_set: false, ..e }
}

/// The audio of a loop with nothing on it.
pub open spec fn silent_bank(sh: Shared) -> Seq<Seq<u32>> {
    Seq::new(sh.size.max_layers as nat, |l: int| audio::silence(2 * sh.size.max_frames))
}

/// What is in a loop that has been cleared: nothing, or the empty tape that
/// a rig of fixed length has in place of an empty loop.
pub open spec fn cleared_body(sh: Shared, lp: Loop) -> Body {
    if sh.size.fixed_frames > 0 {
        edit::blank_body(
            loop_state::empty_body(lp.body.origin),
            sh.now(),
            sh.size.fixed_frames,
        )
    } else {
        loop_state::empty_body(lp.body.origin)
    }
}

/// The one layer of an empty tape.
pub open spec fn blank_layer(l: Layer, len: usize, max_frames: usize) -> bool {
    &&& l == l.shaped(Shape { len, tail: 0, born: 0 })
    &&& l.env@ == audio::picture(audio::silence(2 * max_frames), len as int)
}

/// Clearing a loop: its audio, its length, its bars, its plans and how it
/// plays all go. What stays is where it records from, its fold, and how its
/// tape is set.
pub open spec fn clear_step(pre: Shared, li: int, post: Shared, r: Said) -> bool {
    let lp = pre.loops@[li];
    let b = post.loops@[li];
    let fixed = pre.size.fixed_frames;
    &&& post.audio() == pre.audio().update(li, silent_bank(pre))
    &&& finish::others_kept(pre, li, post)
    &&& post == (Shared {
        arena: post.arena,
        loops: post.loops,
        desk: Desk { anchor: shared::released(pre.desk.anchor, li as usize), ..pre.desk },
        ..pre
    })
    &&& b == (Loop {
        state: if fixed > 0 {
            Phase::Playing
        } else {
            Phase::Idle
        },
        body: cleared_body(pre, lp),
        take: Progress { close_at: NEVER, rec_len: 0, ..lp.take },
        edit: unedited(lp.edit),
        play: loop_state::fresh_play(lp.play.mono),
        habit: loop_state::cleared_habit(lp.habit),
        next: loop_state::no_plan(),
        closing: None,
        layers: b.layers,
        ..lp
    })
    &&& b.layers@.len() == lp.layers@.len()
    &&& forall|l: int|
        0 <= l < b.layers@.len() && (l > 0 || fixed == 0) ==> (#[trigger] b.layers@[l]).fresh()
    &&& fixed > 0 ==> blank_layer(b.layers@[0], fixed, pre.size.max_frames)
    &&& r == (if fixed > 0 {
        Said::ClearedTape { li: li as usize, len: fixed }
    } else {
        Said::Cleared { li: li as usize }
    })
}

/// A loop as a clear leaves it, before any tape is threaded.
pub open spec fn wiped(lp: Loop, b: Loop) -> bool {
    &&& b == (Loop { edit: unedited(lp.edit), layers: b.layers, ..lp.emptied() })
    &&& b.layers@.len() == lp.layers@.len()
    &&& forall|l: int| 0 <= l < b.layers@.len() ==> (#[trigger] b.layers@[l]).fresh()
}

proof fn wiped_sound(lp: Loop, b: Loop, max_layers: usize, max_frames: usize)
    requires
        shared::sound(lp, max_layers, max_frames),
        wiped(lp, b),
    ensures
        shared::sound(b, max_layers, max_frames),
{
    reveal(shared::sound);
    reveal(Loop::wf);
}

/// Every layer as it is before anything is in it.
fn refresh(layers: &mut Vec<Layer>)
    ensures
        final(layers)@.len() == old(layers)@.len(),
        forall|l: int| 0 <= l < final(layers)@.len() ==> (#[trigger] final(layers)@[l]).fresh(),
{
    let n: usize = layers.len();
    let mut l: usize = 0;
    while l < n
        invariant
            l <= n,
            layers@.len() == n,
            forall|k: int| 0 <= k < l ==> (#[trigger] layers@[k]).fresh(),
        decreases n - l,
    {
        layers.set(l, Layer::new());
        l = l + 1;
    }
}

fn hush(sh: &mut Shared, li: usize)
    requires
        old(sh).wf(),
        li < old(sh).size.n_loops,
    ensures
        final(sh).wf(),
        final(sh).audio() == old(sh).audio().update(li as int, silent_bank(*old(sh))),
        *final(sh) == (Shared { arena: final(sh).arena, ..*old(sh) }),
{
    let m: usize = sh.size.max_layers;
    let mut bank: Vec<Vec<u32>> = Vec::new();
    let mut l: usize = 0;
    while l < m
        invariant
            sh.wf(),
            m == sh.size.max_layers,
            l <= m,
            bank@.len() == l,
            forall|k: int|
                0 <= k < l ==> (#[trigger] bank@[k])@ == audio::silence(2 * sh.size.max_frames),
        decreases m - l,
    {
        bank.push(audio::silent(2 * sh.size.max_frames));
        l = l + 1;
    }
    assert(audio::tapes(bank@) =~= silent_bank(*sh));
    sh.set_bank(li, bank);
}

/// Clear a loop.
pub fn clear(sh: &mut Shared, li: usize) -> (r: Said)
    requires
        old(sh).wf(),
        li < old(sh).size.n_loops,
    ensures
        final(sh).wf(),
        clear_step(*old(sh), li as int, *final(sh), r),
{
    let ghost pre = *sh;
    let ghost a = sh.loops@[li as int];
    assert(sh.loop_ok(a));
    hush(sh, li);
    sh.release_anchor(li);
    let ghost mid = *sh;
    assert(mid.wf());
    let lp = &mut sh.loops[li];
    lp.cleared();
    lp.edit.win_in = 0;
    lp.edit.win_out = 0;
    lp.edit.rot = 0;
    lp.edit.edit_restart = 0;
    lp.edit.pend_set = false;
    refresh(&mut lp.layers);
    proof {
        let b = sh.loops@[li as int];
        wiped_sound(a, b, sh.size.max_layers, sh.size.max_frames);
        shared::loop_exchanged(mid, *sh, li as int, b);
        assert(sh.audio() =~= mid.audio());
    }
    let ghost done = *sh;
    let fixed: usize = sh.size.fixed_frames;
    if fixed > 0 {
        edit::thread_blank(sh, li, fixed);
        proof {
            assert(pre.arena@[li as int]@.len() == pre.size.max_layers);
            assert(done.audio()[li as int] == silent_bank(pre));
            assert(done.audio()[li as int].update(
                0,
                audio::silence(2 * pre.size.max_frames),
            ) =~= silent_bank(pre));
            assert(sh.audio() =~= pre.audio().update(li as int, silent_bank(pre)));
        }
        return Said::ClearedTape { li, len: fixed };
    }
    Said::Cleared { li }
}

/// What a clear leaves is nobody's: no length, no bars, no layers, no plan,
/// no take on its way, and no sound.
pub proof fn a_cleared_loop_holds_nothing(pre: Shared, li: int, post: Shared, r: Said)
    requires
        pre.wf(),
        0 <= li < pre.size.n_loops,
        pre.size.fixed_frames == 0,
        clear_step(pre, li, post, r),
    ensures
        ({
            let lp = post.loops@[li];
            &&& lp.state == Phase::Idle
            &&& lp.body.loop_len == 0
            &&& lp.body.cycles == 0
            &&& lp.body.n_layers == 0
            &&& lp.body.redo_to == 0
            &&& lp.next == loop_state::no_plan()
            &&& lp.take.close_at == NEVER
            &&& lp.take.rec_len == 0
            &&& lp.windowed() is None
            &&& lp.is_plain()
            &&& lp.closing is None
        }),
        post.desk.anchor != li || li == shared::NO_ANCHOR,
        forall|l: int, i: int|
            0 <= l < post.size.max_layers && 0 <= i < 2 * post.size.max_frames
                ==> #[trigger] post.audio()[li][l][i] == 0,
{
}

/// A tape with its first frames exchanged for those folded together.
pub open spec fn folded_tape(tape: Seq<u32>, folded: Seq<u32>, len: int) -> Seq<u32> {
    Seq::new(
        tape.len(),
        |i: int|
            if i < 2 * len && i < folded.len() {
                folded[i]
            } else {
                tape[i]
            },
    )
}

/// The audio of the tape a loop becomes.
pub open spec fn flat_tape(sh: Shared, li: int, folded: Seq<u32>) -> Seq<u32> {
    folded_tape(sh.tape(li, 0), folded, sh.loops@[li].body.loop_len as int)
}

/// The audio of a loop that has become a tape: one layer, and silence where
/// the others were.
pub open spec fn flat_bank(sh: Shared, li: int, folded: Seq<u32>) -> Seq<Seq<u32>> {
    let lp = sh.loops@[li];
    Seq::new(
        sh.size.max_layers as nat,
        |l: int|
            if l == 0 {
                flat_tape(sh, li, folded)
            } else if l < lp.body.n_layers {
                audio::silence(2 * sh.size.max_frames)
            } else {
                sh.tape(li, l)
            },
    )
}

/// The layers of a loop that has become a tape.
pub open spec fn flat_layers(a: Loop, born: i64, tape: Seq<u32>, layers: Seq<Layer>) -> bool {
    &&& layers.len() == a.layers@.len()
    &&& layers[0] == (Layer {
        env: layers[0].env,
        ..a.layers@[0].shaped(Shape { len: a.body.loop_len, tail: 0, born })
    })
    &&& layers[0].env@ == audio::picture(tape, a.body.loop_len as int)
    &&& forall|l: int|
        0 < l < a.layers@.len() ==> #[trigger] layers[l] == (if l < a.body.n_layers {
            a.layers@[l].shaped(Shape { len: 0, tail: 0, born: 0 })
        } else {
            a.layers@[l]
        })
}

/// Whether there is anything to fold.
pub open spec fn foldable(lp: Loop) -> bool {
    lp.body.n_layers > 0 && lp.body.loop_len > 0
}

/// What is in a loop that has become a tape. Where other layers were folded
/// into it, nothing above it is kept for redo.
pub open spec fn flat_body(b: Body) -> Body {
    Body {
        n_layers: 1,
        redo_to: if b.n_layers > 1 {
            1
        } else {
            b.redo_to
        },
        ..b
    }
}

/// Folding a loop into one layer.
pub open spec fn flattened(pre: Shared, li: int, folded: Seq<u32>, post: Shared) -> bool {
    let a = pre.loops@[li];
    let b = post.loops@[li];
    if !foldable(a) {
        post == pre
    } else {
        &&& post.audio() == pre.audio().update(li, flat_bank(pre, li, folded))
        &&& finish::others_kept(pre, li, post)
        &&& post == (Shared { arena: post.arena, loops: post.loops, ..pre })
        &&& b == (Loop { body: flat_body(a.body), layers: b.layers, ..a })
        &&& flat_layers(
            a,
            finish::born_of(a, pre.now(), a.body.loop_len as int),
            flat_tape(pre, li, folded),
            b.layers@,
        )
    }
}

fn fold_tape(tape: &Vec<u32>, folded: &Vec<u32>, len: usize) -> (r: Vec<u32>)
    requires
        2 * len <= tape@.len(),
    ensures
        r@ == folded_tape(tape@, folded@, len as int),
{
    let n: usize = tape.len();
    let mut r: Vec<u32> = Vec::new();
    let mut i: usize = 0;
    while i < n
        invariant
            n == tape@.len(),
            2 * len <= n,
            i <= n,
            r@.len() == i,
            forall|j: int|
                0 <= j < i ==> #[trigger] r@[j] == folded_tape(tape@, folded@, len as int)[j],
        decreases n - i,
    {
        let v: u32 = if i < 2 * len && i < folded.len() {
            folded[i]
        } else {
            tape[i]
        };
        r.push(v);
        i = i + 1;
    }
    assert(r@ =~= folded_tape(tape@, folded@, len as int));
    r
}

fn flat_arena(sh: &Shared, li: usize, folded: &Vec<u32>) -> (r: Vec<Vec<u32>>)
    requires
        sh.wf(),
        li < sh.size.n_loops,
        sh.loops@[li as int].body.loop_len <= sh.size.max_frames,
    ensures
        audio::tapes(r@) == flat_bank(*sh, li as int, folded@),
        r@.len() == sh.size.max_layers,
        forall|l: int| 0 <= l < r@.len() ==> (#[trigger] r@[l])@.len() == 2 * sh.size.max_frames,
{
    let ghost want = flat_bank(*sh, li as int, folded@);
    let m: usize = sh.size.max_layers;
    let n: usize = sh.loops[li].body.n_layers;
    let len: usize = sh.loops[li].body.loop_len;
    let mut bank: Vec<Vec<u32>> = Vec::new();
    let mut l: usize = 0;
    while l < m
        invariant
            sh.wf(),
            li < sh.size.n_loops,
            m == sh.size.max_layers,
            n == sh.loops@[li as int].body.n_layers,
            len == sh.loops@[li as int].body.loop_len,
            len <= sh.size.max_frames,
            want == flat_bank(*sh, li as int, folded@),
            l <= m,
            bank@.len() == l,
            forall|k: int| 0 <= k < l ==> (#[trigger] bank@[k])@ == want[k],
            forall|k: int| 0 <= k < l ==> (#[trigger] bank@[k])@.len() == 2 * sh.size.max_frames,
        decreases m - l,
    {
        let tape = past::copy_tape(sh, li, l);
        if l == 0 {
            bank.push(fold_tape(&tape, folded, len));
        } else if l < n {
            bank.push(audio::silent(2 * sh.size.max_frames));
        } else {
            bank.push(tape);
        }
        l = l + 1;
    }
    assert(audio::tapes(bank@) =~= want);
    bank
}

/// Leave one layer of a stack, of a shape.
fn leave_one(layers: &mut Vec<Layer>, n: usize, s: Shape, env: Vec<u32>)
    requires
        1 <= n <= old(layers)@.len(),
    ensures
        final(layers)@.len() == old(layers)@.len(),
        final(layers)@[0] == (Layer { env, ..old(layers)@[0].shaped(s) }),
        forall|l: int|
            0 < l < old(layers)@.len() ==> #[trigger] final(layers)@[l] == (if l < n {
                old(layers)@[l].shaped(Shape { len: 0, tail: 0, born: 0 })
            } else {
                old(layers)@[l]
            }),
{
    let ghost before = layers@;
    let mut l: usize = 1;
    while l < n
        invariant
            1 <= l <= n <= layers@.len(),
            layers@.len() == before.len(),
            layers@[0] == before[0],
            forall|k: int|
                0 < k < l ==> #[trigger] layers@[k] == before[k].shaped(
                    Shape { len: 0, tail: 0, born: 0 },
                ),
            forall|k: int| l <= k < before.len() ==> #[trigger] layers@[k] == before[k],
        decreases n - l,
    {
        let layer = &mut layers[l];
        layer.set_shape(Shape { len: 0, tail: 0, born: 0 });
        l = l + 1;
    }
    let layer = &mut layers[0];
    layer.set_shape(s);
    layer.env = env;
}

proof fn flat_sound(
    a: Loop,
    b: Loop,
    born: i64,
    tape: Seq<u32>,
    max_layers: usize,
    max_frames: usize,
)
    requires
        shared::sound(a, max_layers, max_frames),
        max_layers >= 1,
        frame::in_range(born),
        b == (Loop { body: flat_body(a.body), layers: b.layers, ..a }),
        flat_layers(a, born, tape, b.layers@),
    ensures
        shared::sound(b, max_layers, max_frames),
{
    reveal(shared::sound);
    reveal(Loop::wf);
    assert forall|l: int| 0 <= l < b.layers@.len() implies loop_state::layer_wf(
        #[trigger] b.layers@[l],
    ) && b.layers@[l].len <= max_frames by {
        assert(loop_state::layer_wf(a.layers@[l]));
        assert(a.layers@[l].len <= max_frames);
    }
}

impl Shared {
    /// Fold a loop into one layer, whose samples are `folded`: what
    /// `mix_at` reads at each position, mixed.
    pub fn flatten(&mut self, li: usize, folded: &Vec<u32>)
        requires
            old(self).wf(),
            li < old(self).size.n_loops,
        ensures
            final(self).wf(),
            flattened(*old(self), li as int, folded@, *final(self)),
    {
        let ghost pre = *self;
        let ghost a = self.loops@[li as int];
        assert(self.loop_ok(a));
        proof {
            shared::sized(a, self.size.max_layers, self.size.max_frames);
        }
        let n: usize = self.loops[li].body.n_layers;
        let len: usize = self.loops[li].body.loop_len;
        if n == 0 || len == 0 {
            return;
        }
        assert(a.wf()) by {
            reveal(shared::sound);
        }
        let born: i64 = finish::birth(&self.loops[li], self.clock.out_frames as i64, len);
        let bank = flat_arena(self, li, folded);
        assert(bank@[0]@ == audio::tapes(bank@)[0]);
        let env = audio::draw(&bank[0], len);
        self.set_bank(li, bank);
        let ghost mid = *self;
        let lp = &mut self.loops[li];
        leave_one(&mut lp.layers, n, Shape { len, tail: 0, born }, env);
        lp.body.n_layers = 1;
        if n > 1 {
            lp.body.redo_to = 1;
        }
        proof {
            let b = self.loops@[li as int];
            flat_sound(
                a,
                b,
                born,
                flat_tape(pre, li as int, folded@),
                self.size.max_layers,
                self.size.max_frames,
            );
            shared::loop_exchanged(mid, *self, li as int, b);
            assert(self.audio() =~= mid.audio());
        }
    }
}

/// What is folded is what is heard: at every position a loop that has become
/// a tape is heard from that one frame of it, at full level, and the frame
/// holds what was folded for the position.
pub proof fn a_tape_is_heard_as_it_was_folded(
    pre: Shared,
    li: int,
    folded: Seq<u32>,
    post: Shared,
    pos: int,
    ch: int,
    live: bool,
)
    requires
        pre.wf(),
        0 <= li < pre.size.n_loops,
        foldable(pre.loops@[li]),
        folded.len() == 2 * pre.loops@[li].body.loop_len,
        flattened(pre, li, folded, post),
        0 <= pos < pre.loops@[li].body.loop_len,
        0 <= ch < 2,
    ensures
        post.mix_of(li, post.loops@[li].body.n_layers as int, pos, live) == seq![
            (0usize, Heard::Frame { at: pos as usize }, ONE),
        ],
        post.audio()[li][0][2 * pos + ch] == folded[2 * pos + ch],
{
    let a = pre.loops@[li];
    assert(pre.loop_ok(a));
    shared::sized(a, pre.size.max_layers, pre.size.max_frames);
    reveal_with_fuel(Shared::mix_of, 2);
    let l = post.loops@[li].layers@[0];
    vstd::arithmetic::div_mod::lemma_small_mod(pos as nat, l.len as nat);
    assert(audio::mixed(l));
    assert(post.mix_of(li, 1, pos, live) =~= seq![
        (0usize, Heard::Frame { at: pos as usize }, ONE),
    ]);
}

/// A clear on a rig of fixed length threads an empty tape of that length in
/// place of the loop. What stays of any loop is where it records from, its
/// fold, and how its tape is set; and every other loop.
pub proof fn a_clear_keeps_how_one_works(pre: Shared, li: int, post: Shared, r: Said, i: int)
    requires
        pre.wf(),
        0 <= li < pre.size.n_loops,
        clear_step(pre, li, post, r),
        0 <= i < pre.size.n_loops,
    ensures
        ({
            let a = pre.loops@[li];
            let b = post.loops@[li];
            &&& b.habit.src == a.habit.src
            &&& b.play.mono == a.play.mono
            &&& b.habit.fb == a.habit.fb
            &&& b.habit.tone == a.habit.tone
            &&& !b.habit.quant
            &&& !b.habit.level_arm
            &&& !b.habit.revox
            &&& !b.play.muted
            &&& !b.play.one_shot
            &&& b.play.vol == ONE
            &&& b.play.decay == ONE
            &&& b.play.chance == ONE
            &&& b.play.fade == 0
            &&& b.edit.rot == 0
            &&& b.is_plain()
            &&& i != li ==> post.loops@[i] == pre.loops@[i] && post.audio()[i] == pre.audio()[i]
            &&& pre.size.fixed_frames > 0 ==> {
                &&& b.state == Phase::Playing
                &&& b.body.loop_len == pre.size.fixed_frames
                &&& b.body.n_layers == 1
                &&& b.body.threaded
                &&& b.body.origin == pre.clock.out_frames
                &&& b.layers@[0].len == pre.size.fixed_frames
            }
        }),
{
}

/// A clear leaves nothing waiting: no edit is held or due, and nothing is left
/// in the filter of a tape.
pub proof fn a_clear_leaves_nothing_waiting(pre: Shared, li: int, post: Shared, r: Said)
    requires
        0 <= li < pre.loops@.len(),
        clear_step(pre, li, post, r),
    ensures
        !post.loops@[li].edit.pend_set,
        post.loops@[li].edit.edit_restart == 0,
        post.loops@[li].habit.tape_lp == 0,
        !post.loops@[li].play.cfg_armed,
        post.loops@[li].next.empty(),
        !post.loops@[li].next.one_pass,
        post.loops@[li].closing is None,
        post.loops@[li].play.shot_end == NEVER,
        post.loops@[li].play.chance_pass == NEVER,
        post.loops@[li].body.redo_to == 0,
{
}

/// A loop that is folded is one layer as long as the loop, born on the pass it
/// was folded on; the layers that went into it are gone, with what was kept of
/// them for redo, and those above them stay.
pub proof fn a_folded_loop_is_one_layer(
    pre: Shared,
    li: int,
    folded: Seq<u32>,
    post: Shared,
    l: int,
    i: int,
)
    requires
        pre.wf(),
        0 <= li < pre.size.n_loops,
        flattened(pre, li, folded, post),
        pre.loops@[li].body.n_layers > 0,
        pre.loops@[li].body.loop_len > 0,
        0 < l < pre.size.max_layers,
        0 <= i < 2 * pre.size.max_frames,
    ensures
        ({
            let a = pre.loops@[li];
            let b = post.loops@[li];
            let n = a.body.n_layers;
            let since = pre.clock.out_frames - a.body.origin;
            let born = b.layers@[0].born;
            &&& b.body.n_layers == 1
            &&& n > 1 ==> b.body.redo_to == 1
            &&& n == 1 ==> b.body.redo_to == a.body.redo_to
            &&& b.layers@[0].len == a.body.loop_len
            &&& b.body.origin == a.body.origin
            &&& l < n ==> b.layers@[l].len == 0 && post.audio()[li][l][i] == 0
            &&& l >= n ==> b.layers@[l] == a.layers@[l] && post.audio()[li][l][i]
                == pre.audio()[li][l][i]
            &&& a.is_plain() ==> born * a.body.loop_len <= since < (born + 1) * a.body.loop_len
        }),
{
    let a = pre.loops@[li];
    assert(pre.loop_ok(a));
    shared::sized(a, pre.size.max_layers, pre.size.max_frames);
    assert(pre.arena@[li]@.len() == pre.size.max_layers);
    let len = a.body.loop_len as int;
    let since = pre.now() - a.body.origin;
    vstd::arithmetic::div_mod::lemma_fundamental_div_mod(since, len);
    vstd::arithmetic::div_mod::lemma_mod_bound(since, len);
    let q = since / len;
    assert(q * len == len * q && (q + 1) * len == len * q + len) by (nonlinear_arith);
    assert(frame::near(a.body.origin)) by {
        reveal(shared::sound);
        reveal(Loop::wf);
    }
    assert(i64::MIN <= q <= i64::MAX) by (nonlinear_arith)
        requires
            len >= 1,
            since == len * q + since % len,
            0 <= since % len < len,
            -0x7000_0000_0000_0000 <= since <= 0x7000_0000_0000_0000,
    ;
}

} // verus!
