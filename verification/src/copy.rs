//! Copies of layers: onto another loop, which has to be empty, or onto the
//! same one.

use crate::ack::Said;
use crate::audio;
use crate::bits::ONE;
use crate::finish;
use crate::frame;
use crate::layer::Layer;
use crate::loop_state;
use crate::loop_state::{Body, Edit, Habit, Loop};
use crate::past;
use crate::phase::Phase;
use crate::shared;
use crate::shared::Shared;
use vstd::prelude::*;

verus! {

/// The first `len` frames of a tape, and silence after them.
pub open spec fn fronted(tape: Seq<u32>, len: int) -> Seq<u32> {
    Seq::new(
        tape.len(),
        |i: int|
            if i < 2 * len {
                tape[i]
            } else {
                0u32
            },
    )
}

fn copy_front(tape: &Vec<u32>, len: usize) -> (r: Vec<u32>)
    ensures
        r@ == fronted(tape@, len as int),
{
    let n: usize = tape.len();
    let mut r: Vec<u32> = Vec::new();
    let mut i: usize = 0;
    while i < n
        invariant
            n == tape@.len(),
            i <= n,
            r@.len() == i,
            forall|j: int| 0 <= j < i ==> #[trigger] r@[j] == fronted(tape@, len as int)[j],
        decreases n - i,
    {
        let v: u32 = if i / 2 < len {
            tape[i]
        } else {
            0
        };
        r.push(v);
        i = i + 1;
    }
    assert(r@ =~= fronted(tape@, len as int));
    r
}

/// The audio of a copy of a layer: what the layer holds over its length, and
/// what carries on past its end.
pub open spec fn copied_tape(src: Layer, tape: Seq<u32>) -> Seq<u32> {
    fronted(tape, src.len + src.tail)
}

/// Whether one layer is a copy of another: the same stretch in the same
/// slot and window, at full level, in the mix, with its own audio drawn.
pub open spec fn copy_of(src: Layer, tape: Seq<u32>, b: Layer) -> bool {
    &&& b == (Layer { env: b.env, gain: ONE, on: true, ..src })
    &&& b.env@ == audio::picture(copied_tape(src, tape), src.len as int)
}

fn copy_layer(src: &Layer, copied: &Vec<u32>) -> (r: Layer)
    requires
        2 * src.len <= copied@.len(),
        frame::fits(src.len),
    ensures
        r == (Layer { env: r.env, gain: ONE, on: true, ..*src }),
        r.env@ == audio::picture(copied@, src.len as int),
{
    Layer {
        len: src.len,
        tail: src.tail,
        born: src.born,
        env: audio::draw(copied, src.len),
        gain: ONE,
        on: true,
        win_in: src.win_in,
        win_out: src.win_out,
        period: src.period,
        phase: src.phase,
    }
}

/// Copying a layer of a loop onto the top of its own stack. Layers count
/// from one here.
pub open spec fn duplicate_step(pre: Shared, li: int, k: usize, post: Shared, r: Said) -> bool {
    let lp = pre.loops@[li];
    let n = lp.body.n_layers;
    let b = post.loops@[li];
    let tape = pre.tape(li, k - 1);
    if !(1 <= k <= n) {
        post == pre && r == (Said::NoSuchLayer { li: li as usize, n, layer: k })
    } else if n >= pre.size.max_layers {
        &&& post == pre
        &&& r == (Said::LayersFull { li: li as usize, max_layers: pre.size.max_layers })
    } else if lp.claims() {
        post == pre && r == (Said::FinishBeforeCopy { li: li as usize })
    } else {
        &&& r == (Said::Duplicated { li: li as usize, layer: k, copy: (n + 1) as usize })
        &&& post.audio() == pre.audio_with(li, n as int, copied_tape(lp.layers@[k - 1], tape))
        &&& finish::others_kept(pre, li, post)
        &&& post == (Shared { arena: post.arena, loops: post.loops, ..pre })
        &&& b == (Loop { body: loop_state::one_more(lp.body), layers: b.layers, ..lp })
        &&& b.layers@.len() == lp.layers@.len()
        &&& forall|l: int|
            0 <= l < lp.layers@.len() && l != n ==> #[trigger] b.layers@[l] == lp.layers@[l]
        &&& copy_of(lp.layers@[k - 1], tape, b.layers@[n as int])
    }
}

proof fn stacked_sound(a: Loop, b: Loop, max_layers: usize, max_frames: usize)
    requires
        shared::sound(a, max_layers, max_frames),
        a.body.n_layers < max_layers,
        b == (Loop { body: loop_state::one_more(a.body), layers: b.layers, ..a }),
        b.layers@.len() == a.layers@.len(),
        forall|l: int|
            0 <= l < a.layers@.len() && l != a.body.n_layers ==> #[trigger] b.layers@[l]
                == a.layers@[l],
        loop_state::layer_wf(b.layers@[a.body.n_layers as int]),
        b.layers@[a.body.n_layers as int].len <= max_frames,
    ensures
        shared::sound(b, max_layers, max_frames),
{
    reveal(shared::sound);
    reveal(Loop::wf);
    assert forall|l: int| 0 <= l < b.layers@.len() implies loop_state::layer_wf(
        #[trigger] b.layers@[l],
    ) && b.layers@[l].len <= max_frames by {
        assert(loop_state::layer_wf(a.layers@[l]));
        assert(a.layers@[l].len <= max_frames);
    }
}

pub fn duplicate(sh: &mut Shared, li: usize, k: usize) -> (r: Said)
    requires
        old(sh).wf(),
        li < old(sh).size.n_loops,
    ensures
        final(sh).wf(),
        duplicate_step(*old(sh), li as int, k, *final(sh), r),
{
    let ghost a = sh.loops@[li as int];
    proof {
        assert(sh.loop_ok(a));
        shared::sized(a, sh.size.max_layers, sh.size.max_frames);
    }
    let n: usize = sh.loops[li].body.n_layers;
    if k < 1 || k > n {
        return Said::NoSuchLayer { li, n, layer: k };
    }
    if n >= sh.size.max_layers {
        return Said::LayersFull { li, max_layers: sh.size.max_layers };
    }
    if sh.loops[li].wants_input() {
        return Said::FinishBeforeCopy { li };
    }
    assert(loop_state::layer_wf(a.layers@[k - 1]) && a.layers@[k - 1].len <= sh.size.max_frames) by {
        reveal(shared::sound);
        reveal(Loop::wf);
    }
    let tape = past::copy_tape(sh, li, k - 1);
    let tape = copy_front(&tape, sh.loops[li].layers[k - 1].len + sh.loops[li].layers[k - 1].tail);
    let layer = copy_layer(&sh.loops[li].layers[k - 1], &tape);
    sh.set_tape(li, n, tape);
    let ghost mid = *sh;
    let lp = &mut sh.loops[li];
    lp.layers.set(n, layer);
    lp.add_layer();
    proof {
        stacked_sound(a, sh.loops@[li as int], sh.size.max_layers, sh.size.max_frames);
        shared::loop_exchanged(mid, *sh, li as int, sh.loops@[li as int]);
        assert(sh.audio() =~= mid.audio());
    }
    Said::Duplicated { li, layer: k, copy: n + 1 }
}

/// Those of the first `n` layers of a loop that have a length.
pub open spec fn with_length(lp: Loop, n: int) -> Seq<usize>
    decreases n,
{
    if n <= 0 {
        Seq::empty()
    } else {
        let before = with_length(lp, n - 1);
        if lp.layers@[n - 1].len > 0 {
            before.push((n - 1) as usize)
        } else {
            before
        }
    }
}

/// The layers a copy takes: the one that was asked for, or all of them; and
/// none that has no length.
pub open spec fn chosen(lp: Loop, layer: Option<usize>) -> Seq<usize> {
    match layer {
        Some(k) => if lp.layers@[k as int].len > 0 {
            seq![k]
        } else {
            Seq::empty()
        },
        None => with_length(lp, lp.body.n_layers as int),
    }
}

/// Why layers of one loop are not copied onto another, or nothing.
pub open spec fn copy_refused(
    sh: Shared,
    dst: int,
    src: usize,
    layer: Option<usize>,
) -> Option<Said> {
    let from = sh.loops@[src as int];
    let to = sh.loops@[dst];
    if src >= sh.size.n_loops {
        Some(Said::NoLoop { src })
    } else if src == dst {
        Some(Said::OntoItself { li: dst as usize })
    } else if from.claims() {
        Some(Said::SourceRecording { src })
    } else if to.claims() {
        Some(Said::TargetRecording { li: dst as usize })
    } else if from.body.n_layers == 0 || from.body.loop_len == 0 {
        Some(Said::NothingToCopy { src })
    } else if !to.body.threaded && (to.body.n_layers > 0 || to.body.loop_len > 0) {
        Some(Said::NotEmpty { li: dst as usize })
    } else if layer matches Some(k) && k >= from.body.n_layers {
        Some(
            Said::CopyNoLayer {
                src,
                n: from.body.n_layers,
                layer: (layer.unwrap() + 1) as usize,
            },
        )
    } else if chosen(from, layer).len() == 0 {
        Some(Said::NothingToCopy { src })
    } else {
        None
    }
}

/// The audio of a loop that layers of another are copied onto: theirs, and
/// silence above.
pub open spec fn copied_bank(sh: Shared, src: int, picked: Seq<usize>) -> Seq<Seq<u32>> {
    Seq::new(
        sh.size.max_layers as nat,
        |j: int|
            if j < picked.len() {
                copied_tape(
                    sh.loops@[src].layers@[picked[j] as int],
                    sh.tape(src, picked[j] as int),
                )
            } else {
                audio::silence(2 * sh.size.max_frames)
            },
    )
}

/// A loop that layers of another have been copied onto: it has its length,
/// its bars and its place, it plays the whole of them, and it keeps what is
/// set of it otherwise.
pub open spec fn copied_onto(from: Loop, to: Loop, picked: Seq<usize>, b: Loop) -> bool {
    &&& b == (Loop {
        state: Phase::Playing,
        body: Body {
            loop_len: from.body.loop_len,
            cycles: from.body.cycles,
            n_layers: picked.len() as usize,
            redo_to: picked.len() as usize,
            origin: from.body.origin,
            threaded: false,
        },
        edit: Edit { win_in: 0, win_out: 0, rot: 0, pend_set: false, ..to.edit },
        habit: Habit { quant: from.habit.quant, ..to.habit },
        layers: b.layers,
        ..to
    })
    &&& b.layers@.len() == to.layers@.len()
    &&& forall|l: int|
        picked.len() <= l < to.layers@.len() ==> #[trigger] b.layers@[l] == to.layers@[l]
}

/// Copying layers of one loop, all of them or one, onto another.
pub open spec fn copy_step(
    pre: Shared,
    dst: int,
    src: usize,
    layer: Option<usize>,
    post: Shared,
    r: Said,
) -> bool {
    let from = pre.loops@[src as int];
    let picked = chosen(from, layer);
    match copy_refused(pre, dst, src, layer) {
        Some(why) => post == pre && r == why,
        None => {
            &&& post.audio() == pre.audio().update(dst, copied_bank(pre, src as int, picked))
            &&& finish::others_kept(pre, dst, post)
            &&& post == (Shared { arena: post.arena, loops: post.loops, ..pre })
            &&& copied_onto(from, pre.loops@[dst], picked, post.loops@[dst])
            &&& forall|j: int|
                0 <= j < picked.len() ==> copy_of(
                    from.layers@[picked[j] as int],
                    pre.tape(src as int, picked[j] as int),
                    #[trigger] post.loops@[dst].layers@[j],
                )
            &&& r == (match layer {
                Some(k) => Said::CopiedLayer {
                    layer: (k + 1) as usize,
                    src,
                    li: dst as usize,
                    len: from.body.loop_len,
                },
                None => Said::Copied { n: picked.len() as usize, src, li: dst as usize },
            })
        },
    }
}

/// There are no more layers with a length than layers.
proof fn picked_few(lp: Loop, n: int)
    requires
        n >= 0,
    ensures
        with_length(lp, n).len() <= n,
        forall|j: int|
            0 <= j < with_length(lp, n).len() ==> (#[trigger] with_length(lp, n)[j]) < n || n
                > usize::MAX,
    decreases n,
{
    if n > 0 {
        picked_few(lp, n - 1);
    }
}

fn pick(sh: &Shared, src: usize, layer: Option<usize>) -> (r: Vec<usize>)
    requires
        sh.wf(),
        src < sh.size.n_loops,
        layer matches Some(k) ==> k < sh.loops@[src as int].body.n_layers,
    ensures
        r@ == chosen(sh.loops@[src as int], layer),
        r@.len() <= sh.size.max_layers,
        forall|j: int| 0 <= j < r@.len() ==> (#[trigger] r@[j]) < sh.size.max_layers,
{
    let ghost lp = sh.loops@[src as int];
    proof {
        assert(sh.loop_ok(lp));
        shared::sized(lp, sh.size.max_layers, sh.size.max_frames);
    }
    let mut r: Vec<usize> = Vec::new();
    match layer {
        Some(k) => {
            if sh.loops[src].layers[k].len > 0 {
                r.push(k);
            }
            assert(r@ =~= chosen(lp, layer));
        },
        None => {
            let n: usize = sh.loops[src].body.n_layers;
            let mut l: usize = 0;
            while l < n
                invariant
                    sh.wf(),
                    src < sh.size.n_loops,
                    lp == sh.loops@[src as int],
                    l <= n <= lp.layers@.len(),
                    n <= sh.size.max_layers,
                    r@ == with_length(lp, l as int),
                decreases n - l,
            {
                if sh.loops[src].layers[l].len > 0 {
                    r.push(l);
                }
                l = l + 1;
            }
            proof {
                picked_few(lp, n as int);
            }
        },
    }
    r
}

/// The copies themselves: the audio of each, and the layer.
fn prepare(sh: &Shared, src: usize, picked: &Vec<usize>) -> (r: (Vec<Vec<u32>>, Vec<Layer>))
    requires
        sh.wf(),
        src < sh.size.n_loops,
        picked@.len() <= sh.size.max_layers,
        forall|j: int| 0 <= j < picked@.len() ==> (#[trigger] picked@[j]) < sh.size.max_layers,
    ensures
        r.0@.len() == sh.size.max_layers,
        forall|l: int|
            0 <= l < r.0@.len() ==> (#[trigger] r.0@[l])@.len() == 2 * sh.size.max_frames,
        audio::tapes(r.0@) == copied_bank(*sh, src as int, picked@),
        r.1@.len() == picked@.len(),
        forall|j: int|
            0 <= j < picked@.len() ==> copy_of(
                sh.loops@[src as int].layers@[picked@[j] as int],
                sh.tape(src as int, picked@[j] as int),
                #[trigger] r.1@[j],
            ),
{
    let ghost lp = sh.loops@[src as int];
    proof {
        assert(sh.loop_ok(lp));
        shared::sized(lp, sh.size.max_layers, sh.size.max_frames);
    }
    assert forall|l: int| 0 <= l < lp.layers@.len() implies frame::fits(
        (#[trigger] lp.layers@[l]).tail,
    ) by {
        reveal(shared::sound);
        reveal(Loop::wf);
        assert(loop_state::layer_wf(lp.layers@[l]));
    }
    let m: usize = sh.size.max_layers;
    let mut bank: Vec<Vec<u32>> = Vec::new();
    let mut layers: Vec<Layer> = Vec::new();
    let mut j: usize = 0;
    while j < m
        invariant
            sh.wf(),
            src < sh.size.n_loops,
            lp == sh.loops@[src as int],
            lp.layers@.len() == m,
            m == sh.size.max_layers,
            j <= m,
            picked@.len() <= m,
            forall|i: int| 0 <= i < picked@.len() ==> (#[trigger] picked@[i]) < m,
            forall|l: int|
                0 <= l < m ==> (#[trigger] lp.layers@[l]).len <= sh.size.max_frames && frame::fits(
                    lp.layers@[l].tail,
                ),
            bank@.len() == j,
            layers@.len() == (if j < picked@.len() {
                j as nat
            } else {
                picked@.len()
            }),
            forall|l: int|
                0 <= l < j ==> (#[trigger] bank@[l])@ == copied_bank(*sh, src as int, picked@)[l],
            forall|l: int| 0 <= l < j ==> (#[trigger] bank@[l])@.len() == 2 * sh.size.max_frames,
            forall|i: int|
                0 <= i < layers@.len() ==> copy_of(
                    lp.layers@[picked@[i] as int],
                    sh.tape(src as int, picked@[i] as int),
                    #[trigger] layers@[i],
                ),
        decreases m - j,
    {
        if j < picked.len() {
            let l: usize = picked[j];
            let tape = past::copy_tape(sh, src, l);
            let held: usize = sh.loops[src].layers[l].len + sh.loops[src].layers[l].tail;
            let tape = copy_front(&tape, held);
            layers.push(copy_layer(&sh.loops[src].layers[l], &tape));
            bank.push(tape);
        } else {
            bank.push(audio::silent(2 * sh.size.max_frames));
        }
        j = j + 1;
    }
    assert(audio::tapes(bank@) =~= copied_bank(*sh, src as int, picked@));
    (bank, layers)
}

/// Put layers in the place of the first of a stack.
fn install(layers: &mut Vec<Layer>, copies: Vec<Layer>)
    requires
        copies@.len() <= old(layers)@.len(),
    ensures
        final(layers)@.len() == old(layers)@.len(),
        forall|l: int| 0 <= l < copies@.len() ==> #[trigger] final(layers)@[l] == copies@[l],
        forall|l: int|
            copies@.len() <= l < old(layers)@.len() ==> #[trigger] final(layers)@[l] == old(
                layers,
            )@[l],
{
    let ghost all = copies@;
    let ghost before = layers@;
    let mut copies = copies;
    while copies.len() > 0
        invariant
            copies@.len() <= all.len() <= before.len(),
            layers@.len() == before.len(),
            copies@ == all.take(copies@.len() as int),
            forall|l: int| copies@.len() <= l < all.len() ==> #[trigger] layers@[l] == all[l],
            forall|l: int| all.len() <= l < before.len() ==> #[trigger] layers@[l] == before[l],
        decreases copies@.len(),
    {
        match copies.pop() {
            Some(layer) => {
                let at: usize = copies.len();
                layers.set(at, layer);
                assert(copies@ =~= all.take(copies@.len() as int));
            },
            None => {},
        }
    }
}

proof fn copied_sound(
    from: Loop,
    to: Loop,
    b: Loop,
    picked: Seq<usize>,
    max_layers: usize,
    max_frames: usize,
)
    requires
        shared::sound(from, max_layers, max_frames),
        shared::sound(to, max_layers, max_frames),
        picked.len() <= max_layers,
        forall|j: int| 0 <= j < picked.len() ==> (#[trigger] picked[j]) < max_layers,
        copied_onto(from, to, picked, b),
        forall|j: int|
            0 <= j < picked.len() ==> (#[trigger] b.layers@[j]) == (Layer {
                env: b.layers@[j].env,
                gain: ONE,
                on: true,
                ..from.layers@[picked[j] as int]
            }),
    ensures
        shared::sound(b, max_layers, max_frames),
{
    reveal(shared::sound);
    reveal(Loop::wf);
    assert forall|l: int| 0 <= l < b.layers@.len() implies loop_state::layer_wf(
        #[trigger] b.layers@[l],
    ) && b.layers@[l].len <= max_frames by {
        if l < picked.len() {
            let src = from.layers@[picked[l] as int];
            assert(loop_state::layer_wf(src));
            assert(src.len <= max_frames);
        } else {
            assert(loop_state::layer_wf(to.layers@[l]));
            assert(to.layers@[l].len <= max_frames);
        }
    }
}

fn refuse_copy(sh: &Shared, dst: usize, src: usize, layer: Option<usize>) -> (r: Option<Said>)
    requires
        sh.wf(),
        dst < sh.size.n_loops,
        layer matches Some(k) ==> k < usize::MAX,
    ensures
        r is Some ==> r == copy_refused(*sh, dst as int, src, layer),
        r is None ==> src < sh.size.n_loops && src != dst && (layer matches Some(k) ==> k
            < sh.loops@[src as int].body.n_layers) && (copy_refused(*sh, dst as int, src, layer)
            is None <==> chosen(sh.loops@[src as int], layer).len() > 0),
        r is None && chosen(sh.loops@[src as int], layer).len() == 0 ==> copy_refused(
            *sh,
            dst as int,
            src,
            layer,
        ) == Some(Said::NothingToCopy { src }),
{
    if src >= sh.size.n_loops {
        return Some(Said::NoLoop { src });
    }
    if src == dst {
        return Some(Said::OntoItself { li: dst });
    }
    if sh.loops[src].wants_input() {
        return Some(Said::SourceRecording { src });
    }
    if sh.loops[dst].wants_input() {
        return Some(Said::TargetRecording { li: dst });
    }
    let n: usize = sh.loops[src].body.n_layers;
    if n == 0 || sh.loops[src].body.loop_len == 0 {
        return Some(Said::NothingToCopy { src });
    }
    let to: Body = sh.loops[dst].body;
    if !to.threaded && (to.n_layers > 0 || to.loop_len > 0) {
        return Some(Said::NotEmpty { li: dst });
    }
    if let Some(k) = layer {
        if k >= n {
            return Some(Said::CopyNoLayer { src, n, layer: k + 1 });
        }
    }
    None
}

/// Copy layers of one loop, all of them or one, onto another.
pub fn copy_layers(sh: &mut Shared, dst: usize, src: usize, layer: Option<usize>) -> (r: Said)
    requires
        old(sh).wf(),
        dst < old(sh).size.n_loops,
        layer matches Some(k) ==> k < usize::MAX,
    ensures
        final(sh).wf(),
        copy_step(*old(sh), dst as int, src, layer, *final(sh), r),
{
    if let Some(why) = refuse_copy(sh, dst, src, layer) {
        return why;
    }
    let picked = pick(sh, src, layer);
    if picked.len() == 0 {
        return Said::NothingToCopy { src };
    }
    let ghost from = sh.loops@[src as int];
    let ghost to = sh.loops@[dst as int];
    proof {
        assert(sh.loop_ok(from));
        assert(sh.loop_ok(to));
        shared::sized(to, sh.size.max_layers, sh.size.max_frames);
    }
    let (bank, copies) = prepare(sh, src, &picked);
    sh.set_bank(dst, bank);
    let ghost mid = *sh;
    let body = Body {
        loop_len: sh.loops[src].body.loop_len,
        cycles: sh.loops[src].body.cycles,
        n_layers: picked.len(),
        redo_to: picked.len(),
        origin: sh.loops[src].body.origin,
        threaded: false,
    };
    let quant = sh.loops[src].habit.quant;
    let len: usize = body.loop_len;
    let lp = &mut sh.loops[dst];
    lp.body = body;
    lp.habit.quant = quant;
    lp.edit.win_in = 0;
    lp.edit.win_out = 0;
    lp.edit.rot = 0;
    lp.edit.pend_set = false;
    lp.enter(Phase::Playing);
    install(&mut lp.layers, copies);
    proof {
        let b = sh.loops@[dst as int];
        copied_sound(from, to, b, picked@, sh.size.max_layers, sh.size.max_frames);
        shared::loop_exchanged(mid, *sh, dst as int, b);
        assert(sh.audio() =~= mid.audio());
    }
    match layer {
        Some(k) => Said::CopiedLayer { layer: k + 1, src, li: dst, len },
        None => Said::Copied { n: picked.len(), src, li: dst },
    }
}

/// A copy lands whole and in phase: every layer that was copied is there
/// sample for sample, over its length and what carries on past its end, so
/// that its wrap fades as the layer's does; and at every moment the copy is heard
/// from the position that the source would be heard from without its window.
pub proof fn a_copy_lands_whole_and_in_phase(
    pre: Shared,
    dst: int,
    src: usize,
    layer: Option<usize>,
    post: Shared,
    r: Said,
    j: int,
    i: int,
)
    requires
        pre.wf(),
        0 <= dst < pre.size.n_loops,
        copy_refused(pre, dst, src, layer) is None,
        copy_step(pre, dst, src, layer, post, r),
        0 <= j < chosen(pre.loops@[src as int], layer).len(),
        j < pre.size.max_layers,
        0 <= i < 2 * (pre.loops@[src as int].layers@[chosen(
            pre.loops@[src as int],
            layer,
        )[j] as int].len + pre.loops@[src as int].layers@[chosen(
            pre.loops@[src as int],
            layer,
        )[j] as int].tail),
        i < pre.tape(src as int, chosen(pre.loops@[src as int], layer)[j] as int).len(),
    ensures
        post.audio()[dst][j][i] == pre.tape(
            src as int,
            chosen(pre.loops@[src as int], layer)[j] as int,
        )[i],
        post.loops@[dst].layers@[j].tail == pre.loops@[src as int].layers@[chosen(
            pre.loops@[src as int],
            layer,
        )[j] as int].tail,
        post.loops@[dst].body.origin == pre.loops@[src as int].body.origin,
        post.loops@[dst].body.loop_len == pre.loops@[src as int].body.loop_len,
        post.loops@[dst].windowed() is None,
        post.loops@[src as int] == pre.loops@[src as int],
{
}

/// A copy of a whole loop is all its layers that have a length, in their order;
/// where every one has, the copy has as many and each is where it was. It is as
/// long, as many bars and in the same place, goes round whole, and plays.
pub proof fn a_copy_is_every_layer_in_its_place(
    pre: Shared,
    dst: int,
    src: usize,
    post: Shared,
    r: Said,
    j: int,
    i: int,
)
    requires
        pre.wf(),
        0 <= dst < pre.size.n_loops,
        copy_step(pre, dst, src, None, post, r),
        r is Copied,
        forall|l: int|
            0 <= l < pre.loops@[src as int].body.n_layers ==> (#[trigger] pre.loops@[src as int].layers@[l]).len
                > 0,
        0 <= j < pre.loops@[src as int].body.n_layers,
        0 <= i < 2 * pre.loops@[src as int].layers@[j].len,
    ensures
        ({
            let a = pre.loops@[src as int];
            let b = post.loops@[dst];
            &&& b.state == Phase::Playing
            &&& b.body.n_layers == a.body.n_layers
            &&& b.body.redo_to == a.body.n_layers
            &&& b.body.loop_len == a.body.loop_len
            &&& b.body.cycles == a.body.cycles
            &&& b.body.origin == a.body.origin
            &&& b.habit.quant == a.habit.quant
            &&& b.edit.win_in == 0 && b.edit.win_out == 0 && b.edit.rot == 0
            &&& b.layers@[j].len == a.layers@[j].len
            &&& b.layers@[j].period == a.layers@[j].period
            &&& b.layers@[j].phase == a.layers@[j].phase
            &&& b.layers@[j].win_in == a.layers@[j].win_in
            &&& b.layers@[j].win_out == a.layers@[j].win_out
            &&& b.layers@[j].on
            &&& post.audio()[dst][j][i] == pre.audio()[src as int][j][i]
            &&& post.audio()[src as int] == pre.audio()[src as int]
            &&& post.loops@[src as int] == a
        }),
{
    let a = pre.loops@[src as int];
    assert(pre.loop_ok(a));
    shared::sized(a, pre.size.max_layers, pre.size.max_frames);
    all_picked(a, a.body.n_layers as int);
    assert(pre.arena@[src as int]@.len() == pre.size.max_layers);
    assert(pre.arena@[src as int]@[j]@.len() == 2 * pre.size.max_frames);
}

proof fn all_picked(lp: Loop, n: int)
    requires
        0 <= n <= usize::MAX,
        forall|l: int| 0 <= l < n ==> (#[trigger] lp.layers@[l]).len > 0,
    ensures
        with_length(lp, n).len() == n,
        forall|j: int| 0 <= j < n ==> (#[trigger] with_length(lp, n)[j]) == j,
    decreases n,
{
    if n > 0 {
        all_picked(lp, n - 1);
    }
}

/// Copies land on empty loops: a loop that holds something other than an empty
/// tape is refused one, and so is one that a take of either loop is in hand
/// of.
pub proof fn a_copy_lands_on_an_empty_loop(
    pre: Shared,
    dst: int,
    src: usize,
    layer: Option<usize>,
    post: Shared,
    r: Said,
)
    requires
        pre.wf(),
        0 <= dst < pre.size.n_loops,
        copy_step(pre, dst, src, layer, post, r),
    ensures
        pre.loops@[dst].body.n_layers > 0 && !pre.loops@[dst].body.threaded ==> post == pre,
        pre.loops@[dst].claims() ==> post == pre,
        src >= pre.size.n_loops || src == dst ==> post == pre,
        src < pre.size.n_loops && (pre.loops@[src as int].claims()
            || pre.loops@[src as int].body.n_layers == 0) ==> post == pre,
        !(r is Copied || r is CopiedLayer) ==> post == pre,
{
}

/// A layer that is doubled is on top of the stack a second time, with all that
/// is set of it but at full level and in the mix; the layer itself stays.
pub proof fn a_doubled_layer_is_on_top_again(
    pre: Shared,
    li: int,
    k: usize,
    post: Shared,
    r: Said,
    i: int,
)
    requires
        pre.wf(),
        0 <= li < pre.size.n_loops,
        duplicate_step(pre, li, k, post, r),
        r is Duplicated,
        0 <= i < 2 * pre.loops@[li].layers@[k - 1].len,
    ensures
        ({
            let a = pre.loops@[li];
            let b = post.loops@[li];
            let n = a.body.n_layers as int;
            &&& 1 <= k <= n < pre.size.max_layers
            &&& b.body.n_layers == n + 1
            &&& b.body.redo_to == n + 1
            &&& b.body.loop_len == a.body.loop_len
            &&& b.body.origin == a.body.origin
            &&& b.layers@[n].len == a.layers@[k - 1].len
            &&& b.layers@[n].tail == a.layers@[k - 1].tail
            &&& b.layers@[n].born == a.layers@[k - 1].born
            &&& b.layers@[n].period == a.layers@[k - 1].period
            &&& b.layers@[n].phase == a.layers@[k - 1].phase
            &&& b.layers@[n].win_in == a.layers@[k - 1].win_in
            &&& b.layers@[n].win_out == a.layers@[k - 1].win_out
            &&& b.layers@[n].on
            &&& b.layers@[k - 1] == a.layers@[k - 1]
            &&& post.audio()[li][n][i] == pre.audio()[li][k - 1][i]
            &&& post.audio()[li][k - 1] == pre.audio()[li][k - 1]
        }),
{
    let a = pre.loops@[li];
    assert(pre.loop_ok(a));
    shared::sized(a, pre.size.max_layers, pre.size.max_frames);
    assert(pre.arena@[li]@.len() == pre.size.max_layers);
    assert(pre.arena@[li]@[k - 1]@.len() == 2 * pre.size.max_frames);
}

/// A copy is worth what it was recorded as: whatever its layer had decayed to,
/// it starts whole, and it is heard.
pub proof fn a_copy_starts_whole(src: Layer, tape: Seq<u32>, b: Layer)
    requires
        copy_of(src, tape, b),
    ensures
        b.gain == ONE,
        b.on,
        b.len == src.len,
        b.tail == src.tail,
        b.born == src.born,
        b.period == src.period,
        b.phase == src.phase,
        b.win_in == src.win_in,
        b.win_out == src.win_out,
{
}

/// A copy is made wherever it can be: from a loop that holds something onto
/// another that holds nothing, or an empty tape, with no take in hand on
/// either. A layer that there is not is not copied.
pub proof fn a_copy_is_made_where_it_can_be(sh: Shared, dst: int, src: usize, k: usize)
    requires
        src < sh.size.n_loops,
        0 <= dst < sh.size.n_loops,
        src != dst,
        sh.loops@[src as int].state == Phase::Idle || sh.loops@[src as int].state
            == Phase::Playing,
        sh.loops@[dst].state == Phase::Idle || sh.loops@[dst].state == Phase::Playing,
        sh.loops@[src as int].body.n_layers > 0,
        sh.loops@[src as int].body.loop_len > 0,
        sh.loops@[src as int].layers@[k as int].len > 0,
        sh.loops@[dst].body.threaded || sh.loops@[dst].body.n_layers == 0
            && sh.loops@[dst].body.loop_len == 0,
    ensures
        k < sh.loops@[src as int].body.n_layers ==> copy_refused(sh, dst, src, Some(k)) is None,
        k >= sh.loops@[src as int].body.n_layers ==> copy_refused(sh, dst, src, Some(k)) is Some,
{
}

} // verus!
