//! Starting a rig: what it takes, whether that fits the machine, and the rig
//! itself with nothing in it.

use crate::audio;
use crate::edit;
use crate::frame;
use crate::inputs::Input;
use crate::loop_state::Loop;
use crate::shared;
use crate::shared::{Clock, Desk, Link, Shared, Size, NO_ANCHOR};
use crate::source;
use crate::source::{Source, CHANNELS};
use crate::text;
use vstd::prelude::*;
use vstd::string::*;

verus! {

/// The sources a rig records from: those that are named, or else one on the
/// input that was asked for.
pub open spec fn recorded_from(named: Seq<Input>, in_ch: usize, r: Seq<Source>) -> bool {
    if named.len() == 0 {
        r.len() == 1 && r[0].name@ == "in"@ && r[0].ch@ == seq![in_ch, in_ch] && r[0].available
    } else {
        &&& r.len() == named.len()
        &&& forall|i: int|
            0 <= i < named.len() ==> (#[trigger] r[i]).name@ == named[i].name@ && r[i].ch
                == named[i].ch && r[i].available == named[i].available
    }
}

/// The sources a rig records from.
pub fn sources_of(named: &Vec<Input>, in_ch: usize) -> (r: Vec<Source>)
    ensures
        recorded_from(named@, in_ch, r@),
{
    let mut out: Vec<Source> = Vec::new();
    if named.len() == 0 {
        out.push(Source::mono("in", in_ch));
        return out;
    }
    let mut i: usize = 0;
    while i < named.len()
        invariant
            i <= named@.len(),
            out@.len() == i,
            forall|k: int|
                0 <= k < i ==> (#[trigger] out@[k]).name@ == named@[k].name@ && out@[k].ch
                    == named@[k].ch && out@[k].available == named@[k].available,
        decreases named@.len() - i,
    {
        out.push(
            Source {
                name: named[i].name.as_str().to_string(),
                ch: named[i].ch,
                available: named[i].available,
            },
        );
        i = i + 1;
    }
    out
}

/// Whether both inputs of a source are there.
pub open spec fn reachable(s: Source, inputs: usize) -> bool {
    s.ch@[0] < inputs && s.ch@[1] < inputs
}

/// The first source with an input that the device does not have, and that
/// input.
pub fn source_beyond(sources: &Vec<Source>, inputs: usize) -> (r: Option<(usize, usize)>)
    ensures
        match r {
            None => forall|i: int| 0 <= i < sources@.len() ==> reachable(#[trigger] sources@[i], inputs),
            Some((s, c)) => {
                &&& s < sources@.len()
                &&& forall|i: int| 0 <= i < s ==> reachable(#[trigger] sources@[i], inputs)
                &&& c >= inputs
                &&& c == if sources@[s as int].ch@[0] >= inputs {
                    sources@[s as int].ch@[0]
                } else {
                    sources@[s as int].ch@[1]
                }
            },
        },
{
    let mut i: usize = 0;
    while i < sources.len()
        invariant
            i <= sources@.len(),
            forall|k: int| 0 <= k < i ==> reachable(#[trigger] sources@[k], inputs),
        decreases sources@.len() - i,
    {
        let a: usize = sources[i].ch[0];
        if a >= inputs {
            return Some((i, a));
        }
        let b: usize = sources[i].ch[1];
        if b >= inputs {
            return Some((i, b));
        }
        i = i + 1;
    }
    None
}

/// How many samples a rig's loops hold.
pub open spec fn arena_len(loops: int, layers: int, max_frames: int) -> int {
    loops * layers * max_frames * CHANNELS
}

/// How many samples the past holds.
pub open spec fn ring_elems(ring_len: int, sources: int) -> int {
    ring_len * sources * CHANNELS
}

/// How many bytes a rig's audio comes to.
pub open spec fn bytes_of(loops: int, layers: int, max_frames: int, ring_len: int, sources: int) -> int {
    4 * (arena_len(loops, layers, max_frames) + ring_elems(ring_len, sources))
}

/// Whether a rig's samples can be counted: its layers, their frames, and the
/// samples in them; and those of the past.
pub open spec fn countable(
    loops: int,
    layers: int,
    max_frames: int,
    ring_len: int,
    sources: int,
) -> bool {
    &&& loops * layers <= usize::MAX
    &&& loops * layers * max_frames <= usize::MAX
    &&& arena_len(loops, layers, max_frames) <= usize::MAX
    &&& ring_len * sources <= usize::MAX
    &&& ring_elems(ring_len, sources) <= usize::MAX
}

/// The product of two counts, where it is one.
fn times(a: usize, b: usize) -> (r: Option<usize>)
    ensures
        match r {
            Some(n) => n == a * b,
            None => a * b > usize::MAX,
        },
{
    a.checked_mul(b)
}

/// How many bytes a rig's audio comes to, or nothing where its samples cannot
/// be counted.
pub fn footprint(
    loops: usize,
    layers: usize,
    max_frames: usize,
    ring_len: usize,
    sources: usize,
) -> (r: Option<u128>)
    ensures
        r is Some <==> countable(
            loops as int,
            layers as int,
            max_frames as int,
            ring_len as int,
            sources as int,
        ),
        r matches Some(n) ==> n == bytes_of(
            loops as int,
            layers as int,
            max_frames as int,
            ring_len as int,
            sources as int,
        ),
{
    let banks: usize = match times(loops, layers) {
        Some(n) => n,
        None => {
            return None;
        },
    };
    let tape: usize = match times(banks, max_frames) {
        Some(n) => n,
        None => {
            return None;
        },
    };
    let arena: usize = match times(tape, CHANNELS) {
        Some(n) => n,
        None => {
            return None;
        },
    };
    let past: usize = match times(ring_len, sources) {
        Some(n) => n,
        None => {
            return None;
        },
    };
    let ring: usize = match times(past, CHANNELS) {
        Some(n) => n,
        None => {
            return None;
        },
    };
    Some(4 * (arena as u128 + ring as u128))
}

/// What a machine's memory says of a rig.
#[derive(Clone, Copy, Debug, PartialEq, Eq, Structural)]
pub enum Room {
    /// It does not fit.
    TooLarge,
    /// It is more than a quarter of the machine, and nobody has said so on
    /// purpose.
    Ask,
    /// It fits.
    Fits,
}

/// What a machine's memory says of a rig of so many bytes.
pub open spec fn room_of(bytes: int, memory: Option<u64>, agreed: bool) -> Room {
    match memory {
        None => Room::Fits,
        Some(m) => if bytes > m {
            Room::TooLarge
        } else if bytes > m as int / 4 && !agreed {
            Room::Ask
        } else {
            Room::Fits
        },
    }
}

/// What a machine's memory says of a rig of so many bytes.
pub fn room(bytes: u128, memory: Option<u64>, agreed: bool) -> (r: Room)
    ensures
        r == room_of(bytes as int, memory, agreed),
{
    match memory {
        None => Room::Fits,
        Some(m) => {
            if bytes > m as u128 {
                Room::TooLarge
            } else if bytes > (m / 4) as u128 && !agreed {
                Room::Ask
            } else {
                Room::Fits
            }
        },
    }
}

/// Whether an answer agrees.
pub open spec fn yes(answer: Seq<char>) -> bool {
    let t = text::trimmed(answer);
    t == "y"@ || t == "Y"@ || t == "yes"@
}

/// Whether an answer agrees.
pub fn agrees(answer: &str) -> (r: bool)
    ensures
        r == yes(answer@),
{
    let t = text::trim(answer);
    text::same(t, "y") || text::same(t, "Y") || text::same(t, "yes")
}

/// What a rig is told beside its size.
#[derive(Clone, Copy, Debug)]
pub struct Start {
    pub click: bool,
    pub monitor: bool,
    pub preroll: usize,
    pub arm_thresh: u32,
    pub arm_reach: usize,
}

/// Whether a rig can be of a size.
pub open spec fn sizeable(size: Size) -> bool {
    &&& size.n_loops >= 1
    &&& 1 <= size.max_layers < usize::MAX
    &&& frame::short(size.max_frames)
    &&& size.fixed_frames <= size.max_frames
    &&& 1 <= size.ring_len
    &&& frame::short(size.ring_len)
    &&& frame::short(size.max_fade)
}

/// Whether a rig can have sources: some, on inputs that are counted.
pub open spec fn sourced(sources: Seq<Source>) -> bool {
    &&& sources.len() >= 1
    &&& forall|s: int|
        0 <= s < sources.len() ==> (#[trigger] sources[s]).ch@[0] < usize::MAX && sources[s].ch@[1]
            < usize::MAX
}

/// A rig with nothing in it, its loops on the first source that is switched
/// on.
pub open spec fn fresh(size: Size, sources: Seq<Source>, start: Start, r: Shared) -> bool {
    &&& r.size == size
    &&& r.sources@ == sources
    &&& r.clock == (Clock {
        out_frames: 0,
        in_frames: 0,
        k: 0,
        k_set: false,
        buffer_frames: 0,
        p0_needed: true,
        p0_frame: 0,
        device_lost: false,
        reopens: 0,
    })
    &&& r.link == (Link {
        link_micros: 0,
        link_beat: 0,
        link_tempo: 0,
        link_quantum: 0,
        link_frame: 0,
        link_bar_frames: 0,
        link_bar_origin: 0,
        launch_q: -1i64,
        link_anchors: 0,
        link_rejected: 0,
    })
    &&& r.desk == (Desk {
        selected: 0,
        anchor: NO_ANCHOR,
        click: start.click,
        preroll: start.preroll,
        arm_thresh: start.arm_thresh,
        arm_reach: start.arm_reach,
        monitor: start.monitor,
        out_peak: 0,
        ack_seq: 0,
        peaks_seq: 0,
    })
    &&& r.ack@.len() == 0
    &&& r.peaks@.len() == 0
    &&& r.in_peak@ == Seq::new(sources.len(), |s: int| 0u32)
    &&& r.ring@.len() == sources.len()
    &&& forall|s: int|
        0 <= s < sources.len() ==> (#[trigger] r.ring@[s])@ == audio::silence(2 * size.ring_len)
    &&& r.loops@.len() == size.n_loops
    &&& forall|i: int|
        0 <= i < size.n_loops ==> (#[trigger] r.loops@[i]).untouched(
            i as usize,
            size.max_layers,
            r.loops@[i].habit.src,
        )
    &&& forall|i: int|
        0 <= i < size.n_loops ==> source::starts_on(
            sources,
            (#[trigger] r.loops@[i]).habit.src as int,
        )
    &&& r.arena@.len() == size.n_loops
    &&& forall|i: int|
        0 <= i < size.n_loops ==> (#[trigger] r.arena@[i])@.len() == size.max_layers
    &&& forall|i: int, l: int|
        0 <= i < size.n_loops && 0 <= l < size.max_layers ==> (#[trigger] r.arena@[i]@[l])@
            == audio::silence(2 * size.max_frames)
}

proof fn untouched_sound(lp: Loop, index: usize, src: usize, size: Size)
    requires
        lp.untouched(index, size.max_layers, src),
        src < usize::MAX,
        lp.wf(),
    ensures
        shared::sound(lp, size.max_layers, size.max_frames),
{
    reveal(shared::sound);
}

fn silent_bank(layers: usize, frames: usize) -> (r: Vec<Vec<u32>>)
    requires
        frame::short(frames),
    ensures
        r@.len() == layers,
        forall|l: int| 0 <= l < layers ==> (#[trigger] r@[l])@ == audio::silence(2 * frames),
{
    let mut out: Vec<Vec<u32>> = Vec::new();
    let mut l: usize = 0;
    while l < layers
        invariant
            frame::short(frames),
            l <= layers,
            out@.len() == l,
            forall|k: int| 0 <= k < l ==> (#[trigger] out@[k])@ == audio::silence(2 * frames),
        decreases layers - l,
    {
        out.push(audio::silent(2 * frames));
        l = l + 1;
    }
    out
}

fn silent_arena(loops: usize, layers: usize, frames: usize) -> (r: Vec<Vec<Vec<u32>>>)
    requires
        frame::short(frames),
    ensures
        r@.len() == loops,
        forall|i: int| 0 <= i < loops ==> (#[trigger] r@[i])@.len() == layers,
        forall|i: int, l: int|
            0 <= i < loops && 0 <= l < layers ==> (#[trigger] r@[i]@[l])@ == audio::silence(
                2 * frames,
            ),
{
    let mut out: Vec<Vec<Vec<u32>>> = Vec::new();
    let mut i: usize = 0;
    while i < loops
        invariant
            frame::short(frames),
            i <= loops,
            out@.len() == i,
            forall|k: int| 0 <= k < i ==> (#[trigger] out@[k])@.len() == layers,
            forall|k: int, l: int|
                0 <= k < i && 0 <= l < layers ==> (#[trigger] out@[k]@[l])@ == audio::silence(
                    2 * frames,
                ),
        decreases loops - i,
    {
        out.push(silent_bank(layers, frames));
        i = i + 1;
    }
    out
}

fn untouched_loops(loops: usize, layers: usize, src: usize) -> (r: Vec<Loop>)
    ensures
        r@.len() == loops,
        forall|i: int|
            0 <= i < loops ==> (#[trigger] r@[i]).untouched(i as usize, layers, src) && r@[i].wf(),
{
    let mut out: Vec<Loop> = Vec::new();
    let mut i: usize = 0;
    while i < loops
        invariant
            i <= loops,
            out@.len() == i,
            forall|k: int|
                0 <= k < i ==> (#[trigger] out@[k]).untouched(k as usize, layers, src)
                    && out@[k].wf(),
        decreases loops - i,
    {
        let mut lp = Loop::new(i, layers);
        lp.habit.src = src;
        assert(lp.wf()) by {
            reveal(Loop::wf);
        }
        out.push(lp);
        i = i + 1;
    }
    out
}

impl Shared {
    /// A rig with nothing in it.
    pub fn new(size: Size, sources: Vec<Source>, start: Start) -> (r: Shared)
        requires
            sizeable(size),
            sourced(sources@),
            frame::short(start.preroll),
            frame::short(start.arm_reach),
        ensures
            r.wf(),
            fresh(size, sources@, start, r),
    {
        let n: usize = sources.len();
        let ring = silent_bank(n, size.ring_len);
        let in_peak = audio::silent(n);
        let src: usize = source::first_on(&sources);
        let loops = untouched_loops(size.n_loops, size.max_layers, src);
        let arena = silent_arena(size.n_loops, size.max_layers, size.max_frames);
        let r = Shared {
            size,
            clock: Clock {
                out_frames: 0,
                in_frames: 0,
                k: 0,
                k_set: false,
                buffer_frames: 0,
                p0_needed: true,
                p0_frame: 0,
                device_lost: false,
                reopens: 0,
            },
            link: Link {
                link_micros: 0,
                link_beat: 0,
                link_tempo: 0,
                link_quantum: 0,
                link_frame: 0,
                link_bar_frames: 0,
                link_bar_origin: 0,
                launch_q: -1,
                link_anchors: 0,
                link_rejected: 0,
            },
            desk: Desk {
                selected: 0,
                anchor: NO_ANCHOR,
                click: start.click,
                preroll: start.preroll,
                arm_thresh: start.arm_thresh,
                arm_reach: start.arm_reach,
                monitor: start.monitor,
                out_peak: 0,
                ack_seq: 0,
                peaks_seq: 0,
            },
            arena,
            ring,
            sources,
            loops,
            in_peak,
            ack: String::new(),
            peaks: String::new(),
        };
        proof {
            assert forall|i: int| 0 <= i < size.n_loops implies r.loop_ok(#[trigger] r.loops@[i]) by {
                untouched_sound(r.loops@[i], i as usize, src, size);
            }
            assert(r.in_peak@ =~= Seq::new(sources@.len(), |s: int| 0u32));
        }
        r
    }
}

/// Every loop below `n` is an empty tape of a length, and the others are as
/// they were.
pub open spec fn taped(pre: Shared, len: usize, n: int, post: Shared) -> bool {
    &&& post == (Shared { arena: post.arena, loops: post.loops, ..pre })
    &&& post.loops@.len() == pre.loops@.len()
    &&& forall|i: int|
        0 <= i < n ==> edit::blanked(
            pre.loops@[i],
            pre.now(),
            len,
            audio::silence(2 * pre.size.max_frames),
            #[trigger] post.loops@[i],
        )
    &&& forall|i: int|
        n <= i < pre.size.n_loops ==> #[trigger] post.loops@[i] == pre.loops@[i]
    &&& post.audio().len() == pre.audio().len()
    &&& forall|i: int|
        0 <= i < n ==> #[trigger] post.audio()[i] == pre.audio()[i].update(
            0,
            audio::silence(2 * pre.size.max_frames),
        )
    &&& forall|i: int|
        n <= i < pre.size.n_loops ==> #[trigger] post.audio()[i] == pre.audio()[i]
}

/// Where a rig's loops are tapes of a length, thread one onto each.
pub fn thread_all(sh: &mut Shared)
    requires
        old(sh).wf(),
    ensures
        final(sh).wf(),
        taped(
            *old(sh),
            old(sh).size.fixed_frames,
            if old(sh).size.fixed_frames > 0 {
                old(sh).size.n_loops as int
            } else {
                0
            },
            *final(sh),
        ),
{
    let len: usize = sh.size.fixed_frames;
    if len == 0 {
        return;
    }
    let n: usize = sh.size.n_loops;
    let mut i: usize = 0;
    while i < n
        invariant
            old(sh).wf(),
            sh.wf(),
            n == old(sh).size.n_loops,
            len == old(sh).size.fixed_frames,
            i <= n,
            taped(*old(sh), len, i as int, *sh),
        decreases n - i,
    {
        let ghost before = *sh;
        edit::thread_blank(sh, i, len);
        proof {
            one_more_tape(*old(sh), before, *sh, len, i as int);
        }
        i = i + 1;
    }
}

proof fn one_more_tape(pre: Shared, mid: Shared, post: Shared, len: usize, i: int)
    requires
        pre.wf(),
        mid.wf(),
        0 <= i < pre.size.n_loops,
        taped(pre, len, i, mid),
        edit::threaded(mid, i, len, post),
    ensures
        taped(pre, len, i + 1, post),
{
    assert(post.loops@.len() == mid.loops@.len());
    assert forall|k: int| i + 1 <= k < pre.size.n_loops implies #[trigger] post.loops@[k]
        == pre.loops@[k] by {
        assert(post.loops@[k] == mid.loops@[k]);
    }
    assert forall|k: int| 0 <= k < i + 1 implies edit::blanked(
        pre.loops@[k],
        pre.now(),
        len,
        audio::silence(2 * pre.size.max_frames),
        #[trigger] post.loops@[k],
    ) by {
        if k < i {
            assert(post.loops@[k] == mid.loops@[k]);
        } else {
            assert(mid.loops@[k] == pre.loops@[k]);
        }
    }
    assert forall|k: int| 0 <= k < i + 1 implies #[trigger] post.audio()[k]
        == pre.audio()[k].update(0, audio::silence(2 * pre.size.max_frames)) by {
        if k < i {
            assert(post.audio()[k] == mid.audio()[k]);
        } else {
            assert(mid.audio()[k] == pre.audio()[k]);
        }
    }
    assert forall|k: int| i + 1 <= k < pre.size.n_loops implies #[trigger] post.audio()[k]
        == pre.audio()[k] by {
        assert(post.audio()[k] == mid.audio()[k]);
    }
}

/// A rig's audio is four bytes a sample and two samples a frame, for every
/// frame of every layer of every loop and for every frame of the past of
/// every source.
pub proof fn a_rig_takes_eight_bytes_a_frame(
    loops: int,
    layers: int,
    max_frames: int,
    ring_len: int,
    sources: int,
)
    ensures
        bytes_of(loops, layers, max_frames, ring_len, sources) == 8 * (loops * layers * max_frames)
            + 8 * (ring_len * sources),
        countable(loops, layers, max_frames, ring_len, sources) && loops >= 0 && layers >= 0
            && max_frames >= 0 ==> 2 * (loops * layers * max_frames) <= usize::MAX,
        countable(loops, layers, max_frames, ring_len, sources) ==> 2 * (ring_len * sources)
            <= usize::MAX,
{
}

/// What a rig is told of a machine's memory: one that does not fit is too
/// large, one that takes more than a quarter is asked about once, and no
/// more memory and no agreement ever makes it worse.
pub proof fn a_rig_fits_or_is_asked_about(bytes: int, m: u64, agreed: bool)
    requires
        bytes >= 0,
    ensures
        bytes > m <==> room_of(bytes, Some(m), agreed) == Room::TooLarge,
        4 * bytes <= m ==> room_of(bytes, Some(m), agreed) == Room::Fits,
        bytes <= m && agreed ==> room_of(bytes, Some(m), agreed) == Room::Fits,
        bytes <= m && 4 * bytes > m && !agreed ==> room_of(bytes, Some(m), agreed) == Room::Ask,
        room_of(bytes, None, agreed) == Room::Fits,
{
}

/// A rig starts with nothing in it: no loop holds a layer or is doing
/// anything, no tape and no past holds a sound, and it waits for its two
/// streams to pair.
pub proof fn a_rig_starts_with_nothing_in_it(
    size: Size,
    sources: Seq<Source>,
    start: Start,
    r: Shared,
    i: int,
    l: int,
    s: int,
    k: int,
)
    requires
        fresh(size, sources, start, r),
        0 <= i < size.n_loops,
        0 <= l < size.max_layers,
        0 <= s < sources.len(),
        0 <= k < 2 * size.max_frames,
        0 <= k < 2 * size.ring_len,
    ensures
        r.loops@[i].body.n_layers == 0,
        r.loops@[i].body.loop_len == 0,
        r.arena@[i]@[l]@[k] == 0,
        r.arena@[i]@[l]@.len() == 2 * size.max_frames,
        r.ring@[s]@[k] == 0,
        r.ring@[s]@.len() == 2 * size.ring_len,
        r.clock.p0_needed,
        !r.clock.k_set,
        r.desk.click == start.click,
        r.desk.monitor == start.monitor,
        r.desk.preroll == start.preroll,
        r.desk.arm_thresh == start.arm_thresh,
        r.desk.arm_reach == start.arm_reach,
        r.link.launch_q == -1,
        r.loops@[i].habit.src < sources.len() ==> sources[r.loops@[i].habit.src as int].available
            || forall|t: int| 0 <= t < sources.len() ==> !(#[trigger] sources[t]).available,
{
    assert(source::starts_on(sources, r.loops@[i].habit.src as int));
    assert(r.arena@[i]@[l]@ == audio::silence(2 * size.max_frames));
    assert(r.ring@[s]@ == audio::silence(2 * size.ring_len));
}

/// A rig that no source is named for records from the input that was asked
/// for, on both of its channels; any other records from those that are named,
/// in order and on their own channels.
pub proof fn a_rig_records_from_what_is_named(
    named: Seq<Input>,
    in_ch: usize,
    r: Seq<Source>,
    i: int,
)
    requires
        recorded_from(named, in_ch, r),
        0 <= i < r.len(),
    ensures
        named.len() == 0 ==> r.len() == 1 && r[i].ch@[0] == in_ch && r[i].ch@[1] == in_ch
            && r[i].available,
        named.len() > 0 ==> r.len() == named.len() && r[i].name@ == named[i].name@ && r[i].ch@
            == named[i].ch@ && r[i].available == named[i].available,
{
    if named.len() == 0 {
        assert(r[0].ch@[0] == seq![in_ch, in_ch][0] && r[0].ch@[1] == seq![in_ch, in_ch][1]);
    }
}

} // verus!
