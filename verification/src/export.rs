//! What is written of a take, of every loop, and of every loop's layers: the
//! names, which loops and layers, and what the manifests say.
//!
//! A manifest holds real numbers as text, which comes from the caller: the
//! seconds, the tempo, a gain, a chance and the beats in a bar.

use crate::layer::Layer;
use crate::loop_state::Loop;
use crate::shared;
use crate::shared::Shared;
use crate::source::CHANNELS;
use crate::text;
use vstd::prelude::*;
use vstd::string::*;

verus! {

/// Whether a character is kept in a name.
pub open spec fn is_plain(c: char) -> bool {
    let v = c as u32;
    48 <= v <= 57 || 65 <= v <= 90 || 97 <= v <= 122 || c == '-' || c == '_'
}

/// What a character is in a name.
pub open spec fn plain(c: char) -> char {
    if is_plain(c) {
        c
    } else {
        '-'
    }
}

/// The text without the dashes it starts with.
pub open spec fn undashed_front(s: Seq<char>) -> Seq<char>
    decreases s.len(),
{
    if s.len() > 0 && s[0] == '-' {
        undashed_front(s.subrange(1, s.len() as int))
    } else {
        s
    }
}

/// The text without the dashes it ends with.
pub open spec fn undashed_back(s: Seq<char>) -> Seq<char>
    decreases s.len(),
{
    if s.len() > 0 && s[s.len() - 1] == '-' {
        undashed_back(s.subrange(0, s.len() - 1))
    } else {
        s
    }
}

/// What is left of a name: every character that is not kept is a dash, and
/// there are none at the ends.
pub open spec fn cleaned(raw: Seq<char>) -> Seq<char> {
    let s = text::trimmed(raw);
    undashed_back(undashed_front(Seq::new(s.len(), |i: int| plain(s[i]))))
}

/// The name a take is written under: where nothing is left of the one that
/// was asked for, it is called after the second it was written in.
pub open spec fn name_of(raw: Seq<char>, second: u64) -> Seq<char> {
    if cleaned(raw).len() == 0 {
        "take-"@ + text::decimal(second as nat)
    } else {
        cleaned(raw)
    }
}

proof fn front_from(s: Seq<char>, from: int)
    requires
        0 <= from <= s.len(),
        forall|i: int| 0 <= i < from ==> #[trigger] s[i] == '-',
        from == s.len() || s[from] != '-',
    ensures
        undashed_front(s) == s.subrange(from, s.len() as int),
    decreases s.len(),
{
    if from == 0 {
        assert(s.subrange(0, s.len() as int) =~= s);
    } else {
        let t = s.subrange(1, s.len() as int);
        assert forall|i: int| 0 <= i < from - 1 implies #[trigger] t[i] == '-' by {
            assert(t[i] == s[i + 1]);
        }
        front_from(t, from - 1);
        assert(t.subrange(from - 1, t.len() as int) =~= s.subrange(from, s.len() as int));
    }
}

proof fn back_to(s: Seq<char>, to: int)
    requires
        0 <= to <= s.len(),
        forall|i: int| to <= i < s.len() ==> #[trigger] s[i] == '-',
        to == 0 || s[to - 1] != '-',
    ensures
        undashed_back(s) == s.subrange(0, to),
    decreases s.len(),
{
    if to == s.len() {
        assert(s.subrange(0, s.len() as int) =~= s);
    } else {
        let t = s.subrange(0, s.len() - 1);
        assert forall|i: int| to <= i < t.len() implies #[trigger] t[i] == '-' by {
            assert(t[i] == s[i]);
        }
        back_to(t, to);
        assert(t.subrange(0, to) =~= s.subrange(0, to));
    }
}

fn kept(c: char) -> (r: char)
    ensures
        r == plain(c),
{
    let v: u32 = c as u32;
    if (48 <= v && v <= 57) || (65 <= v && v <= 90) || (97 <= v && v <= 122) || c == '-' || c
        == '_' {
        c
    } else {
        '-'
    }
}

/// The name a take is written under. `second` is the clock's.
pub fn safe_name(raw: &str, second: u64) -> (r: String)
    ensures
        r@ == name_of(raw@, second),
{
    let s = text::trim(raw);
    let n: usize = s.unicode_len();
    let ghost full = Seq::new(n as nat, |i: int| plain(s@[i]));
    let mut from: usize = 0;
    while from < n && kept(s.get_char(from)) == '-'
        invariant
            n == s@.len(),
            full == Seq::new(n as nat, |i: int| plain(s@[i])),
            from <= n,
            forall|i: int| 0 <= i < from ==> #[trigger] full[i] == '-',
        ensures
            from <= n,
            forall|i: int| 0 <= i < from ==> #[trigger] full[i] == '-',
            from == n || full[from as int] != '-',
        decreases n - from,
    {
        from = from + 1;
    }
    let mut to: usize = n;
    while to > from && kept(s.get_char(to - 1)) == '-'
        invariant
            n == s@.len(),
            full == Seq::new(n as nat, |i: int| plain(s@[i])),
            from <= to <= n,
            forall|i: int| to <= i < n ==> #[trigger] full[i] == '-',
        ensures
            from <= to <= n,
            forall|i: int| to <= i < n ==> #[trigger] full[i] == '-',
            to == from || full[to - 1] != '-',
        decreases to,
    {
        to = to - 1;
    }
    proof {
        front_from(full, from as int);
        let f = full.subrange(from as int, n as int);
        assert forall|i: int| to - from <= i < f.len() implies #[trigger] f[i] == '-' by {
            assert(f[i] == full[from + i]);
        }
        back_to(f, to - from);
        assert(f.subrange(0, to - from) =~= full.subrange(from as int, to as int));
        assert(cleaned(raw@) == full.subrange(from as int, to as int));
    }
    let mut out = String::new();
    if from == to {
        out.append("take-");
        text::push_wide(&mut out, second);
        assert(out@ =~= "take-"@ + text::decimal(second as nat));
        return out;
    }
    let mut i: usize = from;
    while i < to
        invariant
            n == s@.len(),
            full == Seq::new(n as nat, |i: int| plain(s@[i])),
            from <= i <= to <= n,
            out@ == full.subrange(from as int, i as int),
        decreases to - i,
    {
        out.push(kept(s.get_char(i)));
        assert(out@ =~= full.subrange(from as int, i + 1));
        i = i + 1;
    }
    out
}

proof fn front_keeps(s: Seq<char>)
    requires
        forall|i: int| 0 <= i < s.len() ==> is_plain(#[trigger] s[i]),
    ensures
        forall|i: int|
            0 <= i < undashed_front(s).len() ==> is_plain(#[trigger] undashed_front(s)[i]),
    decreases s.len(),
{
    if s.len() > 0 && s[0] == '-' {
        let t = s.subrange(1, s.len() as int);
        assert forall|i: int| 0 <= i < t.len() implies is_plain(#[trigger] t[i]) by {
            assert(t[i] == s[i + 1]);
        }
        front_keeps(t);
        assert(undashed_front(s) == undashed_front(t));
    } else {
        assert(undashed_front(s) == s);
    }
}

proof fn back_keeps(s: Seq<char>)
    requires
        forall|i: int| 0 <= i < s.len() ==> is_plain(#[trigger] s[i]),
    ensures
        forall|i: int| 0 <= i < undashed_back(s).len() ==> is_plain(#[trigger] undashed_back(s)[i]),
    decreases s.len(),
{
    if s.len() > 0 && s[s.len() - 1] == '-' {
        let t = s.subrange(0, s.len() - 1);
        assert forall|i: int| 0 <= i < t.len() implies is_plain(#[trigger] t[i]) by {
            assert(t[i] == s[i]);
        }
        back_keeps(t);
        assert(undashed_back(s) == undashed_back(t));
    } else {
        assert(undashed_back(s) == s);
    }
}

proof fn decimals_are_plain(n: nat)
    ensures
        text::decimal(n).len() > 0,
        forall|i: int| 0 <= i < text::decimal(n).len() ==> is_plain(#[trigger] text::decimal(n)[i]),
    decreases n,
{
    if n >= 10 {
        decimals_are_plain(n / 10);
    }
}

/// A take cannot leave the directory it is written in: its name is never
/// empty and holds letters, digits, dashes and underscores alone, whatever
/// was asked for.
pub proof fn a_name_stays_in_its_directory(raw: Seq<char>, second: u64)
    ensures
        name_of(raw, second).len() > 0,
        forall|i: int| 0 <= i < name_of(raw, second).len() ==> is_plain(#[trigger] name_of(raw, second)[i]),
{
    let s = text::trimmed(raw);
    let full = Seq::new(s.len(), |i: int| plain(s[i]));
    assert forall|i: int| 0 <= i < full.len() implies is_plain(#[trigger] full[i]) by {
        assert(full[i] == plain(s[i]));
    }
    front_keeps(full);
    back_keeps(undashed_front(full));
    decimals_are_plain(second as nat);
    reveal_strlit("take-");
}

/// Why nothing is written.
#[derive(Clone, Copy, Debug, PartialEq, Eq, Structural)]
pub enum Unsaved {
    /// The take in hand has to be finished first.
    TakeInHand,
    /// There is nothing in the loop.
    Nothing,
    /// A loop still records.
    StillRecording(usize),
}

/// Whether there is something in a loop.
pub open spec fn holds(lp: Loop) -> bool {
    lp.body.n_layers > 0 && lp.body.loop_len > 0
}

/// Save a loop's layers: the name they go under, or why they do not.
pub fn save_take(sh: &Shared, li: usize, raw: &str, second: u64) -> (r: Result<String, Unsaved>)
    requires
        sh.wf(),
        li < sh.size.n_loops,
    ensures
        match r {
            Ok(name) => !sh.loops@[li as int].claims() && holds(sh.loops@[li as int]) && name@
                == name_of(raw@, second),
            Err(Unsaved::TakeInHand) => sh.loops@[li as int].claims(),
            Err(Unsaved::Nothing) => !sh.loops@[li as int].claims() && !holds(sh.loops@[li as int]),
            Err(_) => false,
        },
{
    let lp = &sh.loops[li];
    if lp.wants_input() {
        return Err(Unsaved::TakeInHand);
    }
    if lp.body.n_layers == 0 || lp.body.loop_len == 0 {
        return Err(Unsaved::Nothing);
    }
    Ok(safe_name(raw, second))
}

/// What an export of every loop gives: a name where none records, or the
/// first that does.
pub open spec fn exported(sh: Shared, raw: Seq<char>, second: u64, r: Result<String, Unsaved>) -> bool {
    match r {
        Ok(name) => sh.first_claim(None) && name@ == name_of(raw, second),
        Err(Unsaved::StillRecording(i)) => sh.first_claim(Some(i)),
        Err(_) => false,
    }
}

/// Export every loop's layers: the name they go under, or which loop is
/// still recording.
pub fn export_layers(sh: &Shared, raw: &str, second: u64) -> (r: Result<String, Unsaved>)
    requires
        sh.wf(),
    ensures
        exported(*sh, raw@, second, r),
{
    match sh.input_claimed() {
        Some(i) => Err(Unsaved::StillRecording(i)),
        None => Ok(safe_name(raw, second)),
    }
}

/// Export every loop, rendered: the name they go under, or which loop is
/// still recording.
pub fn export_set(sh: &Shared, raw: &str, second: u64) -> (r: Result<String, Unsaved>)
    requires
        sh.wf(),
    ensures
        exported(*sh, raw@, second, r),
{
    match sh.input_claimed() {
        Some(i) => Err(Unsaved::StillRecording(i)),
        None => Ok(safe_name(raw, second)),
    }
}

/// The loops below `n` that hold something.
pub open spec fn holding(loops: Seq<Loop>, n: int) -> Seq<usize>
    decreases n,
{
    if n <= 0 {
        Seq::empty()
    } else if holds(loops[n - 1]) {
        holding(loops, n - 1).push((n - 1) as usize)
    } else {
        holding(loops, n - 1)
    }
}

/// The loops whose layers are written.
pub fn loops_held(sh: &Shared) -> (r: Vec<usize>)
    requires
        sh.wf(),
    ensures
        r@ == holding(sh.loops@, sh.size.n_loops as int),
{
    let mut out: Vec<usize> = Vec::new();
    let mut i: usize = 0;
    while i < sh.size.n_loops
        invariant
            sh.wf(),
            i <= sh.size.n_loops,
            out@ == holding(sh.loops@, i as int),
        decreases sh.size.n_loops - i,
    {
        if sh.loops[i].body.n_layers > 0 && sh.loops[i].body.loop_len > 0 {
            out.push(i);
        }
        i = i + 1;
    }
    out
}

/// The layers below `n` that have a length, up to the first that is longer
/// than a file can hold.
pub open spec fn written(layers: Seq<Layer>, most: usize, n: int) -> Seq<usize>
    decreases n,
{
    if n <= 0 {
        Seq::empty()
    } else if layers[n - 1].len == 0 || too_long(layers, most, n) is Some {
        written(layers, most, n - 1)
    } else {
        written(layers, most, n - 1).push((n - 1) as usize)
    }
}

/// The first layer below `n` that is longer than a file can hold.
pub open spec fn too_long(layers: Seq<Layer>, most: usize, n: int) -> Option<usize>
    decreases n,
{
    if n <= 0 {
        None
    } else if too_long(layers, most, n - 1) is Some {
        too_long(layers, most, n - 1)
    } else if layers[n - 1].len > most {
        Some((n - 1) as usize)
    } else {
        None
    }
}

proof fn stops_there(layers: Seq<Layer>, most: usize, i: int, n: int)
    requires
        0 <= i <= n,
        too_long(layers, most, i) is Some,
    ensures
        too_long(layers, most, n) == too_long(layers, most, i),
        written(layers, most, n) == written(layers, most, i),
    decreases n - i,
{
    if i < n {
        stops_there(layers, most, i, n - 1);
    }
}

/// The layers of a loop that are written, a file each, and the one that
/// stops it where a file cannot hold it.
pub fn write_layers(lp: &Loop, most: usize) -> (r: (Vec<usize>, Option<usize>))
    requires
        lp.wf(),
    ensures
        r.0@ == written(lp.layers@, most, lp.body.n_layers as int),
        r.1 == too_long(lp.layers@, most, lp.body.n_layers as int),
{
    proof {
        reveal(Loop::wf);
    }
    let n: usize = lp.body.n_layers;
    let mut out: Vec<usize> = Vec::new();
    let mut i: usize = 0;
    while i < n
        invariant
            n == lp.body.n_layers,
            n <= lp.layers@.len(),
            i <= n,
            out@ == written(lp.layers@, most, i as int),
            too_long(lp.layers@, most, i as int) is None,
        decreases n - i,
    {
        let len: usize = lp.layers[i].len;
        if len > most {
            proof {
                assert(too_long(lp.layers@, most, i + 1) == Some(i));
                assert(written(lp.layers@, most, i + 1) == written(lp.layers@, most, i as int));
                stops_there(lp.layers@, most, i + 1, n as int);
            }
            return (out, Some(i));
        }
        if len > 0 {
            out.push(i);
        }
        i = i + 1;
    }
    (out, None)
}

/// The file a layer goes to: its number has at least two digits, so that
/// names sort as numbers do.
pub open spec fn layer_file(l: int) -> Seq<char> {
    if l < 10 {
        "layer-0"@ + text::decimal(l as nat) + ".wav"@
    } else {
        "layer-"@ + text::decimal(l as nat) + ".wav"@
    }
}

/// The file a layer goes to.
pub fn file_of(l: usize) -> (r: String)
    ensures
        r@ == layer_file(l as int),
{
    let mut out = String::new();
    if l < 10 {
        out.append("layer-0");
        assert(out@ =~= "layer-0"@);
    } else {
        out.append("layer-");
        assert(out@ =~= "layer-"@);
    }
    text::push_number(&mut out, l);
    out.append(".wav");
    out
}

/// What a loop is called on a page: counted from one.
pub open spec fn loop_name(li: int) -> Seq<char> {
    "loop-"@ + text::decimal((li + 1) as nat)
}

/// What a loop is called on a page.
pub fn name_loop(li: usize) -> (r: String)
    requires
        li < usize::MAX,
    ensures
        r@ == loop_name(li as int),
{
    let mut out = String::new();
    out.append("loop-");
    assert(out@ =~= "loop-"@);
    text::push_number(&mut out, li + 1);
    out
}

/// The samples of a layer's file, as bits: the layer, and nothing past its
/// end.
pub fn samples_of(sh: &Shared, li: usize, l: usize) -> (r: Vec<u32>)
    requires
        sh.wf(),
        li < sh.size.n_loops,
        l < sh.size.max_layers,
    ensures
        r@ == sh.tape(li as int, l as int).subrange(
            0,
            2 * sh.loops@[li as int].layers@[l as int].len,
        ),
{
    assert(sh.loop_ok(sh.loops@[li as int]));
    proof {
        reveal(shared::sound);
    }
    let (len, _, _) = sh.loops[li].layers[l].shape();
    let tape = &sh.arena[li][l];
    let mut out: Vec<u32> = Vec::new();
    let mut i: usize = 0;
    assert(tape.len() == tape@.len());
    while i < 2 * len
        invariant
            2 * len <= tape@.len(),
            tape@.len() <= usize::MAX,
            i <= 2 * len,
            out@ == tape@.subrange(0, i as int),
        decreases 2 * len - i,
    {
        out.push(tape[i]);
        assert(out@ =~= tape@.subrange(0, i + 1));
        i = i + 1;
    }
    out
}

/// How a window is written: its two ends, or nothing.
pub open spec fn window_text(w: Option<(i64, i64)>) -> Seq<char> {
    match w {
        Some((i, o)) => "{\"in\":"@ + text::signed_decimal(i as int) + ",\"out\":"@ + text::signed_decimal(
            o as int,
        ) + "}"@,
        None => "null"@,
    }
}

fn push_window(out: &mut String, w: Option<(i64, i64)>)
    ensures
        final(out)@ == old(out)@ + window_text(w),
{
    match w {
        Some((i, o)) => {
            out.append("{\"in\":");
            text::push_signed(out, i);
            out.append(",\"out\":");
            text::push_signed(out, o);
            out.append("}");
            assert(out@ =~= old(out)@ + window_text(w));
        },
        None => {
            out.append("null");
        },
    }
}

/// What every manifest says of a layer: its file, its length, its channels
/// and where it sounds.
pub open spec fn layer_head(l: Layer, i: int) -> Seq<char> {
    "{\"file\":\""@ + layer_file(i) + "\",\"len\":"@ + text::decimal(l.len as nat) + ",\"channels\":"@
        + text::decimal(CHANNELS as nat) + ",\"period\":"@ + text::decimal(l.every() as nat)
        + ",\"phase\":"@ + text::decimal(l.phase as nat)
}

fn layer_text(l: &Layer, i: usize) -> (r: String)
    ensures
        r@ == layer_head(*l, i as int),
{
    let (len, period, phase) = l.shape();
    let mut out = String::new();
    out.append("{\"file\":\"");
    assert(out@ =~= "{\"file\":\""@);
    out.append(file_of(i).as_str());
    out.append("\",\"len\":");
    text::push_number(&mut out, len);
    out.append(",\"channels\":");
    text::push_number(&mut out, CHANNELS);
    out.append(",\"period\":");
    text::push_number(&mut out, period);
    out.append(",\"phase\":");
    text::push_number(&mut out, phase);
    out
}

/// What the manifest of a take says of its layers.
pub open spec fn take_entries(layers: Seq<Layer>, which: Seq<usize>) -> Seq<Seq<char>> {
    Seq::new(which.len(), |k: int| layer_head(layers[which[k] as int], which[k] as int) + "}"@)
}

/// The manifest of a take.
pub open spec fn take_manifest(
    lp: Loop,
    which: Seq<usize>,
    rate: u32,
    secs: Seq<char>,
) -> Seq<char> {
    "{\n  \"version\": 1,\n  \"sampleRate\": "@ + text::decimal(rate as nat) + ",\n  \"loopFrames\": "@
        + text::decimal(lp.body.loop_len as nat) + ",\n  \"loopSecs\": "@ + secs
        + ",\n  \"layers\": [\n    "@ + text::joined(take_entries(lp.layers@, which), ",\n    "@)
        + "\n  ]\n}\n"@
}

/// Write the manifest of a take: the rate, the length, and each layer that
/// was written.
pub fn write_take(lp: &Loop, which: &Vec<usize>, rate: u32, secs: &str) -> (r: String)
    requires
        forall|k: int| 0 <= k < which@.len() ==> #[trigger] which@[k] < lp.layers@.len(),
    ensures
        r@ == take_manifest(*lp, which@, rate, secs@),
{
    let mut entries: Vec<String> = Vec::new();
    let mut k: usize = 0;
    while k < which.len()
        invariant
            forall|k: int| 0 <= k < which@.len() ==> #[trigger] which@[k] < lp.layers@.len(),
            k <= which@.len(),
            text::views(entries@) =~= take_entries(lp.layers@, which@).subrange(0, k as int),
        decreases which@.len() - k,
    {
        let mut e = layer_text(&lp.layers[which[k]], which[k]);
        e.append("}");
        let ghost before = entries@;
        entries.push(e);
        assert(text::views(entries@) =~= text::views(before).push(e@));
        assert(e@ == take_entries(lp.layers@, which@)[k as int]);
        k = k + 1;
    }
    assert(text::views(entries@) =~= take_entries(lp.layers@, which@));
    let mut out = String::new();
    out.append("{\n  \"version\": 1,\n  \"sampleRate\": ");
    assert(out@ =~= "{\n  \"version\": 1,\n  \"sampleRate\": "@);
    text::push_number(&mut out, rate as usize);
    out.append(",\n  \"loopFrames\": ");
    text::push_number(&mut out, lp.body.loop_len);
    out.append(",\n  \"loopSecs\": ");
    out.append(secs);
    out.append(",\n  \"layers\": [\n    ");
    out.append(text::join(&entries, ",\n    ").as_str());
    out.append("\n  ]\n}\n");
    out
}

/// What the set says of a layer beside that: what it is worth, the pass it
/// was laid on, whether it is in the mix, and its window.
pub open spec fn set_layer(l: Layer, i: int, gain: Seq<char>) -> Seq<char> {
    layer_head(l, i) + ",\"gain\":"@ + gain + ",\"born\":"@ + text::signed_decimal(l.born as int)
        + ",\"on\":"@ + text::truth(l.on) + ",\"window\":"@ + window_text(l.windowed()) + "}"@
}

/// What the set says of layers.
pub open spec fn set_entries(layers: Seq<Layer>, which: Seq<usize>, gains: Seq<Seq<char>>) -> Seq<
    Seq<char>,
> {
    Seq::new(
        which.len(),
        |k: int| set_layer(layers[which[k] as int], which[k] as int, gains[k]),
    )
}

/// Real numbers of a loop, written out.
pub struct Reals {
    pub secs: String,
    pub tempo: String,
    pub chance: String,
    /// What each layer that is written is worth.
    pub gains: Vec<String>,
}

/// Whether a tempo can be told from a loop: it plays plainly, and its bars
/// are said.
pub open spec fn has_tempo(lp: Loop) -> bool {
    lp.body.cycles > 0 && lp.is_plain()
}

/// How the tempo of a loop is written.
pub open spec fn tempo_text(lp: Loop, tempo: Seq<char>) -> Seq<char> {
    if has_tempo(lp) {
        tempo
    } else {
        "null"@
    }
}

/// Whether a tempo can be told from a loop.
pub fn tempo_told(lp: &Loop) -> (r: bool)
    ensures
        r == has_tempo(*lp),
{
    lp.body.cycles > 0 && lp.plain()
}

/// What the manifest of every loop's layers says of one loop.
pub open spec fn loop_layers(
    lp: Loop,
    li: int,
    which: Seq<usize>,
    source: Seq<char>,
    reals: Reals,
) -> Seq<char> {
    "{\"dir\":\""@ + loop_name(li) + "\",\"loop\":"@ + text::decimal((li + 1) as nat) + ",\"frames\":"@
        + text::decimal(lp.body.loop_len as nat) + ",\"secs\":"@ + reals.secs@ + ",\"bars\":"@
        + text::decimal(lp.body.cycles as nat) + ",\"tempo\":"@ + tempo_text(lp, reals.tempo@)
        + ",\"quant\":"@ + text::truth(lp.habit.quant) + ",\"window\":"@ + window_text(lp.windowed())
        + ",\"rot\":"@ + text::decimal(lp.edit.rot as nat) + ",\"source\":\""@ + source
        + "\",\"chance\":"@ + reals.chance@ + ",\"oneShot\":"@ + text::truth(lp.play.one_shot)
        + ",\"muted\":"@ + text::truth(lp.play.muted) + ",\n      \"layers\":[\n        "@
        + text::joined(set_entries(lp.layers@, which, text::views(reals.gains@)), ",\n        "@)
        + "\n      ]}"@
}

fn layers_text(lp: &Loop, which: &Vec<usize>, gains: &Vec<String>) -> (r: String)
    requires
        forall|k: int| 0 <= k < which@.len() ==> #[trigger] which@[k] < lp.layers@.len(),
        gains@.len() == which@.len(),
    ensures
        r@ == text::joined(
            set_entries(lp.layers@, which@, text::views(gains@)),
            ",\n        "@,
        ),
{
    let mut entries: Vec<String> = Vec::new();
    let mut k: usize = 0;
    while k < which.len()
        invariant
            forall|k: int| 0 <= k < which@.len() ==> #[trigger] which@[k] < lp.layers@.len(),
            gains@.len() == which@.len(),
            k <= which@.len(),
            text::views(entries@) =~= set_entries(
                lp.layers@,
                which@,
                text::views(gains@),
            ).subrange(0, k as int),
        decreases which@.len() - k,
    {
        let l = &lp.layers[which[k]];
        let mut e = layer_text(l, which[k]);
        e.append(",\"gain\":");
        e.append(gains[k].as_str());
        e.append(",\"born\":");
        text::push_signed(&mut e, l.born);
        e.append(",\"on\":");
        text::push_truth(&mut e, l.on);
        e.append(",\"window\":");
        push_window(&mut e, l.window());
        e.append("}");
        let ghost before = entries@;
        entries.push(e);
        assert(text::views(entries@) =~= text::views(before).push(e@));
        assert(text::views(gains@)[k as int] == gains@[k as int]@);
        assert(e@ == set_entries(lp.layers@, which@, text::views(gains@))[k as int]);
        k = k + 1;
    }
    assert(text::views(entries@) =~= set_entries(lp.layers@, which@, text::views(gains@)));
    text::join(&entries, ",\n        ")
}

/// Write what the manifest of every loop's layers says of one loop.
pub fn write_layer_set(sh: &Shared, li: usize, which: &Vec<usize>, reals: &Reals) -> (r: String)
    requires
        sh.wf(),
        li < sh.size.n_loops,
        forall|k: int|
            0 <= k < which@.len() ==> #[trigger] which@[k] < sh.loops@[li as int].layers@.len(),
        reals.gains@.len() == which@.len(),
    ensures
        r@ == loop_layers(
            sh.loops@[li as int],
            li as int,
            which@,
            sh.sources@[sh.source_of(li as int)].name@,
            *reals,
        ),
{
    let lp = &sh.loops[li];
    let mut out = String::new();
    out.append("{\"dir\":\"");
    assert(out@ =~= "{\"dir\":\""@);
    out.append(name_loop(li).as_str());
    out.append("\",\"loop\":");
    text::push_number(&mut out, li + 1);
    out.append(",\"frames\":");
    text::push_number(&mut out, lp.body.loop_len);
    out.append(",\"secs\":");
    out.append(reals.secs.as_str());
    out.append(",\"bars\":");
    text::push_number(&mut out, lp.body.cycles);
    out.append(",\"tempo\":");
    if tempo_told(lp) {
        out.append(reals.tempo.as_str());
    } else {
        out.append("null");
    }
    out.append(",\"quant\":");
    text::push_truth(&mut out, lp.habit.quant);
    out.append(",\"window\":");
    push_window(&mut out, lp.window());
    out.append(",\"rot\":");
    text::push_number(&mut out, lp.edit.rot);
    out.append(",\"source\":\"");
    out.append(sh.sources[sh.src_of(li)].name.as_str());
    out.append("\",\"chance\":");
    out.append(reals.chance.as_str());
    out.append(",\"oneShot\":");
    text::push_truth(&mut out, lp.play.one_shot);
    out.append(",\"muted\":");
    text::push_truth(&mut out, lp.play.muted);
    out.append(",\n      \"layers\":[\n        ");
    out.append(layers_text(lp, which, &reals.gains).as_str());
    out.append("\n      ]}");
    out
}

/// What the manifest of every loop says of one that was rendered.
pub open spec fn loop_rendered(lp: Loop, li: int, frames: int, reals: Reals) -> Seq<char> {
    "{\"file\":\""@ + loop_name(li) + ".wav\",\"loop\":"@ + text::decimal((li + 1) as nat)
        + ",\"frames\":"@ + text::decimal(frames as nat) + ",\"secs\":"@ + reals.secs@ + ",\"bars\":"@
        + text::decimal(lp.body.cycles as nat) + ",\"tempo\":"@ + tempo_text(lp, reals.tempo@)
        + ",\"chance\":"@ + reals.chance@ + ",\"oneShot\":"@ + text::truth(lp.play.one_shot)
        + ",\"muted\":"@ + text::truth(lp.play.muted) + "}"@
}

/// Write what the manifest of every loop says of one that was rendered.
pub fn write_set(lp: &Loop, li: usize, frames: usize, reals: &Reals) -> (r: String)
    requires
        li < usize::MAX,
    ensures
        r@ == loop_rendered(*lp, li as int, frames as int, *reals),
{
    let mut out = String::new();
    out.append("{\"file\":\"");
    assert(out@ =~= "{\"file\":\""@);
    out.append(name_loop(li).as_str());
    out.append(".wav\",\"loop\":");
    text::push_number(&mut out, li + 1);
    out.append(",\"frames\":");
    text::push_number(&mut out, frames);
    out.append(",\"secs\":");
    out.append(reals.secs.as_str());
    out.append(",\"bars\":");
    text::push_number(&mut out, lp.body.cycles);
    out.append(",\"tempo\":");
    if tempo_told(lp) {
        out.append(reals.tempo.as_str());
    } else {
        out.append("null");
    }
    out.append(",\"chance\":");
    out.append(reals.chance.as_str());
    out.append(",\"oneShot\":");
    text::push_truth(&mut out, lp.play.one_shot);
    out.append(",\"muted\":");
    text::push_truth(&mut out, lp.play.muted);
    out.append("}");
    out
}

/// How the manifest of a set starts, up to its rate: what was rendered is
/// one kind, what is in layers another.
pub open spec fn set_head(layers: bool) -> Seq<char> {
    if layers {
        "{\n  \"version\": 2,\n  \"kind\": \"layers\",\n  \"sampleRate\": "@
    } else {
        "{\n  \"version\": 1,\n  \"kind\": \"export\",\n  \"sampleRate\": "@
    }
}

/// The manifest of a set, or nothing where no loop had anything in it.
pub open spec fn set_manifest(
    layers: bool,
    rate: u32,
    beats: Seq<char>,
    entries: Seq<Seq<char>>,
) -> Option<Seq<char>> {
    if entries.len() == 0 {
        None
    } else {
        Some(
            set_head(layers) + text::decimal(rate as nat) + ",\n  \"beatsPerBar\": "@ + beats
                + ",\n  \"loops\": [\n    "@ + text::joined(entries, ",\n    "@) + "\n  ]\n}\n"@,
        )
    }
}

/// Write the manifest of a set from what it says of each loop.
pub fn write_manifest(layers: bool, rate: u32, beats: &str, entries: &Vec<String>) -> (r: Option<
    String,
>)
    ensures
        match r {
            Some(s) => set_manifest(layers, rate, beats@, text::views(entries@)) == Some(s@),
            None => set_manifest(layers, rate, beats@, text::views(entries@)) is None,
        },
{
    if entries.len() == 0 {
        return None;
    }
    let mut out = String::new();
    if layers {
        out.append("{\n  \"version\": 2,\n  \"kind\": \"layers\",\n  \"sampleRate\": ");
    } else {
        out.append("{\n  \"version\": 1,\n  \"kind\": \"export\",\n  \"sampleRate\": ");
    }
    assert(out@ =~= set_head(layers));
    text::push_number(&mut out, rate as usize);
    out.append(",\n  \"beatsPerBar\": ");
    out.append(beats);
    out.append(",\n  \"loops\": [\n    ");
    out.append(text::join(entries, ",\n    ").as_str());
    out.append("\n  ]\n}\n");
    Some(out)
}

/// The loops whose layers are written are those that hold something, each
/// once and in order.
pub proof fn every_loop_that_holds_something_is_written(loops: Seq<Loop>, n: int)
    requires
        0 <= n <= loops.len(),
        n <= usize::MAX,
    ensures
        forall|i: int|
            0 <= i < n ==> (holding(loops, n).contains(i as usize) <==> (#[trigger] loops[i]).body.n_layers
                > 0 && loops[i].body.loop_len > 0),
        forall|k: int| 0 <= k < holding(loops, n).len() ==> #[trigger] holding(loops, n)[k] < n,
        forall|a: int, b: int|
            0 <= a < b < holding(loops, n).len() ==> #[trigger] holding(loops, n)[a]
                < #[trigger] holding(loops, n)[b],
    decreases n,
{
    if n > 0 {
        every_loop_that_holds_something_is_written(loops, n - 1);
        let before = holding(loops, n - 1);
        let after = holding(loops, n);
        assert forall|i: int| 0 <= i < n implies (after.contains(i as usize) <==> (#[trigger] loops[i]).body.n_layers
            > 0 && loops[i].body.loop_len > 0) by {
            if i < n - 1 {
                if before.contains(i as usize) {
                    let k = choose|k: int| 0 <= k < before.len() && before[k] == i as usize;
                    assert(after[k] == i as usize);
                }
                if after.contains(i as usize) {
                    let k = choose|k: int| 0 <= k < after.len() && after[k] == i as usize;
                    if k < before.len() {
                        assert(before[k] == i as usize);
                    }
                }
            } else {
                if holds(loops[i]) {
                    assert(after[after.len() - 1] == i as usize);
                }
                if after.contains(i as usize) {
                    let k = choose|k: int| 0 <= k < after.len() && after[k] == i as usize;
                    if k < before.len() {
                        assert(before[k] == after[k]);
                    }
                }
            }
        }
    }
}

/// Every layer that holds audio is written, up to the first that a file
/// cannot hold, and none from there on.
pub proof fn every_layer_is_written_up_to_one_too_long(layers: Seq<Layer>, most: usize, n: int)
    requires
        0 <= n <= layers.len(),
        n <= usize::MAX,
    ensures
        match too_long(layers, most, n) {
            Some(t) => {
                &&& t < n
                &&& layers[t as int].len > most
                &&& forall|l: int| 0 <= l < t ==> (#[trigger] layers[l]).len <= most
            },
            None => forall|l: int| 0 <= l < n ==> (#[trigger] layers[l]).len <= most,
        },
        forall|l: int|
            0 <= l < n ==> (written(layers, most, n).contains(l as usize) <==> (#[trigger] layers[l]).len
                > 0 && match too_long(layers, most, n) {
                Some(t) => l < t,
                None => true,
            }),
        forall|k: int|
            0 <= k < written(layers, most, n).len() ==> #[trigger] written(layers, most, n)[k] < n,
        forall|a: int, b: int|
            0 <= a < b < written(layers, most, n).len() ==> #[trigger] written(layers, most, n)[a]
                < #[trigger] written(layers, most, n)[b],
    decreases n,
{
    if n > 0 {
        every_layer_is_written_up_to_one_too_long(layers, most, n - 1);
        let before = written(layers, most, n - 1);
        let after = written(layers, most, n);
        assert forall|l: int| 0 <= l < n implies (after.contains(l as usize) <==> (#[trigger] layers[l]).len
            > 0 && match too_long(layers, most, n) {
            Some(t) => l < t,
            None => true,
        }) by {
            if after.contains(l as usize) {
                let k = choose|k: int| 0 <= k < after.len() && after[k] == l as usize;
                if k < before.len() {
                    assert(before[k] == l as usize);
                    assert(before.contains(l as usize));
                }
            }
            if l < n - 1 && before.contains(l as usize) {
                let k = choose|k: int| 0 <= k < before.len() && before[k] == l as usize;
                assert(after[k] == l as usize);
            }
            if l == n - 1 && after.len() > before.len() {
                assert(after[after.len() - 1] == l as usize);
            }
        }
    }
}

/// A name that is plain already, and neither begins nor ends with a dash, is
/// the one a take is written under.
pub proof fn a_plain_name_is_kept(raw: Seq<char>, second: u64)
    requires
        raw.len() > 0,
        forall|i: int| 0 <= i < raw.len() ==> is_plain(#[trigger] raw[i]),
        raw[0] != '-',
        raw[raw.len() - 1] != '-',
    ensures
        name_of(raw, second) == raw,
{
    assert(is_plain(raw[0]) && is_plain(raw[raw.len() - 1]));
    text::what_is_trimmed_has_no_space_at_its_ends(raw);
    let full = Seq::new(raw.len(), |i: int| plain(raw[i]));
    assert(full =~= raw);
}

} // verus!
