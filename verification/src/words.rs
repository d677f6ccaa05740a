//! How settings are put into words, and how a layer is sketched: which words
//! and which strokes. The numbers in them are the caller's to write.

use crate::bits;
use crate::bits::ONE;
use vstd::prelude::*;
use vstd::string::*;

verus! {

/// How many columns a sketch has.
pub const COLUMNS: usize = 56;

/// A millionth of full scale, as bits: what is below it is silence.
pub const SILENT: u32 = 0x3586_37BD;

/// 0.999 of full scale, as bits: what is not below it is clipped.
pub const CLIPPED: u32 = 0x3F7F_BE77;

/// 20000, as bits: a tape that keeps that much loses nothing.
pub const ALL_TOP: u32 = 0x469C_4000;

/// How much of something is kept.
#[derive(Clone, Copy, Debug, PartialEq, Eq, Structural)]
pub enum Kept {
    Nothing,
    Part,
    Everything,
}

/// How much a gain keeps.
pub open spec fn kept_by(gain: u32) -> Kept {
    if bits::up_to(gain, 0) {
        Kept::Nothing
    } else if bits::up_to(ONE, gain) {
        Kept::Everything
    } else {
        Kept::Part
    }
}

fn keeps(gain: u32) -> (r: Kept)
    ensures
        r == kept_by(gain),
{
    if bits::at_most(gain, 0) {
        Kept::Nothing
    } else if bits::at_most(ONE, gain) {
        Kept::Everything
    } else {
        Kept::Part
    }
}

fn around(a: &str, b: &str, c: &str) -> (r: String)
    ensures
        r@ == a@ + b@ + c@,
{
    let mut out = a.to_string();
    out.append(b);
    out.append(c);
    out
}

/// How loud a loop is. `db` is how far down it is, in decibels.
pub open spec fn loudness(vol: u32, db: Seq<char>) -> Seq<char> {
    match kept_by(vol) {
        Kept::Nothing => "is turned all the way down"@,
        Kept::Everything => "plays at full level"@,
        Kept::Part => "plays "@ + db + " dB down"@,
    }
}

/// How loud a loop is, in words.
pub fn vol_words(vol: u32, db: &str) -> (r: String)
    ensures
        r@ == loudness(vol, db@),
{
    match keeps(vol) {
        Kept::Nothing => "is turned all the way down".to_string(),
        Kept::Everything => "plays at full level".to_string(),
        Kept::Part => around("plays ", db, " dB down"),
    }
}

/// What a pass over a tape leaves. `db` is how far down it is, in decibels.
pub open spec fn leaving(fb: u32, db: Seq<char>) -> Seq<char> {
    match kept_by(fb) {
        Kept::Nothing => "nothing"@,
        Kept::Everything => "everything"@,
        Kept::Part => ""@ + db + " dB down"@,
    }
}

/// What a pass over a tape leaves, in words.
pub fn fb_words(fb: u32, db: &str) -> (r: String)
    ensures
        r@ == leaving(fb, db@),
{
    match keeps(fb) {
        Kept::Nothing => "nothing".to_string(),
        Kept::Everything => "everything".to_string(),
        Kept::Part => around("", db, " dB down"),
    }
}

/// What a pass costs a layer. `db` is that in decibels.
pub open spec fn receding(decay: u32, db: Seq<char>) -> Seq<char> {
    if bits::up_to(ONE, decay) {
        "holds every layer for ever"@
    } else {
        "loses "@ + db + " dB a pass"@
    }
}

/// What a pass costs a layer, in words.
pub fn decay_words(decay: u32, db: &str) -> (r: String)
    ensures
        r@ == receding(decay, db@),
{
    if bits::at_most(ONE, decay) {
        "holds every layer for ever".to_string()
    } else {
        around("loses ", db, " dB a pass")
    }
}

/// What a pass costs a tape of its top. `khz` is where that begins.
pub open spec fn dulling(tone: u32, khz: Seq<char>) -> Seq<char> {
    if bits::up_to(ALL_TOP, tone) {
        "keeps every pass exactly as bright"@
    } else {
        "loses everything above "@ + khz + " kHz each pass"@
    }
}

/// What a pass costs a tape of its top, in words.
pub fn tone_words(tone: u32, khz: &str) -> (r: String)
    ensures
        r@ == dulling(tone, khz@),
{
    if bits::at_most(ALL_TOP, tone) {
        "keeps every pass exactly as bright".to_string()
    } else {
        around("loses everything above ", khz, " kHz each pass")
    }
}

/// How a loop wraps. `ms` is how long its fade is.
pub open spec fn wrapping(fade: usize, ms: Seq<char>) -> Seq<char> {
    if fade == 0 {
        "a hard join"@
    } else {
        ""@ + ms + " ms of crossfade"@
    }
}

/// How a loop wraps, in words.
pub fn fade_words(fade: usize, ms: &str) -> (r: String)
    ensures
        r@ == wrapping(fade, ms@),
{
    if fade == 0 {
        "a hard join".to_string()
    } else {
        around("", ms, " ms of crossfade")
    }
}

/// How often a pass sounds, in words.
#[derive(Clone, Copy, Debug, PartialEq, Eq, Structural)]
pub enum Odds {
    Every,
    Never,
    ThreeInFour,
    OneInTwo,
    OneInFour,
    OneInEight,
    /// Some other share of the passes.
    Share,
}

/// Whether a probability is one of a stretch of them.
pub open spec fn between(p: u32, lo: u32, hi: u32) -> bool {
    bits::up_to(lo, p) && bits::up_to(p, hi)
}

/// How often a pass sounds, in words: the fractions that have a name are
/// named, and so is whatever is less than a ten-thousandth off one.
pub open spec fn odds_of(p: u32) -> Odds {
    if bits::up_to(ONE, p) {
        Odds::Every
    } else if bits::up_to(p, 0) {
        Odds::Never
    } else if between(p, 0x3F3F_F973, 0x3F40_068D) {
        Odds::ThreeInFour
    } else if between(p, 0x3EFF_F2E5, 0x3F00_068D) {
        Odds::OneInTwo
    } else if between(p, 0x3E7F_E5CA, 0x3E80_0D1B) {
        Odds::OneInFour
    } else if between(p, 0x3DFF_CB93, 0x3E00_1A36) {
        Odds::OneInEight
    } else {
        Odds::Share
    }
}

fn is_between(p: u32, lo: u32, hi: u32) -> (r: bool)
    ensures
        r == between(p, lo, hi),
{
    bits::at_most(lo, p) && bits::at_most(p, hi)
}

fn odds(p: u32) -> (r: Odds)
    ensures
        r == odds_of(p),
{
    if bits::at_most(ONE, p) {
        Odds::Every
    } else if bits::at_most(p, 0) {
        Odds::Never
    } else if is_between(p, 0x3F3F_F973, 0x3F40_068D) {
        Odds::ThreeInFour
    } else if is_between(p, 0x3EFF_F2E5, 0x3F00_068D) {
        Odds::OneInTwo
    } else if is_between(p, 0x3E7F_E5CA, 0x3E80_0D1B) {
        Odds::OneInFour
    } else if is_between(p, 0x3DFF_CB93, 0x3E00_1A36) {
        Odds::OneInEight
    } else {
        Odds::Share
    }
}

/// How often a pass sounds. `share` is that in percent.
pub open spec fn sounding(p: u32, share: Seq<char>) -> Seq<char> {
    match odds_of(p) {
        Odds::Every => "every pass"@,
        Odds::Never => "never"@,
        Odds::ThreeInFour => "3 passes in 4"@,
        Odds::OneInTwo => "1 pass in 2"@,
        Odds::OneInFour => "1 pass in 4"@,
        Odds::OneInEight => "1 pass in 8"@,
        Odds::Share => ""@ + share + "% of passes"@,
    }
}

/// How often a pass sounds, in words.
pub fn odds_words(p: u32, share: &str) -> (r: String)
    ensures
        r@ == sounding(p, share@),
{
    match odds(p) {
        Odds::Every => "every pass".to_string(),
        Odds::Never => "never".to_string(),
        Odds::ThreeInFour => "3 passes in 4".to_string(),
        Odds::OneInTwo => "1 pass in 2".to_string(),
        Odds::OneInFour => "1 pass in 4".to_string(),
        Odds::OneInEight => "1 pass in 8".to_string(),
        Odds::Share => around("", share, "% of passes"),
    }
}

/// The loudest of the first `n` frames that fall into a column of a sketch
/// of `len` frames.
pub open spec fn column(tape: Seq<u32>, len: int, c: int, n: int) -> u32
    decreases n,
{
    if n <= 0 {
        0
    } else if (n - 1) * COLUMNS / len == c {
        bits::louder(
            bits::louder(column(tape, len, c, n - 1), tape[2 * (n - 1)]),
            tape[2 * (n - 1) + 1],
        )
    } else {
        column(tape, len, c, n - 1)
    }
}

/// What a sketch of a layer is drawn from.
#[derive(Debug)]
pub struct Sketch {
    /// The loudest of each column, as bits.
    pub columns: Vec<u32>,
    /// The loudest of all.
    pub peak: u32,
    /// Nothing is to be seen.
    pub silent: bool,
    pub clipped: bool,
}

/// The loudest of the first `n` of some peaks.
pub open spec fn top(peaks: Seq<u32>, n: int) -> u32
    decreases n,
{
    if n <= 0 {
        0
    } else {
        bits::louder(top(peaks, n - 1), peaks[n - 1])
    }
}

/// Sketch the first `len` frames of a layer.
pub fn draw_layer(tape: &Vec<u32>, len: usize) -> (r: Sketch)
    requires
        0 < len,
        2 * len <= tape@.len(),
    ensures
        r.columns@ == Seq::new(COLUMNS as nat, |c: int| column(tape@, len as int, c, len as int)),
        r.peak == top(r.columns@, COLUMNS as int),
        r.silent == bits::below(r.peak, SILENT),
        r.clipped == bits::up_to(CLIPPED, r.peak),
{
    assert(tape.len() == tape@.len());
    let mut columns: Vec<u32> = Vec::new();
    let mut c: usize = 0;
    while c < COLUMNS
        invariant
            c <= COLUMNS,
            columns@ == Seq::new(c as nat, |k: int| 0u32),
        decreases COLUMNS - c,
    {
        columns.push(0);
        assert(columns@ =~= Seq::new((c + 1) as nat, |k: int| 0u32));
        c = c + 1;
    }
    assert(columns@ =~= Seq::new(COLUMNS as nat, |c: int| column(tape@, len as int, c, 0)));
    let mut i: usize = 0;
    while i < len
        invariant
            0 < len,
            2 * len <= tape@.len(),
            2 * len <= usize::MAX,
            i <= len,
            columns@ == Seq::new(COLUMNS as nat, |c: int| column(tape@, len as int, c, i as int)),
        decreases len - i,
    {
        let ghost before = columns@;
        let b: usize = ((i as u128) * (COLUMNS as u128) / (len as u128)) as usize;
        proof {
            falls_inside(i as int, len as int);
        }
        let v: u32 = bits::loudest(bits::loudest(columns[b], tape[2 * i]), tape[2 * i + 1]);
        columns.set(b, v);
        assert forall|c: int| 0 <= c < COLUMNS implies #[trigger] columns@[c] == column(
            tape@,
            len as int,
            c,
            i + 1,
        ) by {
            assert(before[c] == column(tape@, len as int, c, i as int));
        }
        assert(columns@ =~= Seq::new(
            COLUMNS as nat,
            |c: int| column(tape@, len as int, c, i + 1),
        ));
        i = i + 1;
    }
    let mut peak: u32 = 0;
    let mut c: usize = 0;
    while c < COLUMNS
        invariant
            c <= COLUMNS,
            columns@.len() == COLUMNS,
            peak == top(columns@, c as int),
        decreases COLUMNS - c,
    {
        peak = bits::loudest(peak, columns[c]);
        c = c + 1;
    }
    Sketch {
        columns,
        peak,
        silent: bits::less(peak, SILENT),
        clipped: bits::at_most(CLIPPED, peak),
    }
}

proof fn falls_inside(i: int, len: int)
    requires
        0 <= i < len,
    ensures
        0 <= i * COLUMNS / len < COLUMNS,
{
    assert(0 <= i * COLUMNS < COLUMNS * len) by (nonlinear_arith)
        requires
            0 <= i < len,
    ;
    vstd::arithmetic::div_mod::lemma_div_pos_is_pos(i * COLUMNS, len);
    vstd::arithmetic::div_mod::lemma_multiply_divide_lt(i * COLUMNS, len, COLUMNS as int);
}

} // verus!
