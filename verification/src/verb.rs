//! The vocabulary, and the one place a command is read into a word.
//!
//! A command is `[loop digits] word [argument] [@late]`. With the digits and
//! the lateness off its ends, what is left is read by three rules.
//!
//! 1. The word is the leading run of ASCII letters, which a `!` may open,
//!    and the argument is whatever follows, trimmed.
//! 2. Where that word is in the vocabulary, that is the command.
//! 3. Only where it is not, the longest verb that takes a name and begins
//!    the run is the command, and everything after it is the name.

use crate::text;
use vstd::prelude::*;
use vstd::string::*;

verus! {

/// What a verb's argument is.
#[derive(Clone, Copy, Debug, PartialEq, Eq, Structural)]
pub enum Arg {
    /// Nothing follows the word.
    Bare,
    /// `0`, `1` or nothing.
    Flag,
    /// A real number.
    Number,
    /// A whole number.
    Int,
    /// A shape of its own.
    Text,
    /// Free text: the only kind a word can run into.
    Name,
}

/// One word of the vocabulary.
#[derive(Clone, Copy, Debug, PartialEq, Eq, Structural)]
pub enum Verb {
    /// `win`
    Whole,
    /// `in`
    In,
    /// `out`
    Out,
    /// `rot`
    Rot,
    /// `pk`
    Peaks,
    /// `x`
    Multiply,
    /// `r`
    Record,
    /// `f`
    Fire,
    /// `tone`
    Tone,
    /// `t`
    Take,
    /// `src`
    Src,
    /// `mono`
    Mono,
    /// `sp`
    Speed,
    /// `s`
    Sparse,
    /// `g`
    Grid,
    /// `o`
    Rotate,
    /// `bpm`
    Tempo,
    /// `go`
    Go,
    /// `play`
    Play,
    /// `d`
    Dense,
    /// `z`
    Free,
    /// `ly`
    LayerOn,
    /// `lw`
    LayerWindow,
    /// `dp`
    Duplicate,
    /// `lq`
    LaunchQ,
    /// `fix`
    Fix,
    /// `len`
    Len,
    /// `ph`
    Phase,
    /// `cp`
    Copy,
    /// `exl`
    ExportLayers,
    /// `ex`
    Export,
    /// `w`
    Save,
    /// `y`
    Redo,
    /// `u`
    Undo,
    /// `!lose`
    Lose,
    /// `rev`
    Reverse,
    /// `blank`
    Blank,
    /// `rvx`
    Revox,
    /// `fb`
    Feedback,
    /// `pend`
    Pendulum,
    /// `one`
    OneShot,
    /// `lev`
    LevelArm,
    /// `dec`
    Decay,
    /// `xf`
    Fade,
    /// `ch`
    Chance,
    /// `arm`
    ArmLevel,
    /// `vol`
    Vol,
    /// `pan`
    Pan,
    /// `h`
    Halt,
    /// `c`
    Clear,
    /// `k`
    Click,
    /// `m`
    Monitor,
    /// `l`
    Levels,
    /// `p`
    Print,
}

/// The word a verb is written as.
pub open spec fn word_of(v: Verb) -> Seq<char> {
    match v {
        Verb::Whole => "win"@,
        Verb::In => "in"@,
        Verb::Out => "out"@,
        Verb::Rot => "rot"@,
        Verb::Peaks => "pk"@,
        Verb::Multiply => "x"@,
        Verb::Record => "r"@,
        Verb::Fire => "f"@,
        Verb::Tone => "tone"@,
        Verb::Take => "t"@,
        Verb::Src => "src"@,
        Verb::Mono => "mono"@,
        Verb::Speed => "sp"@,
        Verb::Sparse => "s"@,
        Verb::Grid => "g"@,
        Verb::Rotate => "o"@,
        Verb::Tempo => "bpm"@,
        Verb::Go => "go"@,
        Verb::Play => "play"@,
        Verb::Dense => "d"@,
        Verb::Free => "z"@,
        Verb::LayerOn => "ly"@,
        Verb::LayerWindow => "lw"@,
        Verb::Duplicate => "dp"@,
        Verb::LaunchQ => "lq"@,
        Verb::Fix => "fix"@,
        Verb::Len => "len"@,
        Verb::Phase => "ph"@,
        Verb::Copy => "cp"@,
        Verb::ExportLayers => "exl"@,
        Verb::Export => "ex"@,
        Verb::Save => "w"@,
        Verb::Redo => "y"@,
        Verb::Undo => "u"@,
        Verb::Lose => "!lose"@,
        Verb::Reverse => "rev"@,
        Verb::Blank => "blank"@,
        Verb::Revox => "rvx"@,
        Verb::Feedback => "fb"@,
        Verb::Pendulum => "pend"@,
        Verb::OneShot => "one"@,
        Verb::LevelArm => "lev"@,
        Verb::Decay => "dec"@,
        Verb::Fade => "xf"@,
        Verb::Chance => "ch"@,
        Verb::ArmLevel => "arm"@,
        Verb::Vol => "vol"@,
        Verb::Pan => "pan"@,
        Verb::Halt => "h"@,
        Verb::Clear => "c"@,
        Verb::Click => "k"@,
        Verb::Monitor => "m"@,
        Verb::Levels => "l"@,
        Verb::Print => "p"@,
    }
}

/// What a verb's argument is.
pub open spec fn kind_of(v: Verb) -> Arg {
    match v {
        Verb::Whole | Verb::Multiply | Verb::Record | Verb::Fire | Verb::Rotate | Verb::Tempo | Verb::Go | Verb::Dense | Verb::Free | Verb::Redo | Verb::Undo | Verb::Lose | Verb::Clear | Verb::Levels | Verb::Print => Arg::Bare,
        Verb::Tone | Verb::Take | Verb::Speed | Verb::Fix | Verb::Blank | Verb::Feedback | Verb::Decay | Verb::Fade | Verb::Chance | Verb::ArmLevel | Verb::Vol => Arg::Number,
        Verb::Mono | Verb::Grid | Verb::Play | Verb::Reverse | Verb::Revox | Verb::Pendulum | Verb::OneShot | Verb::LevelArm | Verb::Halt | Verb::Click | Verb::Monitor => Arg::Flag,
        Verb::LayerOn | Verb::LayerWindow | Verb::Copy => Arg::Text,
        Verb::ExportLayers | Verb::Export | Verb::Save => Arg::Name,
        _ => Arg::Int,
    }
}

/// The verb a word is, if it is one.
pub open spec fn verb_of(w: Seq<char>) -> Option<Verb> {
    if w == "win"@ {
        Some(Verb::Whole)
    } else if w == "in"@ {
        Some(Verb::In)
    } else if w == "out"@ {
        Some(Verb::Out)
    } else if w == "rot"@ {
        Some(Verb::Rot)
    } else if w == "pk"@ {
        Some(Verb::Peaks)
    } else if w == "x"@ {
        Some(Verb::Multiply)
    } else if w == "r"@ {
        Some(Verb::Record)
    } else if w == "f"@ {
        Some(Verb::Fire)
    } else if w == "tone"@ {
        Some(Verb::Tone)
    } else if w == "t"@ {
        Some(Verb::Take)
    } else if w == "src"@ {
        Some(Verb::Src)
    } else if w == "mono"@ {
        Some(Verb::Mono)
    } else if w == "sp"@ {
        Some(Verb::Speed)
    } else if w == "s"@ {
        Some(Verb::Sparse)
    } else if w == "g"@ {
        Some(Verb::Grid)
    } else if w == "o"@ {
        Some(Verb::Rotate)
    } else if w == "bpm"@ {
        Some(Verb::Tempo)
    } else if w == "go"@ {
        Some(Verb::Go)
    } else if w == "play"@ {
        Some(Verb::Play)
    } else if w == "d"@ {
        Some(Verb::Dense)
    } else if w == "z"@ {
        Some(Verb::Free)
    } else if w == "ly"@ {
        Some(Verb::LayerOn)
    } else if w == "lw"@ {
        Some(Verb::LayerWindow)
    } else if w == "dp"@ {
        Some(Verb::Duplicate)
    } else if w == "lq"@ {
        Some(Verb::LaunchQ)
    } else if w == "fix"@ {
        Some(Verb::Fix)
    } else if w == "len"@ {
        Some(Verb::Len)
    } else if w == "ph"@ {
        Some(Verb::Phase)
    } else if w == "cp"@ {
        Some(Verb::Copy)
    } else if w == "exl"@ {
        Some(Verb::ExportLayers)
    } else if w == "ex"@ {
        Some(Verb::Export)
    } else if w == "w"@ {
        Some(Verb::Save)
    } else if w == "y"@ {
        Some(Verb::Redo)
    } else if w == "u"@ {
        Some(Verb::Undo)
    } else if w == "!lose"@ {
        Some(Verb::Lose)
    } else if w == "rev"@ {
        Some(Verb::Reverse)
    } else if w == "blank"@ {
        Some(Verb::Blank)
    } else if w == "rvx"@ {
        Some(Verb::Revox)
    } else if w == "fb"@ {
        Some(Verb::Feedback)
    } else if w == "pend"@ {
        Some(Verb::Pendulum)
    } else if w == "one"@ {
        Some(Verb::OneShot)
    } else if w == "lev"@ {
        Some(Verb::LevelArm)
    } else if w == "dec"@ {
        Some(Verb::Decay)
    } else if w == "xf"@ {
        Some(Verb::Fade)
    } else if w == "ch"@ {
        Some(Verb::Chance)
    } else if w == "arm"@ {
        Some(Verb::ArmLevel)
    } else if w == "vol"@ {
        Some(Verb::Vol)
    } else if w == "pan"@ {
        Some(Verb::Pan)
    } else if w == "h"@ {
        Some(Verb::Halt)
    } else if w == "c"@ {
        Some(Verb::Clear)
    } else if w == "k"@ {
        Some(Verb::Click)
    } else if w == "m"@ {
        Some(Verb::Monitor)
    } else if w == "l"@ {
        Some(Verb::Levels)
    } else if w == "p"@ {
        Some(Verb::Print)
    } else {
        None
    }
}

/// Whether an argument may follow a verb of a kind at all.
pub open spec fn admitted(a: Arg, arg: Seq<char>) -> bool {
    match a {
        Arg::Bare => arg.len() == 0,
        Arg::Flag => arg == ""@ || arg == "0"@ || arg == "1"@,
        _ => true,
    }
}

/// An ASCII letter.
pub open spec fn is_letter(c: char) -> bool {
    ('a' <= c && c <= 'z') || ('A' <= c && c <= 'Z')
}

/// How many letters a text starts with.
pub open spec fn letters(s: Seq<char>) -> nat
    decreases s.len(),
{
    if s.len() > 0 && is_letter(s[0]) {
        1 + letters(s.subrange(1, s.len() as int))
    } else {
        0
    }
}

/// How far the word reaches into a text.
pub open spec fn word_reach(s: Seq<char>) -> nat {
    if s.len() > 0 && s[0] == '!' {
        1 + letters(s.subrange(1, s.len() as int))
    } else {
        letters(s)
    }
}

/// The command a text is: a verb and its argument.
pub open spec fn command_of(rest: Seq<char>) -> Option<(Verb, Seq<char>)> {
    let n = word_reach(rest) as int;
    let word = rest.subrange(0, n);
    match verb_of(word) {
        Some(v) => Some((v, text::trimmed(rest.subrange(n, rest.len() as int)))),
        None => match name_verb(word) {
            Some(v) => Some(
                (v, text::trimmed(rest.subrange(word_of(v).len() as int, rest.len() as int))),
            ),
            None => None,
        },
    }
}

/// The longest verb that takes a name and begins a run of letters.
pub open spec fn name_verb(word: Seq<char>) -> Option<Verb> {
    if text::starts(word, "exl"@) {
        Some(Verb::ExportLayers)
    } else if text::starts(word, "ex"@) {
        Some(Verb::Export)
    } else if text::starts(word, "w"@) {
        Some(Verb::Save)
    } else {
        None
    }
}

impl Arg {
    /// Whether this kind of verb may be followed by `arg` at all.
    pub fn admits(self, arg: &str) -> (r: bool)
        ensures
            r == admitted(self, arg@),
    {
        match self {
            Arg::Bare => arg.unicode_len() == 0,
            Arg::Flag => text::same(arg, "") || text::same(arg, "0") || text::same(arg, "1"),
            _ => true,
        }
    }
}

impl Verb {
    /// The word the verb is written as.
    pub fn word(self) -> (r: &'static str)
        ensures
            r@ == word_of(self),
    {
        match self {
            Verb::Whole => "win",
            Verb::In => "in",
            Verb::Out => "out",
            Verb::Rot => "rot",
            Verb::Peaks => "pk",
            Verb::Multiply => "x",
            Verb::Record => "r",
            Verb::Fire => "f",
            Verb::Tone => "tone",
            Verb::Take => "t",
            Verb::Src => "src",
            Verb::Mono => "mono",
            Verb::Speed => "sp",
            Verb::Sparse => "s",
            Verb::Grid => "g",
            Verb::Rotate => "o",
            Verb::Tempo => "bpm",
            Verb::Go => "go",
            Verb::Play => "play",
            Verb::Dense => "d",
            Verb::Free => "z",
            Verb::LayerOn => "ly",
            Verb::LayerWindow => "lw",
            Verb::Duplicate => "dp",
            Verb::LaunchQ => "lq",
            Verb::Fix => "fix",
            Verb::Len => "len",
            Verb::Phase => "ph",
            Verb::Copy => "cp",
            Verb::ExportLayers => "exl",
            Verb::Export => "ex",
            Verb::Save => "w",
            Verb::Redo => "y",
            Verb::Undo => "u",
            Verb::Lose => "!lose",
            Verb::Reverse => "rev",
            Verb::Blank => "blank",
            Verb::Revox => "rvx",
            Verb::Feedback => "fb",
            Verb::Pendulum => "pend",
            Verb::OneShot => "one",
            Verb::LevelArm => "lev",
            Verb::Decay => "dec",
            Verb::Fade => "xf",
            Verb::Chance => "ch",
            Verb::ArmLevel => "arm",
            Verb::Vol => "vol",
            Verb::Pan => "pan",
            Verb::Halt => "h",
            Verb::Clear => "c",
            Verb::Click => "k",
            Verb::Monitor => "m",
            Verb::Levels => "l",
            Verb::Print => "p",
        }
    }

    /// What the verb's argument is.
    pub fn arg(self) -> (r: Arg)
        ensures
            r == kind_of(self),
    {
        match self {
            Verb::Whole | Verb::Multiply | Verb::Record | Verb::Fire | Verb::Rotate | Verb::Tempo | Verb::Go | Verb::Dense | Verb::Free | Verb::Redo | Verb::Undo | Verb::Lose | Verb::Clear | Verb::Levels | Verb::Print => Arg::Bare,
            Verb::Tone | Verb::Take | Verb::Speed | Verb::Fix | Verb::Blank | Verb::Feedback | Verb::Decay | Verb::Fade | Verb::Chance | Verb::ArmLevel | Verb::Vol => Arg::Number,
            Verb::Mono | Verb::Grid | Verb::Play | Verb::Reverse | Verb::Revox | Verb::Pendulum | Verb::OneShot | Verb::LevelArm | Verb::Halt | Verb::Click | Verb::Monitor => Arg::Flag,
            Verb::LayerOn | Verb::LayerWindow | Verb::Copy => Arg::Text,
            Verb::ExportLayers | Verb::Export | Verb::Save => Arg::Name,
            _ => Arg::Int,
        }
    }
}

/// Every verb, in the order of the vocabulary.
pub fn verbs() -> (r: Vec<Verb>)
    ensures
        forall|v: Verb| #[trigger] r@.contains(v),
        r@.no_duplicates(),
{
    let r: Vec<Verb> = vec![
        Verb::Whole,
        Verb::In,
        Verb::Out,
        Verb::Rot,
        Verb::Peaks,
        Verb::Multiply,
        Verb::Record,
        Verb::Fire,
        Verb::Tone,
        Verb::Take,
        Verb::Src,
        Verb::Mono,
        Verb::Speed,
        Verb::Sparse,
        Verb::Grid,
        Verb::Rotate,
        Verb::Tempo,
        Verb::Go,
        Verb::Play,
        Verb::Dense,
        Verb::Free,
        Verb::LayerOn,
        Verb::LayerWindow,
        Verb::Duplicate,
        Verb::LaunchQ,
        Verb::Fix,
        Verb::Len,
        Verb::Phase,
        Verb::Copy,
        Verb::ExportLayers,
        Verb::Export,
        Verb::Save,
        Verb::Redo,
        Verb::Undo,
        Verb::Lose,
        Verb::Reverse,
        Verb::Blank,
        Verb::Revox,
        Verb::Feedback,
        Verb::Pendulum,
        Verb::OneShot,
        Verb::LevelArm,
        Verb::Decay,
        Verb::Fade,
        Verb::Chance,
        Verb::ArmLevel,
        Verb::Vol,
        Verb::Pan,
        Verb::Halt,
        Verb::Clear,
        Verb::Click,
        Verb::Monitor,
        Verb::Levels,
        Verb::Print,
    ];
    proof {
        assert forall|k: int| 0 <= k < r@.len() implies place_of(#[trigger] r@[k]) == k by {}
        assert forall|v: Verb| #[trigger] r@.contains(v) by {
            assert(r@[place_of(v)] == v);
        }
    }
    r
}

/// Where a verb stands in the vocabulary.
spec fn place_of(v: Verb) -> int {
    match v {
        Verb::Whole => 0,
        Verb::In => 1,
        Verb::Out => 2,
        Verb::Rot => 3,
        Verb::Peaks => 4,
        Verb::Multiply => 5,
        Verb::Record => 6,
        Verb::Fire => 7,
        Verb::Tone => 8,
        Verb::Take => 9,
        Verb::Src => 10,
        Verb::Mono => 11,
        Verb::Speed => 12,
        Verb::Sparse => 13,
        Verb::Grid => 14,
        Verb::Rotate => 15,
        Verb::Tempo => 16,
        Verb::Go => 17,
        Verb::Play => 18,
        Verb::Dense => 19,
        Verb::Free => 20,
        Verb::LayerOn => 21,
        Verb::LayerWindow => 22,
        Verb::Duplicate => 23,
        Verb::LaunchQ => 24,
        Verb::Fix => 25,
        Verb::Len => 26,
        Verb::Phase => 27,
        Verb::Copy => 28,
        Verb::ExportLayers => 29,
        Verb::Export => 30,
        Verb::Save => 31,
        Verb::Redo => 32,
        Verb::Undo => 33,
        Verb::Lose => 34,
        Verb::Reverse => 35,
        Verb::Blank => 36,
        Verb::Revox => 37,
        Verb::Feedback => 38,
        Verb::Pendulum => 39,
        Verb::OneShot => 40,
        Verb::LevelArm => 41,
        Verb::Decay => 42,
        Verb::Fade => 43,
        Verb::Chance => 44,
        Verb::ArmLevel => 45,
        Verb::Vol => 46,
        Verb::Pan => 47,
        Verb::Halt => 48,
        Verb::Clear => 49,
        Verb::Click => 50,
        Verb::Monitor => 51,
        Verb::Levels => 52,
        Verb::Print => 53,
    }
}

/// The verb a word is, if it is one.
pub fn lookup(word: &str) -> (r: Option<Verb>)
    ensures
        r == verb_of(word@),
{
    if text::same(word, "win") {
        Some(Verb::Whole)
    } else if text::same(word, "in") {
        Some(Verb::In)
    } else if text::same(word, "out") {
        Some(Verb::Out)
    } else if text::same(word, "rot") {
        Some(Verb::Rot)
    } else if text::same(word, "pk") {
        Some(Verb::Peaks)
    } else if text::same(word, "x") {
        Some(Verb::Multiply)
    } else if text::same(word, "r") {
        Some(Verb::Record)
    } else if text::same(word, "f") {
        Some(Verb::Fire)
    } else if text::same(word, "tone") {
        Some(Verb::Tone)
    } else if text::same(word, "t") {
        Some(Verb::Take)
    } else if text::same(word, "src") {
        Some(Verb::Src)
    } else if text::same(word, "mono") {
        Some(Verb::Mono)
    } else if text::same(word, "sp") {
        Some(Verb::Speed)
    } else if text::same(word, "s") {
        Some(Verb::Sparse)
    } else if text::same(word, "g") {
        Some(Verb::Grid)
    } else if text::same(word, "o") {
        Some(Verb::Rotate)
    } else if text::same(word, "bpm") {
        Some(Verb::Tempo)
    } else if text::same(word, "go") {
        Some(Verb::Go)
    } else if text::same(word, "play") {
        Some(Verb::Play)
    } else if text::same(word, "d") {
        Some(Verb::Dense)
    } else if text::same(word, "z") {
        Some(Verb::Free)
    } else if text::same(word, "ly") {
        Some(Verb::LayerOn)
    } else if text::same(word, "lw") {
        Some(Verb::LayerWindow)
    } else if text::same(word, "dp") {
        Some(Verb::Duplicate)
    } else if text::same(word, "lq") {
        Some(Verb::LaunchQ)
    } else if text::same(word, "fix") {
        Some(Verb::Fix)
    } else if text::same(word, "len") {
        Some(Verb::Len)
    } else if text::same(word, "ph") {
        Some(Verb::Phase)
    } else if text::same(word, "cp") {
        Some(Verb::Copy)
    } else if text::same(word, "exl") {
        Some(Verb::ExportLayers)
    } else if text::same(word, "ex") {
        Some(Verb::Export)
    } else if text::same(word, "w") {
        Some(Verb::Save)
    } else if text::same(word, "y") {
        Some(Verb::Redo)
    } else if text::same(word, "u") {
        Some(Verb::Undo)
    } else if text::same(word, "!lose") {
        Some(Verb::Lose)
    } else if text::same(word, "rev") {
        Some(Verb::Reverse)
    } else if text::same(word, "blank") {
        Some(Verb::Blank)
    } else if text::same(word, "rvx") {
        Some(Verb::Revox)
    } else if text::same(word, "fb") {
        Some(Verb::Feedback)
    } else if text::same(word, "pend") {
        Some(Verb::Pendulum)
    } else if text::same(word, "one") {
        Some(Verb::OneShot)
    } else if text::same(word, "lev") {
        Some(Verb::LevelArm)
    } else if text::same(word, "dec") {
        Some(Verb::Decay)
    } else if text::same(word, "xf") {
        Some(Verb::Fade)
    } else if text::same(word, "ch") {
        Some(Verb::Chance)
    } else if text::same(word, "arm") {
        Some(Verb::ArmLevel)
    } else if text::same(word, "vol") {
        Some(Verb::Vol)
    } else if text::same(word, "pan") {
        Some(Verb::Pan)
    } else if text::same(word, "h") {
        Some(Verb::Halt)
    } else if text::same(word, "c") {
        Some(Verb::Clear)
    } else if text::same(word, "k") {
        Some(Verb::Click)
    } else if text::same(word, "m") {
        Some(Verb::Monitor)
    } else if text::same(word, "l") {
        Some(Verb::Levels)
    } else if text::same(word, "p") {
        Some(Verb::Print)
    } else {
        None
    }
}

proof fn letters_run(s: Seq<char>, n: int)
    requires
        0 <= n <= s.len(),
        forall|i: int| 0 <= i < n ==> is_letter(#[trigger] s[i]),
        n == s.len() || !is_letter(s[n]),
    ensures
        letters(s) == n,
    decreases s.len(),
{
    if n > 0 {
        let t = s.subrange(1, s.len() as int);
        assert forall|i: int| 0 <= i < n - 1 implies is_letter(#[trigger] t[i]) by {
            assert(t[i] == s[i + 1]);
        }
        letters_run(t, n - 1);
    }
}

/// How far the word reaches into a text.
pub fn word_len(rest: &str) -> (r: usize)
    ensures
        r == word_reach(rest@),
        r <= rest@.len(),
{
    let n: usize = rest.unicode_len();
    let bang: usize = if n > 0 && rest.get_char(0) == '!' {
        1
    } else {
        0
    };
    let mut i: usize = bang;
    while i < n
        invariant
            n == rest@.len(),
            bang <= i <= n,
            forall|j: int| bang <= j < i ==> is_letter(#[trigger] rest@[j]),
        ensures
            bang <= i <= n,
            forall|j: int| bang <= j < i ==> is_letter(#[trigger] rest@[j]),
            i == n || !is_letter(rest@[i as int]),
        decreases n - i,
    {
        let c = rest.get_char(i);
        if !(('a' <= c && c <= 'z') || ('A' <= c && c <= 'Z')) {
            break;
        }
        i = i + 1;
    }
    proof {
        let t = rest@.subrange(bang as int, n as int);
        assert forall|j: int| 0 <= j < i - bang implies is_letter(#[trigger] t[j]) by {
            assert(t[j] == rest@[j + bang]);
        }
        letters_run(t, i - bang);
        if bang == 0 {
            assert(t =~= rest@);
        }
    }
    i
}

/// The command a text is, by the three rules.
pub fn tokenize<'a>(rest: &'a str) -> (r: Option<(Verb, &'a str)>)
    ensures
        r is Some <==> command_of(rest@) is Some,
        r matches Some((v, arg)) ==> command_of(rest@) == Some((v, arg@)),
{
    let n: usize = word_len(rest);
    let word = rest.substring_char(0, n);
    match lookup(word) {
        Some(v) => Some((v, text::trim(text::skip(rest, n)))),
        None => {
            proof {
                reveal_strlit("exl");
                reveal_strlit("ex");
                reveal_strlit("w");
            }
            if text::starts_with(word, "exl") {
                Some((Verb::ExportLayers, text::trim(text::skip(rest, 3))))
            } else if text::starts_with(word, "ex") {
                Some((Verb::Export, text::trim(text::skip(rest, 2))))
            } else if text::starts_with(word, "w") {
                Some((Verb::Save, text::trim(text::skip(rest, 1))))
            } else {
                None
            }
        },
    }
}

/// A text of up to five characters as one number: its length and, seven
/// bits each, its characters.
spec fn packed(s: Seq<char>) -> int {
    let at = |i: int| if i < s.len() {
        s[i] as int
    } else {
        0
    };
    s.len() + 8 * (at(0) + 128 * (at(1) + 128 * (at(2) + 128 * (at(3) + 128 * at(4)))))
}

proof fn packed_words(v: Verb)
    ensures
        packed(word_of(v)) == (match v {
            Verb::Whole => 14526395int,
            Verb::In => 113482int,
            Verb::Out => 15325051int,
            Verb::Rot => 15318931int,
            Verb::Peaks => 110466int,
            Verb::Multiply => 961int,
            Verb::Record => 913int,
            Verb::Fire => 817int,
            Verb::Tone => 1709031332int,
            Verb::Take => 929int,
            Verb::Src => 13093787int,
            Verb::Mono => 1876803436int,
            Verb::Speed => 115610int,
            Verb::Sparse => 921int,
            Verb::Grid => 825int,
            Verb::Rotate => 889int,
            Verb::Tempo => 14402323int,
            Verb::Go => 114490int,
            Verb::Play => 2042868612int,
            Verb::Dense => 801int,
            Verb::Free => 977int,
            Verb::LayerOn => 124770int,
            Verb::LayerWindow => 122722int,
            Verb::Duplicate => 115490int,
            Verb::LaunchQ => 116578int,
            Verb::Fix => 15836979int,
            Verb::Len => 14522211int,
            Verb::Phase => 107394int,
            Verb::Copy => 115482int,
            Verb::ExportLayers => 14279467int,
            Verb::Export => 123690int,
            Verb::Save => 953int,
            Verb::Redo => 969int,
            Verb::Undo => 937int,
            Verb::Lose => 218839888141int,
            Verb::Reverse => 15570835int,
            Verb::Blank => 231639069461int,
            Verb::Revox => 15850387int,
            Verb::Feedback => 101170int,
            Verb::Pendulum => 1692243844int,
            Verb::OneShot => 13351803int,
            Verb::LevelArm => 15570787int,
            Verb::Decay => 13080355int,
            Verb::Fade => 105410int,
            Verb::Chance => 107290int,
            Verb::ArmLevel => 14404363int,
            Verb::Vol => 14270387int,
            Verb::Pan => 14518147int,
            Verb::Halt => 833int,
            Verb::Clear => 793int,
            Verb::Click => 857int,
            Verb::Monitor => 873int,
            Verb::Levels => 865int,
            Verb::Print => 897int,
        }),
{
    reveal_strlit("win");
    reveal_strlit("in");
    reveal_strlit("out");
    reveal_strlit("rot");
    reveal_strlit("pk");
    reveal_strlit("x");
    reveal_strlit("r");
    reveal_strlit("f");
    reveal_strlit("tone");
    reveal_strlit("t");
    reveal_strlit("src");
    reveal_strlit("mono");
    reveal_strlit("sp");
    reveal_strlit("s");
    reveal_strlit("g");
    reveal_strlit("o");
    reveal_strlit("bpm");
    reveal_strlit("go");
    reveal_strlit("play");
    reveal_strlit("d");
    reveal_strlit("z");
    reveal_strlit("ly");
    reveal_strlit("lw");
    reveal_strlit("dp");
    reveal_strlit("lq");
    reveal_strlit("fix");
    reveal_strlit("len");
    reveal_strlit("ph");
    reveal_strlit("cp");
    reveal_strlit("exl");
    reveal_strlit("ex");
    reveal_strlit("w");
    reveal_strlit("y");
    reveal_strlit("u");
    reveal_strlit("!lose");
    reveal_strlit("rev");
    reveal_strlit("blank");
    reveal_strlit("rvx");
    reveal_strlit("fb");
    reveal_strlit("pend");
    reveal_strlit("one");
    reveal_strlit("lev");
    reveal_strlit("dec");
    reveal_strlit("xf");
    reveal_strlit("ch");
    reveal_strlit("arm");
    reveal_strlit("vol");
    reveal_strlit("pan");
    reveal_strlit("h");
    reveal_strlit("c");
    reveal_strlit("k");
    reveal_strlit("m");
    reveal_strlit("l");
    reveal_strlit("p");
}

/// No two verbs are written as the same word.
pub proof fn words_are_distinct(a: Verb, b: Verb)
    requires
        word_of(a) == word_of(b),
    ensures
        a == b,
{
    packed_words(a);
    packed_words(b);
}

/// A verb's own word, whole, is read as that verb.
pub proof fn a_word_is_its_verb(v: Verb)
    ensures
        verb_of(word_of(v)) == Some(v),
{
    verb_of_spells(word_of(v));
    match verb_of(word_of(v)) {
        Some(u) => {
            words_are_distinct(u, v);
        },
        None => {},
    }
}

/// What a word is read as is written as that word, and a word that is read
/// as nothing is the word of no verb.
pub proof fn verb_of_spells(w: Seq<char>)
    ensures
        verb_of(w) matches Some(v) ==> word_of(v) == w,
        verb_of(w) is None ==> forall|v: Verb| word_of(v) != w,
{
}

/// Where a name has run into its verb, no verb that takes a name and begins
/// the run is longer than the one it is read after.
pub proof fn the_longest_name_verb_wins(word: Seq<char>, u: Verb)
    requires
        kind_of(u) == Arg::Name,
        text::starts(word, word_of(u)),
    ensures
        name_verb(word) matches Some(v) && kind_of(v) == Arg::Name && text::starts(word, word_of(v))
            && word_of(u).len() <= word_of(v).len(),
{
    reveal_strlit("exl");
    reveal_strlit("ex");
    reveal_strlit("w");
}

} // verus!
