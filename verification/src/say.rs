//! What is said back to a command, in words.
//!
//! A number that is a real one is written by the caller, who also says what
//! only such a number decides.

use crate::ack::{Misread, Said};
use crate::bits;
use crate::num;
use crate::phase;
use crate::shared::NO_ANCHOR;
use crate::text;
use vstd::prelude::*;
use vstd::string::*;

verus! {

/// One of the texts the caller has written; nothing where there is none.
pub open spec fn piece(told: Seq<Seq<char>>, k: int) -> Seq<char> {
    if 0 <= k < told.len() {
        told[k]
    } else {
        ""@
    }
}

fn take(told: &Vec<String>, k: usize) -> (r: String)
    ensures
        r@ == piece(text::views(told@), k as int),
{
    if k < told.len() {
        assert(text::views(told@)[k as int] == told@[k as int]@);
        told[k].as_str().to_string()
    } else {
        "".to_string()
    }
}

fn put(out: &mut String, told: &Vec<String>, k: usize)
    ensures
        final(out)@ == old(out)@ + piece(text::views(told@), k as int),
{
    let t = take(told, k);
    out.append(t.as_str());
}

/// How more than one of something ends.
pub open spec fn more(n: usize) -> Seq<char> {
    if n == 1 {
        ""@
    } else {
        "s"@
    }
}

fn plural(n: usize) -> (r: &'static str)
    ensures
        r@ == more(n),
{
    if n == 1 {
        ""
    } else {
        "s"
    }
}

/// Where a pan knob puts a loop.
pub open spec fn side_of(pan: usize) -> Seq<char> {
    if pan <= 10 {
        "hard left"@
    } else if pan <= 52 {
        "left"@
    } else if pan <= 74 {
        "centre"@
    } else if pan <= 116 {
        "right"@
    } else {
        "hard right"@
    }
}

fn side(pan: usize) -> (r: &'static str)
    ensures
        r@ == side_of(pan),
{
    if pan <= 10 {
        "hard left"
    } else if pan <= 52 {
        "left"
    } else if pan <= 74 {
        "centre"
    } else if pan <= 116 {
        "right"
    } else {
        "hard right"
    }
}

/// What was done, or why it was not, in words. `told` is what the caller has
/// written, and `beside` what a real number decides: that a tempo is out of
/// range, that a length differs from the one asked for, that nothing is
/// arriving.
pub open spec fn spoken(said: Said, told: Seq<Seq<char>>, beside: bool) -> Seq<char> {
    match said {
        Said::LoopCount { n_loops } => "there are "@ + text::decimal(n_loops as nat) + " loops, numbered 0 to "@
            + text::decimal(num::larger(n_loops - 1, 0) as nat) + "."@,
        Said::Selected { li } => "loop "@ + text::decimal(li as nat) + " selected."@,
        Said::WindowFirst { li } => "loop "@ + text::decimal(li as nat)
            + " has a window; clear it with `win` before multiplying or claiming the past."@,
        Said::WholeAgain { li } => "loop "@ + text::decimal(li as nat) + " plays the whole loop again."@,
        Said::NoLengthToWindow { li } => "loop "@ + text::decimal(li as nat) + " has no length to window yet."@,
        Said::WindowReach { li, len, asked } => "loop "@ + text::decimal(li as nat) + " is "@ + text::decimal(len as nat)
            + " frames long; a window may reach from -"@ + text::decimal(len as nat)
            + " to "@ + text::decimal((2 * len) as nat) + ", not "@
            + text::signed_decimal(asked as int) + "."@,
        Said::WindowOrder { li, from, to } => "a window has to end after it starts: in "@
            + text::signed_decimal(from as int) + " out "@
            + text::signed_decimal(to as int) + " on loop "@
            + text::decimal(li as nat) + "."@,
        Said::Windows { li, padded, .. } => "loop "@ + text::decimal(li as nat) + " windows "@ + piece(told, 0)
            + "–"@ + piece(told, 1) + " s ("@ + piece(told, 2) + " s of "@
            + piece(told, 3) + (if padded {
            " with silence"@
        } else {
            ""@
        }) + ")."@,
        Said::NothingToRotate { li } => "loop "@ + text::decimal(li as nat) + " has nothing to rotate yet."@,
        Said::Rotated { li, .. } => "loop "@ + text::decimal(li as nat) + " starts "@ + piece(told, 0)
            + " s into its cycle now ("@ + piece(told, 1) + " s)."@,
        Said::NothingToDraw { li } => "loop "@ + text::decimal(li as nat) + " has nothing to draw."@,
        Said::Drawn { li, buckets, .. } => "peaks for loop "@ + text::decimal(li as nat) + ": "@
            + text::decimal(buckets as nat) + " buckets over "@ + piece(told, 0)
            + " s."@,
        Said::FinishTakeFirst { li } => "loop "@ + text::decimal(li as nat)
            + " is still recording — finish that first."@,
        Said::WaitingForBar { li } => "loop "@ + text::decimal(li as nat)
            + " is waiting for the bar; finish that first."@,
        Said::Listening { li } => "loop "@ + text::decimal(li as nat)
            + " is listening for a sound; finish that first."@,
        Said::Recording { li } => "loop "@ + text::decimal(li as nat)
            + " is recording; finish that first."@,
        Said::InputHeld { other, phase } => "loop "@ + text::decimal(other as nat) + " has the input ("@
            + phase::word_of(phase)
            + "). One converter, one recording — finish that first."@,
        Said::Swinging { li } => "loop "@ + text::decimal(li as nat)
            + " is swinging, and a write head cannot follow a playhead that turns round mid-pass; `"@
            + text::decimal(li as nat) + "pend0` to record into it."@,
        Said::TapeSpeed { li, .. } => "loop "@ + text::decimal(li as nat) + " is a tape running at x"@
            + piece(told, 0)
            + "; a tape head passes over the oxide once per frame, so put the speed back with `"@
            + text::decimal(li as nat) + "sp1` to record onto it."@,
        Said::NotPlain { li, speed, pendulum } => "loop "@ + text::decimal(li as nat) + " is playing at x"@
            + piece(told, 0) + (if pendulum {
            ", swinging"@
        } else {
            ""@
        }) + (if !pendulum && bits::below_wide(speed, 0) {
            ", backwards"@
        } else {
            ""@
        }) + "; `"@ + text::decimal(li as nat) + "sp1` to record into it."@,
        Said::NothingToMultiply { li } => "loop "@ + text::decimal(li as nat)
            + " has nothing to multiply — record a loop first."@,
        Said::Ceiling { li, max_layers } => "loop "@ + text::decimal(li as nat) + " is at "@
            + text::decimal(max_layers as nat)
            + " layers, the ceiling; undo one first."@,
        Said::Multiplying { li, behind, .. } => if behind > 0 {
            "loop "@ + text::decimal(li as nat)
                + " multiplying from the start of this cycle ("@ + piece(told, 0)
                + " s recovered from the pre-roll) — play across as many cycles as you want, then x again."@
        } else {
            "loop "@ + text::decimal(li as nat)
                + " multiplying from this cycle's start — play across as many cycles as you want, then x again."@
        },
        Said::MultiplyPast { li, cycles, .. } => "loop "@ + text::decimal(li as nat) + ": "@
            + text::decimal(cycles as nat) + " cycles would be "@ + piece(told, 0)
            + " s, past the --max-secs ceiling of "@ + piece(told, 1)
            + " s. Stopping at the old length."@,
        Said::MultiplyEndsOnBoundary { li, cycles, .. } => "loop "@ + text::decimal(li as nat) + " multiplies to "@
            + text::decimal(cycles as nat) + " cycle"@ + more(cycles)
            + " on the boundary in "@ + piece(told, 0) + " s."@,
        Said::Multiplied { li, cycles, waited, layers, .. } => "loop "@ + text::decimal(li as nat) + " x"@
            + text::decimal(cycles as nat) + ": now "@ + piece(told, 0) + " s ("@
            + text::decimal(cycles as nat) + " cycles of "@ + piece(told, 1) + " s)"@
            + (if waited > 0 {
            " (rounded up, waited "@ + piece(told, 2) + " s for the boundary)"@
        } else {
            ""@
        }) + " — "@ + text::decimal(layers as nat) + " layers playing."@,
        Said::StoppedListening { li } => "loop "@ + text::decimal(li as nat) + " has stopped listening."@,
        Said::NowListening { li } => "loop "@ + text::decimal(li as nat)
            + " is listening — it starts when something goes over "@ + piece(told, 0)
            + "."@,
        Said::StartsOnGrid { li, .. } => "loop "@ + text::decimal(li as nat) + " starts on the grid in "@
            + piece(told, 0) + " s."@,
        Said::OverTape { li } => "loop "@ + text::decimal(li as nat) + " over the tape."@,
        Said::OnePass { li, layer } => "loop "@ + text::decimal(li as nat) + " adds layer "@
            + text::decimal(layer as nat) + ", one pass, closing itself."@,
        Said::FirstTake { li } => "loop "@ + text::decimal(li as nat) + " recording."@,
        Said::Overdubbing { li, layer } => "loop "@ + text::decimal(li as nat) + " overdubbing onto layer "@
            + text::decimal(layer as nat) + "."@,
        Said::ClosesOnBar { li, cycles, .. } => "loop "@ + text::decimal(li as nat) + " closes on the bar in "@
            + piece(told, 0) + " s ("@ + text::decimal(cycles as nat) + " cycle"@
            + more(cycles) + ")."@,
        Said::NotRecording { li } => "loop "@ + text::decimal(li as nat) + " is not recording."@,
        Said::Draining { .. } => ""@,
        Said::RecordedNothing { li } => "loop "@ + text::decimal(li as nat) + " recorded nothing."@,
        Said::Committed { li, layers, .. } => "loop "@ + text::decimal(li as nat) + " committed: "@ + piece(told, 0)
            + " s, "@ + text::decimal(layers as nat) + " layer"@ + more(layers)
            + " playing."@,
        Said::OnTape { li, .. } => "loop "@ + text::decimal(li as nat) + " over the tape: "@
            + piece(told, 0) + " s, one layer."@,
        Said::NothingToFire { li } => "loop "@ + text::decimal(li as nat)
            + " is empty; there is nothing to fire."@,
        Said::NotOneShot { li } => "loop "@ + text::decimal(li as nat) + " is not a one-shot; `"@
            + text::decimal(li as nat)
            + "one1` first, or it would just jump to the top and carry on."@,
        Said::FiresOnGrid { li, .. } => "loop "@ + text::decimal(li as nat) + " fires on the grid in "@
            + piece(told, 0) + " s."@,
        Said::Fires { li } => "loop "@ + text::decimal(li as nat) + " fires."@,
        Said::Tone { li } => "loop "@ + text::decimal(li as nat) + " "@ + piece(told, 0) + "."@,
        Said::ToneRange { .. } => "tape tone wants 200 to 20000 Hz, not "@ + piece(told, 0) + "."@,
        Said::NoInputYet => "no input has arrived yet."@,
        Said::NoCycleYet { li } => "loop "@ + text::decimal(li as nat)
            + ": not one complete cycle has gone by yet."@,
        Said::BeforeStart => "that reaches back before the engine started."@,
        Said::PastTooShort => "the pre-roll does not reach back that far."@,
        Said::TookLoop { li, len, got, layers } => (if got < len {
            "only "@ + piece(told, 0) + " s of the "@ + piece(told, 1)
                + " s asked for was still in the pre-roll — "@
        } else {
            ""@
        })
            + "loop "@ + text::decimal(li as nat) + " took the last "@
            + piece(told, 2) + " s as the loop: "@ + text::decimal(len as nat)
            + " frames, "@ + piece(told, 3) + " bpm if that is one bar of 4/4 — "@
            + text::decimal(layers as nat) + " layer"@ + more(layers) + " playing."@,
        Said::TookLayer { li, len, got, layers } => (if got < len {
            "only "@ + piece(told, 0) + " s of the "@ + piece(told, 1)
                + " s asked for was still in the pre-roll — "@
        } else {
            ""@
        })
            + "loop "@ + text::decimal(li as nat)
            + " took the last complete cycle as a new layer — "@
            + text::decimal(layers as nat) + " layer"@ + more(layers) + " playing."@,
        Said::RecordsFrom { li, .. } => "loop "@ + text::decimal(li as nat) + " records from "@ + piece(told, 0)
            + "."@,
        Said::SourceAway { li, .. } => "loop "@ + text::decimal(li as nat) + " cannot record from "@
            + piece(told, 0) + ": its interface is not switched on."@,
        Said::SourceMidTake { li } => "loop "@ + text::decimal(li as nat)
            + " is listening or writing; changing its input mid-take would splice two different rooms together."@,
        Said::NoSource { sources, asked } => "there are "@ + text::decimal(sources as nat) + " sources ("@
            + piece(told, 0) + "), not "@ + text::decimal(asked as nat) + "."@,
        Said::Folds { li, on } => if on {
            "loop "@ + text::decimal(li as nat)
                + " folds to mono; pan places it rather than balancing it."@
        } else {
            "loop "@ + text::decimal(li as nat)
                + " keeps its two channels; pan is a balance."@
        },
        Said::SpeedMidTake { li } => "loop "@ + text::decimal(li as nat)
            + " is recording; speed would move the grid under it."@,
        Said::Speed { li, speed } => "loop "@ + text::decimal(li as nat) + " plays at x"@ + piece(told, 0)
            + " "@ + (if bits::below_wide(speed, 0) {
            "backwards"@
        } else {
            "forwards"@
        }) + "."@,
        Said::SpeedRange { .. } => "speed wants 0.125 to 4, either sign, not "@ + piece(told, 0) + "."@,
        Said::NothingToSpread => "nothing to spread — record a loop first."@,
        Said::EveryRange { asked } => "`every` wants 1 to 32, not "@ + text::decimal(asked as nat) + "."@,
        Said::LayerHasNoLength => "that layer has no length."@,
        Said::EveryTime { layer } => "layer "@ + text::decimal((layer + 1) as nat)
            + " sounds every time round."@,
        Said::OnceEvery { layer, period, slot } => "layer "@ + text::decimal((layer + 1) as nat) + " sounds once every "@
            + text::decimal(period as nat) + ", on slot "@
            + text::decimal((slot + 1) as nat) + "."@,
        Said::Free { li } => "loop "@ + text::decimal(li as nat) + " is free."@,
        Said::FollowsClock { li, .. } => "loop "@ + text::decimal(li as nat) + " follows the grid ("@
            + piece(told, 0) + " s, from Link)."@,
        Said::FollowsLoop { li, anchor, .. } => "loop "@ + text::decimal(li as nat) + " follows the grid ("@
            + piece(told, 0) + " s, from "@ + (if anchor != NO_ANCHOR {
            "loop "@ + text::decimal(anchor as nat)
        } else {
            ""@
        }) + (if anchor == NO_ANCHOR {
            "nowhere"@
        } else {
            ""@
        }) + ")."@,
        Said::NoGridYet { li } => "loop "@ + text::decimal(li as nat)
            + " will follow the grid — but no loop has a length yet, so there is no grid. The first recording makes one."@,
        Said::NothingToMove => "nothing to move."@,
        Said::AlreadyEverywhere => "that layer sounds every time round — spread it first."@,
        Said::Moved { layer, slot, period } => "layer "@ + text::decimal((layer + 1) as nat) + " moved to slot "@
            + text::decimal((slot + 1) as nat) + " of "@
            + text::decimal(period as nat) + "."@,
        Said::StillWritten { li } => "loop "@ + text::decimal(li as nat)
            + " is still being written; finish that first."@,
        Said::NoTempo { li } => "loop "@ + text::decimal(li as nat)
            + " has no length, so there is no tempo in it. Record it, or `"@
            + text::decimal(li as nat) + "len<n>` first."@,
        Said::NoBars { li } => "nobody has said how many bars loop "@ + text::decimal(li as nat)
            + " is, and a tempo taken from a guess would be wrong by exactly that guess. `"@
            + text::decimal(li as nat) + "len<n>` first."@,
        Said::TempoFrom { li, bars, others, heard, .. } => if beside {
            "loop "@ + text::decimal(li as nat) + " is "@ + piece(told, 0)
                + " s over "@ + text::decimal(bars as nat) + " bar"@ + more(bars)
                + ", which is "@ + piece(told, 1)
                + " bpm — outside 20 to 999. The bar count is the number to look at."@
        } else {
            "tempo taken from loop "@ + text::decimal(li as nat) + ": "@
                + piece(told, 0) + " s over "@ + text::decimal(bars as nat) + " bar"@
                + more(bars) + " is "@ + piece(told, 1) + " bpm."@ + (if others > 0 {
                " "@ + text::decimal(others as nat) + " other loop"@ + (if others == 1 {
                    " does and it"@
                } else {
                    "s do and they"@
                }) + " keep their audio but no longer agree with the click."@
            } else {
                ""@
            }) + (if heard {
                ""@
            } else {
                " No anchor has ever arrived, so nothing here can confirm link-spike took it."@
            })
        },
        Said::NothingToStart { busy } => if busy {
            "nothing to start — everything with audio in it is still recording."@
        } else {
            "nothing to start — no loop has anything in it."@
        },
        Said::Started { n, wait, busy } => text::decimal(n as nat) + " loop"@ + more(n)
            + " start from the top together"@ + (if wait.is_some() {
            " on the grid in "@ + piece(told, 0) + " s"@
        } else {
            ""@
        }) + "."@ + (if busy > 0 {
            " "@ + text::decimal(busy as nat) + " still recording, left alone."@
        } else {
            ""@
        }),
        Said::Transport { on } => "asked Link to "@ + (if on {
            "start on the next bar"@
        } else {
            "stop"@
        }) + " — peers with start/stop sync follow"@ + (if on {
            " on the downbeat"@
        } else {
            ""@
        }) + "."@,
        Said::NothingToFill => "nothing to fill."@,
        Said::EveryTimeAgain { layer } => "layer "@ + text::decimal((layer + 1) as nat)
            + " sounds every time round again."@,
        Said::StillPlaying { n } => text::decimal(n as nat) + " layer"@ + more(n)
            + " still playing — undo or clear them first; the length is what they sit in."@,
        Said::NoLengthSet => "no length set — the next recording will set one."@,
        Said::LengthForgotten { .. } => "length forgotten (was "@ + piece(told, 0)
            + " s). The next recording sets a new one."@,
        Said::LayerIs { li, layer, on } => "loop "@ + text::decimal(li as nat) + " layer "@
            + text::decimal(layer as nat) + " is "@ + (if on {
            "on"@
        } else {
            "off"@
        }) + "."@,
        Said::NoSuchLayer { li, n, layer } => "loop "@ + text::decimal(li as nat) + " has "@ + text::decimal(n as nat)
            + " layer"@ + more(n) + ", not a layer "@ + text::decimal(layer as nat)
            + "."@,
        Said::LayerWhole { li, layer } => "loop "@ + text::decimal(li as nat) + " layer "@
            + text::decimal(layer as nat) + " plays whole again."@,
        Said::LayerPlays { li, layer, from, to, len } => "loop "@ + text::decimal(li as nat) + " layer "@
            + text::decimal(layer as nat) + " plays "@
            + text::signed_decimal(from as int) + ".."@
            + text::signed_decimal(to as int) + " of "@ + text::decimal(len as nat)
            + (if from < 0 || to > len {
            ", with silence"@
        } else {
            ""@
        }) + "."@,
        Said::LayerWindowBad { li, layer } => "loop "@ + text::decimal(li as nat) + " layer "@
            + text::decimal(layer as nat)
            + ": a window is in before out, overlaps the layer, and fits the arena."@,
        Said::LayersFull { li, max_layers } => "loop "@ + text::decimal(li as nat) + " holds "@
            + text::decimal(max_layers as nat)
            + " layers already; there is no room for another."@,
        Said::FinishBeforeCopy { li } => "loop "@ + text::decimal(li as nat) + " is recording — finish it first."@,
        Said::Duplicated { li, layer, copy } => "loop "@ + text::decimal(li as nat) + " layer "@
            + text::decimal(layer as nat) + " duplicated as layer "@
            + text::decimal(copy as nat) + "."@,
        Said::LaunchBar => "launches wait for the bar (rig-wide)."@,
        Said::LaunchNow => "launches do not wait (rig-wide)."@,
        Said::LaunchBeats { beats } => "launches wait for the next "@ + text::signed_decimal(beats as int)
            + " beat"@ + (if beats == 1 {
            ""@
        } else {
            "s"@
        }) + " (rig-wide)."@,
        Said::LaunchRange { asked } => "launch quantise wants -1 to 64 beats, not "@
            + text::signed_decimal(asked as int) + "."@,
        Said::FixOnePass { li, .. } => "loop "@ + text::decimal(li as nat)
            + "'s next record adds one layer of "@ + piece(told, 0) + " s"@
            + (if beside {
            " (not "@ + piece(told, 1) + " s: every layer is the loop's length)"@
        } else {
            ""@
        }) + "."@,
        Said::FixPast { .. } => piece(told, 0) + " s is past --max-secs; the longest take here is "@
            + piece(told, 1) + " s."@,
        Said::Fixed { li, .. } => "loop "@ + text::decimal(li as nat) + " is set to "@ + piece(told, 0)
            + " s; record and it closes itself."@,
        Said::BarsRange { asked } => "a loop wants 1 to 32 bars, not "@ + text::decimal(asked as nat) + "."@,
        Said::BarsDeclared { li, bars, .. } => "loop "@ + text::decimal(li as nat) + " is "@
            + text::decimal(bars as nat) + " bar"@ + more(bars)
            + " — the bar is now "@ + piece(told, 0) + " s. Nothing was moved."@,
        Said::NoBarYet => "no bar yet: there is no clock and no loop has a length. Record something first, or start Link."@,
        Said::BarsPast { bars, .. } => text::decimal(bars as nat) + " bars would be "@ + piece(told, 0)
            + " s, past the ceiling of "@ + piece(told, 1) + " s."@,
        Said::BarsSized { li, bars, .. } => "loop "@ + text::decimal(li as nat) + " is set to "@
            + text::decimal(bars as nat) + " bar"@ + more(bars) + " ("@
            + piece(told, 0) + " s); record and it closes itself."@,
        Said::LayerTooLong { li, bars, .. } => "loop "@ + text::decimal(li as nat) + " has a "@ + piece(told, 0)
            + " s layer in it; "@ + text::decimal(bars as nat) + " bar"@ + more(bars)
            + " would be "@ + piece(told, 1)
            + " s. Undo it or clear the loop first."@,
        Said::BarsResized { li, bars, .. } => "loop "@ + text::decimal(li as nat) + " is "@
            + text::decimal(bars as nat) + " bar"@ + more(bars) + " ("@
            + piece(told, 0) + " s); its layers keep their own lengths."@,
        Said::NothingToPlace => "nothing to place."@,
        Said::OneSlot { li, layer } => "layer "@ + text::decimal((layer + 1) as nat)
            + " sounds every time round, so there is only one slot; `"@
            + text::decimal(li as nat) + "s<n>` first to make room."@,
        Said::OnSlot { layer, slot, period } => "layer "@ + text::decimal((layer + 1) as nat) + " is on slot "@
            + text::decimal((slot + 1) as nat) + " of "@
            + text::decimal(period as nat) + "."@,
        Said::NoLoop { src } => "there is no loop "@ + text::decimal(src as nat) + "."@,
        Said::OntoItself { li } => "loop "@ + text::decimal(li as nat) + " onto itself is nothing."@,
        Said::SourceRecording { src } => "loop "@ + text::decimal(src as nat)
            + " is still recording — finish it before copying from it."@,
        Said::TargetRecording { li } => "loop "@ + text::decimal(li as nat)
            + " is recording — a copy lands on an empty loop."@,
        Said::NothingToCopy { src } => "loop "@ + text::decimal(src as nat) + " has nothing to copy."@,
        Said::NotEmpty { li } => "loop "@ + text::decimal(li as nat)
            + " is not empty — copies land on empty loops only; `"@
            + text::decimal(li as nat) + "c` first if you mean it."@,
        Said::CopyNoLayer { src, n, layer } => "loop "@ + text::decimal(src as nat) + " has "@ + text::decimal(n as nat)
            + " layer"@ + more(n) + ", not "@ + text::decimal(layer as nat) + "."@,
        Said::CopiedLayer { layer, src, li, .. } => "copied layer "@ + text::decimal(layer as nat) + " of loop "@
            + text::decimal(src as nat) + " onto loop "@ + text::decimal(li as nat)
            + " ("@ + piece(told, 0)
            + " s), whole and in phase; window it as you like."@,
        Said::Copied { n, src, li } => "copied "@ + text::decimal(n as nat) + " layer"@ + more(n) + " of loop "@
            + text::decimal(src as nat) + " onto loop "@ + text::decimal(li as nat)
            + ", whole and in phase; window it as you like."@,
        Said::NothingToRedo { li } => "loop "@ + text::decimal(li as nat) + " has nothing to redo."@,
        Said::AtLastTake { li } => "loop "@ + text::decimal(li as nat) + " is already at its last take."@,
        Said::Redone { li, n } => "loop "@ + text::decimal(li as nat) + " redone: "@
            + text::decimal(n as nat) + " layers playing."@,
        Said::NothingToUndo { li } => "loop "@ + text::decimal(li as nat) + " has nothing to undo."@,
        Said::EmptyNow { li, .. } => "loop "@ + text::decimal(li as nat)
            + " layer 1 removed. Empty now, but still "@ + piece(told, 0)
            + " s long, so the next take lands on the same grid — `"@
            + text::decimal(li as nat) + "z` to forget the length."@,
        Said::Removed { li, layer, left } => "loop "@ + text::decimal(li as nat) + " layer "@
            + text::decimal(layer as nat) + " removed, "@
            + text::decimal(left as nat) + " left."@,
        Said::DeviceLost => "simulating device loss."@,
        Said::PlaysWay { li, back, .. } => "loop "@ + text::decimal(li as nat) + " plays "@ + (if back {
            "backwards"@
        } else {
            "forwards"@
        }) + " at x"@ + piece(told, 0) + "."@,
        Said::HasMaterial { li } => "loop "@ + text::decimal(li as nat)
            + " has something in it; clear it before threading a tape."@,
        Said::TapePast { .. } => piece(told, 0) + " s is past --max-secs; the longest tape here is "@
            + piece(told, 1) + " s."@,
        Said::Threaded { li, cycles, .. } => "loop "@ + text::decimal(li as nat) + " is an empty "@ + piece(told, 0)
            + " s tape"@ + (if cycles > 0 {
            " ("@ + text::decimal(cycles as nat) + " grid cycle"@ + more(cycles)
                + ")"@
        } else {
            ""@
        }) + ", going round."@,
        Said::TapeNow { li, folded } => "loop "@ + text::decimal(li as nat) + " is a tape now, "@
            + piece(told, 0) + " a pass"@ + (if folded > 1 {
            " ("@ + text::decimal(folded as nat) + " layers folded into one)"@
        } else {
            ""@
        }) + ". Undo is gone."@,
        Said::LayersAgain { li } => "loop "@ + text::decimal(li as nat)
            + " records in layers again; it is still one layer."@,
        Said::Feedback { li } => "a Revox pass on loop "@ + text::decimal(li as nat) + " leaves "@
            + piece(told, 0) + " a pass."@,
        Said::FeedbackGain { .. } => "feedback is a loss, so it wants zero or less; "@ + piece(told, 0)
            + " would run away."@,
        Said::FeedbackRange { .. } => "feedback wants 0 to -60 dB, not "@ + piece(told, 0) + "."@,
        Said::Swings { li, on } => "loop "@ + text::decimal(li as nat) + " "@ + (if on {
            "swings forward then back"@
        } else {
            "runs one way"@
        }) + "."@,
        Said::OneShot { li, on } => if on {
            "loop "@ + text::decimal(li as nat)
                + " is a one-shot: silent now, one pass each time it fires."@
        } else {
            "loop "@ + text::decimal(li as nat) + " turns for ever again."@
        },
        Said::WaitsForSound { li } => "loop "@ + text::decimal(li as nat) + " waits for a sound over "@
            + piece(told, 0) + " and reaches "@ + piece(told, 1)
            + " ms back past it."@,
        Said::OnThePress { li } => "loop "@ + text::decimal(li as nat) + " records on the press again."@,
        Said::Decay { li } => "loop "@ + text::decimal(li as nat) + " "@ + piece(told, 0) + "."@,
        Said::DecayGain { .. } => "decay is a loss, so it wants zero or less; "@ + piece(told, 0)
            + " per pass would run away."@,
        Said::DecayRange { .. } => "decay wants 0 to -60 dB a pass, not "@ + piece(told, 0) + "."@,
        Said::Fade { li } => "loop "@ + text::decimal(li as nat) + " wraps with "@ + piece(told, 0)
            + "."@,
        Said::FadeSet { li, on, kept, n } => "loop "@ + text::decimal(li as nat) + " wraps with "@ + piece(told, 0)
            + "."@ + (if on && n > 0 && kept == 0 {
            "  Nothing here kept a continuation, though, so there is nothing to fade from."@
        } else {
            ""@
        }) + (if on && n > 0 && kept > 0 && kept != n {
            "  "@ + text::decimal(kept as nat) + " of "@ + text::decimal(n as nat)
                + " layers kept a continuation; the rest still join hard."@
        } else {
            ""@
        }),
        Said::FadeRange { .. } => "the wrap fade wants 0 to "@ + piece(told, 0) + " ms, not "@
            + piece(told, 1) + "."@,
        Said::Odds { li, .. } => "loop "@ + text::decimal(li as nat) + " sounds "@ + piece(told, 0) + "."@,
        Said::ChanceRange { .. } => "chance wants 0 to 1, not "@ + piece(told, 0) + "."@,
        Said::ArmLevel { now } => "a level-armed loop "@ + (if now {
            "now "@
        } else {
            ""@
        }) + "starts at "@ + piece(told, 0) + "."@,
        Said::ArmRange { .. } => "the arm level wants 0 to -80 dBFS, not "@ + piece(told, 0) + "."@,
        Said::Level { li } => "loop "@ + text::decimal(li as nat) + " "@ + piece(told, 0) + "."@,
        Said::LevelGain { .. } => "a loop plays at unity or below; "@ + piece(told, 0) + " dB would clip."@,
        Said::LevelRange { .. } => "level wants 0 to -60 dB, not "@ + piece(told, 0) + "."@,
        Said::Panned { li, pan } => "loop "@ + text::decimal(li as nat) + " panned "@ + side_of(pan)
            + " (L "@ + piece(told, 0) + ", R "@ + piece(told, 1) + ")."@,
        Said::Halted { li, on } => "loop "@ + text::decimal(li as nat) + " "@ + (if on {
            "stopped, still turning"@
        } else {
            "playing"@
        }) + "."@,
        Said::Cleared { li } => "loop "@ + text::decimal(li as nat) + " cleared."@,
        Said::ClearedTape { li, .. } => "loop "@ + text::decimal(li as nat) + " cleared; an empty "@
            + piece(told, 0) + " s tape again."@,
        Said::Click { on } => "click "@ + (if on {
            "on"@
        } else {
            "off"@
        }) + "."@,
        Said::Monitoring { on } => "input monitoring "@ + (if on {
            "on"@
        } else {
            "off"@
        }) + "."@ + (if on {
            "  (the interface's own direct monitoring is lower latency)"@
        } else {
            ""@
        }),
        Said::Levels { .. } => "in "@ + piece(told, 0) + " dBFS   out "@ + piece(told, 1)
            + " dBFS   (peak since last check)"@ + (if beside {
            "\n    nothing at all is arriving on the chosen channel."@
        } else {
            ""@
        }),
        Said::Show { .. } => ""@,
    }
}

/// What was done, or why it was not, in words.
#[verifier::rlimit(100)]
#[verifier::spinoff_prover]
pub fn sentence(said: &Said, told: &Vec<String>, beside: bool) -> (r: String)
    ensures
        r@ == spoken(*said, text::views(told@), beside),
{
    match *said {
        Said::LoopCount { n_loops } => {
            let mut out = "there are ".to_string();
            text::push_number(&mut out, n_loops);
            out.append(" loops, numbered 0 to ");
            text::push_number(
                &mut out,
                if n_loops > 0 {
                    n_loops - 1
                } else {
                    0
                },
            );
            out.append(".");
            out
        },
        Said::Selected { li } => {
            let mut out = "loop ".to_string();
            text::push_number(&mut out, li);
            out.append(" selected.");
            out
        },
        Said::WindowFirst { li } => {
            let mut out = "loop ".to_string();
            text::push_number(&mut out, li);
            out.append(" has a window; clear it with `win` before multiplying or claiming the past.");
            out
        },
        Said::WholeAgain { li } => {
            let mut out = "loop ".to_string();
            text::push_number(&mut out, li);
            out.append(" plays the whole loop again.");
            out
        },
        Said::NoLengthToWindow { li } => {
            let mut out = "loop ".to_string();
            text::push_number(&mut out, li);
            out.append(" has no length to window yet.");
            out
        },
        Said::WindowReach { li, len, asked } => {
            let mut out = "loop ".to_string();
            text::push_number(&mut out, li);
            out.append(" is ");
            text::push_number(&mut out, len);
            out.append(" frames long; a window may reach from -");
            text::push_number(&mut out, len);
            out.append(" to ");
            text::push_big(&mut out, 2 * (len as u128));
            out.append(", not ");
            text::push_signed(&mut out, asked);
            out.append(".");
            out
        },
        Said::WindowOrder { li, from, to } => {
            let mut out = "a window has to end after it starts: in ".to_string();
            text::push_signed(&mut out, from);
            out.append(" out ");
            text::push_signed(&mut out, to);
            out.append(" on loop ");
            text::push_number(&mut out, li);
            out.append(".");
            out
        },
        Said::Windows { li, padded, .. } => {
            let mut out = "loop ".to_string();
            text::push_number(&mut out, li);
            out.append(" windows ");
            put(&mut out, told, 0);
            out.append("–");
            put(&mut out, told, 1);
            out.append(" s (");
            put(&mut out, told, 2);
            out.append(" s of ");
            put(&mut out, told, 3);
            out.append(
                if padded {
                    " with silence"
                } else {
                    ""
                },
            );
            out.append(").");
            out
        },
        Said::NothingToRotate { li } => {
            let mut out = "loop ".to_string();
            text::push_number(&mut out, li);
            out.append(" has nothing to rotate yet.");
            out
        },
        Said::Rotated { li, .. } => {
            let mut out = "loop ".to_string();
            text::push_number(&mut out, li);
            out.append(" starts ");
            put(&mut out, told, 0);
            out.append(" s into its cycle now (");
            put(&mut out, told, 1);
            out.append(" s).");
            out
        },
        Said::NothingToDraw { li } => {
            let mut out = "loop ".to_string();
            text::push_number(&mut out, li);
            out.append(" has nothing to draw.");
            out
        },
        Said::Drawn { li, buckets, .. } => {
            let mut out = "peaks for loop ".to_string();
            text::push_number(&mut out, li);
            out.append(": ");
            text::push_number(&mut out, buckets);
            out.append(" buckets over ");
            put(&mut out, told, 0);
            out.append(" s.");
            out
        },
        Said::FinishTakeFirst { li } => {
            let mut out = "loop ".to_string();
            text::push_number(&mut out, li);
            out.append(" is still recording — finish that first.");
            out
        },
        Said::WaitingForBar { li } => {
            let mut out = "loop ".to_string();
            text::push_number(&mut out, li);
            out.append(" is waiting for the bar; finish that first.");
            out
        },
        Said::Listening { li } => {
            let mut out = "loop ".to_string();
            text::push_number(&mut out, li);
            out.append(" is listening for a sound; finish that first.");
            out
        },
        Said::Recording { li } => {
            let mut out = "loop ".to_string();
            text::push_number(&mut out, li);
            out.append(" is recording; finish that first.");
            out
        },
        Said::InputHeld { other, phase } => {
            let mut out = "loop ".to_string();
            text::push_number(&mut out, other);
            out.append(" has the input (");
            out.append(phase.wire_word());
            out.append("). One converter, one recording — finish that first.");
            out
        },
        Said::Swinging { li } => {
            let mut out = "loop ".to_string();
            text::push_number(&mut out, li);
            out.append(" is swinging, and a write head cannot follow a playhead that turns round mid-pass; `");
            text::push_number(&mut out, li);
            out.append("pend0` to record into it.");
            out
        },
        Said::TapeSpeed { li, .. } => {
            let mut out = "loop ".to_string();
            text::push_number(&mut out, li);
            out.append(" is a tape running at x");
            put(&mut out, told, 0);
            out.append("; a tape head passes over the oxide once per frame, so put the speed back with `");
            text::push_number(&mut out, li);
            out.append("sp1` to record onto it.");
            out
        },
        Said::NotPlain { li, speed, pendulum } => {
            let mut out = "loop ".to_string();
            text::push_number(&mut out, li);
            out.append(" is playing at x");
            put(&mut out, told, 0);
            out.append(
                if pendulum {
                    ", swinging"
                } else {
                    ""
                },
            );
            out.append(
                if !pendulum && bits::less_wide(speed, 0) {
                    ", backwards"
                } else {
                    ""
                },
            );
            out.append("; `");
            text::push_number(&mut out, li);
            out.append("sp1` to record into it.");
            out
        },
        Said::NothingToMultiply { li } => {
            let mut out = "loop ".to_string();
            text::push_number(&mut out, li);
            out.append(" has nothing to multiply — record a loop first.");
            out
        },
        Said::Ceiling { li, max_layers } => {
            let mut out = "loop ".to_string();
            text::push_number(&mut out, li);
            out.append(" is at ");
            text::push_number(&mut out, max_layers);
            out.append(" layers, the ceiling; undo one first.");
            out
        },
        Said::Multiplying { li, behind, .. } => {
            if behind > 0 {
                let mut out = "loop ".to_string();
                text::push_number(&mut out, li);
                out.append(" multiplying from the start of this cycle (");
                put(&mut out, told, 0);
                out.append(" s recovered from the pre-roll) — play across as many cycles as you want, then x again.");
                out
            } else {
                let mut out = "loop ".to_string();
                text::push_number(&mut out, li);
                out.append(" multiplying from this cycle's start — play across as many cycles as you want, then x again.");
                out
            }
        },
        Said::MultiplyPast { li, cycles, .. } => {
            let mut out = "loop ".to_string();
            text::push_number(&mut out, li);
            out.append(": ");
            text::push_number(&mut out, cycles);
            out.append(" cycles would be ");
            put(&mut out, told, 0);
            out.append(" s, past the --max-secs ceiling of ");
            put(&mut out, told, 1);
            out.append(" s. Stopping at the old length.");
            out
        },
        Said::MultiplyEndsOnBoundary { li, cycles, .. } => {
            let mut out = "loop ".to_string();
            text::push_number(&mut out, li);
            out.append(" multiplies to ");
            text::push_number(&mut out, cycles);
            out.append(" cycle");
            out.append(plural(cycles));
            out.append(" on the boundary in ");
            put(&mut out, told, 0);
            out.append(" s.");
            out
        },
        Said::Multiplied { li, cycles, waited, layers, .. } => {
            let mut out = "loop ".to_string();
            text::push_number(&mut out, li);
            out.append(" x");
            text::push_number(&mut out, cycles);
            out.append(": now ");
            put(&mut out, told, 0);
            out.append(" s (");
            text::push_number(&mut out, cycles);
            out.append(" cycles of ");
            put(&mut out, told, 1);
            out.append(" s)");
            let part: String = if waited > 0 {
                let mut out = " (rounded up, waited ".to_string();
                put(&mut out, told, 2);
                out.append(" s for the boundary)");
                out
            } else {
                "".to_string()
            };
            out.append(part.as_str());
            out.append(" — ");
            text::push_number(&mut out, layers);
            out.append(" layers playing.");
            out
        },
        Said::StoppedListening { li } => {
            let mut out = "loop ".to_string();
            text::push_number(&mut out, li);
            out.append(" has stopped listening.");
            out
        },
        Said::NowListening { li } => {
            let mut out = "loop ".to_string();
            text::push_number(&mut out, li);
            out.append(" is listening — it starts when something goes over ");
            put(&mut out, told, 0);
            out.append(".");
            out
        },
        Said::StartsOnGrid { li, .. } => {
            let mut out = "loop ".to_string();
            text::push_number(&mut out, li);
            out.append(" starts on the grid in ");
            put(&mut out, told, 0);
            out.append(" s.");
            out
        },
        Said::OverTape { li } => {
            let mut out = "loop ".to_string();
            text::push_number(&mut out, li);
            out.append(" over the tape.");
            out
        },
        Said::OnePass { li, layer } => {
            let mut out = "loop ".to_string();
            text::push_number(&mut out, li);
            out.append(" adds layer ");
            text::push_number(&mut out, layer);
            out.append(", one pass, closing itself.");
            out
        },
        Said::FirstTake { li } => {
            let mut out = "loop ".to_string();
            text::push_number(&mut out, li);
            out.append(" recording.");
            out
        },
        Said::Overdubbing { li, layer } => {
            let mut out = "loop ".to_string();
            text::push_number(&mut out, li);
            out.append(" overdubbing onto layer ");
            text::push_number(&mut out, layer);
            out.append(".");
            out
        },
        Said::ClosesOnBar { li, cycles, .. } => {
            let mut out = "loop ".to_string();
            text::push_number(&mut out, li);
            out.append(" closes on the bar in ");
            put(&mut out, told, 0);
            out.append(" s (");
            text::push_number(&mut out, cycles);
            out.append(" cycle");
            out.append(plural(cycles));
            out.append(").");
            out
        },
        Said::NotRecording { li } => {
            let mut out = "loop ".to_string();
            text::push_number(&mut out, li);
            out.append(" is not recording.");
            out
        },
        Said::Draining { .. } => "".to_string(),
        Said::RecordedNothing { li } => {
            let mut out = "loop ".to_string();
            text::push_number(&mut out, li);
            out.append(" recorded nothing.");
            out
        },
        Said::Committed { li, layers, .. } => {
            let mut out = "loop ".to_string();
            text::push_number(&mut out, li);
            out.append(" committed: ");
            put(&mut out, told, 0);
            out.append(" s, ");
            text::push_number(&mut out, layers);
            out.append(" layer");
            out.append(plural(layers));
            out.append(" playing.");
            out
        },
        Said::OnTape { li, .. } => {
            let mut out = "loop ".to_string();
            text::push_number(&mut out, li);
            out.append(" over the tape: ");
            put(&mut out, told, 0);
            out.append(" s, one layer.");
            out
        },
        Said::NothingToFire { li } => {
            let mut out = "loop ".to_string();
            text::push_number(&mut out, li);
            out.append(" is empty; there is nothing to fire.");
            out
        },
        Said::NotOneShot { li } => {
            let mut out = "loop ".to_string();
            text::push_number(&mut out, li);
            out.append(" is not a one-shot; `");
            text::push_number(&mut out, li);
            out.append("one1` first, or it would just jump to the top and carry on.");
            out
        },
        Said::FiresOnGrid { li, .. } => {
            let mut out = "loop ".to_string();
            text::push_number(&mut out, li);
            out.append(" fires on the grid in ");
            put(&mut out, told, 0);
            out.append(" s.");
            out
        },
        Said::Fires { li } => {
            let mut out = "loop ".to_string();
            text::push_number(&mut out, li);
            out.append(" fires.");
            out
        },
        Said::Tone { li } => {
            let mut out = "loop ".to_string();
            text::push_number(&mut out, li);
            out.append(" ");
            put(&mut out, told, 0);
            out.append(".");
            out
        },
        Said::ToneRange { .. } => {
            let mut out = "tape tone wants 200 to 20000 Hz, not ".to_string();
            put(&mut out, told, 0);
            out.append(".");
            out
        },
        Said::NoInputYet => "no input has arrived yet.".to_string(),
        Said::NoCycleYet { li } => {
            let mut out = "loop ".to_string();
            text::push_number(&mut out, li);
            out.append(": not one complete cycle has gone by yet.");
            out
        },
        Said::BeforeStart => "that reaches back before the engine started.".to_string(),
        Said::PastTooShort => "the pre-roll does not reach back that far.".to_string(),
        Said::TookLoop { li, len, got, layers } => {
            let mut out = if got < len {
                let mut out = "only ".to_string();
                put(&mut out, told, 0);
                out.append(" s of the ");
                put(&mut out, told, 1);
                out.append(" s asked for was still in the pre-roll — ");
                out
            } else {
                "".to_string()
            };
            out.append("loop ");
            text::push_number(&mut out, li);
            out.append(" took the last ");
            put(&mut out, told, 2);
            out.append(" s as the loop: ");
            text::push_number(&mut out, len);
            out.append(" frames, ");
            put(&mut out, told, 3);
            out.append(" bpm if that is one bar of 4/4 — ");
            text::push_number(&mut out, layers);
            out.append(" layer");
            out.append(plural(layers));
            out.append(" playing.");
            out
        },
        Said::TookLayer { li, len, got, layers } => {
            let mut out = if got < len {
                let mut out = "only ".to_string();
                put(&mut out, told, 0);
                out.append(" s of the ");
                put(&mut out, told, 1);
                out.append(" s asked for was still in the pre-roll — ");
                out
            } else {
                "".to_string()
            };
            out.append("loop ");
            text::push_number(&mut out, li);
            out.append(" took the last complete cycle as a new layer — ");
            text::push_number(&mut out, layers);
            out.append(" layer");
            out.append(plural(layers));
            out.append(" playing.");
            out
        },
        Said::RecordsFrom { li, .. } => {
            let mut out = "loop ".to_string();
            text::push_number(&mut out, li);
            out.append(" records from ");
            put(&mut out, told, 0);
            out.append(".");
            out
        },
        Said::SourceAway { li, .. } => {
            let mut out = "loop ".to_string();
            text::push_number(&mut out, li);
            out.append(" cannot record from ");
            put(&mut out, told, 0);
            out.append(": its interface is not switched on.");
            out
        },
        Said::SourceMidTake { li } => {
            let mut out = "loop ".to_string();
            text::push_number(&mut out, li);
            out.append(" is listening or writing; changing its input mid-take would splice two different rooms together.");
            out
        },
        Said::NoSource { sources, asked } => {
            let mut out = "there are ".to_string();
            text::push_number(&mut out, sources);
            out.append(" sources (");
            put(&mut out, told, 0);
            out.append("), not ");
            text::push_number(&mut out, asked);
            out.append(".");
            out
        },
        Said::Folds { li, on } => {
            if on {
                let mut out = "loop ".to_string();
                text::push_number(&mut out, li);
                out.append(" folds to mono; pan places it rather than balancing it.");
                out
            } else {
                let mut out = "loop ".to_string();
                text::push_number(&mut out, li);
                out.append(" keeps its two channels; pan is a balance.");
                out
            }
        },
        Said::SpeedMidTake { li } => {
            let mut out = "loop ".to_string();
            text::push_number(&mut out, li);
            out.append(" is recording; speed would move the grid under it.");
            out
        },
        Said::Speed { li, speed } => {
            let mut out = "loop ".to_string();
            text::push_number(&mut out, li);
            out.append(" plays at x");
            put(&mut out, told, 0);
            out.append(" ");
            out.append(
                if bits::less_wide(speed, 0) {
                    "backwards"
                } else {
                    "forwards"
                },
            );
            out.append(".");
            out
        },
        Said::SpeedRange { .. } => {
            let mut out = "speed wants 0.125 to 4, either sign, not ".to_string();
            put(&mut out, told, 0);
            out.append(".");
            out
        },
        Said::NothingToSpread => "nothing to spread — record a loop first.".to_string(),
        Said::EveryRange { asked } => {
            let mut out = "`every` wants 1 to 32, not ".to_string();
            text::push_number(&mut out, asked);
            out.append(".");
            out
        },
        Said::LayerHasNoLength => "that layer has no length.".to_string(),
        Said::EveryTime { layer } => {
            let mut out = "layer ".to_string();
            text::push_big(&mut out, layer as u128 + 1);
            out.append(" sounds every time round.");
            out
        },
        Said::OnceEvery { layer, period, slot } => {
            let mut out = "layer ".to_string();
            text::push_big(&mut out, layer as u128 + 1);
            out.append(" sounds once every ");
            text::push_number(&mut out, period);
            out.append(", on slot ");
            text::push_big(&mut out, slot as u128 + 1);
            out.append(".");
            out
        },
        Said::Free { li } => {
            let mut out = "loop ".to_string();
            text::push_number(&mut out, li);
            out.append(" is free.");
            out
        },
        Said::FollowsClock { li, .. } => {
            let mut out = "loop ".to_string();
            text::push_number(&mut out, li);
            out.append(" follows the grid (");
            put(&mut out, told, 0);
            out.append(" s, from Link).");
            out
        },
        Said::FollowsLoop { li, anchor, .. } => {
            let mut out = "loop ".to_string();
            text::push_number(&mut out, li);
            out.append(" follows the grid (");
            put(&mut out, told, 0);
            out.append(" s, from ");
            let part: String = if anchor != NO_ANCHOR {
                let mut out = "loop ".to_string();
                text::push_number(&mut out, anchor);
                out
            } else {
                "".to_string()
            };
            out.append(part.as_str());
            out.append(
                if anchor == NO_ANCHOR {
                    "nowhere"
                } else {
                    ""
                },
            );
            out.append(").");
            out
        },
        Said::NoGridYet { li } => {
            let mut out = "loop ".to_string();
            text::push_number(&mut out, li);
            out.append(" will follow the grid — but no loop has a length yet, so there is no grid. The first recording makes one.");
            out
        },
        Said::NothingToMove => "nothing to move.".to_string(),
        Said::AlreadyEverywhere => "that layer sounds every time round — spread it first.".to_string(),
        Said::Moved { layer, slot, period } => {
            let mut out = "layer ".to_string();
            text::push_big(&mut out, layer as u128 + 1);
            out.append(" moved to slot ");
            text::push_big(&mut out, slot as u128 + 1);
            out.append(" of ");
            text::push_number(&mut out, period);
            out.append(".");
            out
        },
        Said::StillWritten { li } => {
            let mut out = "loop ".to_string();
            text::push_number(&mut out, li);
            out.append(" is still being written; finish that first.");
            out
        },
        Said::NoTempo { li } => {
            let mut out = "loop ".to_string();
            text::push_number(&mut out, li);
            out.append(" has no length, so there is no tempo in it. Record it, or `");
            text::push_number(&mut out, li);
            out.append("len<n>` first.");
            out
        },
        Said::NoBars { li } => {
            let mut out = "nobody has said how many bars loop ".to_string();
            text::push_number(&mut out, li);
            out.append(" is, and a tempo taken from a guess would be wrong by exactly that guess. `");
            text::push_number(&mut out, li);
            out.append("len<n>` first.");
            out
        },
        Said::TempoFrom { li, bars, others, heard, .. } => {
            if beside {
                let mut out = "loop ".to_string();
                text::push_number(&mut out, li);
                out.append(" is ");
                put(&mut out, told, 0);
                out.append(" s over ");
                text::push_number(&mut out, bars);
                out.append(" bar");
                out.append(plural(bars));
                out.append(", which is ");
                put(&mut out, told, 1);
                out.append(" bpm — outside 20 to 999. The bar count is the number to look at.");
                out
            } else {
                let mut out = "tempo taken from loop ".to_string();
                text::push_number(&mut out, li);
                out.append(": ");
                put(&mut out, told, 0);
                out.append(" s over ");
                text::push_number(&mut out, bars);
                out.append(" bar");
                out.append(plural(bars));
                out.append(" is ");
                put(&mut out, told, 1);
                out.append(" bpm.");
                let part: String = if others > 0 {
                    let mut out = " ".to_string();
                    text::push_number(&mut out, others);
                    out.append(" other loop");
                    out.append(
                        if others == 1 {
                            " does and it"
                        } else {
                            "s do and they"
                        },
                    );
                    out.append(" keep their audio but no longer agree with the click.");
                    out
                } else {
                    "".to_string()
                };
                out.append(part.as_str());
                out.append(
                    if heard {
                        ""
                    } else {
                        " No anchor has ever arrived, so nothing here can confirm link-spike took it."
                    },
                );
                out
            }
        },
        Said::NothingToStart { busy } => {
            if busy {
                "nothing to start — everything with audio in it is still recording.".to_string()
            } else {
                "nothing to start — no loop has anything in it.".to_string()
            }
        },
        Said::Started { n, wait, busy } => {
            let mut out = text::number_text(n);
            out.append(" loop");
            out.append(plural(n));
            out.append(" start from the top together");
            let part: String = if wait.is_some() {
                let mut out = " on the grid in ".to_string();
                put(&mut out, told, 0);
                out.append(" s");
                out
            } else {
                "".to_string()
            };
            out.append(part.as_str());
            out.append(".");
            let part: String = if busy > 0 {
                let mut out = " ".to_string();
                text::push_number(&mut out, busy);
                out.append(" still recording, left alone.");
                out
            } else {
                "".to_string()
            };
            out.append(part.as_str());
            out
        },
        Said::Transport { on } => {
            let mut out = "asked Link to ".to_string();
            out.append(
                if on {
                    "start on the next bar"
                } else {
                    "stop"
                },
            );
            out.append(" — peers with start/stop sync follow");
            out.append(
                if on {
                    " on the downbeat"
                } else {
                    ""
                },
            );
            out.append(".");
            out
        },
        Said::NothingToFill => "nothing to fill.".to_string(),
        Said::EveryTimeAgain { layer } => {
            let mut out = "layer ".to_string();
            text::push_big(&mut out, layer as u128 + 1);
            out.append(" sounds every time round again.");
            out
        },
        Said::StillPlaying { n } => {
            let mut out = text::number_text(n);
            out.append(" layer");
            out.append(plural(n));
            out.append(" still playing — undo or clear them first; the length is what they sit in.");
            out
        },
        Said::NoLengthSet => "no length set — the next recording will set one.".to_string(),
        Said::LengthForgotten { .. } => {
            let mut out = "length forgotten (was ".to_string();
            put(&mut out, told, 0);
            out.append(" s). The next recording sets a new one.");
            out
        },
        Said::LayerIs { li, layer, on } => {
            let mut out = "loop ".to_string();
            text::push_number(&mut out, li);
            out.append(" layer ");
            text::push_number(&mut out, layer);
            out.append(" is ");
            out.append(
                if on {
                    "on"
                } else {
                    "off"
                },
            );
            out.append(".");
            out
        },
        Said::NoSuchLayer { li, n, layer } => {
            let mut out = "loop ".to_string();
            text::push_number(&mut out, li);
            out.append(" has ");
            text::push_number(&mut out, n);
            out.append(" layer");
            out.append(plural(n));
            out.append(", not a layer ");
            text::push_number(&mut out, layer);
            out.append(".");
            out
        },
        Said::LayerWhole { li, layer } => {
            let mut out = "loop ".to_string();
            text::push_number(&mut out, li);
            out.append(" layer ");
            text::push_number(&mut out, layer);
            out.append(" plays whole again.");
            out
        },
        Said::LayerPlays { li, layer, from, to, len } => {
            let mut out = "loop ".to_string();
            text::push_number(&mut out, li);
            out.append(" layer ");
            text::push_number(&mut out, layer);
            out.append(" plays ");
            text::push_signed(&mut out, from);
            out.append("..");
            text::push_signed(&mut out, to);
            out.append(" of ");
            text::push_number(&mut out, len);
            out.append(
                if from < 0 || to as i128 > len as i128 {
                    ", with silence"
                } else {
                    ""
                },
            );
            out.append(".");
            out
        },
        Said::LayerWindowBad { li, layer } => {
            let mut out = "loop ".to_string();
            text::push_number(&mut out, li);
            out.append(" layer ");
            text::push_number(&mut out, layer);
            out.append(": a window is in before out, overlaps the layer, and fits the arena.");
            out
        },
        Said::LayersFull { li, max_layers } => {
            let mut out = "loop ".to_string();
            text::push_number(&mut out, li);
            out.append(" holds ");
            text::push_number(&mut out, max_layers);
            out.append(" layers already; there is no room for another.");
            out
        },
        Said::FinishBeforeCopy { li } => {
            let mut out = "loop ".to_string();
            text::push_number(&mut out, li);
            out.append(" is recording — finish it first.");
            out
        },
        Said::Duplicated { li, layer, copy } => {
            let mut out = "loop ".to_string();
            text::push_number(&mut out, li);
            out.append(" layer ");
            text::push_number(&mut out, layer);
            out.append(" duplicated as layer ");
            text::push_number(&mut out, copy);
            out.append(".");
            out
        },
        Said::LaunchBar => "launches wait for the bar (rig-wide).".to_string(),
        Said::LaunchNow => "launches do not wait (rig-wide).".to_string(),
        Said::LaunchBeats { beats } => {
            let mut out = "launches wait for the next ".to_string();
            text::push_signed(&mut out, beats);
            out.append(" beat");
            out.append(
                if beats == 1 {
                    ""
                } else {
                    "s"
                },
            );
            out.append(" (rig-wide).");
            out
        },
        Said::LaunchRange { asked } => {
            let mut out = "launch quantise wants -1 to 64 beats, not ".to_string();
            text::push_signed(&mut out, asked);
            out.append(".");
            out
        },
        Said::FixOnePass { li, .. } => {
            let mut out = "loop ".to_string();
            text::push_number(&mut out, li);
            out.append("'s next record adds one layer of ");
            put(&mut out, told, 0);
            out.append(" s");
            let part: String = if beside {
                let mut out = " (not ".to_string();
                put(&mut out, told, 1);
                out.append(" s: every layer is the loop's length)");
                out
            } else {
                "".to_string()
            };
            out.append(part.as_str());
            out.append(".");
            out
        },
        Said::FixPast { .. } => {
            let mut out = take(told, 0);
            out.append(" s is past --max-secs; the longest take here is ");
            put(&mut out, told, 1);
            out.append(" s.");
            out
        },
        Said::Fixed { li, .. } => {
            let mut out = "loop ".to_string();
            text::push_number(&mut out, li);
            out.append(" is set to ");
            put(&mut out, told, 0);
            out.append(" s; record and it closes itself.");
            out
        },
        Said::BarsRange { asked } => {
            let mut out = "a loop wants 1 to 32 bars, not ".to_string();
            text::push_number(&mut out, asked);
            out.append(".");
            out
        },
        Said::BarsDeclared { li, bars, .. } => {
            let mut out = "loop ".to_string();
            text::push_number(&mut out, li);
            out.append(" is ");
            text::push_number(&mut out, bars);
            out.append(" bar");
            out.append(plural(bars));
            out.append(" — the bar is now ");
            put(&mut out, told, 0);
            out.append(" s. Nothing was moved.");
            out
        },
        Said::NoBarYet => "no bar yet: there is no clock and no loop has a length. Record something first, or start Link.".to_string(),
        Said::BarsPast { bars, .. } => {
            let mut out = text::number_text(bars);
            out.append(" bars would be ");
            put(&mut out, told, 0);
            out.append(" s, past the ceiling of ");
            put(&mut out, told, 1);
            out.append(" s.");
            out
        },
        Said::BarsSized { li, bars, .. } => {
            let mut out = "loop ".to_string();
            text::push_number(&mut out, li);
            out.append(" is set to ");
            text::push_number(&mut out, bars);
            out.append(" bar");
            out.append(plural(bars));
            out.append(" (");
            put(&mut out, told, 0);
            out.append(" s); record and it closes itself.");
            out
        },
        Said::LayerTooLong { li, bars, .. } => {
            let mut out = "loop ".to_string();
            text::push_number(&mut out, li);
            out.append(" has a ");
            put(&mut out, told, 0);
            out.append(" s layer in it; ");
            text::push_number(&mut out, bars);
            out.append(" bar");
            out.append(plural(bars));
            out.append(" would be ");
            put(&mut out, told, 1);
            out.append(" s. Undo it or clear the loop first.");
            out
        },
        Said::BarsResized { li, bars, .. } => {
            let mut out = "loop ".to_string();
            text::push_number(&mut out, li);
            out.append(" is ");
            text::push_number(&mut out, bars);
            out.append(" bar");
            out.append(plural(bars));
            out.append(" (");
            put(&mut out, told, 0);
            out.append(" s); its layers keep their own lengths.");
            out
        },
        Said::NothingToPlace => "nothing to place.".to_string(),
        Said::OneSlot { li, layer } => {
            let mut out = "layer ".to_string();
            text::push_big(&mut out, layer as u128 + 1);
            out.append(" sounds every time round, so there is only one slot; `");
            text::push_number(&mut out, li);
            out.append("s<n>` first to make room.");
            out
        },
        Said::OnSlot { layer, slot, period } => {
            let mut out = "layer ".to_string();
            text::push_big(&mut out, layer as u128 + 1);
            out.append(" is on slot ");
            text::push_big(&mut out, slot as u128 + 1);
            out.append(" of ");
            text::push_number(&mut out, period);
            out.append(".");
            out
        },
        Said::NoLoop { src } => {
            let mut out = "there is no loop ".to_string();
            text::push_number(&mut out, src);
            out.append(".");
            out
        },
        Said::OntoItself { li } => {
            let mut out = "loop ".to_string();
            text::push_number(&mut out, li);
            out.append(" onto itself is nothing.");
            out
        },
        Said::SourceRecording { src } => {
            let mut out = "loop ".to_string();
            text::push_number(&mut out, src);
            out.append(" is still recording — finish it before copying from it.");
            out
        },
        Said::TargetRecording { li } => {
            let mut out = "loop ".to_string();
            text::push_number(&mut out, li);
            out.append(" is recording — a copy lands on an empty loop.");
            out
        },
        Said::NothingToCopy { src } => {
            let mut out = "loop ".to_string();
            text::push_number(&mut out, src);
            out.append(" has nothing to copy.");
            out
        },
        Said::NotEmpty { li } => {
            let mut out = "loop ".to_string();
            text::push_number(&mut out, li);
            out.append(" is not empty — copies land on empty loops only; `");
            text::push_number(&mut out, li);
            out.append("c` first if you mean it.");
            out
        },
        Said::CopyNoLayer { src, n, layer } => {
            let mut out = "loop ".to_string();
            text::push_number(&mut out, src);
            out.append(" has ");
            text::push_number(&mut out, n);
            out.append(" layer");
            out.append(plural(n));
            out.append(", not ");
            text::push_number(&mut out, layer);
            out.append(".");
            out
        },
        Said::CopiedLayer { layer, src, li, .. } => {
            let mut out = "copied layer ".to_string();
            text::push_number(&mut out, layer);
            out.append(" of loop ");
            text::push_number(&mut out, src);
            out.append(" onto loop ");
            text::push_number(&mut out, li);
            out.append(" (");
            put(&mut out, told, 0);
            out.append(" s), whole and in phase; window it as you like.");
            out
        },
        Said::Copied { n, src, li } => {
            let mut out = "copied ".to_string();
            text::push_number(&mut out, n);
            out.append(" layer");
            out.append(plural(n));
            out.append(" of loop ");
            text::push_number(&mut out, src);
            out.append(" onto loop ");
            text::push_number(&mut out, li);
            out.append(", whole and in phase; window it as you like.");
            out
        },
        Said::NothingToRedo { li } => {
            let mut out = "loop ".to_string();
            text::push_number(&mut out, li);
            out.append(" has nothing to redo.");
            out
        },
        Said::AtLastTake { li } => {
            let mut out = "loop ".to_string();
            text::push_number(&mut out, li);
            out.append(" is already at its last take.");
            out
        },
        Said::Redone { li, n } => {
            let mut out = "loop ".to_string();
            text::push_number(&mut out, li);
            out.append(" redone: ");
            text::push_number(&mut out, n);
            out.append(" layers playing.");
            out
        },
        Said::NothingToUndo { li } => {
            let mut out = "loop ".to_string();
            text::push_number(&mut out, li);
            out.append(" has nothing to undo.");
            out
        },
        Said::EmptyNow { li, .. } => {
            let mut out = "loop ".to_string();
            text::push_number(&mut out, li);
            out.append(" layer 1 removed. Empty now, but still ");
            put(&mut out, told, 0);
            out.append(" s long, so the next take lands on the same grid — `");
            text::push_number(&mut out, li);
            out.append("z` to forget the length.");
            out
        },
        Said::Removed { li, layer, left } => {
            let mut out = "loop ".to_string();
            text::push_number(&mut out, li);
            out.append(" layer ");
            text::push_number(&mut out, layer);
            out.append(" removed, ");
            text::push_number(&mut out, left);
            out.append(" left.");
            out
        },
        Said::DeviceLost => "simulating device loss.".to_string(),
        Said::PlaysWay { li, back, .. } => {
            let mut out = "loop ".to_string();
            text::push_number(&mut out, li);
            out.append(" plays ");
            out.append(
                if back {
                    "backwards"
                } else {
                    "forwards"
                },
            );
            out.append(" at x");
            put(&mut out, told, 0);
            out.append(".");
            out
        },
        Said::HasMaterial { li } => {
            let mut out = "loop ".to_string();
            text::push_number(&mut out, li);
            out.append(" has something in it; clear it before threading a tape.");
            out
        },
        Said::TapePast { .. } => {
            let mut out = take(told, 0);
            out.append(" s is past --max-secs; the longest tape here is ");
            put(&mut out, told, 1);
            out.append(" s.");
            out
        },
        Said::Threaded { li, cycles, .. } => {
            let mut out = "loop ".to_string();
            text::push_number(&mut out, li);
            out.append(" is an empty ");
            put(&mut out, told, 0);
            out.append(" s tape");
            let part: String = if cycles > 0 {
                let mut out = " (".to_string();
                text::push_number(&mut out, cycles);
                out.append(" grid cycle");
                out.append(plural(cycles));
                out.append(")");
                out
            } else {
                "".to_string()
            };
            out.append(part.as_str());
            out.append(", going round.");
            out
        },
        Said::TapeNow { li, folded } => {
            let mut out = "loop ".to_string();
            text::push_number(&mut out, li);
            out.append(" is a tape now, ");
            put(&mut out, told, 0);
            out.append(" a pass");
            let part: String = if folded > 1 {
                let mut out = " (".to_string();
                text::push_number(&mut out, folded);
                out.append(" layers folded into one)");
                out
            } else {
                "".to_string()
            };
            out.append(part.as_str());
            out.append(". Undo is gone.");
            out
        },
        Said::LayersAgain { li } => {
            let mut out = "loop ".to_string();
            text::push_number(&mut out, li);
            out.append(" records in layers again; it is still one layer.");
            out
        },
        Said::Feedback { li } => {
            let mut out = "a Revox pass on loop ".to_string();
            text::push_number(&mut out, li);
            out.append(" leaves ");
            put(&mut out, told, 0);
            out.append(" a pass.");
            out
        },
        Said::FeedbackGain { .. } => {
            let mut out = "feedback is a loss, so it wants zero or less; ".to_string();
            put(&mut out, told, 0);
            out.append(" would run away.");
            out
        },
        Said::FeedbackRange { .. } => {
            let mut out = "feedback wants 0 to -60 dB, not ".to_string();
            put(&mut out, told, 0);
            out.append(".");
            out
        },
        Said::Swings { li, on } => {
            let mut out = "loop ".to_string();
            text::push_number(&mut out, li);
            out.append(" ");
            out.append(
                if on {
                    "swings forward then back"
                } else {
                    "runs one way"
                },
            );
            out.append(".");
            out
        },
        Said::OneShot { li, on } => {
            if on {
                let mut out = "loop ".to_string();
                text::push_number(&mut out, li);
                out.append(" is a one-shot: silent now, one pass each time it fires.");
                out
            } else {
                let mut out = "loop ".to_string();
                text::push_number(&mut out, li);
                out.append(" turns for ever again.");
                out
            }
        },
        Said::WaitsForSound { li } => {
            let mut out = "loop ".to_string();
            text::push_number(&mut out, li);
            out.append(" waits for a sound over ");
            put(&mut out, told, 0);
            out.append(" and reaches ");
            put(&mut out, told, 1);
            out.append(" ms back past it.");
            out
        },
        Said::OnThePress { li } => {
            let mut out = "loop ".to_string();
            text::push_number(&mut out, li);
            out.append(" records on the press again.");
            out
        },
        Said::Decay { li } => {
            let mut out = "loop ".to_string();
            text::push_number(&mut out, li);
            out.append(" ");
            put(&mut out, told, 0);
            out.append(".");
            out
        },
        Said::DecayGain { .. } => {
            let mut out = "decay is a loss, so it wants zero or less; ".to_string();
            put(&mut out, told, 0);
            out.append(" per pass would run away.");
            out
        },
        Said::DecayRange { .. } => {
            let mut out = "decay wants 0 to -60 dB a pass, not ".to_string();
            put(&mut out, told, 0);
            out.append(".");
            out
        },
        Said::Fade { li } => {
            let mut out = "loop ".to_string();
            text::push_number(&mut out, li);
            out.append(" wraps with ");
            put(&mut out, told, 0);
            out.append(".");
            out
        },
        Said::FadeSet { li, on, kept, n } => {
            let mut out = "loop ".to_string();
            text::push_number(&mut out, li);
            out.append(" wraps with ");
            put(&mut out, told, 0);
            out.append(".");
            out.append(
                if on && n > 0 && kept == 0 {
                    "  Nothing here kept a continuation, though, so there is nothing to fade from."
                } else {
                    ""
                },
            );
            let part: String = if on && n > 0 && kept > 0 && kept != n {
                let mut out = "  ".to_string();
                text::push_number(&mut out, kept);
                out.append(" of ");
                text::push_number(&mut out, n);
                out.append(" layers kept a continuation; the rest still join hard.");
                out
            } else {
                "".to_string()
            };
            out.append(part.as_str());
            out
        },
        Said::FadeRange { .. } => {
            let mut out = "the wrap fade wants 0 to ".to_string();
            put(&mut out, told, 0);
            out.append(" ms, not ");
            put(&mut out, told, 1);
            out.append(".");
            out
        },
        Said::Odds { li, .. } => {
            let mut out = "loop ".to_string();
            text::push_number(&mut out, li);
            out.append(" sounds ");
            put(&mut out, told, 0);
            out.append(".");
            out
        },
        Said::ChanceRange { .. } => {
            let mut out = "chance wants 0 to 1, not ".to_string();
            put(&mut out, told, 0);
            out.append(".");
            out
        },
        Said::ArmLevel { now } => {
            let mut out = "a level-armed loop ".to_string();
            out.append(
                if now {
                    "now "
                } else {
                    ""
                },
            );
            out.append("starts at ");
            put(&mut out, told, 0);
            out.append(".");
            out
        },
        Said::ArmRange { .. } => {
            let mut out = "the arm level wants 0 to -80 dBFS, not ".to_string();
            put(&mut out, told, 0);
            out.append(".");
            out
        },
        Said::Level { li } => {
            let mut out = "loop ".to_string();
            text::push_number(&mut out, li);
            out.append(" ");
            put(&mut out, told, 0);
            out.append(".");
            out
        },
        Said::LevelGain { .. } => {
            let mut out = "a loop plays at unity or below; ".to_string();
            put(&mut out, told, 0);
            out.append(" dB would clip.");
            out
        },
        Said::LevelRange { .. } => {
            let mut out = "level wants 0 to -60 dB, not ".to_string();
            put(&mut out, told, 0);
            out.append(".");
            out
        },
        Said::Panned { li, pan } => {
            let mut out = "loop ".to_string();
            text::push_number(&mut out, li);
            out.append(" panned ");
            out.append(side(pan));
            out.append(" (L ");
            put(&mut out, told, 0);
            out.append(", R ");
            put(&mut out, told, 1);
            out.append(").");
            out
        },
        Said::Halted { li, on } => {
            let mut out = "loop ".to_string();
            text::push_number(&mut out, li);
            out.append(" ");
            out.append(
                if on {
                    "stopped, still turning"
                } else {
                    "playing"
                },
            );
            out.append(".");
            out
        },
        Said::Cleared { li } => {
            let mut out = "loop ".to_string();
            text::push_number(&mut out, li);
            out.append(" cleared.");
            out
        },
        Said::ClearedTape { li, .. } => {
            let mut out = "loop ".to_string();
            text::push_number(&mut out, li);
            out.append(" cleared; an empty ");
            put(&mut out, told, 0);
            out.append(" s tape again.");
            out
        },
        Said::Click { on } => {
            let mut out = "click ".to_string();
            out.append(
                if on {
                    "on"
                } else {
                    "off"
                },
            );
            out.append(".");
            out
        },
        Said::Monitoring { on } => {
            let mut out = "input monitoring ".to_string();
            out.append(
                if on {
                    "on"
                } else {
                    "off"
                },
            );
            out.append(".");
            out.append(
                if on {
                    "  (the interface's own direct monitoring is lower latency)"
                } else {
                    ""
                },
            );
            out
        },
        Said::Levels { .. } => {
            let mut out = "in ".to_string();
            put(&mut out, told, 0);
            out.append(" dBFS   out ");
            put(&mut out, told, 1);
            out.append(" dBFS   (peak since last check)");
            out.append(
                if beside {
                    "\n    nothing at all is arriving on the chosen channel."
                } else {
                    ""
                },
            );
            out
        },
        Said::Show { .. } => "".to_string(),
    }
}

/// What could not be read of a command, in words. `quoted` is the text as it
/// is quoted.
pub open spec fn unreadable(m: Misread, t: Seq<char>, quoted: Seq<char>) -> Seq<char> {
    match m {
        Misread::Lateness => "`@"@ + text::trimmed(t) + "` is not a lateness in milliseconds."@,
        Misread::LoopNumber => "`"@ + t + "` is not a loop number."@,
        Misread::Position => "`"@ + t + "` wants a position in frames, which may be negative."@,
        Misread::Rotation => "`"@ + t + "` wants a signed number of frames."@,
        Misread::Tone => "tape tone wants hertz, not `"@ + t + "`."@,
        Misread::Source => "`"@ + t + "` is not a source number."@,
        Misread::Speed => "speed wants a number, not `"@ + t + "`."@,
        Misread::Count => "`"@ + t + "` is not a command; `s` wants a count."@,
        Misread::LayerSwitch => "`"@ + t + "` wants a layer number and then 1 or 0, as in `ly21`."@,
        Misread::LayerWindow => "`"@ + t + "` wants a layer number, as in `lw2:1000:625000` or `lw2`."@,
        Misread::TwoFrames => "`"@ + t + "` wants two frame counts, as in `lw2:1000:625000`."@,
        Misread::LayerWindowShape => "`"@ + t + "` wants `lw<k>:<in>:<out>`, or `lw<k>` to clear."@,
        Misread::Duplicate => "`"@ + t + "` wants a layer number, as in `dp2`."@,
        Misread::Beats => "`"@ + t + "` wants a number of beats."@,
        Misread::FixLength => "`"@ + t + "` wants a length in seconds, as in `fix13`."@,
        Misread::Bars => "`"@ + t + "` wants a number of bars."@,
        Misread::Slot => "`"@ + t + "` wants a slot number."@,
        Misread::Copy => "`"@ + t + "` wants a source loop, and optionally `l<layer>` from one."@,
        Misread::TapeLength => "a tape wants a length in seconds, not "@ + t + "."@,
        Misread::Tape => "a tape wants a length in seconds, not `"@ + t + "`."@,
        Misread::Feedback => "feedback wants decibels, not `"@ + t + "`."@,
        Misread::Decay => "decay wants decibels a pass, not `"@ + t + "`."@,
        Misread::Fade => "the wrap fade wants milliseconds, not `"@ + t + "`."@,
        Misread::Chance => "chance wants a probability, not `"@ + t + "`."@,
        Misread::ArmLevel => "the arm level wants a number of dBFS, not `"@ + t + "`."@,
        Misread::Level => "level wants decibels, not `"@ + t + "`."@,
        Misread::Pan => "pan wants 0-127, not `"@ + t + "`."@,
        Misread::Unknown => "unknown command "@ + quoted + ""@,
    }
}

fn three(a: &str, b: &str, c: &str) -> (r: String)
    ensures
        r@ == a@ + b@ + c@,
{
    let mut out = a.to_string();
    out.append(b);
    out.append(c);
    out
}

/// What could not be read of a command, in words, with its text quoted.
pub fn unread_quoted(m: Misread, t: &str, quoted: &str) -> (r: String)
    ensures
        r@ == unreadable(m, t@, quoted@),
{
    match m {
        Misread::Lateness => three("`@", text::trim(t), "` is not a lateness in milliseconds."),
        Misread::LoopNumber => three("`", t, "` is not a loop number."),
        Misread::Position => three("`", t, "` wants a position in frames, which may be negative."),
        Misread::Rotation => three("`", t, "` wants a signed number of frames."),
        Misread::Tone => three("tape tone wants hertz, not `", t, "`."),
        Misread::Source => three("`", t, "` is not a source number."),
        Misread::Speed => three("speed wants a number, not `", t, "`."),
        Misread::Count => three("`", t, "` is not a command; `s` wants a count."),
        Misread::LayerSwitch => three("`", t, "` wants a layer number and then 1 or 0, as in `ly21`."),
        Misread::LayerWindow => three("`", t, "` wants a layer number, as in `lw2:1000:625000` or `lw2`."),
        Misread::TwoFrames => three("`", t, "` wants two frame counts, as in `lw2:1000:625000`."),
        Misread::LayerWindowShape => three("`", t, "` wants `lw<k>:<in>:<out>`, or `lw<k>` to clear."),
        Misread::Duplicate => three("`", t, "` wants a layer number, as in `dp2`."),
        Misread::Beats => three("`", t, "` wants a number of beats."),
        Misread::FixLength => three("`", t, "` wants a length in seconds, as in `fix13`."),
        Misread::Bars => three("`", t, "` wants a number of bars."),
        Misread::Slot => three("`", t, "` wants a slot number."),
        Misread::Copy => three("`", t, "` wants a source loop, and optionally `l<layer>` from one."),
        Misread::TapeLength => three("a tape wants a length in seconds, not ", t, "."),
        Misread::Tape => three("a tape wants a length in seconds, not `", t, "`."),
        Misread::Feedback => three("feedback wants decibels, not `", t, "`."),
        Misread::Decay => three("decay wants decibels a pass, not `", t, "`."),
        Misread::Fade => three("the wrap fade wants milliseconds, not `", t, "`."),
        Misread::Chance => three("chance wants a probability, not `", t, "`."),
        Misread::ArmLevel => three("the arm level wants a number of dBFS, not `", t, "`."),
        Misread::Level => three("level wants decibels, not `", t, "`."),
        Misread::Pan => three("pan wants 0-127, not `", t, "`."),
        Misread::Unknown => three("unknown command ", quoted, ""),
    }
}

/// What could not be read of a command, in words.
pub fn unread(m: Misread, t: &str) -> (r: String)
    ensures
        r@ == unreadable(m, t@, text::quoted(t@)),
{
    let q = text::quote(t);
    unread_quoted(m, t, q.as_str())
}

} // verus!
