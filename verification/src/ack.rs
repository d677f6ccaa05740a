//! What is said back to a command.

use crate::phase::Phase;
use vstd::prelude::*;

verus! {

/// What was done, or why it was not. Lengths and waits are in frames, and
/// real numbers are their bits.
#[allow(inconsistent_fields)]
#[derive(Clone, Copy, Debug)]
pub enum Said {
    /// There are only so many loops.
    LoopCount { n_loops: usize },
    /// The loop is selected.
    Selected { li: usize },
    /// The loop has a window, which has to go before a multiply or a claim.
    WindowFirst { li: usize },
    /// The whole loop plays again.
    WholeAgain { li: usize },
    /// No length to window yet.
    NoLengthToWindow { li: usize },
    /// A window may reach one length past either end and no further.
    WindowReach { li: usize, len: usize, asked: i64 },
    /// A window has to end after it starts.
    WindowOrder { li: usize, from: i64, to: i64 },
    /// The window is set.
    Windows { li: usize, from: i64, to: i64, len: usize, padded: bool },
    /// Nothing to rotate yet.
    NothingToRotate { li: usize },
    /// The pass starts at `next`, having moved `by`.
    Rotated { li: usize, next: usize, by: i64 },
    /// Nothing to draw.
    NothingToDraw { li: usize },
    /// The picture is ready.
    Drawn { li: usize, buckets: usize, len: usize },
    /// The take in hand has to be finished before a multiply.
    FinishTakeFirst { li: usize },
    /// The loop is waiting for the bar.
    WaitingForBar { li: usize },
    /// The loop is listening for a sound.
    Listening { li: usize },
    /// The loop is recording.
    Recording { li: usize },
    /// Another loop has the input.
    InputHeld { other: usize, phase: Phase },
    /// The loop swings, and a write head cannot follow it.
    Swinging { li: usize },
    /// The loop is a tape that is not running at rate one.
    TapeSpeed { li: usize, speed: u64 },
    /// The loop does not play plainly.
    NotPlain { li: usize, speed: u64, pendulum: bool },
    /// Nothing to multiply.
    NothingToMultiply { li: usize },
    /// No room for another layer.
    Ceiling { li: usize, max_layers: usize },
    /// A multiply has begun; so much of the cycle came from the past.
    Multiplying { li: usize, behind: usize, recovered: usize },
    /// So many cycles do not fit; the loop keeps its length.
    MultiplyPast { li: usize, cycles: usize, len: usize, max_frames: usize },
    /// The multiply ends on its boundary.
    MultiplyEndsOnBoundary { li: usize, wait: i64, cycles: usize },
    /// The loop has grown.
    Multiplied { li: usize, cycles: usize, len: usize, cycle: usize, waited: i64, layers: usize },
    /// The loop no longer listens.
    StoppedListening { li: usize },
    /// The loop listens for a sound over the arm level.
    NowListening { li: usize },
    /// A recording starts on the grid.
    StartsOnGrid { li: usize, wait: i64 },
    /// A recording goes over the tape.
    OverTape { li: usize },
    /// One layer is added, in one pass that closes itself.
    OnePass { li: usize, layer: usize },
    /// A first recording begins.
    FirstTake { li: usize },
    /// An overdub begins.
    Overdubbing { li: usize, layer: usize },
    /// The take closes on the bar.
    ClosesOnBar { li: usize, wait: i64, cycles: usize },
    /// There is no take to close.
    NotRecording { li: usize },
    /// The take is closed and what is still arriving is waited for.
    Draining { li: usize },
    /// Nothing was recorded.
    RecordedNothing { li: usize },
    /// The take is a layer.
    Committed { li: usize, len: usize, layers: usize },
    /// The take is on the tape.
    OnTape { li: usize, len: usize },
    /// Nothing to fire.
    NothingToFire { li: usize },
    /// Only a one-shot fires.
    NotOneShot { li: usize },
    /// The loop fires on the grid.
    FiresOnGrid { li: usize, wait: i64 },
    /// The loop fires.
    Fires { li: usize },
    /// How bright the tape is.
    Tone { li: usize },
    /// The tone is out of range.
    ToneRange { bits: u32 },
    /// Nothing has arrived.
    NoInputYet,
    /// Not one cycle has gone by.
    NoCycleYet { li: usize },
    /// The claim reaches back before the start.
    BeforeStart,
    /// The past does not reach that far.
    PastTooShort,
    /// The past is the loop.
    TookLoop { li: usize, len: usize, got: usize, layers: usize },
    /// The last cycle is a layer.
    TookLayer { li: usize, len: usize, got: usize, layers: usize },
    /// Which source the loop records from.
    RecordsFrom { li: usize, source: usize },
    /// The source is not switched on.
    SourceAway { li: usize, source: usize },
    /// A source cannot change in a take.
    SourceMidTake { li: usize },
    /// There is no such source.
    NoSource { sources: usize, asked: usize },
    /// The two channels are folded.
    Folds { li: usize, on: bool },
    /// A speed cannot change in a take.
    SpeedMidTake { li: usize },
    /// The loop plays at a speed.
    Speed { li: usize, speed: u64 },
    /// The speed is out of range.
    SpeedRange { bits: u64 },
    /// Nothing to spread.
    NothingToSpread,
    /// The period is out of range.
    EveryRange { asked: usize },
    /// The layer has no length.
    LayerHasNoLength,
    /// The layer sounds every time round.
    EveryTime { layer: usize },
    /// The layer sounds in one slot of so many.
    OnceEvery { layer: usize, period: usize, slot: usize },
    /// The loop does not wait for the grid.
    Free { li: usize },
    /// The loop waits for a grid that a clock gives.
    FollowsClock { li: usize, bar: usize },
    /// The loop waits for a grid that a loop gives.
    FollowsLoop { li: usize, bar: usize, anchor: usize },
    /// The loop waits for a grid, and there is none yet.
    NoGridYet { li: usize },
    /// Nothing to move.
    NothingToMove,
    /// The layer sounds everywhere.
    AlreadyEverywhere,
    /// The layer moved to a slot.
    Moved { layer: usize, slot: usize, period: usize },
    /// The loop is still being written.
    StillWritten { li: usize },
    /// The loop has no length to take a tempo from.
    NoTempo { li: usize },
    /// Nobody has said how many bars the loop is.
    NoBars { li: usize },
    /// The tempo of so many frames over so many bars is asked for.
    TempoFrom { li: usize, len: usize, bars: usize, others: usize, heard: bool },
    /// Nothing to start.
    NothingToStart { busy: bool },
    /// So many loops start together.
    Started { n: usize, wait: Option<i64>, busy: usize },
    /// The transport is asked for.
    Transport { on: bool },
    /// Nothing to fill.
    NothingToFill,
    /// The layer sounds every time round again.
    EveryTimeAgain { layer: usize },
    /// Layers still play.
    StillPlaying { n: usize },
    /// No length is set.
    NoLengthSet,
    /// The length is forgotten.
    LengthForgotten { was: usize },
    /// The layer is on or off.
    LayerIs { li: usize, layer: usize, on: bool },
    /// There is no such layer.
    NoSuchLayer { li: usize, n: usize, layer: usize },
    /// The layer plays whole.
    LayerWhole { li: usize, layer: usize },
    /// The layer plays a stretch.
    LayerPlays { li: usize, layer: usize, from: i64, to: i64, len: usize },
    /// The stretch is not one the layer can play.
    LayerWindowBad { li: usize, layer: usize },
    /// No room for a copy.
    LayersFull { li: usize, max_layers: usize },
    /// The take has to be finished before a copy.
    FinishBeforeCopy { li: usize },
    /// The layer is there twice.
    Duplicated { li: usize, layer: usize, copy: usize },
    /// Launches wait for the bar.
    LaunchBar,
    /// Launches do not wait.
    LaunchNow,
    /// Launches wait for so many beats.
    LaunchBeats { beats: i64 },
    /// So many beats are out of range.
    LaunchRange { asked: i64 },
    /// The next recording adds one layer.
    FixOnePass { li: usize, len: usize, asked: u64 },
    /// The length is past the longest.
    FixPast { asked: u64, max_frames: usize },
    /// The next recording closes itself.
    Fixed { li: usize, len: usize },
    /// So many bars are out of range.
    BarsRange { asked: usize },
    /// The loop is so many bars, and the bar follows from it.
    BarsDeclared { li: usize, bars: usize, len: usize },
    /// There is no bar yet.
    NoBarYet,
    /// So many bars do not fit.
    BarsPast { bars: usize, len: usize, max_frames: usize },
    /// The empty loop is so many bars.
    BarsSized { li: usize, bars: usize, len: usize },
    /// A layer is longer than that.
    LayerTooLong { li: usize, longest: usize, bars: usize, len: usize },
    /// The loop is so many bars.
    BarsResized { li: usize, bars: usize, len: usize },
    /// Nothing to place.
    NothingToPlace,
    /// There is one slot.
    OneSlot { li: usize, layer: usize },
    /// The layer is on a slot.
    OnSlot { layer: usize, slot: usize, period: usize },
    /// There is no such loop.
    NoLoop { src: usize },
    /// A loop cannot be copied onto itself.
    OntoItself { li: usize },
    /// The source is recording.
    SourceRecording { src: usize },
    /// The target is recording.
    TargetRecording { li: usize },
    /// Nothing to copy.
    NothingToCopy { src: usize },
    /// Copies land on empty loops.
    NotEmpty { li: usize },
    /// The source has no such layer.
    CopyNoLayer { src: usize, n: usize, layer: usize },
    /// One layer was copied.
    CopiedLayer { layer: usize, src: usize, li: usize, len: usize },
    /// So many layers were copied.
    Copied { n: usize, src: usize, li: usize },
    /// Nothing to redo.
    NothingToRedo { li: usize },
    /// The loop is at its last take.
    AtLastTake { li: usize },
    /// The undo is taken back.
    Redone { li: usize, n: usize },
    /// Nothing to undo.
    NothingToUndo { li: usize },
    /// The last layer is gone and the length stays.
    EmptyNow { li: usize, len: usize },
    /// A layer is gone.
    Removed { li: usize, layer: usize, left: usize },
    /// The device counts as lost.
    DeviceLost,
    /// Which way the loop plays.
    PlaysWay { li: usize, back: bool, speed: u64 },
    /// The loop has something in it.
    HasMaterial { li: usize },
    /// The tape is past the longest.
    TapePast { asked: u64, max_frames: usize },
    /// The loop is an empty tape, so many grid cycles long.
    Threaded { li: usize, len: usize, cycles: usize },
    /// The loop is a tape now.
    TapeNow { li: usize, folded: usize },
    /// The loop records in layers.
    LayersAgain { li: usize },
    /// What a pass over the tape leaves.
    Feedback { li: usize },
    /// A tape cannot gain.
    FeedbackGain { bits: u32 },
    /// The feedback is out of range.
    FeedbackRange { bits: u32 },
    /// Whether the loop swings.
    Swings { li: usize, on: bool },
    /// Whether the loop is a one-shot.
    OneShot { li: usize, on: bool },
    /// The loop waits for a sound.
    WaitsForSound { li: usize },
    /// The loop records on the press.
    OnThePress { li: usize },
    /// What a pass costs.
    Decay { li: usize },
    /// A pass cannot gain.
    DecayGain { bits: u32 },
    /// The decay is out of range.
    DecayRange { bits: u32 },
    /// How the loop wraps.
    Fade { li: usize },
    /// How the loop wraps now, and how many layers can.
    FadeSet { li: usize, on: bool, kept: usize, n: usize },
    /// The fade is out of range.
    FadeRange { bits: u64 },
    /// How often a pass sounds.
    Odds { li: usize, bits: u32 },
    /// The probability is out of range.
    ChanceRange { bits: u32 },
    /// The level a sound has to reach.
    ArmLevel { now: bool },
    /// The arm level is out of range.
    ArmRange { bits: u64 },
    /// How loud the loop is.
    Level { li: usize },
    /// A loop plays at unity or below.
    LevelGain { bits: u32 },
    /// The level is out of range.
    LevelRange { bits: u32 },
    /// Where the loop sits.
    Panned { li: usize, pan: usize },
    /// Whether the loop is stopped.
    Halted { li: usize, on: bool },
    /// The loop is clear.
    Cleared { li: usize },
    /// The loop is an empty tape again.
    ClearedTape { li: usize, len: usize },
    /// Whether the click is on.
    Click { on: bool },
    /// Whether the input is monitored.
    Monitoring { on: bool },
    /// The peaks since they were last asked for.
    Levels { input: u32, output: u32 },
    /// The loop is to be shown.
    Show { li: usize },
}

/// What could not be read of a command.
#[derive(Clone, Copy, Debug, PartialEq, Eq, Structural)]
pub enum Misread {
    /// The lateness is not one.
    Lateness,
    /// The loop number is not one.
    LoopNumber,
    /// A window wants a position in frames.
    Position,
    /// A rotation wants a number of frames.
    Rotation,
    /// The tone wants hertz.
    Tone,
    /// A source is a number.
    Source,
    /// A speed is a number.
    Speed,
    /// A count is a number.
    Count,
    /// A switch wants a layer and a flag.
    LayerSwitch,
    /// A layer window wants a layer.
    LayerWindow,
    /// A layer window wants two frame counts.
    TwoFrames,
    /// A layer window is a layer, or a layer, an in and an out.
    LayerWindowShape,
    /// A copy wants a layer.
    Duplicate,
    /// Launches wait for a number of beats.
    Beats,
    /// A next take wants a length.
    FixLength,
    /// A loop wants a number of bars.
    Bars,
    /// A place is a slot number.
    Slot,
    /// A copy wants a source loop.
    Copy,
    /// A tape wants a length above zero.
    TapeLength,
    /// A tape wants a length.
    Tape,
    /// The feedback is in decibels.
    Feedback,
    /// The decay is in decibels.
    Decay,
    /// The fade is in milliseconds.
    Fade,
    /// The chance is a probability.
    Chance,
    /// The arm level is in decibels.
    ArmLevel,
    /// The level is in decibels.
    Level,
    /// The place is a number up to 127.
    Pan,
    /// There is no such command.
    Unknown,
}

/// What a file is to hold.
#[derive(Clone, Copy, Debug, PartialEq, Eq, Structural)]
pub enum Writing {
    /// The layers of one loop.
    Take,
    /// Every loop, rendered.
    Loops,
    /// The layers of every loop.
    Layers,
}

/// What is said back to a command.
#[derive(Debug)]
pub enum Ack {
    /// Nothing.
    Nothing,
    /// What was done, or why it was not.
    Said(Said),
    /// What could not be read, and the text it was in.
    Misread(Misread, String),
    /// A file is to be written, under a name.
    Write(Writing, usize, String),
}

} // verus!
