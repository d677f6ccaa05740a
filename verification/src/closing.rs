//! A recording on its way to being a layer.

use crate::frame;
use crate::phase::Phase;
use vstd::prelude::*;

verus! {

/// Who sent a command.
#[derive(Clone, Copy, Debug, PartialEq, Eq, Structural)]
pub enum Caller {
    /// The console: what is said back is printed.
    Console,
    /// A socket: what is said back is printed and carried to every client.
    App,
    /// Nobody: a take that reached its length.
    Engine,
}

/// A close that a press has filed for a frame still to come.
#[derive(Clone, Copy, Debug)]
pub struct Filed {
    /// The frame of the press, its lateness taken off.
    pub pressed: i64,
    /// How late the press was, in frames.
    pub late: i64,
    /// A multiply's whole cycles; zero for a take.
    pub cycles: usize,
    pub from: Caller,
}

/// A take that no longer writes and whose last frames are still arriving.
#[derive(Clone, Copy, Debug)]
pub struct Take {
    /// What it was: a first take, an overdub or a multiply.
    pub was: Phase,
    /// The frame it closes as of.
    pub closed_at: i64,
    /// How late the press was, in frames.
    pub late: i64,
    /// A quantised first take's length.
    pub quantised_len: Option<usize>,
    /// A multiply's whole cycles, and how long its press waited.
    pub cycles: usize,
    pub waited: i64,
    /// When the last frames will have arrived, in milliseconds of a clock.
    pub due: u64,
    pub from: Caller,
}

/// Where a loop's close has got to.
#[derive(Clone, Copy, Debug)]
pub enum Closing {
    /// Filed for a frame.
    Filed(Filed),
    /// Waiting for the input.
    Draining(Take),
}

/// Arithmetic on a close is safe.
pub open spec fn closing_wf(c: Option<Closing>, max_frames: usize) -> bool {
    match c {
        None => true,
        Some(Closing::Filed(f)) => frame::near(f.pressed) && frame::near(f.late)
            && frame::fits(f.cycles),
        Some(Closing::Draining(t)) => take_wf(t, max_frames),
    }
}

/// It was a recording, arithmetic on it is safe, and the length it was given
/// fits.
pub open spec fn take_wf(t: Take, max_frames: usize) -> bool {
    &&& t.was == Phase::First || t.was == Phase::Overdub || t.was == Phase::Multiply
    &&& frame::near(t.closed_at)
    &&& frame::near(t.late)
    &&& frame::in_range(t.waited)
    &&& frame::fits(t.cycles)
    &&& t.quantised_len matches Some(n) ==> 0 < n <= max_frames
}

} // verus!
