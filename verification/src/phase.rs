//! What a loop is doing, as one of six words.

use vstd::prelude::*;

verus! {

/// What a loop is doing.
#[derive(Clone, Copy, Debug, PartialEq, Eq, Structural)]
pub enum Phase {
    /// Nothing to play and nothing asked of it.
    Idle,
    /// Waiting for a sound, and holding the input while it waits.
    Armed,
    /// Recording the take that gives the loop its length.
    First,
    /// Recording onto a loop that has a length.
    Overdub,
    /// Turning.
    Playing,
    /// Recording a longer cycle over the one it has.
    Multiply,
}

/// The byte a phase is carried as.
pub open spec fn byte_of(p: Phase) -> u8 {
    match p {
        Phase::Idle => 0u8,
        Phase::Armed => 1u8,
        Phase::First => 2u8,
        Phase::Overdub => 3u8,
        Phase::Playing => 4u8,
        Phase::Multiply => 5u8,
    }
}

/// The phase a byte names. A byte that names none reads as idle.
pub open spec fn phase_of(v: u8) -> Phase {
    if v == 1 {
        Phase::Armed
    } else if v == 2 {
        Phase::First
    } else if v == 3 {
        Phase::Overdub
    } else if v == 4 {
        Phase::Playing
    } else if v == 5 {
        Phase::Multiply
    } else {
        Phase::Idle
    }
}

/// The word a phase goes by on the wire.
pub open spec fn word_of(p: Phase) -> Seq<char> {
    match p {
        Phase::Idle => "idle"@,
        Phase::Armed => "armed"@,
        Phase::First => "recordingFirst"@,
        Phase::Overdub => "overdubbing"@,
        Phase::Playing => "playing"@,
        Phase::Multiply => "multiplying"@,
    }
}

/// Whether a loop may go from one phase to another.
///
/// From idle it may arm, record, play or multiply; from playing anything;
/// an arm ends in a take or is taken back; and whatever records ends idle
/// or playing. Only idle and playing may be entered from themselves.
pub open spec fn may_go(from: Phase, to: Phase) -> bool {
    match from {
        Phase::Idle => to != Phase::Overdub,
        Phase::Armed => to != Phase::Armed && to != Phase::Multiply,
        Phase::First | Phase::Overdub | Phase::Multiply => to == Phase::Idle || to
            == Phase::Playing,
        Phase::Playing => true,
    }
}

impl Phase {
    /// The six phases, in the order of their bytes.
    pub fn all() -> (r: [Phase; 6])
        ensures
            r@.len() == 6,
            forall|i: int| 0 <= i < 6 ==> byte_of(#[trigger] r@[i]) == i,
    {
        [Phase::Idle, Phase::Armed, Phase::First, Phase::Overdub, Phase::Playing, Phase::Multiply]
    }

    /// The phase a byte names.
    pub fn from_u8(v: u8) -> (r: Phase)
        ensures
            r == phase_of(v),
    {
        match v {
            1 => Phase::Armed,
            2 => Phase::First,
            3 => Phase::Overdub,
            4 => Phase::Playing,
            5 => Phase::Multiply,
            _ => Phase::Idle,
        }
    }

    /// The byte a phase is carried as.
    pub fn as_u8(self) -> (r: u8)
        ensures
            r == byte_of(self),
    {
        match self {
            Phase::Idle => 0,
            Phase::Armed => 1,
            Phase::First => 2,
            Phase::Overdub => 3,
            Phase::Playing => 4,
            Phase::Multiply => 5,
        }
    }

    /// The word a phase goes by on the wire.
    pub fn wire_word(self) -> (r: &'static str)
        ensures
            r@ == word_of(self),
    {
        match self {
            Phase::Idle => "idle",
            Phase::Armed => "armed",
            Phase::First => "recordingFirst",
            Phase::Overdub => "overdubbing",
            Phase::Playing => "playing",
            Phase::Multiply => "multiplying",
        }
    }
}

/// The row of the table that holds a move, and one past the end where none
/// does.
spec fn row(from: Phase, to: Phase) -> int {
    match (from, to) {
        (Phase::Idle, Phase::Idle) => 0,
        (Phase::Idle, Phase::Armed) => 1,
        (Phase::Idle, Phase::First) => 2,
        (Phase::Idle, Phase::Playing) => 3,
        (Phase::Idle, Phase::Multiply) => 4,
        (Phase::Armed, Phase::Idle) => 5,
        (Phase::Armed, Phase::First) => 6,
        (Phase::Armed, Phase::Overdub) => 7,
        (Phase::Armed, Phase::Playing) => 8,
        (Phase::First, Phase::Idle) => 9,
        (Phase::First, Phase::Playing) => 10,
        (Phase::Overdub, Phase::Idle) => 11,
        (Phase::Overdub, Phase::Playing) => 12,
        (Phase::Playing, Phase::Idle) => 13,
        (Phase::Playing, Phase::Armed) => 14,
        (Phase::Playing, Phase::First) => 15,
        (Phase::Playing, Phase::Overdub) => 16,
        (Phase::Playing, Phase::Playing) => 17,
        (Phase::Playing, Phase::Multiply) => 18,
        (Phase::Multiply, Phase::Idle) => 19,
        (Phase::Multiply, Phase::Playing) => 20,
        _ => 21,
    }
}

/// Every move a loop may make, each once.
pub fn legal_moves() -> (r: Vec<(Phase, Phase)>)
    ensures
        forall|from: Phase, to: Phase| #[trigger] r@.contains((from, to)) <==> may_go(from, to),
        r@.no_duplicates(),
{
    let r: Vec<(Phase, Phase)> = vec![
        (Phase::Idle, Phase::Idle),
        (Phase::Idle, Phase::Armed),
        (Phase::Idle, Phase::First),
        (Phase::Idle, Phase::Playing),
        (Phase::Idle, Phase::Multiply),
        (Phase::Armed, Phase::Idle),
        (Phase::Armed, Phase::First),
        (Phase::Armed, Phase::Overdub),
        (Phase::Armed, Phase::Playing),
        (Phase::First, Phase::Idle),
        (Phase::First, Phase::Playing),
        (Phase::Overdub, Phase::Idle),
        (Phase::Overdub, Phase::Playing),
        (Phase::Playing, Phase::Idle),
        (Phase::Playing, Phase::Armed),
        (Phase::Playing, Phase::First),
        (Phase::Playing, Phase::Overdub),
        (Phase::Playing, Phase::Playing),
        (Phase::Playing, Phase::Multiply),
        (Phase::Multiply, Phase::Idle),
        (Phase::Multiply, Phase::Playing),
    ];
    proof {
        assert(r@.len() == 21);
        assert forall|k: int| 0 <= k < 21 implies may_go((#[trigger] r@[k]).0, r@[k].1) && row(
            r@[k].0,
            r@[k].1,
        ) == k by {}
        assert forall|from: Phase, to: Phase| may_go(from, to) implies #[trigger] r@.contains(
            (from, to),
        ) by {
            let k = row(from, to);
            assert(0 <= k < 21);
            assert(r@[k] == (from, to));
        }
        assert forall|from: Phase, to: Phase| #[trigger] r@.contains((from, to)) implies may_go(
            from,
            to,
        ) by {
            let k = choose|k: int| 0 <= k < r@.len() && r@[k] == (from, to);
            assert(may_go(r@[k].0, r@[k].1));
        }
    }
    r
}

/// Two phases with one byte are one phase.
pub proof fn same_byte_same_phase(a: Phase, b: Phase)
    ensures
        byte_of(a) == byte_of(b) ==> a == b,
{
}

/// Whether a loop may go from one phase to another.
pub fn legal(from: Phase, to: Phase) -> (r: bool)
    ensures
        r == may_go(from, to),
{
    match from {
        Phase::Idle => to != Phase::Overdub,
        Phase::Armed => to != Phase::Armed && to != Phase::Multiply,
        Phase::First | Phase::Overdub | Phase::Multiply => to == Phase::Idle || to
            == Phase::Playing,
        Phase::Playing => true,
    }
}

/// Which bit of the log a move is noted under, so that each is told once.
pub fn move_bit(from: Phase, to: Phase) -> (r: u32)
    ensures
        r == byte_of(from) * 6 + byte_of(to),
        r < 36,
{
    from.as_u8() as u32 * 6 + to.as_u8() as u32
}

/// A phase carried as its byte comes back as itself.
pub proof fn a_byte_brings_its_phase_back(p: Phase)
    ensures
        phase_of(byte_of(p)) == p,
{
}

/// Only idle and playing may be entered from themselves.
pub proof fn only_idle_and_playing_re_enter(p: Phase)
    ensures
        may_go(p, p) <==> (p == Phase::Idle || p == Phase::Playing),
{
}

/// Whatever a loop is doing, it may stop or go on to play what it has.
pub proof fn every_phase_ends_idle_or_playing(p: Phase)
    ensures
        may_go(p, Phase::Idle),
        may_go(p, Phase::Playing),
{
}

/// Two moves are noted under one bit only where they are one move.
pub proof fn each_move_has_its_own_bit(a: Phase, b: Phase, c: Phase, d: Phase)
    requires
        byte_of(a) * 6 + byte_of(b) == byte_of(c) * 6 + byte_of(d),
    ensures
        a == c,
        b == d,
{
}

/// A take ends before anything else begins: what records goes idle or plays,
/// and nothing else. What waits for a sound begins a take, or is taken back;
/// and an overdub needs something to play over, so that it never follows on
/// idle.
pub proof fn a_take_ends_before_another_begins(to: Phase)
    ensures
        may_go(Phase::First, to) <==> to == Phase::Idle || to == Phase::Playing,
        may_go(Phase::Overdub, to) <==> to == Phase::Idle || to == Phase::Playing,
        may_go(Phase::Multiply, to) <==> to == Phase::Idle || to == Phase::Playing,
        may_go(Phase::Armed, to) <==> to == Phase::Idle || to == Phase::Playing || to
            == Phase::First || to == Phase::Overdub,
        may_go(Phase::Idle, to) <==> to != Phase::Overdub,
        may_go(Phase::Playing, to),
{
}

} // verus!
