//! The plan for the next recording, and the move that starts it.

use vstd::prelude::*;

verus! {

/// No frame at all.
pub const NEVER: i64 = i64::MIN;

/// A recording is asked for.
pub const ARMED: u8 = 1;

/// The loop is to play.
pub const PLAYING: u8 = 4;

/// A one-shot is to fire.
pub const FIRE: u8 = 6;

/// What has been asked of a loop and not done yet.
#[derive(Clone, Copy, Debug, PartialEq, Eq, Structural)]
pub struct NextTake {
    /// What is asked for, or zero for nothing.
    pub request: u8,
    /// The output frame it takes effect on, or `NEVER` for the next buffer.
    pub request_at: i64,
    /// The next overdub closes itself one loop length on.
    pub one_pass: bool,
    /// The output frame the take is dated back to, or `NEVER`.
    pub arm_from: i64,
}

/// A plan that has come due, as it was when it was taken.
#[derive(Clone, Copy, Debug, PartialEq, Eq, Structural)]
pub struct Taken {
    /// What was asked for.
    pub phase: u8,
    /// The frame it was asked for, or `NEVER` for now.
    pub at: i64,
    /// Whether the overdub this starts closes itself.
    pub one_pass: bool,
    /// The frame the take is dated back to, or `NEVER`.
    pub arm_from: i64,
}

impl NextTake {
    /// No plan: nothing asked for, no frame, no back-date, not one pass.
    pub open spec fn empty(self) -> bool {
        self == (NextTake { request: 0, request_at: NEVER, one_pass: false, arm_from: NEVER })
    }

    /// Whether something is asked for that falls due before `before`.
    pub open spec fn due(self, before: i64) -> bool {
        self.request != 0 && (self.request_at == NEVER || self.request_at < before)
    }

    /// Whether a recording is asked for at a frame still to come.
    pub open spec fn waits(self) -> bool {
        self.request == ARMED && self.request_at != NEVER
    }

    /// What is handed over when the plan is taken.
    pub open spec fn handed(self) -> Taken {
        Taken {
            phase: self.request,
            at: self.request_at,
            one_pass: self.request == ARMED && self.one_pass,
            arm_from: if self.request == ARMED {
                self.arm_from
            } else {
                NEVER
            },
        }
    }

    /// What is left when the plan has been taken. A take goes with its
    /// qualifiers; anything else leaves them for the take they describe.
    pub open spec fn left(self) -> NextTake {
        if self.request == ARMED {
            NextTake { request: 0, request_at: NEVER, one_pass: false, arm_from: NEVER }
        } else {
            NextTake { request: 0, request_at: NEVER, ..self }
        }
    }

    pub fn new() -> (r: NextTake)
        ensures
            r.empty(),
    {
        NextTake { request: 0, request_at: NEVER, one_pass: false, arm_from: NEVER }
    }

    /// Ask for `phase` at output frame `at`, or on the next buffer for
    /// `NEVER`.
    pub fn set(&mut self, phase: u8, at: i64)
        ensures
            *final(self) == (NextTake { request: phase, request_at: at, ..*old(self) }),
    {
        self.request_at = at;
        self.request = phase;
    }

    /// Ask for a recording at `at`, dated back to `from`.
    pub fn set_from(&mut self, at: i64, from: i64)
        ensures
            *final(self) == (NextTake {
                request: ARMED,
                request_at: at,
                arm_from: from,
                ..*old(self)
            }),
    {
        self.arm_from = from;
        self.request_at = at;
        self.request = ARMED;
    }

    /// Wait for a sound: no frame and no back-date until it is heard.
    pub fn listen(&mut self)
        ensures
            *final(self) == (NextTake { request_at: NEVER, arm_from: NEVER, ..*old(self) }),
    {
        self.arm_from = NEVER;
        self.request_at = NEVER;
    }

    /// The next overdub closes itself one loop length on.
    pub fn plan_one_pass(&mut self)
        ensures
            *final(self) == (NextTake { one_pass: true, ..*old(self) }),
    {
        self.one_pass = true;
    }

    pub fn is_one_pass(&self) -> (r: bool)
        ensures
            r == self.one_pass,
    {
        self.one_pass
    }

    /// Whether something is waiting to be done.
    pub fn is_pending(&self) -> (r: bool)
        ensures
            r == (self.request != 0),
    {
        self.request != 0
    }

    /// Whether there is no plan at all.
    pub fn is_empty(&self) -> (r: bool)
        ensures
            r == self.empty(),
    {
        self.request == 0 && self.request_at == NEVER && !self.one_pass && self.arm_from == NEVER
    }

    /// Whether a recording is waiting for a frame still to come.
    pub fn waits_for_boundary(&self) -> (r: bool)
        ensures
            r == self.waits(),
    {
        self.request == ARMED && self.request_at != NEVER
    }

    /// Frames until what is pending happens, or `-1` where nothing is
    /// pending or it has no frame.
    pub fn due_in(&self, now: i64) -> (r: i64)
        requires
            self.request_at - now <= i64::MAX,
        ensures
            r == (if self.request == 0 || self.request_at == NEVER {
                -1int
            } else if self.request_at < now {
                0
            } else {
                self.request_at - now
            }),
    {
        if self.request == 0 || self.request_at == NEVER {
            -1
        } else if self.request_at < now {
            0
        } else {
            self.request_at - now
        }
    }

    /// Take what is pending, where it falls due before `before`.
    pub fn take(&mut self, before: i64) -> (r: Option<Taken>)
        ensures
            old(self).due(before) ==> r == Some(old(self).handed()) && *final(self)
                == old(self).left(),
            !old(self).due(before) ==> r is None && *final(self) == *old(self),
    {
        let phase: u8 = self.request;
        if phase == 0 {
            return None;
        }
        let at: i64 = self.request_at;
        if at != NEVER && at >= before {
            return None;
        }
        self.request = 0;
        self.request_at = NEVER;
        if phase == ARMED {
            let one_pass = self.one_pass;
            let arm_from: i64 = self.arm_from;
            self.one_pass = false;
            self.arm_from = NEVER;
            Some(Taken { phase, at, one_pass, arm_from })
        } else {
            Some(Taken { phase, at, one_pass: false, arm_from: NEVER })
        }
    }

    /// Abandon the plan.
    pub fn clear(&mut self)
        ensures
            final(self).empty(),
    {
        self.request = 0;
        self.request_at = NEVER;
        self.one_pass = false;
        self.arm_from = NEVER;
    }
}

/// A take that is taken leaves no plan behind it.
pub proof fn a_take_leaves_no_plan(n: NextTake)
    requires
        n.request == ARMED,
    ensures
        n.left().empty(),
{
}

/// What is taken once is not there to be taken again.
pub proof fn a_plan_is_taken_once(n: NextTake, before: i64, later: i64)
    requires
        n.due(before),
    ensures
        !n.left().due(later),
{
}

/// A move that is not a take leaves a planned one pass and its back-date
/// standing.
pub proof fn a_passing_move_keeps_the_plan(n: NextTake)
    requires
        n.request != ARMED,
    ensures
        n.left().one_pass == n.one_pass,
        n.left().arm_from == n.arm_from,
        !n.handed().one_pass,
        n.handed().arm_from == NEVER,
{
}

/// What is asked for at a frame is not due before that frame and is due on
/// every buffer that ends past it.
pub proof fn a_request_waits_for_its_frame(n: NextTake, at: i64, before: i64)
    requires
        n.request != 0,
        n.request_at == at,
        at != NEVER,
    ensures
        n.due(before) <==> at < before,
{
}

/// A take is handed all that was planned for it: the frame it was asked for,
/// whether it is one pass, and the frame it is dated back to. A move that is no
/// take is handed its frame alone.
pub proof fn a_take_is_handed_its_plan(n: NextTake)
    ensures
        n.handed().phase == n.request,
        n.handed().at == n.request_at,
        n.request == ARMED ==> n.handed().one_pass == n.one_pass && n.handed().arm_from
            == n.arm_from,
        n.request != ARMED ==> !n.handed().one_pass && n.handed().arm_from == NEVER,
        n.request != ARMED ==> n.left().one_pass == n.one_pass && n.left().arm_from == n.arm_from,
{
}

} // verus!
