//! Slew-rate limiter: each side changes by at most `max_step` per tick.
use vstd::prelude::*;
use crate::drive::cmdvel::DriveCommand;

verus! {

/// One side moved one tick from `now` towards `want` by at most `step`
/// (`step == 0` jumps straight to `want`).
pub open spec fn approach(now: int, want: int, step: int) -> int {
    if step == 0 {
        want
    } else if want - now > step {
        now + step
    } else if now - want > step {
        now - step
    } else {
        want
    }
}

/// The slew limiter's abstract state.
pub struct SlewModel {
    /// Largest change per tick, per-mille (0: no ramping).
    pub max_step: i16,
    /// The value last applied.
    pub current: DriveCommand,
}

/// One tick of the limiter towards `target`: the new current value.
pub open spec fn slew_step(s: SlewModel, target: DriveCommand) -> DriveCommand {
    DriveCommand {
        left: approach(s.current.left as int, target.left as int, s.max_step as int) as i16,
        right: approach(s.current.right as int, target.right as int, s.max_step as int) as i16,
    }
}

/// The step a limiter built with `max_step_permille` uses.
pub open spec fn step_size(max_step_permille: int) -> int {
    if max_step_permille == i16::MIN { i16::MAX as int } else if max_step_permille < 0 {
        -max_step_permille
    } else {
        max_step_permille
    }
}

/// Limits how much each side may change per tick.
#[derive(Debug, Clone, Copy, PartialEq, Eq)]
pub struct Slew {
    max_step: i16,
    current: DriveCommand,
}

impl View for Slew {
    type V = SlewModel;

    closed spec fn view(&self) -> SlewModel {
        SlewModel { max_step: self.max_step, current: self.current }
    }
}

impl Slew {
    #[verifier::type_invariant]
    spec fn step_nonneg(self) -> bool {
        self.max_step >= 0
    }

    /// Allow at most `|max_step_permille|` of change per step; `0` disables
    /// ramping (every step jumps straight to the target).
    pub fn new(max_step_permille: i16) -> (s: Slew)
        ensures
            s@ == (SlewModel {
                max_step: step_size(max_step_permille as int) as i16,
                current: DriveCommand { left: 0, right: 0 },
            }),
            s@.max_step >= 0,
    {
        let max_step = if max_step_permille == i16::MIN {
            i16::MAX
        } else if max_step_permille < 0 {
            -max_step_permille
        } else {
            max_step_permille
        };
        Slew { max_step, current: DriveCommand { left: 0, right: 0 } }
    }

    /// Move one tick towards `target`; returns the value to apply now.
    pub fn step(&mut self, target: DriveCommand) -> (out: DriveCommand)
        ensures
            out == slew_step(old(self)@, target),
            final(self)@ == (SlewModel { max_step: old(self)@.max_step, current: out }),
            old(self)@.max_step >= 0,
    {
        proof {
            use_type_invariant(&*self);
        }
        if self.max_step == 0 {
            self.current = target;
            return target;
        }
        let left = approach_one(self.current.left, target.left, self.max_step);
        let right = approach_one(self.current.right, target.right, self.max_step);
        self.current = DriveCommand { left, right };
        self.current
    }

    /// Jump to `value` immediately (after a brake, so the ramp does not
    /// resume from a stale speed).
    pub fn reset_to(&mut self, value: DriveCommand)
        ensures
            final(self)@ == (SlewModel { max_step: old(self)@.max_step, current: value }),
            old(self)@.max_step >= 0,
    {
        proof {
            use_type_invariant(&*self);
        }
        self.current = value;
    }

    /// The value last applied.
    pub fn current(&self) -> (c: DriveCommand)
        ensures
            c == self@.current,
    {
        self.current
    }
}

fn approach_one(now: i16, want: i16, step: i16) -> (r: i16)
    requires
        step > 0,
    ensures
        r == approach(now as int, want as int, step as int),
{
    let delta = want as i32 - now as i32;
    if delta > step as i32 {
        (now as i32 + step as i32) as i16
    } else if delta < -(step as i32) {
        (now as i32 - step as i32) as i16
    } else {
        want
    }
}

/// Each tick moves each side by at most the step, towards the target, never
/// past it, and lands on it once it is within one step.
pub proof fn lemma_slew_bounded(s: SlewModel, target: DriveCommand)
    requires
        s.max_step >= 0,
    ensures
        s.max_step > 0 ==> {
            &&& -s.max_step <= slew_step(s, target).left - s.current.left <= s.max_step
            &&& -s.max_step <= slew_step(s, target).right - s.current.right <= s.max_step
        },
        (s.current.left <= slew_step(s, target).left <= target.left) || (target.left <= slew_step(
            s,
            target,
        ).left <= s.current.left),
        (s.current.right <= slew_step(s, target).right <= target.right) || (target.right
            <= slew_step(s, target).right <= s.current.right),
        s.max_step == 0 ==> slew_step(s, target) == target,
        (-s.max_step <= target.left - s.current.left <= s.max_step && -s.max_step <= target.right
            - s.current.right <= s.max_step) ==> slew_step(s, target) == target,
{
}

} // verus!
