//! L298N dual H-bridge, one channel per motor, as the pin levels and duty it
//! commands.
//!
//! Truth table per motor (from the L298N datasheet):
//!
//! | IN1 | IN2 | EN  | state                       |
//! |-----|-----|-----|-----------------------------|
//! | 1   | 0   | PWM | forward, speed ∝ duty       |
//! | 0   | 1   | PWM | reverse, speed ∝ duty       |
//! | 0   | 0   | x   | coast                       |
//! | 1   | 1   | x   | brake (both terminals tied) |
//!
//! The channel keeps the levels it commands; the code that owns the GPIOs
//! writes them out.
use vstd::prelude::*;
use crate::drive::cmdvel::clamp_speed;

verus! {

/// Driver failure: one of the underlying pins failed.
///
/// `PinE` is the direction pins' error type, `PwmE` the enable pin's.
#[derive(Debug, Clone, Copy, PartialEq, Eq)]
pub enum Error<PinE, PwmE> {
    /// A direction pin (IN1/IN2) could not be set.
    Pin(PinE),
    /// The PWM duty cycle could not be set on the enable pin.
    Pwm(PwmE),
}

/// The levels one channel drives: IN1, IN2, and the EN duty out of `max_duty`.
pub struct MotorModel {
    pub in1_high: bool,
    pub in2_high: bool,
    pub duty: u16,
    pub max_duty: u16,
}

/// The channel after `drive(speed)`: direction pins from the sign of the
/// clamped speed, duty `|speed| / 1000` of full scale, rounded down.
pub open spec fn driven(m: MotorModel, speed: int) -> MotorModel {
    let s = clamp_speed(speed);
    let magnitude = if s < 0 { -s } else { s };
    MotorModel {
        in1_high: s > 0,
        in2_high: s < 0,
        duty: (magnitude * m.max_duty / 1000) as u16,
        max_duty: m.max_duty,
    }
}

/// The channel after `brake()`: both direction pins high, duty full.
pub open spec fn braked(m: MotorModel) -> MotorModel {
    MotorModel { in1_high: true, in2_high: true, duty: m.max_duty, max_duty: m.max_duty }
}

/// One side of the L298N: IN1/IN2 direction levels + EN PWM duty.
#[derive(Debug, Clone, Copy, PartialEq, Eq)]
pub struct Motor {
    in1_high: bool,
    in2_high: bool,
    duty: u16,
    max_duty: u16,
}

impl View for Motor {
    type V = MotorModel;

    closed spec fn view(&self) -> MotorModel {
        MotorModel { in1_high: self.in1_high, in2_high: self.in2_high, duty: self.duty, max_duty: self.max_duty }
    }
}

impl Motor {
    /// A channel whose enable pin counts duty up to `max_duty` (the PWM's
    /// `max_duty_cycle`). Both direction pins start low, duty zero.
    pub fn new(max_duty: u16) -> (m: Motor)
        ensures
            m@ == (MotorModel { in1_high: false, in2_high: false, duty: 0, max_duty }),
    {
        Motor { in1_high: false, in2_high: false, duty: 0, max_duty }
    }

    /// Set speed as signed per-mille of full duty, `-1000..=1000`; `0`
    /// coasts, values outside the range are clamped.
    pub fn drive(&mut self, speed_permille: i16)
        ensures
            final(self)@ == driven(old(self)@, speed_permille as int),
    {
        let speed: i16 = if speed_permille < -1000 {
            -1000
        } else if speed_permille > 1000 {
            1000
        } else {
            speed_permille
        };
        if speed > 0 {
            self.in1_high = true;
            self.in2_high = false;
        } else if speed < 0 {
            self.in1_high = false;
            self.in2_high = true;
        } else {
            self.in1_high = false;
            self.in2_high = false;
        }
        let magnitude: u32 = if speed < 0 { (0 - speed) as u32 } else { speed as u32 };
        assert(magnitude * self.max_duty as u32 <= 1000 * 65535) by (nonlinear_arith)
            requires
                magnitude <= 1000,
                self.max_duty <= 65535,
        ;
        assert(magnitude * self.max_duty as u32 / 1000 <= self.max_duty) by (nonlinear_arith)
            requires
                magnitude <= 1000,
        ;
        self.duty = (magnitude * self.max_duty as u32 / 1000) as u16;
    }

    /// Let the motor spin freely (IN1=IN2=low, duty 0).
    pub fn coast(&mut self)
        ensures
            final(self)@ == driven(old(self)@, 0),
    {
        self.drive(0)
    }

    /// Actively brake (IN1=IN2=high, duty full).
    pub fn brake(&mut self)
        ensures
            final(self)@ == braked(old(self)@),
    {
        self.in1_high = true;
        self.in2_high = true;
        self.duty = self.max_duty;
    }

    /// Release the channel, returning its IN1, IN2 levels and EN duty.
    pub fn release(self) -> (r: (bool, bool, u16))
        ensures
            r == (self@.in1_high, self@.in2_high, self@.duty),
    {
        (self.in1_high, self.in2_high, self.duty)
    }

    /// Level of IN1.
    pub fn in1_high(&self) -> (b: bool)
        ensures
            b == self@.in1_high,
    {
        self.in1_high
    }

    /// Level of IN2.
    pub fn in2_high(&self) -> (b: bool)
        ensures
            b == self@.in2_high,
    {
        self.in2_high
    }

    /// Duty on EN.
    pub fn duty(&self) -> (d: u16)
        ensures
            d == self@.duty,
    {
        self.duty
    }

    /// Full-scale duty of EN.
    pub fn max_duty(&self) -> (d: u16)
        ensures
            d == self@.max_duty,
    {
        self.max_duty
    }
}

/// Both channels of an L298N as a differential pair (left + right motor).
#[derive(Debug, Clone, Copy, PartialEq, Eq)]
pub struct L298n {
    /// Left motor channel (ENB/IN3/IN4 on the common breakout).
    pub left: Motor,
    /// Right motor channel (ENA/IN1/IN2 on the common breakout).
    pub right: Motor,
}

impl L298n {
    /// Pair two motor channels.
    pub fn new(left: Motor, right: Motor) -> (p: L298n)
        ensures
            p.left == left,
            p.right == right,
    {
        L298n { left, right }
    }

    /// Drive both sides, per-mille `-1000..=1000` each.
    pub fn drive(&mut self, left_permille: i16, right_permille: i16)
        ensures
            final(self).left@ == driven(old(self).left@, left_permille as int),
            final(self).right@ == driven(old(self).right@, right_permille as int),
    {
        self.left.drive(left_permille);
        self.right.drive(right_permille);
    }

    /// Coast both sides.
    pub fn stop(&mut self)
        ensures
            final(self).left@ == driven(old(self).left@, 0),
            final(self).right@ == driven(old(self).right@, 0),
    {
        self.drive(0, 0)
    }
}

/// The truth table: forward drives IN1 only, reverse IN2 only, zero coasts
/// with no duty, braking ties both pins high at full duty; the duty never
/// exceeds full scale and is full scale at `|speed| >= 1000`.
pub proof fn lemma_truth_table(m: MotorModel, speed: int)
    ensures
        speed > 0 ==> driven(m, speed).in1_high && !driven(m, speed).in2_high,
        speed < 0 ==> !driven(m, speed).in1_high && driven(m, speed).in2_high,
        speed == 0 ==> !driven(m, speed).in1_high && !driven(m, speed).in2_high && driven(m, speed).duty
            == 0,
        driven(m, speed).duty <= m.max_duty,
        (speed >= 1000 || speed <= -1000) ==> driven(m, speed).duty == m.max_duty,
        braked(m).in1_high && braked(m).in2_high && braked(m).duty == m.max_duty,
{
    let s = clamp_speed(speed);
    let magnitude = if s < 0 { -s } else { s };
    assert(magnitude * m.max_duty / 1000 <= m.max_duty) by (nonlinear_arith)
        requires
            0 <= magnitude <= 1000,
            m.max_duty >= 0,
    ;
    assert(0 <= magnitude * m.max_duty / 1000) by (nonlinear_arith)
        requires
            0 <= magnitude,
            m.max_duty >= 0,
    ;
    if magnitude == 1000 {
        assert(1000 * m.max_duty / 1000 == m.max_duty) by (nonlinear_arith);
    }
}

} // verus!
