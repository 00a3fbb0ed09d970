//! Board bring-up failure.
use vstd::prelude::*;

verus! {

/// Board bring-up failure.
#[derive(Debug, Clone, Copy, PartialEq, Eq, Structural)]
#[non_exhaustive]
pub enum BoardError {
    /// LEDC timer/channel configuration was rejected.
    Pwm,
    /// The lidar UART configuration was rejected.
    LidarUart,
}

impl BoardError {
    /// Human-readable reason.
    pub fn message(&self) -> (m: &'static str)
        ensures
            *self == BoardError::Pwm ==> m@ == "LEDC PWM configuration rejected — check MOTOR_PWM_HZ"@,
            *self == BoardError::LidarUart ==> m@ == "lidar UART configuration rejected — check LIDAR_BAUD"@,
    {
        match self {
            BoardError::Pwm => "LEDC PWM configuration rejected — check MOTOR_PWM_HZ",
            BoardError::LidarUart => "lidar UART configuration rejected — check LIDAR_BAUD",
        }
    }
}

} // verus!
