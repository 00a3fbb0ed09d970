//! Differential-drive control: command frames, watchdog, E-stop latch, duty
//! governor, slew limiter, L298N channel model.

pub mod cmdvel;
pub mod controller;
pub mod governor;
pub mod kinematics;
pub mod l298n;
pub mod motors;
pub mod slew;
pub mod text;
