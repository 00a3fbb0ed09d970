//! The car firmware's decisions: its configuration, the state every task
//! reports into, how control commands are routed, and what each periodic
//! task does with what it observed. The I/O loops that feed these live
//! around the library.

pub mod config;
pub mod secrets;
pub mod control;
pub mod shared;
pub mod tasks;
