//! The board: its pin map and the bring-up failures the firmware reports.

pub mod error;
pub mod pins;
