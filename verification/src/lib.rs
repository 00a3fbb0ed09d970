//! Verified control, sensing and wire-format logic for the Olivaw car.

pub mod battery;
pub mod board;
pub mod car;
pub mod drive;
pub mod lidar;
pub mod proto;
