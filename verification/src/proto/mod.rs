//! Wire types shared by every Olivaw component: control opcodes, telemetry
//! frames, link states, lidar scan frames and MQTT topics.

pub mod control;
pub mod error;
pub mod scan_frame;
pub mod status;
pub mod telemetry;
pub mod topics;
