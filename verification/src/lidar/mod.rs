//! Streaming RPLIDAR handling for the car: the request frames it sends, a
//! byte-at-a-time pump for the response stream, and the assembler that
//! groups scan nodes into whole rotations.

pub mod commands;
pub mod frame;
pub mod pump;
