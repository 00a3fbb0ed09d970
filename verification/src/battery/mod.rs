//! Battery sensing maths: ADC model, divider, state of charge, monitor.

pub mod curve;
pub mod divider;
pub mod model;
pub mod monitor;
