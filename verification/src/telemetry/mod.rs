//! Telemetry that gives away nothing private.

pub mod privacy;
pub mod proxy;
pub mod scrub;
