//! Incidents, and how they are found.

pub mod partition_detector;
