//! What the operator still does while parts of the control plane are out.
//!
//! Probes look at etcd, cluster DNS, the admission webhooks and the scheduler,
//! each on its own. A tracker makes a level of what they find, and a gate
//! withholds the actions that the level does not permit, so that a degraded
//! control plane never makes the operator restart or move serving pods.

pub mod gate;
pub mod tracker;
pub mod monitor;
pub mod probes;
