//! What the operator makes of a node.

pub mod context;
pub mod resources;
pub mod validator_scoring;
