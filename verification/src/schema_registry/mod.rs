//! A registry of schemas that knows who uses which version.

pub mod compat;
pub mod deployment;
pub mod migration;
pub mod model;
pub mod protobuf;
pub mod registry;
