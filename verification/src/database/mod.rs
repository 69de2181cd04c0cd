//! The databases of the nodes.

pub mod cnpg;
