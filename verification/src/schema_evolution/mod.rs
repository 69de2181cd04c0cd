//! Conversion of resources from one version of their schema to another.
//!
//! A graph of migrations says how the fields of one version become those of
//! another. A conversion that the graph does not know is refused, and every
//! conversion is kept on record.

pub mod audit;
pub mod convert;
pub mod fields;
