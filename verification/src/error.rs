//! The errors of the operator.

use vstd::prelude::*;

verus! {

/// What can go wrong in the operator's own logic.
#[derive(Debug)]
pub enum Error {
    /// A resource does not meet the rules of its kind.
    ValidationError(String),
    /// A step of a validation failed.
    ValidationStep { step: String, message: String },
    /// A configuration cannot be used.
    ConfigError(String),
}

} // verus!
