//! Errors raised while building or validating domain values.

use vstd::prelude::*;

verus! {

/// Validation errors of the domain types.
#[derive(Debug, Clone, PartialEq, Eq)]
pub enum Error {
    /// An identifier that is not in the expected shape.
    InvalidId { id: String, reason: &'static str },
    /// A tick interval below the minimum.
    InvalidTickInterval { ms: u64 },
    /// A label key outside the accepted alphabet or length.
    InvalidLabelKey { key: String, reason: &'static str },
    /// A label selector that is not a list of `key=value` clauses.
    InvalidLabelSelector { selector: String, reason: &'static str },
    /// A program made only of whitespace.
    EmptyProgram,
    /// A schedule variant that has no runtime implementation yet.
    ScheduleNotYetImplemented { variant: &'static str, detail: String },
}

} // verus!
