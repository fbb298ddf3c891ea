//! Error values of the signal-level operations.

use vstd::prelude::*;
use vstd::string::StringExecFns;

verus! {

/// Failure of a first-order difference.
#[derive(Debug, Clone)]
pub enum DiffError {
    /// The input holds fewer than two samples.
    ShortLength,
}

impl DiffError {
    /// The text shown for this error.
    pub fn message(&self) -> (text: String)
        ensures
            text@ == "Function 'diff' requires the wrapper length to be at least 2"@,
    {
        match self {
            DiffError::ShortLength => String::from_str(
                "Function 'diff' requires the wrapper length to be at least 2",
            ),
        }
    }
}

/// Failure of a padding operation.
#[derive(Debug, Clone)]
pub enum PadError {
    /// The input holds no samples.
    EmptyInput,
    /// Any other failure, with its description.
    UnknownError(String),
}

} // verus!
