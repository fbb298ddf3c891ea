//! The sample container, the model of its operations and their laws, and the
//! errors of its operations.

use vstd::prelude::*;
use vstd::string::StringExecFns;

pub mod arithmetic;
pub mod base;
pub mod laws;
pub mod model;
pub mod order;
pub mod statistics;

verus! {

/// Errors that can occur during basic operations on a `SignalBase`.
#[derive(Debug, Clone, PartialEq, Eq)]
pub enum BaseOperationError {
    /// The signal holds fewer than two samples, so it has no difference.
    DiffShortLength,
    /// The two signals of an elementwise operation differ in length.
    ShapeMismatch,
}

impl BaseOperationError {
    /// The text shown for this error.
    pub fn message(&self) -> (text: String)
        ensures
            text@ == match *self {
                BaseOperationError::DiffShortLength =>
                    "Signal length is too short for differentiation"@,
                BaseOperationError::ShapeMismatch => "Signal lengths differ"@,
            },
    {
        match self {
            BaseOperationError::DiffShortLength => String::from_str(
                "Signal length is too short for differentiation",
            ),
            BaseOperationError::ShapeMismatch => String::from_str("Signal lengths differ"),
        }
    }
}

/// Errors that can occur in the search for the smallest or the largest sample
/// of a `SignalBase`.
#[derive(Debug, Clone, PartialEq, Eq)]
pub enum MinMaxError {
    /// The signal holds no samples.
    EmptyInput,
    /// The order of two samples that the search compared is undefined.
    UndefinedOrder,
}

impl MinMaxError {
    /// The text shown for this error.
    pub fn message(&self) -> (text: String)
        ensures
            text@ == match *self {
                MinMaxError::EmptyInput => "Empty input."@,
                MinMaxError::UndefinedOrder =>
                    "Undefined ordering between a tested pair of values."@,
            },
    {
        match self {
            MinMaxError::EmptyInput => String::from_str("Empty input."),
            MinMaxError::UndefinedOrder => String::from_str(
                "Undefined ordering between a tested pair of values.",
            ),
        }
    }
}

/// Errors that can occur during padding operations on a `SignalBase`.
#[derive(Debug, Clone, PartialEq)]
pub enum PadError {
    /// The pieces of the padded signal could not be joined.
    ConcatenationError(String),
    /// The padded signal would be longer than the largest signed index.
    ResultOutOfBounds,
    /// Any other failure, with its description.
    Other(String),
}

impl PadError {
    /// The text shown for this error: for the two errors that carry a
    /// description, a heading followed by that description.
    pub fn message(&self) -> (text: String)
        ensures
            text@ == match *self {
                PadError::ConcatenationError(detail) => "Concatenation error: "@ + detail@,
                PadError::ResultOutOfBounds => "Padding result out of bounds"@,
                PadError::Other(detail) => "Other error: "@ + detail@,
            },
    {
        match self {
            PadError::ConcatenationError(detail) => String::from_str(
                "Concatenation error: ",
            ).concat(detail.as_str()),
            PadError::ResultOutOfBounds => String::from_str("Padding result out of bounds"),
            PadError::Other(detail) => String::from_str("Other error: ").concat(detail.as_str()),
        }
    }
}

} // verus!
