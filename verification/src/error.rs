//! Error taxonomy of the core.
//!
//! Every error is unrecoverable at its point of detection: the guest
//! execution is a one-shot deterministic computation, so a stage that fails
//! aborts the run before any further commitment is appended.

use vstd::prelude::*;
use vstd::string::*;

verus! {

/// Errors raised while acquiring raw input for the guest.
#[derive(Debug, Clone, PartialEq, Eq)]
pub enum MyError {
    ParseError(String),
    IoError(String),
}

impl MyError {
    /// A human-readable description of the error.
    pub fn message(&self) -> (r: String)
        ensures
            self matches MyError::ParseError(m) ==> r@ == "Parse error: "@ + m@,
            self matches MyError::IoError(m) ==> r@ == "IO error: "@ + m@,
    {
        match self {
            MyError::ParseError(m) => {
                let mut s = String::from_str("Parse error: ");
                s.append(m.as_str());
                s
            }
            MyError::IoError(m) => {
                let mut s = String::from_str("IO error: ");
                s.append(m.as_str());
                s
            }
        }
    }
}

/// Malformed or mismatched matrix and vector dimensions.
#[derive(Debug, Clone, Copy, PartialEq, Eq, Structural)]
pub enum ShapeError {
    /// The outer sequence of the nested input holds no rows.
    EmptyMatrix,
    /// The first row of the nested input holds no columns.
    EmptyRow,
    /// Some row's length differs from the first row's length.
    RaggedRow,
    /// A model's coefficient count does not match the (possibly
    /// polynomially expanded) feature count.
    CoefficientCountMismatch,
}

/// Transform-stage misconfiguration.
#[derive(Debug, Clone, Copy, PartialEq, Eq, Structural)]
pub enum ConfigError {
    /// A non-identity method was requested without fitted statistics.
    MissingFittedParams,
    /// Fitted statistics were supplied but their per-column length does not
    /// match the matrix width.
    FittedParamsMismatch,
    /// The method is recognized but its numeric application is performed
    /// outside the verified core.
    UnsupportedMethod,
}

/// A metric that cannot be represented is never committed.
#[derive(Debug, Clone, Copy, PartialEq, Eq, Structural)]
pub enum MetricError {
    /// All ground-truth values are identical, so the R-squared denominator
    /// is zero and the metric is undefined.
    DegenerateTargets,
}

/// Failure to serialize or append a public output; fatal to the whole run.
#[derive(Debug, Clone, Copy, PartialEq, Eq, Structural)]
pub enum CommitError {
    Serialization,
}

} // verus!
