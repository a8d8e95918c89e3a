//! The feature transform stage.
//!
//! The stage is pluggable: the configuration names the recognized methods
//! and, for the scaling methods, carries per-column statistics that were
//! fitted offline. Statistics are never derived from the input being
//! proven, so a verifier who only sees the committed outputs can reproduce
//! the transform. The identity method is applied here in full; the scaling
//! methods are validated here, while their per-entry floating-point
//! arithmetic is performed outside the verified core.

use vstd::prelude::*;
use crate::error::ConfigError;
use crate::matrix::FeatureMatrix;

verus! {

/// The recognized transform methods.
#[derive(Debug, Clone, Copy, PartialEq, Eq, Structural)]
pub enum TransformMethod {
    /// Return an equivalent copy with no numeric change.
    Identity,
    /// Per column: subtract the fitted shift (a mean) and divide by the
    /// fitted scale (a standard deviation).
    StandardScale,
    /// Per column: subtract the fitted shift (a minimum) and divide by the
    /// fitted scale (a range).
    MinMaxScale,
}

/// Previously fitted per-column statistics, one entry per matrix column,
/// as scalar bit patterns.
#[derive(Debug, Clone, PartialEq, Eq)]
pub struct ColumnStats {
    /// The value subtracted from each entry of the column.
    pub shift: Vec<u64>,
    /// The value each shifted entry is divided by.
    pub scale: Vec<u64>,
}

/// A transform method together with its optional fitted statistics.
#[derive(Debug, Clone, PartialEq, Eq)]
pub struct TransformConfig {
    pub method: TransformMethod,
    pub fitted: Option<ColumnStats>,
}

impl TransformConfig {
    /// Whether the fitted statistics fit a matrix of `cols` columns.
    pub open spec fn fits(self, cols: int) -> bool {
        match self.fitted {
            Option::Some(s) => s.shift@.len() == cols && s.scale@.len() == cols,
            Option::None => false,
        }
    }
}

/// Applies the configured transform to the matrix, producing a new matrix.
///
/// The identity method returns an equivalent copy, entry for entry. A
/// scaling method without usable fitted statistics is rejected; with usable
/// statistics it is reported as unsupported here, because its application
/// is floating-point arithmetic that the verified core does not perform.
pub fn transform(m: &FeatureMatrix, config: &TransformConfig) -> (r: Result<
    FeatureMatrix,
    ConfigError,
>)
    requires
        m.wf(),
    ensures
        match r {
            Ok(t) => {
                &&& config.method is Identity
                &&& t.wf()
                &&& t@ == m@
            },
            Err(ConfigError::MissingFittedParams) => {
                &&& !(config.method is Identity)
                &&& config.fitted is None
            },
            Err(ConfigError::FittedParamsMismatch) => {
                &&& !(config.method is Identity)
                &&& config.fitted is Some
                &&& !config.fits(m@[0].len() as int)
            },
            Err(ConfigError::UnsupportedMethod) => {
                &&& !(config.method is Identity)
                &&& config.fits(m@[0].len() as int)
            },
        },
{
    match config.method {
        TransformMethod::Identity => Ok(m.duplicate()),
        _ => {
            let cols = m.cols();
            match &config.fitted {
                Option::None => Err(ConfigError::MissingFittedParams),
                Option::Some(s) => {
                    if s.shift.len() == cols && s.scale.len() == cols {
                        Err(ConfigError::UnsupportedMethod)
                    } else {
                        Err(ConfigError::FittedParamsMismatch)
                    }
                },
            }
        },
    }
}

} // verus!
