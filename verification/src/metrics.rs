//! The metrics engine's verified surface.
//!
//! One metric set is derived per model from a prediction vector and the
//! ground-truth target vector: MAE, MSE, RMSE and R-squared, in
//! double-precision floating point with left-to-right summation. That
//! arithmetic happens outside the verified core; the core carries the four
//! resulting bit patterns, and detects the one input the formulas cannot
//! serve: ground truth with zero variance, where the R-squared denominator
//! vanishes and the metric would be an unrepresentable value.

use vstd::prelude::*;
use crate::error::MetricError;

verus! {

/// The four evaluation metrics of one model, as the bit patterns of the
/// IEEE-754 doubles computed by the metrics engine.
#[derive(Debug, Clone, Copy, PartialEq, Eq, Structural)]
pub struct MetricSet {
    pub mae: u64,
    pub mse: u64,
    pub rmse: u64,
    pub r2: u64,
}

impl MetricSet {
    /// Packages the four metric scalars in their committed order.
    pub fn new(mae: u64, mse: u64, rmse: u64, r2: u64) -> (r: MetricSet)
        ensures
            r == (MetricSet { mae, mse, rmse, r2 }),
    {
        MetricSet { mae, mse, rmse, r2 }
    }
}

/// All target values are one and the same bit pattern, so the total sum of
/// squares is zero and R-squared is undefined.
pub open spec fn degenerate_targets(actuals: Seq<u64>) -> bool {
    forall|i: int| 0 <= i < actuals.len() ==> #[trigger] actuals[i] == actuals[0]
}

/// Rejects a target vector on which R-squared is undefined.
///
/// Values are compared as bit patterns, so two targets count as equal
/// exactly when the metrics engine would receive identical doubles.
pub fn check_targets(actuals: &Vec<u64>) -> (r: Result<(), MetricError>)
    requires
        actuals@.len() >= 1,
    ensures
        r is Ok <==> !degenerate_targets(actuals@),
        r is Err ==> r == Err::<(), MetricError>(MetricError::DegenerateTargets),
{
    let n = actuals.len();
    let first = actuals[0];
    let mut i: usize = 1;
    while i < n
        invariant
            n == actuals@.len(),
            n >= 1,
            first == actuals@[0],
            1 <= i <= n,
            forall|k: int| 0 <= k < i ==> actuals@[k] == first,
        decreases n - i,
    {
        if actuals[i] != first {
            return Ok(());
        }
        i = i + 1;
    }
    Err(MetricError::DegenerateTargets)
}

} // verus!
