//! The one failure kind the statistics raise.

use vstd::prelude::*;

verus! {

/// Failure of a statistic call. A window, period or lookback below its
/// minimum is reported as `InvalidPeriod` before any output is produced;
/// `ComputationError` is reserved for a failing numeric pass and is raised
/// by none of the current routines.
#[derive(Debug)]
pub enum ExprError {
    InvalidPeriod(String),
    ComputationError(String),
}

impl ExprError {
    /// The carried message.
    pub fn message(&self) -> (r: &String)
        ensures
            self is InvalidPeriod ==> r@ == self->InvalidPeriod_0@,
            self is ComputationError ==> r@ == self->ComputationError_0@,
    {
        match self {
            ExprError::InvalidPeriod(m) => m,
            ExprError::ComputationError(m) => m,
        }
    }
}

} // verus!
