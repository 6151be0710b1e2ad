use vstd::prelude::*;

verus! {

/// A fee rate in satoshi per thousand weight units.
#[derive(Clone, Copy, Debug, PartialEq, Eq)]
pub struct FeeEstimate {
    pub sat_per_kw: u32,
}

/// Errors of estimating a fee rate.
#[derive(Debug)]
pub enum FeeEstimateError {
    Unavailable,
    General(String),
}

/// What the fallback estimator does with the answer of its first
/// estimator: an estimate is the answer; on an error it asks the second one.
pub fn first_estimate_outcome(first: Result<FeeEstimate, FeeEstimateError>) -> (r: Option<
    FeeEstimate,
>)
    ensures
        first matches Ok(e) ==> r == Some(e),
        first is Err ==> r is None,
{
    match first {
        Ok(e) => Some(e),
        Err(_) => None,
    }
}

/// What the fallback estimator answers once the second estimator answered:
/// its estimate, or unavailable when both failed.
pub fn second_estimate_outcome(second: Result<FeeEstimate, FeeEstimateError>) -> (r: Result<
    FeeEstimate,
    FeeEstimateError,
>)
    ensures
        second matches Ok(e) ==> r matches Ok(f) && f == e,
        second is Err ==> r matches Err(FeeEstimateError::Unavailable),
{
    match second {
        Ok(e) => Ok(e),
        Err(_) => Err(FeeEstimateError::Unavailable),
    }
}

} // verus!
