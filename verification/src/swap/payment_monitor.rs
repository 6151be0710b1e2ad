use vstd::prelude::*;

use crate::lightning::{LightningError, PaymentResult, PaymentState};

verus! {

/// What the monitor of unfinished payments does with one payment attempt.
#[derive(Debug)]
pub enum AttemptAction {
    /// Store this result for the attempt and release the swap's lock.
    Record(PaymentResult),
    /// The payment is still in flight: look again later.
    KeepPending,
}

/// The action for an attempt, from the state that the lightning node reports
/// for its payment: a final state is recorded; a payment that the node does
/// not know is recorded as failed with `cancelled`; any other error stops
/// the round.
pub fn attempt_action(state: Result<PaymentState, LightningError>) -> (r: Result<
    AttemptAction,
    LightningError,
>)
    ensures
        match state {
            Ok(PaymentState::Success { preimage }) => r matches Ok(
                AttemptAction::Record(PaymentResult::Success { preimage: p }),
            ) && p == preimage,
            Ok(PaymentState::Failure { error }) => r matches Ok(
                AttemptAction::Record(PaymentResult::Failure { error: e }),
            ) && e == error,
            Ok(PaymentState::Pending) => r matches Ok(AttemptAction::KeepPending),
            Err(LightningError::PaymentNotFound) => r matches Ok(
                AttemptAction::Record(PaymentResult::Failure { error: e }),
            ) && e@ == "cancelled"@,
            Err(e) => r == Err::<AttemptAction, LightningError>(e),
        },
{
    match state {
        Ok(PaymentState::Success { preimage }) => Ok(
            AttemptAction::Record(PaymentResult::Success { preimage }),
        ),
        Ok(PaymentState::Failure { error }) => Ok(
            AttemptAction::Record(PaymentResult::Failure { error }),
        ),
        Ok(PaymentState::Pending) => Ok(AttemptAction::KeepPending),
        Err(LightningError::PaymentNotFound) => Ok(
            AttemptAction::Record(PaymentResult::Failure { error: String::from_str("cancelled") }),
        ),
        Err(e) => Err(e),
    }
}

} // verus!
