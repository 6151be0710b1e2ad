use vstd::prelude::*;

use super::swap_service::SwapState;
use crate::chain::types::OutPoint;

verus! {

/// Errors of storing a new swap.
#[derive(Debug)]
pub enum SwapPersistenceError {
    AlreadyExists,
    General(String),
}

/// Errors of storing a payment result.
#[derive(Debug)]
pub enum AddPaymentResultError {
    General(String),
}

/// Errors of storing the preimage of a paid swap.
#[derive(Debug)]
pub enum AddPreimageError {
    DoesNotExist,
    General(String),
}

/// Errors of reading a swap with its outputs.
#[derive(Debug)]
pub enum GetSwapError {
    NotFound,
    General(String),
}

/// Errors of locking a swap for a payment or a refund.
#[derive(Debug)]
pub enum LockSwapError {
    AlreadyLocked,
    SwapNotFound,
    General(String),
}

/// Errors of reading paid outputs.
#[derive(Debug)]
pub enum GetPaidUtxosError {
    General(String),
}

/// Errors of reading swaps.
#[derive(Debug)]
pub enum GetSwapsError {
    NotFound,
    InvalidPreimage,
    General(String),
}

/// Errors of reading payment attempts that have no result yet.
#[derive(Debug)]
pub enum GetUnhandledPaymentAttemptsError {
    General(String),
}

/// An output of a swap that a successful payment paid out, with the payment
/// request that paid it.
pub struct PaidOutpoint {
    pub outpoint: OutPoint,
    pub payment_request: String,
}

/// A swap with the outputs that successful payments paid out.
pub struct SwapStatePaidOutpoints {
    pub swap_state: SwapState,
    pub paid_outpoints: Vec<PaidOutpoint>,
}

/// A lock that a payment or a refund holds on a swap.
#[derive(Debug)]
pub struct SwapLock {
    pub refund_id: Option<String>,
    pub payment_attempt_label: Option<String>,
}

/// A payment lock is never held together with another lock.
pub open spec fn payment_lock_exclusive(locks: Seq<SwapLock>) -> bool {
    forall|i: int| 0 <= i < locks.len() && (#[trigger] locks[i]).payment_attempt_label is Some ==> locks.len() == 1
}

/// A payment may lock a swap only while the swap holds no lock at all.
pub fn may_lock_payment(locks: &Vec<SwapLock>) -> (r: Result<(), LockSwapError>)
    ensures
        r is Ok <==> locks@.len() == 0,
        r is Err ==> r matches Err(LockSwapError::AlreadyLocked),
{
    if locks.len() > 0 {
        Err(LockSwapError::AlreadyLocked)
    } else {
        Ok(())
    }
}

/// A refund may lock a swap alongside other refunds, but not while a
/// payment holds a lock on it.
pub fn may_lock_refund(locks: &Vec<SwapLock>) -> (r: Result<(), LockSwapError>)
    ensures
        r is Ok <==> forall|i: int| 0 <= i < locks@.len() ==> (#[trigger] locks@[i]).payment_attempt_label is None,
        r is Err ==> r matches Err(LockSwapError::AlreadyLocked),
{
    let mut i: usize = 0;
    while i < locks.len()
        invariant
            0 <= i <= locks@.len(),
            forall|j: int| 0 <= j < i ==> (#[trigger] locks@[j]).payment_attempt_label is None,
        decreases locks.len() - i,
    {
        if locks[i].payment_attempt_label.is_some() {
            return Err(LockSwapError::AlreadyLocked);
        }
        i = i + 1;
    }
    Ok(())
}

/// Taking locks by these rules, and releasing any lock, keeps a payment
/// lock exclusive: a payment never runs beside another payment or a refund.
pub proof fn law_lock_rules_keep_payment_exclusive(locks: Seq<SwapLock>, new_lock: SwapLock, i: int)
    requires
        payment_lock_exclusive(locks),
    ensures
        new_lock.payment_attempt_label is Some && locks.len() == 0 ==> payment_lock_exclusive(
            locks.push(new_lock),
        ),
        new_lock.payment_attempt_label is None && (forall|j: int|
            0 <= j < locks.len() ==> (#[trigger] locks[j]).payment_attempt_label is None)
            ==> payment_lock_exclusive(locks.push(new_lock)),
        0 <= i < locks.len() ==> payment_lock_exclusive(locks.remove(i)),
{
    if 0 <= i < locks.len() {
        let rest = locks.remove(i);
        assert forall|k: int| 0 <= k < rest.len() && (#[trigger] rest[k]).payment_attempt_label is Some implies rest.len() == 1 by {
            if k < i {
                assert(rest[k] == locks[k]);
            } else {
                assert(rest[k] == locks[k + 1]);
            }
        }
    }
    if new_lock.payment_attempt_label is None && (forall|j: int|
        0 <= j < locks.len() ==> (#[trigger] locks[j]).payment_attempt_label is None) {
        let next = locks.push(new_lock);
        assert forall|k: int| 0 <= k < next.len() && (#[trigger] next[k]).payment_attempt_label is Some implies next.len() == 1 by {
            if k < locks.len() {
                assert(next[k] == locks[k]);
            }
        }
    }
}

} // verus!
