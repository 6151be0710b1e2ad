use swapd::chain::fee_estimator::FeeEstimateError;
use swapd::chain::whatthefee::{cache_bust, fee_table_rate, nearest_row_index, STALE_SECONDS};
use swapd::lightning::PaymentResult;
use swapd::postgresql::{
    payment_result_columns, preimage_column, swap_state_fields, GetPaymentAttemptsError,
};
use swapd::swap::swap_repository::{
    may_lock_payment, may_lock_refund, GetSwapsError, LockSwapError, SwapLock,
};

#[test]
fn swap_state_fields_lists_the_columns_behind_the_alias() {
    let expected = "s.address
         , s.claim_privkey
         , s.claim_pubkey
         , s.claim_script
         , s.creation_time
         , s.lock_time
         , s.payment_hash
         , s.preimage
         , s.refund_pubkey
         , s.refund_script
         ";
    assert_eq!(swap_state_fields("s"), expected);
    assert!(swap_state_fields("s_sub").starts_with("s_sub.address\n"));
    assert!(swap_state_fields("s_sub").contains(", s_sub.refund_script\n"));
}

#[test]
fn preimage_column_is_absent_or_32_bytes() {
    assert!(matches!(preimage_column(None), Ok(None)));
    assert!(matches!(preimage_column(Some(vec![5u8; 32])), Ok(Some(p)) if p == [5u8; 32]));
    assert!(matches!(
        preimage_column(Some(vec![5u8; 20])),
        Err(GetSwapsError::InvalidPreimage)
    ));
}

#[test]
fn payment_result_from_columns() {
    assert!(matches!(payment_result_columns(None, None, None), Ok(None)));
    assert!(matches!(
        payment_result_columns(Some(true), Some(vec![1u8; 32]), None),
        Ok(Some(PaymentResult::Success { preimage })) if preimage == [1u8; 32]
    ));
    assert!(matches!(
        payment_result_columns(Some(true), None, None),
        Err(GetPaymentAttemptsError::InvalidPreimage)
    ));
    assert!(matches!(
        payment_result_columns(Some(true), Some(vec![1u8; 31]), None),
        Err(GetPaymentAttemptsError::InvalidPreimage)
    ));
    match payment_result_columns(Some(false), None, None) {
        Ok(Some(PaymentResult::Failure { error })) => assert_eq!(error, "unknown error"),
        other => panic!("unexpected {:?}", other),
    }
    match payment_result_columns(Some(false), None, Some(String::from("no route"))) {
        Ok(Some(PaymentResult::Failure { error })) => assert_eq!(error, "no route"),
        other => panic!("unexpected {:?}", other),
    }
}

fn refund_lock(id: &str) -> SwapLock {
    SwapLock { refund_id: Some(String::from(id)), payment_attempt_label: None }
}

fn payment_lock(label: &str) -> SwapLock {
    SwapLock { refund_id: None, payment_attempt_label: Some(String::from(label)) }
}

#[test]
fn payment_lock_needs_an_unlocked_swap() {
    assert!(may_lock_payment(&vec![]).is_ok());
    assert!(matches!(
        may_lock_payment(&vec![refund_lock("r1")]),
        Err(LockSwapError::AlreadyLocked)
    ));
    assert!(matches!(
        may_lock_payment(&vec![payment_lock("p1")]),
        Err(LockSwapError::AlreadyLocked)
    ));
}

#[test]
fn refund_lock_shares_with_refunds_only() {
    assert!(may_lock_refund(&vec![]).is_ok());
    assert!(may_lock_refund(&vec![refund_lock("r1"), refund_lock("r2")]).is_ok());
    assert!(matches!(
        may_lock_refund(&vec![refund_lock("r1"), payment_lock("p1")]),
        Err(LockSwapError::AlreadyLocked)
    ));
}

#[test]
fn lock_rules_keep_a_payment_alone() {
    let mut locks: Vec<SwapLock> = Vec::new();
    assert!(may_lock_refund(&locks).is_ok());
    locks.push(refund_lock("r1"));
    assert!(may_lock_refund(&locks).is_ok());
    locks.push(refund_lock("r2"));
    assert!(may_lock_payment(&locks).is_err());
    locks.clear();
    assert!(may_lock_payment(&locks).is_ok());
    locks.push(payment_lock("p1"));
    assert!(may_lock_payment(&locks).is_err());
    assert!(may_lock_refund(&locks).is_err());
}

#[test]
fn nearest_row_is_the_first_closest() {
    assert_eq!(nearest_row_index(&vec![], 6), None);
    assert_eq!(nearest_row_index(&vec![1, 3, 6, 12, 24], 6), Some(2));
    assert_eq!(nearest_row_index(&vec![1, 3, 9, 12, 24], 6), Some(1));
    assert_eq!(nearest_row_index(&vec![2, 4, 8], 6), Some(1));
    assert_eq!(nearest_row_index(&vec![2, 10, 2], 100), Some(1));
    assert_eq!(nearest_row_index(&vec![5, 5, 5], 5), Some(0));
}

#[test]
fn fee_table_rate_picks_the_cell() {
    let index = vec![1, 3, 6, 12];
    let data = vec![vec![10, 11], vec![30, 31], vec![60, 61], vec![120]];
    assert_eq!(fee_table_rate(0, &index, &data, 5, Some(1)).unwrap(), 61);
    assert_eq!(fee_table_rate(STALE_SECONDS, &index, &data, 1, Some(0)).unwrap(), 10);
    assert!(matches!(
        fee_table_rate(STALE_SECONDS + 1, &index, &data, 5, Some(1)),
        Err(FeeEstimateError::Unavailable)
    ));
    assert!(matches!(
        fee_table_rate(0, &vec![], &data, 5, Some(1)),
        Err(FeeEstimateError::Unavailable)
    ));
    assert!(matches!(
        fee_table_rate(0, &index, &data, 5, None),
        Err(FeeEstimateError::Unavailable)
    ));
    assert!(matches!(
        fee_table_rate(0, &index, &data, 12, Some(1)),
        Err(FeeEstimateError::Unavailable)
    ));
    assert!(matches!(
        fee_table_rate(0, &index, &vec![vec![1]], 12, Some(0)),
        Err(FeeEstimateError::Unavailable)
    ));
}

#[test]
fn cache_bust_rounds_down_to_five_minutes() {
    assert_eq!(cache_bust(0), 0);
    assert_eq!(cache_bust(299), 0);
    assert_eq!(cache_bust(300), 300);
    assert_eq!(cache_bust(1_700_000_123), 1_700_000_100);
}
