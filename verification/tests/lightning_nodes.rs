use swapd::cln::{
    first_completed_preimage, first_paid_preimage, parse_cln_error, parse_i32, pay_response_step,
    wait_send_pay_step, waited_payment_result, ClnPay, ClnPayStatus, ClnPayStep, WaitStep,
};
use swapd::lightning::{preimage_from_bytes, LightningError, PaymentResult};
use swapd::lnd::{
    decode_preimage, hops_to_string, push_decimal, short_channel_id_to_string, tracked_preimage,
    Hop, LndPaymentStatus, PayStep, PaymentTracker, PaymentUpdate,
};

fn scid(block: u64, tx_index: u64, output: u64) -> u64 {
    (block << 40) | (tx_index << 16) | output
}

#[test]
fn short_channel_id_reads_its_three_parts() {
    assert_eq!(short_channel_id_to_string(scid(700000, 1234, 1)), "700000x1234x1");
    assert_eq!(short_channel_id_to_string(0), "0x0x0");
    assert_eq!(
        short_channel_id_to_string(u64::MAX),
        "16777215x16777215x65535"
    );
}

#[test]
fn decimal_of_zero_and_large_numbers() {
    let mut s = String::from("n=");
    push_decimal(&mut s, 0);
    assert_eq!(s, "n=0");
    let mut t = String::new();
    push_decimal(&mut t, u64::MAX);
    assert_eq!(t, "18446744073709551615");
}

#[test]
fn hops_are_joined_by_arrows() {
    assert_eq!(hops_to_string(&vec![]), "");
    assert_eq!(
        hops_to_string(&vec![Hop { chan_id: scid(1, 2, 3) }]),
        "1x2x3"
    );
    assert_eq!(
        hops_to_string(&vec![
            Hop { chan_id: scid(1, 2, 3) },
            Hop { chan_id: scid(4, 5, 6) },
            Hop { chan_id: scid(7, 8, 9) },
        ]),
        "1x2x3 -> 4x5x6 -> 7x8x9"
    );
}

#[test]
fn preimage_needs_exactly_32_bytes() {
    let p = preimage_from_bytes(&vec![7u8; 32]).unwrap();
    assert_eq!(p, [7u8; 32]);
    assert!(matches!(
        preimage_from_bytes(&vec![7u8; 31]),
        Err(LightningError::InvalidPreimage)
    ));
    assert!(matches!(
        preimage_from_bytes(&vec![7u8; 33]),
        Err(LightningError::InvalidPreimage)
    ));
}

#[test]
fn hex_preimage_is_decoded() {
    let text = "0a".repeat(31) + "Ff";
    let p = decode_preimage(&text).unwrap();
    let mut expected = [0x0au8; 32];
    expected[31] = 0xff;
    assert_eq!(p, expected);
    assert!(matches!(
        decode_preimage(&"0a".repeat(31)),
        Err(LightningError::InvalidPreimage)
    ));
    assert!(matches!(
        decode_preimage(&("0a".repeat(31) + "zz")),
        Err(LightningError::InvalidPreimage)
    ));
    assert!(matches!(
        decode_preimage(&("0a".repeat(31) + "f")),
        Err(LightningError::InvalidPreimage)
    ));
}

#[test]
fn tracked_payment_without_preimage_has_none() {
    assert!(matches!(tracked_preimage(&String::new()), Ok(None)));
    assert!(matches!(tracked_preimage(&"11".repeat(32)), Ok(Some(p)) if p == [0x11u8; 32]));
    assert!(matches!(
        tracked_preimage(&"11".repeat(3)),
        Err(LightningError::InvalidPreimage)
    ));
}

fn update(index: u64, routed: bool, status: LndPaymentStatus) -> PaymentUpdate {
    PaymentUpdate {
        payment_index: index,
        has_routed_attempt: routed,
        status,
        payment_preimage: "22".repeat(32),
        failure_reason: String::from("FAILURE_REASON_NO_ROUTE"),
    }
}

#[test]
fn payment_tracker_labels_once_and_ends_on_final_status() {
    let mut tracker = PaymentTracker::new();
    let (label, step) = tracker.on_update(&update(9, true, LndPaymentStatus::InFlight));
    assert_eq!(label, Some(9));
    assert!(matches!(step, PayStep::Continue));
    let (label, step) = tracker.on_update(&update(9, false, LndPaymentStatus::Succeeded));
    assert_eq!(label, None);
    assert!(matches!(step, PayStep::Continue));
    let (label, step) = tracker.on_update(&update(9, true, LndPaymentStatus::Succeeded));
    assert_eq!(label, None);
    assert!(matches!(
        step,
        PayStep::Finished(Ok(PaymentResult::Success { preimage })) if preimage == [0x22u8; 32]
    ));
}

#[test]
fn payment_tracker_reports_failure_reason() {
    let mut tracker = PaymentTracker::new();
    let (_, step) = tracker.on_update(&update(1, true, LndPaymentStatus::Failed));
    match step {
        PayStep::Finished(Ok(PaymentResult::Failure { error })) => {
            assert_eq!(error, "FAILURE_REASON_NO_ROUTE")
        }
        other => panic!("unexpected step {:?}", other),
    }
    let mut bad = update(1, true, LndPaymentStatus::Succeeded);
    bad.payment_preimage = String::from("abc");
    let (_, step) = tracker.on_update(&bad);
    assert!(matches!(
        step,
        PayStep::Finished(Err(LightningError::InvalidPreimage))
    ));
}

#[test]
fn i32_is_parsed_as_the_standard_library_does() {
    for text in ["0", "17", "+5", "-5", "2147483647", "-2147483648", "007", "x", "", "-", "+",
        "2147483648", "-2147483649", "99999999999", "1 ", " 1", "1-", "--1", "+-1"]
    {
        assert_eq!(parse_i32(text), text.parse::<i32>().ok(), "text {:?}", text);
    }
}

#[test]
fn cln_error_code_is_found_in_the_status_message() {
    assert_eq!(
        parse_cln_error("Error calling method WaitSendPay: RpcError { code: Some(204), message: \"failed\" }"),
        Some(204)
    );
    assert_eq!(parse_cln_error("code: Some(-1)"), Some(-1));
    assert_eq!(parse_cln_error("no code here"), None);
    assert_eq!(parse_cln_error("code: None"), None);
    assert_eq!(parse_cln_error("Some(99999999999)"), None);
}

#[test]
fn waitsendpay_answers_decide_whether_to_wait_on() {
    assert!(matches!(wait_send_pay_step(Ok(None)), WaitStep::Continue));
    assert!(matches!(
        wait_send_pay_step(Ok(Some(vec![3u8; 32]))),
        WaitStep::Finished(Ok(Some(PaymentResult::Success { preimage }))) if preimage == [3u8; 32]
    ));
    assert!(matches!(
        wait_send_pay_step(Ok(Some(vec![3u8; 2]))),
        WaitStep::Finished(Err(LightningError::InvalidPreimage))
    ));
    for code in [202, 203, 204, 208, 209] {
        let message = format!("RpcError {{ code: Some({}) }}", code);
        assert!(matches!(wait_send_pay_step(Err(message)), WaitStep::Continue));
    }
    for code in [-1, 200, 205, 210] {
        let message = format!("RpcError {{ code: Some({}) }}", code);
        match wait_send_pay_step(Err(message.clone())) {
            WaitStep::Finished(Err(LightningError::General(m))) => assert_eq!(m, message),
            other => panic!("unexpected step {:?}", other),
        }
    }
    assert!(matches!(
        wait_send_pay_step(Err(String::from("transport closed"))),
        WaitStep::Finished(Err(LightningError::General(_)))
    ));
}

#[test]
fn first_completed_part_with_preimage_wins() {
    assert!(first_completed_preimage(&vec![None, None]).is_none());
    assert!(matches!(
        first_completed_preimage(&vec![None, Some(vec![4u8; 32]), Some(vec![5u8; 32])]),
        Some(Ok(PaymentResult::Success { preimage })) if preimage == [4u8; 32]
    ));
    assert!(matches!(
        first_completed_preimage(&vec![Some(vec![4u8; 1]), Some(vec![5u8; 32])]),
        Some(Err(LightningError::InvalidPreimage))
    ));
}

#[test]
fn cln_pay_answer_steps() {
    assert!(matches!(
        pay_response_step(ClnPayStatus::Complete, &vec![6u8; 32], false),
        ClnPayStep::Done(Ok(PaymentResult::Success { preimage })) if preimage == [6u8; 32]
    ));
    assert!(matches!(
        pay_response_step(ClnPayStatus::Complete, &vec![6u8; 3], false),
        ClnPayStep::Done(Err(LightningError::InvalidPreimage))
    ));
    assert!(matches!(
        pay_response_step(ClnPayStatus::Pending, &vec![], false),
        ClnPayStep::WaitForPayment
    ));
    assert!(matches!(
        pay_response_step(ClnPayStatus::Failed, &vec![], true),
        ClnPayStep::WaitForPayment
    ));
    match pay_response_step(ClnPayStatus::Failed, &vec![], false) {
        ClnPayStep::Done(Ok(PaymentResult::Failure { error })) => {
            assert_eq!(error, "unknown failure")
        }
        other => panic!("unexpected step {:?}", other),
    }
    match waited_payment_result(None) {
        PaymentResult::Failure { error } => assert_eq!(error, "unknown failure"),
        other => panic!("unexpected result {:?}", other),
    }
    assert!(matches!(
        waited_payment_result(Some(PaymentResult::Success { preimage: [1u8; 32] })),
        PaymentResult::Success { preimage } if preimage == [1u8; 32]
    ));
}

#[test]
fn listed_payment_with_preimage_gives_label() {
    let pays = vec![
        ClnPay { label: Some(String::from("a")), preimage: None },
        ClnPay { label: None, preimage: Some(vec![8u8; 32]) },
        ClnPay { label: Some(String::from("c")), preimage: Some(vec![9u8; 32]) },
    ];
    let found = first_paid_preimage(&pays).unwrap().unwrap();
    assert_eq!(found.preimage, [8u8; 32]);
    assert_eq!(found.label, "");
    assert!(first_paid_preimage(&vec![]).unwrap().is_none());
    let bad = vec![ClnPay { label: Some(String::from("x")), preimage: Some(vec![1u8; 5]) }];
    assert!(matches!(
        first_paid_preimage(&bad),
        Err(LightningError::InvalidPreimage)
    ));
}

#[test]
fn short_channel_id_text_parses_back() {
    for id in [0u64, 1, scid(700000, 1234, 1), scid(0xffffff, 0xffffff, 0xffff), u64::MAX, 0x0123_4567_89ab_cdef] {
        let text = short_channel_id_to_string(id);
        let parts: Vec<u64> = text.split('x').map(|p| p.parse::<u64>().unwrap()).collect();
        assert_eq!(parts.len(), 3);
        assert_eq!(parts[0], id >> 40);
        assert_eq!(parts[1], (id >> 16) & 0xffffff);
        assert_eq!(parts[2], id & 0xffff);
        assert_eq!((parts[0] << 40) | (parts[1] << 16) | parts[2], id);
    }
}
