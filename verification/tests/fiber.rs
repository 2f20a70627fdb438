use sha2::{Digest, Sha256};

use twine_daemon::fiber::{
    check_hold_reply, demo_invoice_request, hold_invoice_request, paid_poll, payment_poll,
    received_poll, reported_status, send_failure_detail, sent_payment_hash, InvoiceReply,
    PollDecision,
};
use twine_daemon::flow::{expiry_settle_note, hold_cancellable, hold_expired};
use twine_daemon::order::OrderError;

fn done(d: &PollDecision) -> Option<&str> {
    match d {
        PollDecision::Done(s) => Some(s.as_str()),
        _ => None,
    }
}

fn failed(d: &PollDecision) -> Option<&str> {
    match d {
        PollDecision::Fail(s) => Some(s.as_str()),
        _ => None,
    }
}

#[test]
fn hold_request_seals_a_sha256_pair() {
    let q = hold_invoice_request("1").unwrap();
    assert_eq!(q.amount(), "0x5f5e100");
    assert_eq!(q.description(), "twine order 1 CKB");
    assert_eq!(q.final_expiry_delta(), "0x36ee800");
    let raw = hex::decode(q.preimage().trim_start_matches("0x")).unwrap();
    assert_eq!(raw.len(), 32);
    assert_eq!(q.payment_hash(), format!("0x{}", hex::encode(Sha256::digest(raw))));
    assert!(matches!(hold_invoice_request("0"), Err(OrderError::BadAmount(_))));
    let (hash, amount) = demo_invoice_request("0.5").unwrap();
    assert_eq!(amount, "0x2faf080");
    assert_eq!(hash.len(), 66);
}

#[test]
fn hold_reply_checks() {
    let ok = InvoiceReply {
        invoice_address: Some("fibt1".into()),
        status: None,
        final_expiry_delta: Some("0x36EE800".into()),
    };
    assert_eq!(check_hold_reply(&ok).unwrap(), ("fibt1".to_string(), "Open".to_string()));
    let missing = InvoiceReply { invoice_address: None, status: None, final_expiry_delta: None };
    assert_eq!(
        check_hold_reply(&missing),
        Err(OrderError::Fiber("new_invoice missing invoice_address".into()))
    );
    let wrong = InvoiceReply {
        invoice_address: Some("fibt1".into()),
        status: Some("Open".into()),
        final_expiry_delta: Some("0x10".into()),
    };
    assert_eq!(
        check_hold_reply(&wrong),
        Err(OrderError::Fiber(
            "new_invoice final_htlc_minimum_expiry_delta=0x10 did not match requested 0x36ee800"
                .into()
        ))
    );
}

#[test]
fn polls_decide_done_fail_or_wait() {
    assert_eq!(done(&received_poll("Received", false)), Some("Received"));
    assert_eq!(
        failed(&received_poll("Paid", false)),
        Some("invoice reached Paid while waiting for Received")
    );
    assert!(matches!(received_poll("Open", false), PollDecision::Wait));
    assert_eq!(
        failed(&received_poll("Open", true)),
        Some("timed out waiting for Received (last status Open)")
    );
    assert_eq!(done(&payment_poll("Success", None, "0xh", false)), Some("Success"));
    assert_eq!(
        failed(&payment_poll("Failed", None, "0xh", false)),
        Some("get_payment Failed for 0xh: payment Failed")
    );
    assert_eq!(
        failed(&payment_poll("Failed", Some("no route".into()), "0xh", false)),
        Some("get_payment Failed for 0xh: no route")
    );
    assert!(matches!(payment_poll("Inflight", None, "0xh", false), PollDecision::Wait));
    assert_eq!(done(&paid_poll("Paid", true)), Some("Paid"));
    assert_eq!(
        failed(&paid_poll("Expired", false)),
        Some("invoice reached Expired while waiting for Paid after settle")
    );
}

#[test]
fn cancel_only_while_open_and_expiry_notes() {
    assert!(hold_cancellable("Open"));
    assert!(!hold_cancellable("Received"));
    assert!(hold_expired("Expired"));
    assert!(!hold_expired("Received"));
    assert_eq!(
        expiry_settle_note(None),
        "missing sealed preimage S; settle_invoice not attempted"
    );
    assert_eq!(expiry_settle_note(Some(Err("expired".into()))), "expired");
    assert_eq!(
        expiry_settle_note(Some(Ok(()))),
        "settle_invoice returned ok after Expired (unexpected; not treated as Path A settle)"
    );
}

#[test]
fn reply_defaults() {
    assert_eq!(reported_status(None), "unknown");
    assert_eq!(reported_status(Some("Open".into())), "Open");
    assert_eq!(sent_payment_hash(None, "lnbuyer"), "lnbuyer");
    assert_eq!(sent_payment_hash(Some("0xp".into()), "lnbuyer"), "0xp");
    assert_eq!(send_failure_detail("no route"), "send_payment failed: no route");
}
