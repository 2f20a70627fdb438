use base64::Engine;

use sha2::{Digest, Sha256};

use twine_daemon::fiber::hold_invoice_request;
use twine_daemon::flow::{pay_window, CancelRoute};
use twine_daemon::market::MarketStore;
use twine_daemon::payout::{InvoiceReport, PaymentReport, PayoutAction, PayoutEvent, PayoutStep};
use twine_daemon::order::{
    CancelTradeBody,
    BuyerInvoiceBody, CreateAdBody, CreateTradeBody, FiatSentBody, OpenDisputeBody, OrderError,
    OrderState, PayFailureMode, PostChatBody, TradeView,
};

fn log_contains(view: &TradeView, text: &str) -> bool {
    view.log.iter().any(|line| line.text.contains(text))
}

/// A store holding one trade, with its hold created; gives back `H` and `S`.
fn store_with_trade(trade_id: &str) -> (MarketStore, String, String) {
    let mut store = MarketStore::new();
    let ad = CreateAdBody {
        pubkey: "02aa".into(),
        available: "1".into(),
        currency: None,
        price: "2000".into(),
        min: "2000".into(),
        max: "2000".into(),
        payment_method: "Opay".into(),
    };
    store.create_ad_with_id(&ad, "ad1".into()).unwrap();
    let take = CreateTradeBody { ad_id: "ad1".into(), taker: "03bb".into(), pay_amount: "2000".into() };
    store.reserve_trade_with_id(&take, trade_id.into()).unwrap();
    let request = hold_invoice_request("1").unwrap();
    let (h, s) = (request.payment_hash(), request.preimage());
    let created = store.record_hold(trade_id, request, "fibt1".into(), "Open".into()).unwrap();
    assert_eq!(created.payment_hash.as_deref(), Some(h.as_str()));
    assert_eq!(created.state, OrderState::WaitingHold);
    assert_eq!(created.currency, "NGN");
    assert!(log_contains(&created, "S sealed"));
    for line in &created.log {
        assert!(line.at.ends_with('Z') && line.at.len() == 20);
        assert!(chrono::DateTime::parse_from_rfc3339(&line.at).is_ok());
    }
    assert!(created.accept_by.is_none() && created.pay_by.is_none());
    (store, h, s)
}

fn proof_body(invoice: &str) -> FiatSentBody {
    FiatSentBody {
        invoice: invoice.into(),
        proof_b64: base64::engine::general_purpose::STANDARD.encode([0xFF, 0xD8, 0xFF, 0xD9]),
        content_type: "image/jpeg".into(),
    }
}

fn locked_with_proof(store: &mut MarketStore, id: &str, h: &str) {
    assert_eq!(store.lock_target(id).unwrap(), h);
    let locked = store.record_locked(id, h, "Received", pay_window(1_700_000_000)).unwrap();
    assert_eq!(locked.state, OrderState::WaitingFiat);
    assert_eq!(locked.invoice_status.as_deref(), Some("Received"));
    assert_eq!(locked.accept_by.as_deref(), Some("2023-11-14T22:13:20Z"));
    assert_eq!(locked.pay_by.as_deref(), Some("2023-11-14T22:28:20Z"));
    let target = store.cancel_target(id).unwrap();
    let skipped = store.record_cancel_skipped(id, target.state, "Received").unwrap();
    assert_eq!(skipped.state, OrderState::WaitingFiat);
    assert!(log_contains(&skipped, "cancel_invoice not applied"));
    let proof = store.prepare_fiat_sent(id, &proof_body("lnbuyer1")).unwrap();
    assert_eq!(proof.content_type, "image/jpeg");
    let sent = store
        .record_fiat_sent(id, proof.invoice, proof.content_type, proof.data.len())
        .unwrap();
    assert_eq!(sent.state, OrderState::FiatSent);
    assert_eq!(sent.proof.as_ref().map(|p| p.bytes), Some(4));
    assert_eq!(store.proof_content_type(id).unwrap(), "image/jpeg");
}

#[test]
fn walks_release_failure_then_retry_to_settle() {
    let (mut store, h, s) = store_with_trade("t1");
    let demo = store.record_demo_cancel("t1", "0xdemo", "fibt1demo", None).unwrap();
    assert_eq!(demo.state, OrderState::WaitingHold);
    assert!(log_contains(&demo, "demo cancel"));
    assert!(log_contains(&demo, "still WaitingHold"));
    assert!(log_contains(&demo, "unpaid invoice Cancelled H=0xdemo"));
    assert!(matches!(store.begin_release("t1"), Err(OrderError::BadState(_))));

    locked_with_proof(&mut store, "t1", &h);
    store.begin_release("t1").unwrap();
    assert_eq!(store.trade_state("t1").unwrap(), OrderState::Releasing);
    let plan = store.payout_plan("t1").unwrap();
    assert_eq!(plan.hold_hash, h);
    assert_eq!(plan.hold_preimage, s);
    assert_eq!(plan.buyer_invoice, "lnbuyer1");
    let failed = store
        .record_pay_failure("t1", "send_payment failed: no route", PayFailureMode::Leg2Failed)
        .unwrap();
    assert_eq!(failed.state, OrderState::Leg2Failed);
    assert!(log_contains(&failed, "settle_invoice not called"));
    assert!(log_contains(&failed, "TLC expires"));
    assert!(!log_contains(&failed, "settle:"));

    let retry = BuyerInvoiceBody { invoice: " lnbuyer2 ".into() };
    store.begin_retry("t1", &retry).unwrap();
    let plan = store.payout_plan("t1").unwrap();
    assert_eq!(plan.buyer_invoice, "lnbuyer2");
    store.record_payment_submitted("t1", "0xpay").unwrap();
    store.record_payment_done("t1", "Success").unwrap();
    store.record_settle_submitted("t1").unwrap();
    let settled = store.record_settled("t1", "Paid", PayFailureMode::Leg2Failed).unwrap();
    assert_eq!(settled.state, OrderState::Settled);
    assert_eq!(settled.invoice_status.as_deref(), Some("Paid"));
    assert!(log_contains(&settled, "path A complete"));
    let texts: Vec<&str> = settled.log.iter().map(|l| l.text.as_str()).collect();
    let paid = texts.iter().position(|t| t.contains("get_payment=Success")).unwrap();
    let settle = texts.iter().position(|t| t.contains("settle_invoice(H, S) submitted")).unwrap();
    assert!(paid < settle);
    assert!(store.expiry_target("t1").is_none());
    assert_eq!(
        store.begin_retry("t1", &retry),
        Err(OrderError::BadState("retry needs Leg2Failed, got Settled".into()))
    );
}

#[test]
fn walks_dispute_awards_and_expiry() {
    let (mut store, h, s) = store_with_trade("t1");
    locked_with_proof(&mut store, "t1", &h);
    let appeal = OpenDisputeBody { from: "buyer".into(), reason: " paid on time ".into() };
    let target = store.dispute_target("t1", &appeal).unwrap();
    assert_eq!(target.from, "taker");
    assert_eq!(target.reason, "paid on time");
    let disputed = store.record_dispute("t1", &target.from, &target.reason, "Received").unwrap();
    assert_eq!(disputed.state, OrderState::Disputed);
    assert_eq!(disputed.dispute_from.as_deref(), Some("taker"));

    store.post_chat("t1", &PostChatBody { from: "buyer".into(), text: "I sent the fiat".into() }).unwrap();
    let chat = store
        .post_chat("t1", &PostChatBody { from: "seller".into(), text: "I never got it".into() })
        .unwrap();
    assert_eq!(chat.chat.len(), 2);
    assert_eq!(chat.chat[0].text, "I sent the fiat");
    assert_eq!(chat.chat[1].from, "seller");

    let body = BuyerInvoiceBody { invoice: "lnbuyer3".into() };
    let (invoice, hash) = store.award_buyer_target("t1", &body).unwrap();
    assert_eq!(hash, h);
    store.record_award_buyer("t1", invoice, "Received".into()).unwrap();
    store.payout_plan("t1").unwrap();
    let stayed = store
        .record_pay_failure("t1", "get_payment Failed for 0xpay: no route", PayFailureMode::StayDisputed)
        .unwrap();
    assert_eq!(stayed.state, OrderState::Disputed);
    assert!(log_contains(&stayed, "stay Disputed"));

    assert_eq!(store.award_seller_target("t1").unwrap(), h);
    let seller = store.record_award_seller("t1", "Received").unwrap();
    assert_eq!(seller.state, OrderState::Disputed);
    assert!(log_contains(&seller, "settle_invoice not called; cancel_invoice not called"));
    assert!(log_contains(&seller, "TLC expiry"));

    assert_eq!(store.expiry_target("t1").as_deref(), Some(h.as_str()));
    store.record_hold_status("t1", "Received".into());
    assert_eq!(store.expiry_preimage("t1").unwrap().as_deref(), Some(s.as_str()));
    let expired = store
        .record_expired("t1", &h, Some("invoice already expired".into()))
        .unwrap();
    assert_eq!(expired.state, OrderState::Expired);
    assert_eq!(expired.invoice_status.as_deref(), Some("Expired"));
    assert!(log_contains(&expired, "path D: hold invoice Expired"));
    assert!(log_contains(&expired, "cancel_invoice not called"));
    assert!(log_contains(&expired, "settle_invoice(H, S) after expiry failed as expected"));
    assert!(!log_contains(&expired, "path A complete"));
    assert!(store.expiry_target("t1").is_none());
    let restored = store.list_ads().into_iter().find(|a| a.id == "ad1").unwrap();
    assert_eq!(restored.available, "1");
}

#[test]
fn step_errors_follow_the_trade_state() {
    let (mut store, _, _) = store_with_trade("t1");
    assert_eq!(
        store.lock_target("nope"),
        Err(OrderError::NotFound("trade nope not found".into()))
    );
    let appeal = OpenDisputeBody { from: "buyer".into(), reason: "x".into() };
    assert_eq!(
        store.dispute_target("t1", &appeal).err(),
        Some(OrderError::BadState(
            "open dispute needs WaitingFiat, FiatSent, or Leg2Failed, got WaitingHold".into()
        ))
    );
    let long = OpenDisputeBody { from: "seller".into(), reason: "é".repeat(251) };
    assert_eq!(
        store.dispute_target("t1", &long).err(),
        Some(OrderError::BadState("reason must be at most 500 characters".into()))
    );
    assert_eq!(
        store.prepare_fiat_sent("t1", &proof_body("ln")).err(),
        Some(OrderError::BadState("fiat sent needs WaitingFiat, got WaitingHold".into()))
    );
    assert_eq!(
        store.award_seller_target("t1"),
        Err(OrderError::BadState("award seller needs Disputed, got WaitingHold".into()))
    );
    assert_eq!(
        store.post_chat("t1", &PostChatBody { from: "judge".into(), text: "hi".into() }).err(),
        Some(OrderError::BadState("from must be lister or taker".into()))
    );
    assert_eq!(
        store.post_chat("t1", &PostChatBody { from: "buyer".into(), text: "  ".into() }).err(),
        Some(OrderError::BadState("chat text is required".into()))
    );
    let refused = store.record_cancel_refused("t1", OrderState::WaitingHold, "Open", "boom").unwrap();
    assert!(log_contains(&refused, "cancel_invoice refused"));
    assert_eq!(refused.state, OrderState::WaitingHold);
    assert_eq!(store.trade_amount("t1").unwrap(), "1");
}

#[test]
fn the_lock_opens_a_fifteen_minute_pay_window() {
    let w = pay_window(0);
    assert_eq!(w.accept_by.as_deref(), Some("1970-01-01T00:00:00Z"));
    assert_eq!(w.pay_by.as_deref(), Some("1970-01-01T00:15:00Z"));
    let w = pay_window(i64::MAX);
    assert!(w.accept_by.is_none());
    assert!(w.pay_by.is_none());
}

#[test]
fn the_stored_preimage_hashes_to_the_trade_hash() {
    let (store, h, s) = store_with_trade("t1");
    let stored = store.persisted_preimage("t1").unwrap();
    assert_eq!(stored, s);
    let raw = hex::decode(stored.trim_start_matches("0x")).unwrap();
    assert_eq!(raw.len(), 32);
    let hash = format!("0x{}", hex::encode(Sha256::digest(raw)));
    assert_eq!(store.get_trade("t1").unwrap().payment_hash, Some(hash.clone()));
    assert_eq!(hash, h);
    assert!(store.persisted_preimage("nope").is_none());
}

fn released(id: &str) -> (MarketStore, String, String) {
    let (mut store, h, s) = store_with_trade(id);
    locked_with_proof(&mut store, id, &h);
    store.begin_release(id).unwrap();
    (store, h, s)
}

fn step(
    store: &mut MarketStore,
    at: PayoutStep,
    event: PayoutEvent,
) -> (PayoutStep, PayoutAction) {
    store.payout_step("t1", at, event, PayFailureMode::Leg2Failed)
}

fn report(status: &str) -> PayoutEvent {
    PayoutEvent::PaymentReply(Ok(PaymentReport {
        status: status.into(),
        failed_error: None,
        timed_out: false,
    }))
}

fn invoice(status: &str) -> PayoutEvent {
    PayoutEvent::InvoiceReply(Ok(InvoiceReport { status: status.into(), timed_out: false }))
}

#[test]
fn payout_pays_the_buyer_then_settles() {
    let (mut store, h, s) = released("t1");
    let (at, action) = step(&mut store, PayoutStep::Start, PayoutEvent::Begin);
    assert!(matches!(action, PayoutAction::SendPayment(ref inv) if inv == "lnbuyer1"));
    let (at, action) = step(&mut store, at, PayoutEvent::SendReply(Ok(Some("0xpay".into()))));
    assert!(matches!(action, PayoutAction::PollPayment(ref p, false) if p == "0xpay"));
    let (at, action) = step(&mut store, at, report("Inflight"));
    assert!(matches!(action, PayoutAction::PollPayment(ref p, true) if p == "0xpay"));
    let (at, action) = step(&mut store, at, report("Success"));
    match &action {
        PayoutAction::SettleInvoice(hash, preimage) => {
            assert_eq!(hash, &h);
            assert_eq!(preimage, &s);
        }
        other => panic!("expected the settle, got {other:?}"),
    }
    let (at, action) = step(&mut store, at, PayoutEvent::SettleReply(Ok(())));
    assert!(matches!(action, PayoutAction::PollInvoice(ref p, false) if *p == h));
    let (at, action) = step(&mut store, at, invoice("Received"));
    assert!(matches!(action, PayoutAction::PollInvoice(ref p, true) if *p == h));
    let (at, action) = step(&mut store, at, invoice("Paid"));
    assert!(matches!(at, PayoutStep::Done));
    match action {
        PayoutAction::Finish(view) => {
            assert_eq!(view.state, OrderState::Settled);
            let texts: Vec<&str> = view.log.iter().map(|l| l.text.as_str()).collect();
            let paid = texts.iter().position(|t| t.contains("get_payment=Success")).unwrap();
            let settle = texts.iter().position(|t| t.contains("settle_invoice(H, S) submitted")).unwrap();
            assert!(paid < settle);
            assert!(log_contains(&view, "path A complete"));
        }
        other => panic!("expected the end, got {other:?}"),
    }
}

#[test]
fn payout_never_settles_after_a_failed_payment() {
    let (mut store, _, _) = released("t1");
    let (at, _) = step(&mut store, PayoutStep::Start, PayoutEvent::Begin);
    let (at, action) = step(&mut store, at, PayoutEvent::SendReply(Err("no route".into())));
    assert!(matches!(at, PayoutStep::Done));
    match action {
        PayoutAction::Finish(view) => {
            assert_eq!(view.state, OrderState::Leg2Failed);
            assert!(log_contains(&view, "pay failed: send_payment failed: no route"));
            assert!(!log_contains(&view, "settle: settle_invoice"));
        }
        other => panic!("expected the failure, got {other:?}"),
    }

    let (mut store, _, _) = released("t1");
    let (at, _) = step(&mut store, PayoutStep::Start, PayoutEvent::Begin);
    let (at, _) = step(&mut store, at, PayoutEvent::SendReply(Ok(None)));
    let (_, action) = step(&mut store, at, report("Failed"));
    match action {
        PayoutAction::Finish(view) => {
            assert_eq!(view.state, OrderState::Leg2Failed);
            assert!(log_contains(&view, "get_payment Failed for lnbuyer1: payment Failed"));
        }
        other => panic!("expected the failure, got {other:?}"),
    }

    let (mut store, _, _) = released("t1");
    let (at, _) = step(&mut store, PayoutStep::Start, PayoutEvent::Begin);
    let (at, _) = step(&mut store, at, PayoutEvent::SendReply(Ok(None)));
    let (_, action) = step(&mut store, at, PayoutEvent::PaymentReply(Err("rpc down".into())));
    assert!(matches!(action, PayoutAction::Finish(ref v) if v.state == OrderState::Leg2Failed));
}

#[test]
fn payout_stops_on_refusals_and_out_of_turn_events() {
    let (mut store, _, _) = released("t1");
    let (at, _) = step(&mut store, PayoutStep::Start, PayoutEvent::Begin);
    let (at, _) = step(&mut store, at, PayoutEvent::SendReply(Ok(None)));
    let (at, _) = step(&mut store, at, report("Success"));
    let (at, action) = step(&mut store, at, PayoutEvent::SettleReply(Err("refused".into())));
    assert!(matches!(at, PayoutStep::Done));
    assert!(matches!(action, PayoutAction::Fail(OrderError::Fiber(ref m)) if m == "refused"));
    assert_eq!(store.trade_state("t1").unwrap(), OrderState::Releasing);

    let (_, action) = step(&mut store, PayoutStep::Start, report("Success"));
    assert!(matches!(
        action,
        PayoutAction::Fail(OrderError::BadState(ref m)) if m == "payout step does not take this event"
    ));
    let (_, action) = store.payout_step("nope", PayoutStep::Start, PayoutEvent::Begin, PayFailureMode::Leg2Failed);
    assert!(matches!(action, PayoutAction::Fail(OrderError::NotFound(_))));
    let (fresh, _, _) = store_with_trade("t1");
    let mut fresh = fresh;
    let (_, action) = step(&mut fresh, PayoutStep::Start, PayoutEvent::Begin);
    assert!(matches!(
        action,
        PayoutAction::Fail(OrderError::BadState(ref m)) if m == "missing buyer invoice"
    ));
}

#[test]
fn a_party_cancel_goes_through_the_hold_or_closes_the_window() {
    let (mut store, h, _) = store_with_trade("t1");
    let lister = CancelTradeBody { from: " Seller ".into() };
    let taker = CancelTradeBody { from: "taker".into() };
    assert_eq!(store.cancel_route("t1", &lister), Ok(CancelRoute::ReleaseHold));
    assert_eq!(store.cancel_route("t1", &taker), Ok(CancelRoute::ReleaseHold));
    assert_eq!(
        store.cancel_route("t1", &CancelTradeBody { from: "judge".into() }),
        Err(OrderError::BadState("from must be lister or taker".into()))
    );
    assert_eq!(
        store.cancel_route("nope", &taker),
        Err(OrderError::NotFound("trade nope not found".into()))
    );
    assert_eq!(
        store.record_window_closed("t1").err(),
        Some(OrderError::BadState("trade changed while closing the pay window".into()))
    );

    store.record_locked("t1", &h, "Received", pay_window(1_700_000_000)).unwrap();
    assert_eq!(store.cancel_route("t1", &taker), Ok(CancelRoute::CloseWindow));
    assert_eq!(
        store.cancel_route("t1", &lister),
        Err(OrderError::BadState(
            "cancel needs WaitingHold, or WaitingFiat from the taker, got WaitingFiat".into()
        ))
    );
    let closed = store.record_window_closed("t1").unwrap();
    assert_eq!(closed.state, OrderState::WaitingFiat);
    assert_eq!(closed.invoice_status.as_deref(), Some("Received"));
    let pay_by = closed.pay_by.clone().unwrap();
    assert_ne!(pay_by, "2023-11-14T22:28:20Z");
    assert!(chrono::DateTime::parse_from_rfc3339(&pay_by).is_ok());
    assert!(log_contains(&closed, "taker closed the pay window; hold stays Received"));
}
