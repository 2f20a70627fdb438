use twine_daemon::fiber::hold_invoice_request;
use twine_daemon::flow::pay_window;
use twine_daemon::market::{ad_is_shoppable, Ad, Market, MarketStore};
use twine_daemon::order::{
    http_error, CreateAdBody, CreateTradeBody, OrderError, OrderState, PayFailureMode, PostChatBody,
};

const SELLER: &str = "02aa";
const BUYER: &str = "03bb";

fn ad(available: &str, min: &str) -> Ad {
    Ad {
        id: "ad-1".into(),
        pubkey: "seller".into(),
        available: available.into(),
        currency: "NGN".into(),
        price: "2000".into(),
        min: min.into(),
        max: "4000".into(),
        payment_method: "Opay".into(),
        cancelled: false,
        open_trade_id: None,
    }
}

fn ad_body(available: &str, min: &str, max: &str) -> CreateAdBody {
    CreateAdBody {
        pubkey: SELLER.into(),
        available: available.into(),
        currency: Some("NGN".into()),
        price: "2000".into(),
        min: min.into(),
        max: max.into(),
        payment_method: "Opay".into(),
    }
}

fn take(ad_id: &str, pay: &str) -> CreateTradeBody {
    CreateTradeBody { ad_id: ad_id.into(), taker: BUYER.into(), pay_amount: pay.into() }
}

/// Creates the hold of the trade `id`; gives back its payment hash and preimage.
fn hold(store: &mut MarketStore, id: &str) -> (String, String) {
    let request = hold_invoice_request("1").unwrap();
    let (h, s) = (request.payment_hash(), request.preimage());
    store.record_hold(id, request, "fibt1hold".into(), "Open".into()).unwrap();
    (h, s)
}

fn listed(store: &MarketStore, id: &str) -> Option<String> {
    store.list_ads().into_iter().find(|a| a.id == id).map(|a| a.available)
}

#[test]
fn leftover_below_min_is_not_shoppable() {
    let market = Market::default();
    assert!(ad_is_shoppable(&market, &ad("1", "2000")));
    assert!(!ad_is_shoppable(&market, &ad("0.5", "2000")));
    assert!(!ad_is_shoppable(&market, &ad("0", "2000")));
}

#[test]
fn ad_reserve_blocks_second_take_and_returns_on_cancel() {
    let mut store = MarketStore::new();
    store.create_ad_with_id(&ad_body("1", "2000", "2000"), "ad1".into()).unwrap();
    let first = store.reserve_trade_with_id(&take("ad1", "2000"), "t1".into()).unwrap();
    assert_eq!(first.amount, "1");
    assert_eq!(listed(&store, "ad1"), None);
    assert_eq!(
        store.reserve_trade_with_id(&take("ad1", "2000"), "t2".into()).err(),
        Some(OrderError::AlreadyOpen)
    );

    hold(&mut store, "t1");
    let target = store.cancel_target("t1").unwrap();
    assert_eq!(target.state, OrderState::WaitingHold);
    let cancelled = store
        .record_cancelled("t1", None, &target.payment_hash, &target.ad_id, &target.amount)
        .unwrap();
    assert_eq!(cancelled.state, OrderState::Cancelled);
    assert_eq!(listed(&store, "ad1").as_deref(), Some("1"));

    store.reserve_trade_with_id(&take("ad1", "2000"), "t3".into()).unwrap();
    let (h3, _) = hold(&mut store, "t3");
    let second = store.get_trade("t3").unwrap();
    assert_eq!(second.state, OrderState::WaitingHold);
    assert_eq!(second.payment_hash, Some(h3));
    assert_eq!(listed(&store, "ad1"), None);
}

#[test]
fn range_take_locks_the_slice_and_hides_dust() {
    let mut store = MarketStore::new();
    assert!(matches!(
        store.create_ad_with_id(&ad_body("1", "3000", "4000"), "bad".into()),
        Err(OrderError::BadAmount(_))
    ));
    let created = store.create_ad_with_id(&ad_body("2", "2000", "3000"), "ad1".into()).unwrap();
    assert_eq!(created.min, "2000");
    assert_eq!(created.max, "3000");
    assert!(matches!(
        store.reserve_trade_with_id(&take("ad1", "1000"), "t0".into()),
        Err(OrderError::BadAmount(_))
    ));
    assert!(matches!(
        store.reserve_trade_with_id(&take("ad1", "4000"), "t0".into()),
        Err(OrderError::BadAmount(_))
    ));
    let first = store.reserve_trade_with_id(&take("ad1", "2000"), "t1".into()).unwrap();
    assert_eq!(first.amount, "1");
    assert_eq!(listed(&store, "ad1"), None);
    let (h1, _) = hold(&mut store, "t1");
    store.record_cancelled("t1", Some("Cancelled".into()), &h1, "ad1", "1").unwrap();
    assert_eq!(listed(&store, "ad1").as_deref(), Some("2"));
}

#[test]
fn take_errors_name_the_reason() {
    let mut store = MarketStore::new();
    store.create_ad_with_id(&ad_body("2", "2000", "3000"), "ad1".into()).unwrap();
    assert_eq!(
        store.reserve_trade_with_id(&take("nope", "2000"), "t1".into()).err(),
        Some(OrderError::NotFound("ad nope not found".into()))
    );
    let own = CreateTradeBody { ad_id: "ad1".into(), taker: " 0x02AA ".into(), pay_amount: "2000".into() };
    assert_eq!(
        store.reserve_trade_with_id(&own, "t1".into()).err(),
        Some(OrderError::BadState("taker must be a different user".into()))
    );
    assert_eq!(
        store.reserve_trade_with_id(&take("ad1", "1000"), "t1".into()).err(),
        Some(OrderError::BadAmount("take must be at least 2000 NGN".into()))
    );
    assert_eq!(
        store.reserve_trade_with_id(&take("ad1", "3500"), "t1".into()).err(),
        Some(OrderError::BadAmount("take must be at most 3000 NGN".into()))
    );
    let blank = CreateTradeBody { ad_id: "ad1".into(), taker: " ".into(), pay_amount: "2000".into() };
    assert_eq!(
        store.reserve_trade_with_id(&blank, "t1".into()).err(),
        Some(OrderError::BadState("taker is required".into()))
    );
    store.cancel_ad("ad1").unwrap();
    assert_eq!(
        store.reserve_trade_with_id(&take("ad1", "2000"), "t1".into()).err(),
        Some(OrderError::BadState("ad is cancelled".into()))
    );
}

#[test]
fn rollback_returns_the_slice() {
    let mut store = MarketStore::new();
    store.create_ad_with_id(&ad_body("1.5", "1000", "3000"), "ad1".into()).unwrap();
    let r = store.reserve_trade_with_id(&take("ad1", "1000"), "t1".into()).unwrap();
    assert_eq!(r.amount, "0.5");
    assert_eq!(r.listed_by, SELLER);
    store.rollback_trade(&r.trade_id, &r.ad_id, &r.amount).unwrap();
    assert_eq!(listed(&store, "ad1").as_deref(), Some("1.5"));
    assert!(store.get_trade("t1").is_err());
}

#[test]
fn settle_keeps_the_slice_and_frees_the_ad() {
    let mut store = MarketStore::new();
    store.create_ad_with_id(&ad_body("2", "2000", "2000"), "ad1".into()).unwrap();
    store.reserve_trade_with_id(&take("ad1", "2000"), "t1".into()).unwrap();
    hold(&mut store, "t1");
    let done = store.record_settled("t1", "Paid", PayFailureMode::Leg2Failed).unwrap();
    assert_eq!(done.state, OrderState::Settled);
    assert_eq!(done.invoice_status.as_deref(), Some("Paid"));
    assert_eq!(listed(&store, "ad1").as_deref(), Some("1"));

    store.create_ad_with_id(&ad_body("1.5", "2000", "2000"), "ad2".into()).unwrap();
    store.reserve_trade_with_id(&take("ad2", "2000"), "t2".into()).unwrap();
    store.record_settled("t2", "Paid", PayFailureMode::Leg2Failed).unwrap();
    assert_eq!(listed(&store, "ad2"), None);
}

#[test]
fn expiry_returns_the_slice() {
    let mut store = MarketStore::new();
    store.create_ad_with_id(&ad_body("2", "2000", "2000"), "ad1".into()).unwrap();
    store.reserve_trade_with_id(&take("ad1", "2000"), "t1".into()).unwrap();
    let (h1, _) = hold(&mut store, "t1");
    assert_eq!(store.watched_trade_ids(), vec!["t1".to_string()]);
    let expired = store.record_expired("t1", &h1, Some("settle refused".into())).unwrap();
    assert_eq!(expired.state, OrderState::Expired);
    assert!(expired.log.iter().any(|l| l.text.contains("settle refused")));
    assert_eq!(listed(&store, "ad1").as_deref(), Some("2"));
    let again = store.record_expired("t1", &h1, None).unwrap();
    assert_eq!(again.state, OrderState::Expired);
    assert_eq!(listed(&store, "ad1").as_deref(), Some("2"));
    assert!(store.watched_trade_ids().is_empty());
}

#[test]
fn trade_views_never_carry_the_preimage() {
    let mut store = MarketStore::new();
    store.create_ad_with_id(&ad_body("2", "2000", "2000"), "ad1".into()).unwrap();
    store.reserve_trade_with_id(&take("ad1", "2000"), "t1".into()).unwrap();
    let (h1, s1) = hold(&mut store, "t1");
    assert_eq!(store.persisted_preimage("t1"), Some(s1.clone()));
    let view = store.get_trade("t1").unwrap();
    assert_eq!(view.payment_hash, Some(h1));
    assert!(!format!("{:?}", view).contains(&s1[2..]));
    let mine = store.list_trades(Some(" 0x03BB "));
    assert_eq!(mine.len(), 1);
    assert!(store.list_trades(Some("04cc")).is_empty());
    assert_eq!(store.list_trades(None).len(), 1);
}

#[test]
fn chat_needs_a_fiat_window() {
    let mut store = MarketStore::new();
    store.create_ad_with_id(&ad_body("2", "2000", "2000"), "ad1".into()).unwrap();
    store.reserve_trade_with_id(&take("ad1", "2000"), "t1".into()).unwrap();
    let (h1, _) = hold(&mut store, "t1");
    let msg = PostChatBody { from: "buyer".into(), text: "hello".into() };
    assert!(matches!(store.post_chat("t1", &msg), Err(OrderError::BadState(_))));
    store.record_locked("t1", &h1, "Received", pay_window(1_700_000_000)).unwrap();
    let view = store.post_chat("t1", &msg).unwrap();
    assert_eq!(view.chat.len(), 1);
    assert_eq!(view.chat[0].from, "buyer");
    assert_eq!(view.chat[0].text, "hello");
}

#[test]
fn a_take_cannot_pay_for_more_than_the_ad_holds() {
    let stored = Ad {
        id: "ad1".into(),
        pubkey: SELLER.into(),
        available: "1".into(),
        currency: "NGN".into(),
        price: "3".into(),
        min: "1".into(),
        max: "10".into(),
        payment_method: "Opay".into(),
        cancelled: false,
        open_trade_id: None,
    };
    let mut store = MarketStore::from_parts(vec![stored], Vec::new());
    assert_eq!(
        store.reserve_trade_with_id(&take("ad1", "3.00000001"), "t1".into()).err(),
        Some(OrderError::BadAmount("not enough CKB available on this ad".into()))
    );
    let whole = store.reserve_trade_with_id(&take("ad1", "3"), "t1".into()).unwrap();
    assert_eq!(whole.amount, "1");

    store.create_ad_with_id(&ad_body("2", "1000", "4000"), "ad2".into()).unwrap();
    store.reserve_trade_with_id(&take("ad2", "3000"), "t2".into()).unwrap();
    store.record_settled("t2", "Paid", PayFailureMode::Leg2Failed).unwrap();
    assert_eq!(listed(&store, "ad2").as_deref(), Some("0.5"));
    assert_eq!(
        store.reserve_trade_with_id(&take("ad2", "2000"), "t3".into()).err(),
        Some(OrderError::BadAmount("not enough CKB available on this ad".into()))
    );
}

#[test]
fn refusals_answer_with_an_http_status() {
    assert_eq!(http_error(OrderError::BadAmount("x".into())), (400, "x".to_string()));
    assert_eq!(http_error(OrderError::BadState("y".into())), (400, "y".to_string()));
    assert_eq!(http_error(OrderError::AlreadyOpen), (409, "an order is already open".to_string()));
    assert_eq!(http_error(OrderError::NotFound("z".into())), (404, "z".to_string()));
    assert_eq!(http_error(OrderError::Fiber("f".into())), (502, "f".to_string()));
    assert_eq!(http_error(OrderError::Save("s".into())), (500, "s".to_string()));
}
