//! Properties of the ad book that span several operations: what a take
//! reserves, what the end of its trade gives back, what stays hidden, that
//! the preimage stays sealed to its hash, and that a payout settles the hold
//! only after the buyer was paid.

use vstd::prelude::*;

use crate::amount::{ckb_for_fiat, formatted_decimal, law_format_then_parse, parsed_decimal};
use crate::fiber::payment_outcome;
use crate::flow::{
    becomes, byte_len, chat_outcome, expiry_ends, expiry_target_of, freed_ad, seals_holds,
};
use crate::fiber::sealed_pair;
use crate::payout::{payout_next, plan_of, ActionModel, EventModel, StepModel};
use crate::market::{
    ad_terms, amount_field, currency_of, distinct_ad_ids, distinct_trade_ids, fills_min,
    has_open_trade, involves, new_trade, required_text, reserved_ad, returned_ckb, shoppable,
    take_terms, trades_by_id, wanted_key, watched_ids, Ad, AdModel, MarketStore,
};
use crate::order::{
    is_open_state, party_name, party_of, public_view, pubkey_key, state_text, CreateAdBody,
    CreateTradeBody, ErrorModel, OrderState, Trade, TradeModel,
};
use crate::text::trim;

verus! {

/// One open trade per ad: once a take has reserved an ad, every other take
/// of that ad is refused (as `AlreadyOpen` when the take itself is well
/// formed) and the ad is off the book while the trade is open.
pub proof fn law_one_open_trade_per_ad(
    ads: Map<Seq<char>, AdModel>,
    trades: Map<Seq<char>, TradeModel>,
    body: CreateTradeBody,
    trade_id: Seq<char>,
    other: CreateTradeBody,
)
    requires
        take_terms(ads, trades, &body) is Ok,
        other.ad_id@ == body.ad_id@,
    ensures
        ({
            let t = take_terms(ads, trades, &body)->Ok_0;
            let ads1 = ads.insert(body.ad_id@, reserved_ad(t, trade_id));
            let trades1 = trades.insert(trade_id, new_trade(trade_id, t));
            &&& !shoppable(trades1, ads1[body.ad_id@])
            &&& take_terms(ads1, trades1, &other) is Err
            &&& (required_text(other.taker@, "taker"@) is Ok && amount_field(other.pay_amount@) is Ok)
                ==> take_terms(ads1, trades1, &other) == Err::<crate::market::TakeTerms, ErrorModel>(
                ErrorModel::AlreadyOpen,
            )
        }),
{
    let t = take_terms(ads, trades, &body)->Ok_0;
    assert(t.ad == ads[body.ad_id@]);
    assert(!t.ad.cancelled);
    let ads1 = ads.insert(body.ad_id@, reserved_ad(t, trade_id));
    let trades1 = trades.insert(trade_id, new_trade(trade_id, t));
    assert(is_open_state(OrderState::Pending));
    assert(has_open_trade(trades1, ads1[body.ad_id@]));
}

/// A take reserves exactly its slice: `amount = pay / price` CKB (rounded
/// down to whole shannon) leaves the ad, and what the ad keeps plus the slice
/// is what it held before.
pub proof fn law_take_reserves_its_slice(
    ads: Map<Seq<char>, AdModel>,
    trades: Map<Seq<char>, TradeModel>,
    body: CreateTradeBody,
)
    requires
        take_terms(ads, trades, &body) is Ok,
    ensures
        ({
            let t = take_terms(ads, trades, &body)->Ok_0;
            let held = parsed_decimal(ads[body.ad_id@].available);
            let pay = parsed_decimal(t.pay_amount);
            let price = parsed_decimal(t.ad.price);
            &&& held is Ok && pay is Ok && price is Ok && price->Ok_0 > 0
            &&& parsed_decimal(t.amount) == Ok::<u128, Seq<char>>(
                ((pay->Ok_0 * 100_000_000) / (price->Ok_0 as int)) as u128,
            )
            &&& parsed_decimal(t.remaining) is Ok
            &&& parsed_decimal(t.remaining)->Ok_0 + parsed_decimal(t.amount)->Ok_0 == held->Ok_0
        }),
{
    let t = take_terms(ads, trades, &body)->Ok_0;
    let ad = ads[body.ad_id@];
    assert(t.ad == ad);
    let l = parsed_decimal(ad.available)->Ok_0;
    assert(parsed_decimal(ad.available) is Ok);
    assert(parsed_decimal(t.pay_amount) is Ok);
    assert(parsed_decimal(ad.price) is Ok);
    let f = parsed_decimal(t.pay_amount)->Ok_0;
    let p = parsed_decimal(ad.price)->Ok_0;
    let q = (f * 100_000_000) / (p as int);
    assert(t.amount == formatted_decimal(q as nat));
    law_format_then_parse(q as u128);
    let r = parsed_decimal(t.amount)->Ok_0;
    assert(r <= l);
    assert(t.remaining == formatted_decimal((l - r) as nat));
    law_format_then_parse((l - r) as u128);
}

/// CKB that a take reserved comes back in full when its trade ends without a
/// settle (cancelled, expired, or rolled back): returning the trade's amount
/// to the trade's ad leaves that ad with the same amount as before the take,
/// and no trade.
pub proof fn law_returned_take_restores_ad(
    ads: Map<Seq<char>, AdModel>,
    trades: Map<Seq<char>, TradeModel>,
    body: CreateTradeBody,
    trade_id: Seq<char>,
)
    requires
        take_terms(ads, trades, &body) is Ok,
        ads[body.ad_id@].id == body.ad_id@,
    ensures
        ({
            let t = take_terms(ads, trades, &body)->Ok_0;
            let trade = new_trade(trade_id, t);
            let ad = ads[body.ad_id@];
            let ads1 = ads.insert(body.ad_id@, reserved_ad(t, trade_id));
            let back = returned_ckb(ads1, trade.ad_id, trade_id, trade.amount);
            &&& back is Ok
            &&& back->Ok_0 == ads.insert(
                body.ad_id@,
                AdModel { available: back->Ok_0[body.ad_id@].available, open_trade_id: None, ..ad },
            )
            &&& parsed_decimal(back->Ok_0[body.ad_id@].available) == parsed_decimal(ad.available)
        }),
{
    let t = take_terms(ads, trades, &body)->Ok_0;
    let ad = ads[body.ad_id@];
    assert(t.ad == ad);
    let l = parsed_decimal(ad.available)->Ok_0;
    let r = parsed_decimal(t.amount)->Ok_0;
    assert(parsed_decimal(ad.available) is Ok);
    assert(parsed_decimal(t.amount) is Ok);
    assert(r <= l);
    assert(t.remaining == formatted_decimal((l - r) as nat));
    law_format_then_parse((l - r) as u128);
    law_format_then_parse(l);
    let ads1 = ads.insert(body.ad_id@, reserved_ad(t, trade_id));
    let ads2 = returned_ckb(ads1, body.ad_id@, trade_id, t.amount)->Ok_0;
    assert(ads2 == ads.insert(
        body.ad_id@,
        AdModel { available: formatted_decimal(l as nat), open_trade_id: None, ..ad },
    ));
}

/// A take that ends without a settle puts its ad back: once the trade is
/// over (`ended` is not an open state) and its CKB is returned, the ad is on
/// the book exactly when it was before the take, and the same take can be
/// made again, for the same slice.
pub proof fn law_ended_take_reopens_ad(
    ads: Map<Seq<char>, AdModel>,
    trades: Map<Seq<char>, TradeModel>,
    body: CreateTradeBody,
    trade_id: Seq<char>,
    ended: OrderState,
)
    requires
        take_terms(ads, trades, &body) is Ok,
        ads[body.ad_id@].id == body.ad_id@,
        !is_open_state(ended),
    ensures
        ({
            let t = take_terms(ads, trades, &body)->Ok_0;
            let trade = new_trade(trade_id, t);
            let ads1 = ads.insert(body.ad_id@, reserved_ad(t, trade_id));
            let back = returned_ckb(ads1, trade.ad_id, trade_id, trade.amount)->Ok_0;
            let trades2 = trades.insert(trade_id, TradeModel { state: ended, ..trade });
            &&& shoppable(trades2, back[body.ad_id@]) == shoppable(trades, ads[body.ad_id@])
            &&& take_terms(back, trades2, &body) is Ok
            &&& take_terms(back, trades2, &body)->Ok_0.amount == t.amount
            &&& take_terms(back, trades2, &body)->Ok_0.remaining == t.remaining
        }),
{
    law_returned_take_restores_ad(ads, trades, body, trade_id);
    let t = take_terms(ads, trades, &body)->Ok_0;
    let ad = ads[body.ad_id@];
    assert(t.ad == ad);
    assert(!has_open_trade(trades, ad));
}

/// Rolling back a take whose hold could not be created forgets its trade:
/// with a fresh trade id, the trades are exactly those before the take.
pub proof fn law_rollback_forgets_trade(
    ads: Map<Seq<char>, AdModel>,
    trades: Map<Seq<char>, TradeModel>,
    body: CreateTradeBody,
    trade_id: Seq<char>,
)
    requires
        take_terms(ads, trades, &body) is Ok,
        !trades.contains_key(trade_id),
    ensures
        trades.insert(trade_id, new_trade(trade_id, take_terms(ads, trades, &body)->Ok_0)).remove(
            trade_id,
        ) == trades,
{
    let t = take_terms(ads, trades, &body)->Ok_0;
    assert(trades.insert(trade_id, new_trade(trade_id, t)).remove(trade_id) =~= trades);
}

/// A settle keeps the sold slice out of the ad and frees it: the ad is back
/// on the book exactly when it is not cancelled and its leftover still
/// covers the minimum take.
pub proof fn law_settle_keeps_slice_and_frees_ad(
    ads: Map<Seq<char>, AdModel>,
    trades: Map<Seq<char>, TradeModel>,
    ad_id: Seq<char>,
    trade_id: Seq<char>,
)
    requires
        ads.contains_key(ad_id),
        ads[ad_id].open_trade_id == Some(trade_id),
    ensures
        freed_ad(ads, ad_id, trade_id)[ad_id] == (AdModel { open_trade_id: None, ..ads[ad_id] }),
        shoppable(trades, freed_ad(ads, ad_id, trade_id)[ad_id]) == (!ads[ad_id].cancelled
            && fills_min(ads[ad_id])),
{
}

/// What the trade list shows of a trade never depends on its preimage.
pub proof fn law_view_hides_preimage(t: TradeModel, preimage: Option<Seq<char>>)
    ensures
        public_view(TradeModel { payment_preimage: preimage, ..t }) == public_view(t),
{
}

/// Leg 2 comes first: the wait for the payment to the buyer ends well (and
/// the settle may follow) only when the payment reports `Success`.
pub proof fn law_settle_only_after_success(
    status: Seq<char>,
    failed_error: Option<Seq<char>>,
    payment_hash: Seq<char>,
    timed_out: bool,
)
    ensures
        payment_outcome(status, failed_error, payment_hash, timed_out) is Done <==> status
            == "Success"@,
{
}

/// A change of one trade that keeps its preimage and payment hash keeps every
/// stored preimage sealed to its hash.
pub proof fn law_update_keeps_seal(
    trades: Map<Seq<char>, TradeModel>,
    id: Seq<char>,
    changed: TradeModel,
)
    requires
        seals_holds(trades),
        trades.contains_key(id),
        changed.payment_preimage == trades[id].payment_preimage,
        changed.payment_hash == trades[id].payment_hash,
    ensures
        seals_holds(trades.insert(id, changed)),
{
    let n = trades.insert(id, changed);
    assert forall|k: Seq<char>|
        #[trigger] n.contains_key(k) && n[k].payment_preimage is Some implies n[k].payment_hash is Some
            && crate::fiber::sealed_pair(n[k].payment_preimage->Some_0, n[k].payment_hash->Some_0) by {
        assert(trades.contains_key(k));
    }
}

/// The steps of a trade after its hold (lock, cancel, proof, release, retry,
/// dispute, chat, awards, payout, settle, expiry) change a trade as `becomes`
/// says with its preimage and payment hash unchanged, so `S` stays sealed to
/// `H` for every trade of the book.
pub proof fn law_steps_keep_seal(
    old_trades: Map<Seq<char>, TradeModel>,
    new_trades: Map<Seq<char>, TradeModel>,
    id: Seq<char>,
    fields: TradeModel,
    texts: Seq<Seq<char>>,
)
    requires
        seals_holds(old_trades),
        old_trades.contains_key(id),
        becomes(old_trades, new_trades, id, fields, texts),
        fields.payment_preimage == old_trades[id].payment_preimage,
        fields.payment_hash == old_trades[id].payment_hash,
    ensures
        seals_holds(new_trades),
{
    law_update_keeps_seal(old_trades, id, new_trades[id]);
}

/// A new take holds no preimage yet, and removing a trade removes its pair:
/// neither breaks the seal of the other trades.
pub proof fn law_take_and_rollback_keep_seal(
    ads: Map<Seq<char>, AdModel>,
    trades: Map<Seq<char>, TradeModel>,
    body: CreateTradeBody,
    trade_id: Seq<char>,
)
    requires
        seals_holds(trades),
        take_terms(ads, trades, &body) is Ok,
    ensures
        seals_holds(trades.insert(trade_id, new_trade(trade_id, take_terms(ads, trades, &body)->Ok_0))),
        seals_holds(trades.remove(trade_id)),
{
    let n = trades.insert(trade_id, new_trade(trade_id, take_terms(ads, trades, &body)->Ok_0));
    assert forall|k: Seq<char>|
        #[trigger] n.contains_key(k) && n[k].payment_preimage is Some implies n[k].payment_hash is Some
            && crate::fiber::sealed_pair(n[k].payment_preimage->Some_0, n[k].payment_hash->Some_0) by {
        assert(trades.contains_key(k));
    }
    let m = trades.remove(trade_id);
    assert forall|k: Seq<char>|
        #[trigger] m.contains_key(k) && m[k].payment_preimage is Some implies m[k].payment_hash is Some
            && crate::fiber::sealed_pair(m[k].payment_preimage->Some_0, m[k].payment_hash->Some_0) by {
        assert(trades.contains_key(k));
    }
}

/// Saving the book and loading it back keeps each stored preimage `S` sealed
/// to its trade's payment hash `H = SHA256(S)`: the trades rebuilt from the
/// saved records seal their holds as the book did, and the trade `id` comes
/// back with the same `S` and `H`.
pub proof fn law_reload_keeps_seal(book: MarketStore, ads: Seq<Ad>, trades: Seq<Trade>, id: Seq<char>)
    requires
        seals_holds(book.trades()),
        distinct_ad_ids(ads),
        distinct_trade_ids(trades),
        forall|i: int|
            0 <= i < ads.len() ==> book.ads().contains_key((#[trigger] ads[i]).id@) && book.ads()[ads[i].id@]
                == ads[i].model(),
        forall|k: Seq<char>| #[trigger] book.ads().contains_key(k) ==> exists|i: int| 0 <= i < ads.len() && ads[i].id@ == k,
        forall|i: int|
            0 <= i < trades.len() ==> book.trades().contains_key((#[trigger] trades[i]).id@)
                && book.trades()[trades[i].id@] == trades[i].model(),
        forall|k: Seq<char>| #[trigger] book.trades().contains_key(k) ==> exists|i: int| 0 <= i < trades.len() && trades[i].id@ == k,
    ensures
        seals_holds(trades_by_id(trades)),
        book.trades().contains_key(id) && book.trades()[id].payment_preimage is Some ==> ({
            let back = trades_by_id(trades)[id];
            &&& back.payment_preimage == book.trades()[id].payment_preimage
            &&& back.payment_hash == book.trades()[id].payment_hash
            &&& sealed_pair(back.payment_preimage->Some_0, back.payment_hash->Some_0)
        }),
{
    book.law_reload_keeps_book(ads, trades);
}

/// Leg 2 comes first: paying out asks for `settle_invoice(H, S)` only right
/// after `get_payment` reported `Success` for the payment to the buyer, and
/// then with the `H` and `S` of the payout's own plan. A refused
/// `send_payment`, a failed payment or one still in flight never leads to
/// the settle.
pub proof fn law_payout_settles_only_after_success(
    trades: Map<Seq<char>, TradeModel>,
    id: Seq<char>,
    step: StepModel,
    event: EventModel,
)
    ensures
        payout_next(trades, id, step, event).1 is SettleInvoice ==> {
            &&& step matches StepModel::AwaitPayment(p, _)
            &&& event matches EventModel::PaymentReply(Ok(rep))
            &&& rep.0 == "Success"@
            &&& payout_next(trades, id, step, event).1 == ActionModel::SettleInvoice(
                p.hold_hash,
                p.hold_preimage,
            )
        },
{
}

/// A payout ends `Settled` only when, after the settle was submitted, the
/// hold invoice reports `Paid`.
pub proof fn law_payout_settled_only_when_paid(
    trades: Map<Seq<char>, TradeModel>,
    id: Seq<char>,
    step: StepModel,
    event: EventModel,
)
    ensures
        payout_next(trades, id, step, event).2 is Settled ==> {
            &&& step is AwaitPaid
            &&& event matches EventModel::InvoiceReply(Ok(rep))
            &&& rep.0 == "Paid"@
        },
{
}

/// A payout pays with the trade's own hold: the plan it starts with is the
/// trade's payment hash `H`, preimage `S` and buyer invoice, and where every
/// stored preimage is sealed, `H = SHA256(S)` for that plan.
pub proof fn law_payout_plan_is_the_trades_hold(
    trades: Map<Seq<char>, TradeModel>,
    id: Seq<char>,
)
    ensures
        payout_next(trades, id, StepModel::Start, EventModel::Begin).0 matches StepModel::AwaitSend(p)
            ==> p == plan_of(trades[id]) && (seals_holds(trades) ==> sealed_pair(
            p.hold_preimage,
            p.hold_hash,
        )),
{
}

/// Path D covers every hold that can still expire, the buyer who never pays
/// included: a trade in `Held`, `WaitingHold`, `WaitingFiat` (hold
/// `Received`, no fiat yet), `FiatSent`, `Releasing`, `Leg2Failed` or
/// `Disputed` is watched, its hold hash is the one checked, and recording
/// the expiry ends it (and returns its CKB). A trade in any other state is
/// not watched, and recording an expiry leaves it as it is.
pub proof fn law_live_holds_are_watched_for_expiry(trades: Map<Seq<char>, TradeModel>, id: Seq<char>)
    requires
        trades.contains_key(id),
    ensures
        ({
            let s = trades[id].state;
            let live = s == OrderState::Held || s == OrderState::WaitingHold || s
                == OrderState::WaitingFiat || s == OrderState::FiatSent || s == OrderState::Releasing
                || s == OrderState::Leg2Failed || s == OrderState::Disputed;
            &&& watched_ids(trades).contains(id) == live
            &&& expiry_target_of(trades, id) == if live {
                trades[id].payment_hash
            } else {
                None
            }
            &&& expiry_ends(trades, id) == live
        }),
{
}

/// The parties chat exactly while the trade is in `WaitingFiat`, `FiatSent`,
/// `Leg2Failed` or `Disputed`: a well-formed message on such a trade is
/// appended with the sender's name and the trimmed text, and on a trade in
/// any other state it is refused, naming the state.
pub proof fn law_chat_while_fiat_or_dispute(
    trades: Map<Seq<char>, TradeModel>,
    id: Seq<char>,
    from: Seq<char>,
    text: Seq<char>,
)
    requires
        trades.contains_key(id),
        party_of(from) is Some,
        trim(text).len() > 0,
        byte_len(trim(text)) <= 500,
    ensures
        ({
            let s = trades[id].state;
            let open = s == OrderState::WaitingFiat || s == OrderState::FiatSent || s
                == OrderState::Leg2Failed || s == OrderState::Disputed;
            &&& open ==> chat_outcome(trades, id, from, text) == Ok::<
                (Seq<char>, Seq<char>),
                ErrorModel,
            >((party_name(from), trim(text)))
            &&& !open ==> chat_outcome(trades, id, from, text) == Err::<
                (Seq<char>, Seq<char>),
                ErrorModel,
            >(ErrorModel::BadState("post chat needs an open trade, got "@ + state_text(s)))
        }),
{
}

/// A created ad can always serve its takes: `min` is at most `max`, and
/// both `min / price` and `max / price`, in CKB, are at most `available`.
pub proof fn law_created_ad_takes_fit(body: CreateAdBody)
    ensures
        ad_terms(&body) is Ok ==> ({
            let t = ad_terms(&body)->Ok_0;
            let available = parsed_decimal(t.available);
            let min_ckb = ckb_for_fiat(t.min, t.price);
            let max_ckb = ckb_for_fiat(t.max, t.price);
            &&& available is Ok && min_ckb is Ok && max_ckb is Ok
            &&& parsed_decimal(t.min) is Ok && parsed_decimal(t.max) is Ok
            &&& parsed_decimal(t.min)->Ok_0 <= parsed_decimal(t.max)->Ok_0
            &&& parsed_decimal(min_ckb->Ok_0) is Ok
            &&& parsed_decimal(min_ckb->Ok_0)->Ok_0 <= available->Ok_0
            &&& parsed_decimal(max_ckb->Ok_0) is Ok
            &&& parsed_decimal(max_ckb->Ok_0)->Ok_0 <= available->Ok_0
        }),
{
}

/// An ad whose largest take is worth more CKB than it holds is refused:
/// when every field is given and parses, `min` is at most `max` and
/// `min / price` fits `available`, but `max / price` exceeds `available`,
/// creating the ad fails with "max take is larger than available".
pub proof fn law_ad_refused_when_max_exceeds_available(body: CreateAdBody)
    requires
        required_text(body.pubkey@, "pubkey"@) is Ok,
        required_text(body.payment_method@, "payment_method"@) is Ok,
        amount_field(body.available@) is Ok,
        amount_field(body.price@) is Ok,
        amount_field(body.min@) is Ok,
        amount_field(body.max@) is Ok,
        ({
            let available = amount_field(body.available@)->Ok_0;
            let price = amount_field(body.price@)->Ok_0;
            let min = amount_field(body.min@)->Ok_0;
            let max = amount_field(body.max@)->Ok_0;
            let min_ckb = ckb_for_fiat(min, price);
            let max_ckb = ckb_for_fiat(max, price);
            &&& parsed_decimal(available) is Ok && parsed_decimal(min) is Ok && parsed_decimal(max) is Ok
            &&& parsed_decimal(min)->Ok_0 <= parsed_decimal(max)->Ok_0
            &&& min_ckb is Ok && parsed_decimal(min_ckb->Ok_0) is Ok
            &&& parsed_decimal(min_ckb->Ok_0)->Ok_0 <= parsed_decimal(available)->Ok_0
            &&& max_ckb is Ok && parsed_decimal(max_ckb->Ok_0) is Ok
            &&& parsed_decimal(max_ckb->Ok_0)->Ok_0 > parsed_decimal(available)->Ok_0
        }),
    ensures
        ad_terms(&body) == Err::<crate::market::AdTerms, ErrorModel>(
            ErrorModel::BadAmount("max take is larger than available"@),
        ),
{
}

/// Only an ended trade lets go of its ad: while the trade that holds an ad
/// is in any state but `Idle`, `Cancelled`, `Paid`, `Settled` or `Expired`
/// (`Disputed` included), the ad has an open trade, is off the book, and a
/// well-formed take of it is refused with `AlreadyOpen`; in one of those
/// five states the trade holds the ad no more.
pub proof fn law_open_trade_keeps_its_ad(
    ads: Map<Seq<char>, AdModel>,
    trades: Map<Seq<char>, TradeModel>,
    body: CreateTradeBody,
    holder: Seq<char>,
)
    requires
        ads.contains_key(body.ad_id@),
        ads[body.ad_id@].open_trade_id == Some(holder),
        trades.contains_key(holder),
    ensures
        ({
            let s = trades[holder].state;
            let ended = s == OrderState::Idle || s == OrderState::Cancelled || s == OrderState::Paid
                || s == OrderState::Settled || s == OrderState::Expired;
            let ad = ads[body.ad_id@];
            &&& has_open_trade(trades, ad) == !ended
            &&& !ended ==> !shoppable(trades, ad)
            &&& (!ended && !ad.cancelled && required_text(body.taker@, "taker"@) is Ok && amount_field(
                body.pay_amount@,
            ) is Ok) ==> take_terms(ads, trades, &body) == Err::<crate::market::TakeTerms, ErrorModel>(
                ErrorModel::AlreadyOpen,
            )
        }),
{
}

/// A user's trade list holds every trade the user is a party to, as lister
/// or as taker: for a key `p` that is not blank, a trade is listed exactly
/// when its lister's key or its taker's key equals `p`, both normalized;
/// with no key, every trade is listed.
pub proof fn law_trade_list_holds_both_parties(t: TradeModel, p: Seq<char>)
    ensures
        pubkey_key(p).len() > 0 ==> (involves(t, wanted_key(Some(p))) <==> (pubkey_key(t.pubkey)
            == pubkey_key(p) || pubkey_key(t.taker) == pubkey_key(p))),
        involves(t, wanted_key(None)),
{
}

} // verus!
