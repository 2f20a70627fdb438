//! The steps of a trade between its reservation and its end: the hold
//! invoice, the lock, cancelling, the fiat proof, release and retry, the
//! payment to the buyer and the settle, disputes and awards, and expiry.
//! Each step reads or records; the calls to the Fiber node happen between them.

use vstd::prelude::*;

use crate::market::{not_found, require_text, required_text, returned_ckb, MarketStore};
use crate::order::{
    chat_allowed, decode_payment_proof, is_clock_text, log_appended, party_of, proof_outcome, public_view,
    state_name, state_text, watches_hold, BuyerInvoiceBody, ErrorModel, FiatSentBody,
    OpenDisputeBody, OrderError, OrderState, PayFailureMode, PostChatBody, ProofMeta, ProofModel,
    Trade, TradeModel, TradeView, party_from, party_name, texts_of, timestamp, CancelTradeBody,
};
use crate::fiber::{sealed_pair, HoldRequest};
use crate::outside::{clock_seconds, rfc3339_at, rfc3339_of};
use crate::text::{chars_of, concat, lower_chars, owned, string_of, text_is, trim, trim_chars, seq_lt};

verus! {

/// `new` is `old` with the trade `id` changed to `fields`, its log extended by `texts`.
pub open spec fn becomes(
    old: Map<Seq<char>, TradeModel>,
    new: Map<Seq<char>, TradeModel>,
    id: Seq<char>,
    fields: TradeModel,
    texts: Seq<Seq<char>>,
) -> bool {
    &&& new.contains_key(id)
    &&& new == old.insert(id, new[id])
    &&& new[id] == (TradeModel { log: new[id].log, ..fields })
    &&& log_appended(fields.log, new[id].log, texts)
}

pub open spec fn missing_trade(id: Seq<char>) -> ErrorModel {
    not_found("trade "@, id)
}

fn trade_not_found(id: &str) -> (r: OrderError)
    ensures
        r.model() == missing_trade(id@),
{
    let mut m = owned("trade ");
    m.append(id);
    m.append(" not found");
    OrderError::NotFound(m)
}

/// The error for a trade `id` with no stored payment proof.
pub fn missing_proof(id: &str) -> (r: OrderError)
    ensures
        r.model() == not_found("proof for trade "@, id@),
{
    OrderError::NotFound(join3("proof for trade ", id, " not found"))
}

/// `a`, `b` and `c` in one text.
fn join3(a: &str, b: &str, c: &str) -> (r: String)
    ensures
        r@ == a@ + b@ + c@,
{
    let mut m = owned(a);
    m.append(b);
    m.append(c);
    m
}

/// `a` to `e` in one text.
fn join5(a: &str, b: &str, c: &str, d: &str, e: &str) -> (r: String)
    ensures
        r@ == a@ + b@ + c@ + d@ + e@,
{
    let mut m = owned(a);
    m.append(b);
    m.append(c);
    m.append(d);
    m.append(e);
    m
}

/// How long the buyer has to pay once the seller locked the hold: 15 minutes.
pub const PAY_WINDOW_SECS: i64 = 900;

/// When the seller accepted an order and when the buyer's pay window closes.
#[derive(Debug)]
pub struct PayWindow {
    pub accept_by: Option<String>,
    pub pay_by: Option<String>,
}

/// The time `secs` after 1970, or `None` where it falls outside `i64` seconds
/// or outside what chrono can write.
pub open spec fn time_text(secs: int) -> Option<Seq<char>> {
    if i64::MIN <= secs <= i64::MAX {
        rfc3339_of(secs as i64)
    } else {
        None
    }
}

/// The acceptance time and the end of the pay window of a lock at `now`.
pub open spec fn window_at(now: i64) -> (Option<Seq<char>>, Option<Seq<char>>) {
    (time_text(now as int), time_text(now + PAY_WINDOW_SECS))
}

/// The pay window of a lock at `locked_at` seconds after 1970: accepted then,
/// to be paid within `PAY_WINDOW_SECS`.
pub fn pay_window(locked_at: i64) -> (r: PayWindow)
    ensures
        crate::order::opt_text(r.accept_by) == time_text(locked_at as int),
        crate::order::opt_text(r.pay_by) == time_text(locked_at + PAY_WINDOW_SECS),
{
    let accept_by = rfc3339_at(locked_at);
    let pay_by = match locked_at.checked_add(PAY_WINDOW_SECS) {
        Some(end) => rfc3339_at(end),
        None => None,
    };
    PayWindow { accept_by, pay_by }
}

/// The pay window of a lock taken now, at a time read from the clock.
pub fn pay_window_now() -> (r: PayWindow)
    ensures
        exists|now: i64|
            #[trigger] window_at(now) == (
                crate::order::opt_text(r.accept_by),
                crate::order::opt_text(r.pay_by),
            ) && rfc3339_of(now) is Some,
{
    let now = clock_seconds();
    let r = pay_window(now);
    assert(window_at(now) == (crate::order::opt_text(r.accept_by), crate::order::opt_text(r.pay_by)));
    r
}

/// How a party's cancel of a trade goes on.
#[derive(Debug, PartialEq, Eq, Structural)]
pub enum CancelRoute {
    /// Cancel through the hold invoice, which must still be `Open`.
    ReleaseHold,
    /// The taker closes the pay window; the hold stays `Received`.
    CloseWindow,
}

/// The way a cancel by `from` of the trade `id` goes, or why it is refused.
pub open spec fn cancel_route_of(
    trades: Map<Seq<char>, TradeModel>,
    id: Seq<char>,
    from: Seq<char>,
) -> Result<CancelRoute, ErrorModel> {
    match party_of(from) {
        None => Err(ErrorModel::BadState("from must be lister or taker"@)),
        Some(p) => if !trades.contains_key(id) {
            Err(missing_trade(id))
        } else if trades[id].state == OrderState::WaitingHold {
            Ok(CancelRoute::ReleaseHold)
        } else if trades[id].state == OrderState::WaitingFiat && p == "taker"@ {
            Ok(CancelRoute::CloseWindow)
        } else {
            Err(
                ErrorModel::BadState(
                    "cancel needs WaitingHold, or WaitingFiat from the taker, got "@ + state_text(
                        trades[id].state,
                    ),
                ),
            )
        },
    }
}

/// The log line of a pay window closed by the taker.
pub open spec fn window_closed_line() -> Seq<char> {
    "taker closed the pay window; hold stays Received (cancel_invoice not called; the seller is refunded when the TLC expires)"@
}

/// The hold hash checked for the expiry of the trade `id`: the trade's hash
/// while its hold may still expire and it has not expired yet.
pub open spec fn expiry_target_of(trades: Map<Seq<char>, TradeModel>, id: Seq<char>) -> Option<Seq<char>> {
    if trades.contains_key(id) && trades[id].state != OrderState::Expired && watches_hold(
        trades[id].state,
    ) {
        trades[id].payment_hash
    } else {
        None
    }
}

/// Recording the expiry of the trade `id` ends it: it exists, has not
/// expired yet, and its hold may still expire.
pub open spec fn expiry_ends(trades: Map<Seq<char>, TradeModel>, id: Seq<char>) -> bool {
    trades.contains_key(id) && trades[id].state != OrderState::Expired && watches_hold(
        trades[id].state,
    )
}

/// What posting `text` from `from` on the trade `id` gives: the sender's
/// name and the trimmed text of the new message, or the refusal.
pub open spec fn chat_outcome(
    trades: Map<Seq<char>, TradeModel>,
    id: Seq<char>,
    from: Seq<char>,
    text: Seq<char>,
) -> Result<(Seq<char>, Seq<char>), ErrorModel> {
    if party_of(from) is None {
        Err(ErrorModel::BadState("from must be lister or taker"@))
    } else if trim(text).len() == 0 {
        Err(ErrorModel::BadState("chat text is required"@))
    } else if byte_len(trim(text)) > 500 {
        Err(ErrorModel::BadState("chat text must be at most 500 characters"@))
    } else if !trades.contains_key(id) {
        Err(missing_trade(id))
    } else if !chat_allowed(trades[id].state) {
        Err(ErrorModel::BadState("post chat needs an open trade, got "@ + state_text(trades[id].state)))
    } else {
        Ok((party_name(from), trim(text)))
    }
}

/// What the trade of a try to cancel is.
#[derive(Debug)]
pub struct CancelTarget {
    pub state: OrderState,
    pub payment_hash: String,
    pub amount: String,
    pub ad_id: String,
}

/// A checked payment proof, ready to be stored.
#[derive(Debug)]
pub struct FiatProof {
    pub invoice: String,
    pub content_type: String,
    pub data: Vec<u8>,
}

/// A checked request to open a dispute.
#[derive(Debug)]
pub struct DisputeTarget {
    pub from: String,
    pub reason: String,
    pub payment_hash: String,
}

/// What paying the buyer and settling the hold need.
#[derive(Debug)]
pub struct PayoutPlan {
    pub hold_hash: String,
    pub hold_preimage: String,
    pub buyer_invoice: String,
}

/// The log lines that record a newly created hold.
pub open spec fn hold_created_lines(
    t: TradeModel,
    payment_hash: Seq<char>,
    address: Seq<char>,
    status: Seq<char>,
) -> Seq<Seq<char>> {
    seq![
        "created trade for "@ + t.amount + " CKB ("@ + t.pay_amount + " "@ + t.currency + " at "@
            + t.price + " "@ + t.currency + "/CKB); listed by "@ + t.pubkey,
        "hold invoice created H="@ + payment_hash
            + " final_expiry_delta=57600000ms (0x36ee800) S sealed in daemon (never sent to app)"@,
        "invoice address "@ + address,
        "invoice status "@ + status,
    ]
}

/// Every trade that holds a preimage `S` also holds its payment hash, and
/// `H = SHA256(S)` for them.
pub open spec fn seals_holds(trades: Map<Seq<char>, TradeModel>) -> bool {
    forall|k: Seq<char>|
        #[trigger] trades.contains_key(k) && trades[k].payment_preimage is Some ==> trades[k].payment_hash is Some
            && sealed_pair(trades[k].payment_preimage->Some_0, trades[k].payment_hash->Some_0)
}

impl MarketStore {
    /// Records the hold invoice created for the trade `trade_id` at
    /// `address`, with the node's `status`; the trade then waits for the
    /// seller to lock it. The preimage stored is sealed to the payment hash.
    pub fn record_hold(
        &mut self,
        trade_id: &str,
        request: HoldRequest,
        address: String,
        status: String,
    ) -> (r: Result<TradeView, OrderError>)
        requires
            old(self).wf(),
        ensures
            final(self).wf(),
            final(self).ads() == old(self).ads(),
            seals_holds(old(self).trades()) ==> seals_holds(final(self).trades()),
            old(self).trades().contains_key(trade_id@) ==> sealed_pair(
                final(self).trades()[trade_id@].payment_preimage->Some_0,
                final(self).trades()[trade_id@].payment_hash->Some_0,
            ),
            !old(self).trades().contains_key(trade_id@) ==> (r matches Err(e) && e.model()
                == missing_trade(trade_id@) && final(self).trades() == old(self).trades()),
            old(self).trades().contains_key(trade_id@) ==> ({
                let t = old(self).trades()[trade_id@];
                &&& becomes(
                    old(self).trades(),
                    final(self).trades(),
                    trade_id@,
                    TradeModel {
                        state: OrderState::WaitingHold,
                        payment_hash: Some(request.model().payment_hash),
                        payment_preimage: Some(request.model().preimage),
                        invoice_address: Some(address@),
                        invoice_status: Some(status@),
                        ..t
                    },
                    hold_created_lines(t, request.model().payment_hash, address@, status@),
                )
                &&& r matches Ok(v) && v.model() == public_view(final(self).trades()[trade_id@])
            }),
    {
        let i = match self.lookup_trade(trade_id) {
            Some(i) => i,
            None => return Err(trade_not_found(trade_id)),
        };
        let preimage = request.preimage();
        let payment_hash = request.payment_hash();
        let mut t = self.trade_in(i).duplicate();
        let l1 = {
            let mut m = owned("created trade for ");
            m.append(t.amount.as_str());
            m.append(" CKB (");
            m.append(t.pay_amount.as_str());
            m.append(" ");
            m.append(t.currency.as_str());
            m.append(" at ");
            m.append(t.price.as_str());
            m.append(" ");
            m.append(t.currency.as_str());
            m.append("/CKB); listed by ");
            m.append(t.pubkey.as_str());
            m
        };
        let l2 = join3(
            "hold invoice created H=",
            payment_hash.as_str(),
            " final_expiry_delta=57600000ms (0x36ee800) S sealed in daemon (never sent to app)",
        );
        let l3 = concat("invoice address ", address.as_str());
        let l4 = concat("invoice status ", status.as_str());
        let ghost (a0, s0) = (address@, status@);
        t.state = OrderState::WaitingHold;
        t.payment_hash = Some(payment_hash);
        t.payment_preimage = Some(preimage);
        t.invoice_address = Some(address);
        t.invoice_status = Some(status);
        let lines = vec![l1, l2, l3, l4];
        proof {
            assert(texts_of(lines@) =~= hold_created_lines(
                old(self).trades()[trade_id@],
                request.model().payment_hash,
                a0,
                s0,
            ));
        }
        t.push_logs(lines);
        let view = t.view();
        self.replace_trade(i, t);
        Ok(view)
    }
}

/// Only an `Open` hold invoice may be cancelled; after `Received` the
/// seller's refund is the expiry of the TLC.
pub fn hold_cancellable(status: &str) -> (r: bool)
    ensures
        r == (status@ == "Open"@),
{
    crate::text::text_is(status, "Open")
}

/// The status a `cancel_invoice` reply reports, `Cancelled` when it gives none.
pub open spec fn cancel_status(reply_status: Option<Seq<char>>) -> Seq<char> {
    match reply_status {
        Some(s) => s,
        None => "Cancelled"@,
    }
}

pub open spec fn demo_cancel_lines(
    t: TradeModel,
    payment_hash: Seq<char>,
    address: Seq<char>,
    status: Seq<char>,
) -> Seq<Seq<char>> {
    seq![
        "demo cancel: unpaid invoice "@ + status + " H="@ + payment_hash
            + " (live order unchanged, still "@ + state_text(t.state) + ")"@,
    ] + if address.len() > 0 {
        seq!["demo cancel invoice was "@ + address]
    } else {
        Seq::empty()
    }
}

impl MarketStore {
    /// The amount of the trade `id`.
    pub fn trade_amount(&self, id: &str) -> (r: Result<String, OrderError>)
        requires
            self.wf(),
        ensures
            match r {
                Ok(a) => self.trades().contains_key(id@) && a@ == self.trades()[id@].amount,
                Err(e) => !self.trades().contains_key(id@) && e.model() == missing_trade(id@),
            },
    {
        match self.lookup_trade(id) {
            Some(i) => Ok(self.trade_in(i).amount.clone()),
            None => Err(trade_not_found(id)),
        }
    }

    /// Records a throwaway invoice created and cancelled to show that an
    /// unpaid invoice can be cancelled; the trade itself is unchanged.
    pub fn record_demo_cancel(
        &mut self,
        id: &str,
        payment_hash: &str,
        address: &str,
        reply_status: Option<String>,
    ) -> (r: Result<TradeView, OrderError>)
        requires
            old(self).wf(),
        ensures
            final(self).wf(),
            final(self).ads() == old(self).ads(),
            !old(self).trades().contains_key(id@) ==> (r matches Err(e) && e.model()
                == missing_trade(id@) && final(self).trades() == old(self).trades()),
            old(self).trades().contains_key(id@) ==> ({
                let t = old(self).trades()[id@];
                &&& becomes(
                    old(self).trades(),
                    final(self).trades(),
                    id@,
                    t,
                    demo_cancel_lines(
                        t,
                        payment_hash@,
                        address@,
                        cancel_status(crate::order::opt_text(reply_status)),
                    ),
                )
                &&& r matches Ok(v) && v.model() == public_view(final(self).trades()[id@])
            }),
    {
        let i = match self.lookup_trade(id) {
            Some(i) => i,
            None => return Err(trade_not_found(id)),
        };
        let mut t = self.trade_in(i).duplicate();
        let status = match reply_status {
            Some(s) => s,
            None => owned("Cancelled"),
        };
        let mut l1 = join5(
            "demo cancel: unpaid invoice ",
            status.as_str(),
            " H=",
            payment_hash,
            " (live order unchanged, still ",
        );
        l1.append(state_name(t.state));
        l1.append(")");
        let mut lines = vec![l1];
        if !address.is_empty() {
            lines.push(concat("demo cancel invoice was ", address));
        }
        proof {
            assert(texts_of(lines@) =~= demo_cancel_lines(
                old(self).trades()[id@],
                payment_hash@,
                address@,
                status@,
            ));
        }
        t.push_logs(lines);
        let view = t.view();
        self.replace_trade(i, t);
        Ok(view)
    }

    /// The hold payment hash of the trade `id`, which must wait for its lock.
    pub fn lock_target(&self, id: &str) -> (r: Result<String, OrderError>)
        requires
            self.wf(),
        ensures
            !self.trades().contains_key(id@) ==> (r matches Err(e) && e.model() == missing_trade(
                id@,
            )),
            self.trades().contains_key(id@) ==> ({
                let t = self.trades()[id@];
                if t.state != OrderState::WaitingHold {
                    r matches Err(e) && e.model() == ErrorModel::BadState(
                        "lock needs WaitingHold, got "@ + state_text(t.state),
                    )
                } else if t.payment_hash is None {
                    r matches Err(e) && e.model() == ErrorModel::BadState("missing payment hash"@)
                } else {
                    r matches Ok(h) && Some(h@) == t.payment_hash
                }
            }),
    {
        let i = match self.lookup_trade(id) {
            Some(i) => i,
            None => return Err(trade_not_found(id)),
        };
        let t = self.trade_in(i);
        if t.state != OrderState::WaitingHold {
            return Err(OrderError::BadState(concat("lock needs WaitingHold, got ", state_name(t.state))));
        }
        match &t.payment_hash {
            Some(h) => Ok(h.clone()),
            None => Err(OrderError::BadState(owned("missing payment hash"))),
        }
    }

    /// Records that the hold of the trade `id` reached `status` (`Received`)
    /// after the seller paid it: the seller has accepted, and the buyer's pay
    /// window `window` starts.
    pub fn record_locked(&mut self, id: &str, payment_hash: &str, status: &str, window: PayWindow) -> (r: Result<
        TradeView,
        OrderError,
    >)
        requires
            old(self).wf(),
        ensures
            final(self).wf(),
            final(self).ads() == old(self).ads(),
            !old(self).trades().contains_key(id@) ==> (r matches Err(e) && e.model()
                == missing_trade(id@) && final(self).trades() == old(self).trades()),
            old(self).trades().contains_key(id@) && old(self).trades()[id@].state
                != OrderState::WaitingHold ==> (r matches Err(e) && e.model() == ErrorModel::BadState(
                "trade changed while locking"@,
            ) && final(self).trades() == old(self).trades()),
            old(self).trades().contains_key(id@) && old(self).trades()[id@].state
                == OrderState::WaitingHold ==> ({
                let t = old(self).trades()[id@];
                &&& becomes(
                    old(self).trades(),
                    final(self).trades(),
                    id@,
                    TradeModel {
                        state: OrderState::WaitingFiat,
                        invoice_status: Some(status@),
                        accept_by: crate::order::opt_text(window.accept_by),
                        pay_by: crate::order::opt_text(window.pay_by),
                        ..t
                    },
                    seq![
                        "seller locked: send_payment submitted, get_invoice="@ + status@,
                        "H="@ + payment_hash@
                            + " S still sealed in daemon; Twine spendable balance unchanged until settle"@,
                        "buyer accepted; start fiat timer in the app"@,
                    ],
                )
                &&& r matches Ok(v) && v.model() == public_view(final(self).trades()[id@])
            }),
    {
        let i = match self.lookup_trade(id) {
            Some(i) => i,
            None => return Err(trade_not_found(id)),
        };
        let mut t = self.trade_in(i).duplicate();
        if t.state != OrderState::WaitingHold {
            return Err(OrderError::BadState(owned("trade changed while locking")));
        }
        t.state = OrderState::WaitingFiat;
        t.invoice_status = Some(owned(status));
        t.accept_by = window.accept_by;
        t.pay_by = window.pay_by;
        let lines = vec![
            concat("seller locked: send_payment submitted, get_invoice=", status),
            join3(
                "H=",
                payment_hash,
                " S still sealed in daemon; Twine spendable balance unchanged until settle",
            ),
            owned("buyer accepted; start fiat timer in the app"),
        ];
        proof {
            assert(texts_of(lines@) =~= seq![
                "seller locked: send_payment submitted, get_invoice="@ + status@,
                "H="@ + payment_hash@
                    + " S still sealed in daemon; Twine spendable balance unchanged until settle"@,
                "buyer accepted; start fiat timer in the app"@,
            ]);
        }
        t.push_logs(lines);
        let view = t.view();
        self.replace_trade(i, t);
        Ok(view)
    }

    /// How a party's cancel of the trade `id` goes: a trade still waiting
    /// for its hold is cancelled through the hold (`try_cancel`), and the
    /// taker of a trade in its fiat window closes the window.
    pub fn cancel_route(&self, id: &str, body: &CancelTradeBody) -> (r: Result<CancelRoute, OrderError>)
        requires
            self.wf(),
        ensures
            match cancel_route_of(self.trades(), id@, body.from@) {
                Ok(c) => r == Ok::<CancelRoute, OrderError>(c),
                Err(e) => r matches Err(x) && x.model() == e,
            },
    {
        let party = party_from(body.from.as_str())?;
        let i = match self.lookup_trade(id) {
            Some(i) => i,
            None => return Err(trade_not_found(id)),
        };
        let state = self.trade_in(i).state;
        if state == OrderState::WaitingHold {
            return Ok(CancelRoute::ReleaseHold);
        }
        if state == OrderState::WaitingFiat && text_is(party.as_str(), "taker") {
            return Ok(CancelRoute::CloseWindow);
        }
        Err(
            OrderError::BadState(
                concat("cancel needs WaitingHold, or WaitingFiat from the taker, got ", state_name(state)),
            ),
        )
    }

    /// Records that the taker closed the pay window of the trade `id` now:
    /// `pay_by` becomes the current time, and the hold stays `Received`
    /// (it is not cancelled; the seller is refunded when the TLC expires).
    pub fn record_window_closed(&mut self, id: &str) -> (r: Result<TradeView, OrderError>)
        requires
            old(self).wf(),
        ensures
            final(self).wf(),
            final(self).ads() == old(self).ads(),
            !old(self).trades().contains_key(id@) ==> (r matches Err(e) && e.model()
                == missing_trade(id@) && final(self).trades() == old(self).trades()),
            old(self).trades().contains_key(id@) && old(self).trades()[id@].state
                != OrderState::WaitingFiat ==> (r matches Err(e) && e.model() == ErrorModel::BadState(
                "trade changed while closing the pay window"@,
            ) && final(self).trades() == old(self).trades()),
            old(self).trades().contains_key(id@) && old(self).trades()[id@].state
                == OrderState::WaitingFiat ==> ({
                let t = old(self).trades()[id@];
                let n = final(self).trades()[id@];
                &&& becomes(
                    old(self).trades(),
                    final(self).trades(),
                    id@,
                    TradeModel { pay_by: n.pay_by, ..t },
                    seq![window_closed_line()],
                )
                &&& n.pay_by matches Some(at) && is_clock_text(at)
                &&& r matches Ok(v) && v.model() == public_view(n)
            }),
    {
        let i = match self.lookup_trade(id) {
            Some(i) => i,
            None => return Err(trade_not_found(id)),
        };
        let mut t = self.trade_in(i).duplicate();
        if t.state != OrderState::WaitingFiat {
            return Err(OrderError::BadState(owned("trade changed while closing the pay window")));
        }
        t.pay_by = Some(timestamp());
        let lines = vec![
            owned(
                "taker closed the pay window; hold stays Received (cancel_invoice not called; the seller is refunded when the TLC expires)",
            ),
        ];
        proof {
            assert(texts_of(lines@) =~= seq![window_closed_line()]);
        }
        t.push_logs(lines);
        let view = t.view();
        self.replace_trade(i, t);
        Ok(view)
    }

    /// What a try to cancel the trade `id` works on; a trade without a hold
    /// invoice cannot be cancelled this way.
    pub fn cancel_target(&self, id: &str) -> (r: Result<CancelTarget, OrderError>)
        requires
            self.wf(),
        ensures
            !self.trades().contains_key(id@) ==> (r matches Err(e) && e.model() == missing_trade(
                id@,
            )),
            self.trades().contains_key(id@) ==> ({
                let t = self.trades()[id@];
                match t.payment_hash {
                    None => r matches Err(e) && e.model() == ErrorModel::BadState(
                        "no hold invoice yet"@,
                    ),
                    Some(h) => r matches Ok(c) && c.state == t.state && c.payment_hash@ == h
                        && c.amount@ == t.amount && c.ad_id@ == t.ad_id,
                }
            }),
    {
        let i = match self.lookup_trade(id) {
            Some(i) => i,
            None => return Err(trade_not_found(id)),
        };
        let t = self.trade_in(i);
        match &t.payment_hash {
            Some(h) => Ok(
                CancelTarget {
                    state: t.state,
                    payment_hash: h.clone(),
                    amount: t.amount.clone(),
                    ad_id: t.ad_id.clone(),
                },
            ),
            None => Err(OrderError::BadState(owned("no hold invoice yet"))),
        }
    }

    /// Records that the hold is `status`, not `Open`, so it was not cancelled.
    pub fn record_cancel_skipped(&mut self, id: &str, state: OrderState, status: &str) -> (r: Result<
        TradeView,
        OrderError,
    >)
        requires
            old(self).wf(),
        ensures
            final(self).wf(),
            final(self).ads() == old(self).ads(),
            !old(self).trades().contains_key(id@) ==> (r matches Err(e) && e.model()
                == missing_trade(id@) && final(self).trades() == old(self).trades()),
            old(self).trades().contains_key(id@) ==> ({
                let t = old(self).trades()[id@];
                &&& becomes(
                    old(self).trades(),
                    final(self).trades(),
                    id@,
                    TradeModel { invoice_status: Some(status@), ..t },
                    seq![
                        "cancel_invoice not applied (state="@ + state_text(state) + ", invoice="@
                            + status@
                            + "): only legal while Open; after Received the seller refund is TLC expiry, not cancel"@,
                    ],
                )
                &&& r matches Ok(v) && v.model() == public_view(final(self).trades()[id@])
            }),
    {
        let i = match self.lookup_trade(id) {
            Some(i) => i,
            None => return Err(trade_not_found(id)),
        };
        let mut t = self.trade_in(i).duplicate();
        t.invoice_status = Some(owned(status));
        let l = join5(
            "cancel_invoice not applied (state=",
            state_name(state),
            ", invoice=",
            status,
            "): only legal while Open; after Received the seller refund is TLC expiry, not cancel",
        );
        let lines = vec![l];
        proof {
            assert(texts_of(lines@) =~= seq![
                "cancel_invoice not applied (state="@ + state_text(state) + ", invoice="@ + status@
                    + "): only legal while Open; after Received the seller refund is TLC expiry, not cancel"@,
            ]);
        }
        t.push_logs(lines);
        let view = t.view();
        self.replace_trade(i, t);
        Ok(view)
    }

    /// Records that `cancel_invoice` was refused with `err`.
    pub fn record_cancel_refused(&mut self, id: &str, state: OrderState, status: &str, err: &str) -> (r:
        Result<TradeView, OrderError>)
        requires
            old(self).wf(),
        ensures
            final(self).wf(),
            final(self).ads() == old(self).ads(),
            !old(self).trades().contains_key(id@) ==> (r matches Err(e) && e.model()
                == missing_trade(id@) && final(self).trades() == old(self).trades()),
            old(self).trades().contains_key(id@) ==> ({
                let t = old(self).trades()[id@];
                &&& becomes(
                    old(self).trades(),
                    final(self).trades(),
                    id@,
                    t,
                    seq![
                        "cancel_invoice refused (state="@ + state_text(state) + ", invoice="@
                            + status@ + "): "@ + err@,
                    ],
                )
                &&& r matches Ok(v) && v.model() == public_view(final(self).trades()[id@])
            }),
    {
        let i = match self.lookup_trade(id) {
            Some(i) => i,
            None => return Err(trade_not_found(id)),
        };
        let mut t = self.trade_in(i).duplicate();
        let mut l = join5("cancel_invoice refused (state=", state_name(state), ", invoice=", status, "): ");
        l.append(err);
        let lines = vec![l];
        proof {
            assert(texts_of(lines@) =~= seq![
                "cancel_invoice refused (state="@ + state_text(state) + ", invoice="@ + status@
                    + "): "@ + err@,
            ]);
        }
        t.push_logs(lines);
        let view = t.view();
        self.replace_trade(i, t);
        Ok(view)
    }

    /// Records that the hold of the trade `id` was cancelled while `Open`
    /// (the reply's status, `Cancelled` when it gave none) and returns the
    /// reserved CKB to the ad `ad_id`.
    pub fn record_cancelled(
        &mut self,
        id: &str,
        reply_status: Option<String>,
        payment_hash: &str,
        ad_id: &str,
        amount: &str,
    ) -> (r: Result<TradeView, OrderError>)
        requires
            old(self).wf(),
        ensures
            final(self).wf(),
            !old(self).trades().contains_key(id@) ==> (r matches Err(e) && e.model()
                == missing_trade(id@) && final(self).trades() == old(self).trades()
                && final(self).ads() == old(self).ads()),
            old(self).trades().contains_key(id@) ==> ({
                let t = old(self).trades()[id@];
                let status = cancel_status(crate::order::opt_text(reply_status));
                &&& becomes(
                    old(self).trades(),
                    final(self).trades(),
                    id@,
                    TradeModel { state: OrderState::Cancelled, invoice_status: Some(status), ..t },
                    seq!["cancel_invoice succeeded: invoice "@ + status + " H="@ + payment_hash@],
                )
                &&& match returned_ckb(old(self).ads(), ad_id@, id@, amount@) {
                    Ok(ads) => final(self).ads() == ads && (r matches Ok(v) && v.model()
                        == public_view(final(self).trades()[id@])),
                    Err(e) => final(self).ads() == old(self).ads() && (r matches Err(x) && x.model()
                        == e),
                }
            }),
    {
        let i = match self.lookup_trade(id) {
            Some(i) => i,
            None => return Err(trade_not_found(id)),
        };
        let status = match reply_status {
            Some(s) => s,
            None => owned("Cancelled"),
        };
        let mut t = self.trade_in(i).duplicate();
        t.state = OrderState::Cancelled;
        t.invoice_status = Some(status.clone());
        let lines = vec![join5("cancel_invoice succeeded: invoice ", status.as_str(), " H=", payment_hash, "")];
        proof {
            reveal_strlit("");
            assert(texts_of(lines@) =~= seq![
                "cancel_invoice succeeded: invoice "@ + status@ + " H="@ + payment_hash@,
            ]);
        }
        t.push_logs(lines);
        let view = t.view();
        self.replace_trade(i, t);
        self.return_ckb(ad_id, id, amount)?;
        Ok(view)
    }
}

/// Length of `s` in UTF-8 bytes, as `str::len` counts.
pub open spec fn byte_len(s: Seq<char>) -> nat {
    crate::text::utf8_len(s)
}

/// The log line of a new chat message.
pub open spec fn chat_line_text(from: Seq<char>, text: Seq<char>) -> Seq<char> {
    "chat ("@ + from + "): "@ + text
}

impl MarketStore {
    /// Checks a payment proof for the trade `id`, which must wait for fiat.
    pub fn prepare_fiat_sent(&self, id: &str, body: &FiatSentBody) -> (r: Result<FiatProof, OrderError>)
        requires
            self.wf(),
        ensures
            match required_text(body.invoice@, "invoice"@) {
                Err(e) => r matches Err(x) && x.model() == e,
                Ok(inv) => match proof_outcome(body.proof_b64@, body.content_type@) {
                    Err(m) => r matches Err(x) && x.model() == ErrorModel::BadState(m),
                    Ok((kind, data)) => if !self.trades().contains_key(id@) {
                        r matches Err(x) && x.model() == missing_trade(id@)
                    } else if self.trades()[id@].state != OrderState::WaitingFiat {
                        r matches Err(x) && x.model() == ErrorModel::BadState(
                            "fiat sent needs WaitingFiat, got "@ + state_text(
                                self.trades()[id@].state,
                            ),
                        )
                    } else {
                        r matches Ok(p) && p.invoice@ == inv && p.content_type@ == kind && p.data@
                            == data
                    },
                },
            },
    {
        let invoice = require_text(body.invoice.as_str(), "invoice")?;
        let (content_type, data) = decode_payment_proof(
            body.proof_b64.as_str(),
            body.content_type.as_str(),
        )?;
        let i = match self.lookup_trade(id) {
            Some(i) => i,
            None => return Err(trade_not_found(id)),
        };
        let t = self.trade_in(i);
        if t.state != OrderState::WaitingFiat {
            return Err(OrderError::BadState(concat("fiat sent needs WaitingFiat, got ", state_name(t.state))));
        }
        Ok(FiatProof { invoice, content_type, data })
    }

    /// Records the stored payment proof and the buyer's invoice; the trade
    /// moves to `FiatSent`.
    pub fn record_fiat_sent(&mut self, id: &str, invoice: String, content_type: String, bytes: usize) -> (r:
        Result<TradeView, OrderError>)
        requires
            old(self).wf(),
        ensures
            final(self).wf(),
            final(self).ads() == old(self).ads(),
            !old(self).trades().contains_key(id@) ==> (r matches Err(e) && e.model()
                == missing_trade(id@) && final(self).trades() == old(self).trades()),
            old(self).trades().contains_key(id@) && old(self).trades()[id@].state
                != OrderState::WaitingFiat ==> (r matches Err(e) && e.model() == ErrorModel::BadState(
                "trade changed while storing proof, got "@ + state_text(old(self).trades()[id@].state),
            ) && final(self).trades() == old(self).trades()),
            old(self).trades().contains_key(id@) && old(self).trades()[id@].state
                == OrderState::WaitingFiat ==> ({
                let t = old(self).trades()[id@];
                &&& becomes(
                    old(self).trades(),
                    final(self).trades(),
                    id@,
                    TradeModel {
                        buyer_invoice: Some(invoice@),
                        proof: Some(ProofModel { content_type: content_type@, bytes: bytes as nat }),
                        state: OrderState::FiatSent,
                        ..t
                    },
                    seq!["buyer marked fiat sent with payment proof"@],
                )
                &&& r matches Ok(v) && v.model() == public_view(final(self).trades()[id@])
            }),
    {
        let i = match self.lookup_trade(id) {
            Some(i) => i,
            None => return Err(trade_not_found(id)),
        };
        let mut t = self.trade_in(i).duplicate();
        if t.state != OrderState::WaitingFiat {
            return Err(OrderError::BadState(concat("trade changed while storing proof, got ", state_name(t.state))));
        }
        t.buyer_invoice = Some(invoice);
        t.proof = Some(ProofMeta { content_type, bytes });
        t.state = OrderState::FiatSent;
        let lines = vec![owned("buyer marked fiat sent with payment proof")];
        proof {
            assert(texts_of(lines@) =~= seq!["buyer marked fiat sent with payment proof"@]);
        }
        t.push_logs(lines);
        let view = t.view();
        self.replace_trade(i, t);
        Ok(view)
    }

    /// The content type of the payment proof stored for the trade `id`.
    pub fn proof_content_type(&self, id: &str) -> (r: Result<String, OrderError>)
        requires
            self.wf(),
        ensures
            !self.trades().contains_key(id@) ==> (r matches Err(e) && e.model() == missing_trade(
                id@,
            )),
            self.trades().contains_key(id@) ==> match self.trades()[id@].proof {
                Some(p) => r matches Ok(c) && c@ == p.content_type,
                None => r matches Err(e) && e.model() == not_found("proof for trade "@, id@),
            },
    {
        let i = match self.lookup_trade(id) {
            Some(i) => i,
            None => return Err(trade_not_found(id)),
        };
        match &self.trade_in(i).proof {
            Some(p) => Ok(p.content_type.clone()),
            None => Err(missing_proof(id)),
        }
    }

    /// The state of the trade `id`.
    pub fn trade_state(&self, id: &str) -> (r: Result<OrderState, OrderError>)
        requires
            self.wf(),
        ensures
            match r {
                Ok(s) => self.trades().contains_key(id@) && s == self.trades()[id@].state,
                Err(e) => !self.trades().contains_key(id@) && e.model() == missing_trade(id@),
            },
    {
        match self.lookup_trade(id) {
            Some(i) => Ok(self.trade_in(i).state),
            None => Err(trade_not_found(id)),
        }
    }

    /// The seller releases: a trade in `FiatSent` moves to `Releasing`; a
    /// trade already `Releasing` continues.
    pub fn begin_release(&mut self, id: &str) -> (r: Result<(), OrderError>)
        requires
            old(self).wf(),
        ensures
            final(self).wf(),
            final(self).ads() == old(self).ads(),
            !old(self).trades().contains_key(id@) ==> (r matches Err(e) && e.model()
                == missing_trade(id@) && final(self).trades() == old(self).trades()),
            old(self).trades().contains_key(id@) ==> ({
                let t = old(self).trades()[id@];
                if t.state == OrderState::FiatSent {
                    r is Ok && becomes(
                        old(self).trades(),
                        final(self).trades(),
                        id@,
                        TradeModel { state: OrderState::Releasing, ..t },
                        seq!["seller released; path A: pay buyer then settle hold"@],
                    )
                } else if t.state == OrderState::Releasing {
                    r is Ok && becomes(
                        old(self).trades(),
                        final(self).trades(),
                        id@,
                        t,
                        seq!["path A continue from Releasing: pay buyer then settle hold"@],
                    )
                } else {
                    (r matches Err(e) && e.model() == ErrorModel::BadState(
                        "release needs FiatSent or Releasing, got "@ + state_text(t.state),
                    )) && final(self).trades() == old(self).trades()
                }
            }),
    {
        let state = self.trade_state(id)?;
        if state != OrderState::FiatSent && state != OrderState::Releasing {
            return Err(OrderError::BadState(concat("release needs FiatSent or Releasing, got ", state_name(state))));
        }
        let i = match self.lookup_trade(id) {
            Some(i) => i,
            None => return Err(trade_not_found(id)),
        };
        let mut t = self.trade_in(i).duplicate();
        if t.state == OrderState::FiatSent {
            t.state = OrderState::Releasing;
            let lines = vec![owned("seller released; path A: pay buyer then settle hold")];
            proof {
                assert(texts_of(lines@) =~= seq!["seller released; path A: pay buyer then settle hold"@]);
            }
            t.push_logs(lines);
        } else {
            let lines = vec![owned("path A continue from Releasing: pay buyer then settle hold")];
            proof {
                assert(texts_of(lines@) =~= seq!["path A continue from Releasing: pay buyer then settle hold"@]);
            }
            t.push_logs(lines);
        }
        self.replace_trade(i, t);
        Ok(())
    }

    /// The buyer retries a failed payment with a new invoice: a trade in
    /// `Leg2Failed` moves to `Releasing`.
    pub fn begin_retry(&mut self, id: &str, body: &BuyerInvoiceBody) -> (r: Result<(), OrderError>)
        requires
            old(self).wf(),
        ensures
            final(self).wf(),
            final(self).ads() == old(self).ads(),
            match required_text(body.invoice@, "invoice"@) {
                Err(e) => (r matches Err(x) && x.model() == e) && final(self).trades() == old(
                    self,
                ).trades(),
                Ok(inv) => if !old(self).trades().contains_key(id@) {
                    (r matches Err(x) && x.model() == missing_trade(id@)) && final(self).trades()
                        == old(self).trades()
                } else if old(self).trades()[id@].state != OrderState::Leg2Failed {
                    (r matches Err(x) && x.model() == ErrorModel::BadState(
                        "retry needs Leg2Failed, got "@ + state_text(old(self).trades()[id@].state),
                    )) && final(self).trades() == old(self).trades()
                } else {
                    r is Ok && becomes(
                        old(self).trades(),
                        final(self).trades(),
                        id@,
                        TradeModel {
                            buyer_invoice: Some(inv),
                            state: OrderState::Releasing,
                            ..old(self).trades()[id@]
                        },
                        seq!["retry: buyer submitted a new invoice path; path A: pay buyer then settle hold"@],
                    )
                },
            },
    {
        let invoice = require_text(body.invoice.as_str(), "invoice")?;
        let state = self.trade_state(id)?;
        if state != OrderState::Leg2Failed {
            return Err(OrderError::BadState(concat("retry needs Leg2Failed, got ", state_name(state))));
        }
        let i = match self.lookup_trade(id) {
            Some(i) => i,
            None => return Err(trade_not_found(id)),
        };
        let mut t = self.trade_in(i).duplicate();
        t.buyer_invoice = Some(invoice);
        t.state = OrderState::Releasing;
        let lines = vec![owned("retry: buyer submitted a new invoice path; path A: pay buyer then settle hold")];
        proof {
            assert(texts_of(lines@) =~= seq!["retry: buyer submitted a new invoice path; path A: pay buyer then settle hold"@]);
        }
        t.push_logs(lines);
        self.replace_trade(i, t);
        Ok(())
    }

    /// Checks a request to open a dispute on the trade `id`.
    pub fn dispute_target(&self, id: &str, body: &OpenDisputeBody) -> (r: Result<DisputeTarget, OrderError>)
        requires
            self.wf(),
        ensures
            match party_of(body.from@) {
                None => r matches Err(x) && x.model() == ErrorModel::BadState("from must be lister or taker"@),
                Some(from) => match required_text(body.reason@, "reason"@) {
                    Err(e) => r matches Err(x) && x.model() == e,
                    Ok(reason) => if byte_len(reason) > 500 {
                        r matches Err(x) && x.model() == ErrorModel::BadState(
                            "reason must be at most 500 characters"@,
                        )
                    } else if !self.trades().contains_key(id@) {
                        r matches Err(x) && x.model() == missing_trade(id@)
                    } else {
                        let t = self.trades()[id@];
                        if !(t.state == OrderState::WaitingFiat || t.state == OrderState::FiatSent
                            || t.state == OrderState::Leg2Failed) {
                            r matches Err(x) && x.model() == ErrorModel::BadState(
                                "open dispute needs WaitingFiat, FiatSent, or Leg2Failed, got "@
                                    + state_text(t.state),
                            )
                        } else {
                            match t.payment_hash {
                                None => r matches Err(x) && x.model() == ErrorModel::BadState(
                                    "missing hold payment hash"@,
                                ),
                                Some(h) => r matches Ok(d) && d.from@ == from && d.reason@ == reason
                                    && d.payment_hash@ == h,
                            }
                        }
                    },
                },
            },
    {
        let from = party_from(body.from.as_str())?;
        let reason = require_text(body.reason.as_str(), "reason")?;
        if crate::text::longer_than_bytes(&chars_of(reason.as_str()), 500) {
            return Err(OrderError::BadState(owned("reason must be at most 500 characters")));
        }
        let i = match self.lookup_trade(id) {
            Some(i) => i,
            None => return Err(trade_not_found(id)),
        };
        let t = self.trade_in(i);
        if !(t.state == OrderState::WaitingFiat || t.state == OrderState::FiatSent || t.state
            == OrderState::Leg2Failed) {
            return Err(
                OrderError::BadState(
                    concat(
                        "open dispute needs WaitingFiat, FiatSent, or Leg2Failed, got ",
                        state_name(t.state),
                    ),
                ),
            );
        }
        match &t.payment_hash {
            Some(h) => Ok(DisputeTarget { from, reason, payment_hash: h.clone() }),
            None => Err(OrderError::BadState(owned("missing hold payment hash"))),
        }
    }

    /// Records the dispute: the trade moves to `Disputed` with the hold still `status`.
    pub fn record_dispute(&mut self, id: &str, from: &str, reason: &str, status: &str) -> (r: Result<
        TradeView,
        OrderError,
    >)
        requires
            old(self).wf(),
        ensures
            final(self).wf(),
            final(self).ads() == old(self).ads(),
            !old(self).trades().contains_key(id@) ==> (r matches Err(e) && e.model()
                == missing_trade(id@) && final(self).trades() == old(self).trades()),
            old(self).trades().contains_key(id@) ==> ({
                let t = old(self).trades()[id@];
                if !(t.state == OrderState::WaitingFiat || t.state == OrderState::FiatSent || t.state
                    == OrderState::Leg2Failed) {
                    (r matches Err(e) && e.model() == ErrorModel::BadState(
                        "trade changed while opening dispute, got "@ + state_text(t.state),
                    )) && final(self).trades() == old(self).trades()
                } else {
                    &&& becomes(
                        old(self).trades(),
                        final(self).trades(),
                        id@,
                        TradeModel {
                            state: OrderState::Disputed,
                            dispute_from: Some(from@),
                            dispute_reason: Some(reason@),
                            invoice_status: Some(status@),
                            ..t
                        },
                        seq![
                            "dispute opened by "@ + from@ + ": "@ + reason@ + " (invoice still "@
                                + status@ + "); Twine may award only after this appeal"@,
                        ],
                    )
                    &&& r matches Ok(v) && v.model() == public_view(final(self).trades()[id@])
                }
            }),
    {
        let i = match self.lookup_trade(id) {
            Some(i) => i,
            None => return Err(trade_not_found(id)),
        };
        let mut t = self.trade_in(i).duplicate();
        if !(t.state == OrderState::WaitingFiat || t.state == OrderState::FiatSent || t.state
            == OrderState::Leg2Failed) {
            return Err(OrderError::BadState(concat("trade changed while opening dispute, got ", state_name(t.state))));
        }
        t.state = OrderState::Disputed;
        t.dispute_from = Some(owned(from));
        t.dispute_reason = Some(owned(reason));
        t.invoice_status = Some(owned(status));
        let mut l = join5("dispute opened by ", from, ": ", reason, " (invoice still ");
        l.append(status);
        l.append("); Twine may award only after this appeal");
        let lines = vec![l];
        proof {
            assert(texts_of(lines@) =~= seq![
                "dispute opened by "@ + from@ + ": "@ + reason@ + " (invoice still "@ + status@
                    + "); Twine may award only after this appeal"@,
            ]);
        }
        t.push_logs(lines);
        let view = t.view();
        self.replace_trade(i, t);
        Ok(view)
    }

    /// Adds a chat message to a live trade. The sender must name a party
    /// (`lister`/`seller` or `taker`/`buyer`); the message keeps the name the
    /// sender used, trimmed and lower-cased.
    pub fn post_chat(&mut self, id: &str, body: &PostChatBody) -> (r: Result<TradeView, OrderError>)
        requires
            old(self).wf(),
        ensures
            final(self).wf(),
            final(self).ads() == old(self).ads(),
            match party_of(body.from@) {
                None => (r matches Err(x) && x.model() == ErrorModel::BadState(
                    "from must be lister or taker"@,
                )) && final(self).trades() == old(self).trades(),
                Some(_) => {
                    let from = party_name(body.from@);
                    let text = trim(body.text@);
                    if text.len() == 0 {
                        (r matches Err(x) && x.model() == ErrorModel::BadState(
                            "chat text is required"@,
                        )) && final(self).trades() == old(self).trades()
                    } else if byte_len(text) > 500 {
                        (r matches Err(x) && x.model() == ErrorModel::BadState(
                            "chat text must be at most 500 characters"@,
                        )) && final(self).trades() == old(self).trades()
                    } else if !old(self).trades().contains_key(id@) {
                        (r matches Err(x) && x.model() == missing_trade(id@)) && final(self).trades()
                            == old(self).trades()
                    } else if !chat_allowed(old(self).trades()[id@].state) {
                        (r matches Err(x) && x.model() == ErrorModel::BadState(
                            "post chat needs an open trade, got "@ + state_text(
                                old(self).trades()[id@].state,
                            ),
                        )) && final(self).trades() == old(self).trades()
                    } else {
                        let t = old(self).trades()[id@];
                        let n = final(self).trades()[id@];
                        &&& becomes(
                            old(self).trades(),
                            final(self).trades(),
                            id@,
                            TradeModel { chat: n.chat, ..t },
                            seq![chat_line_text(from, text)],
                        )
                        &&& n.chat.len() == t.chat.len() + 1
                        &&& n.chat.subrange(0, t.chat.len() as int) == t.chat
                        &&& n.chat.last().from == from
                        &&& n.chat.last().text == text
                        &&& is_clock_text(n.chat.last().at)
                        &&& r matches Ok(v) && v.model() == public_view(n)
                    }
                },
            },
            match chat_outcome(old(self).trades(), id@, body.from@, body.text@) {
                Ok((from, text)) => r is Ok && final(self).trades()[id@].chat.len() == old(
                    self,
                ).trades()[id@].chat.len() + 1 && final(self).trades()[id@].chat.last().from == from
                    && final(self).trades()[id@].chat.last().text == text,
                Err(e) => (r matches Err(x) && x.model() == e) && final(self).trades() == old(
                    self,
                ).trades(),
            },
    {
        party_from(body.from.as_str())?;
        let from = string_of(&lower_chars(&trim_chars(&chars_of(body.from.as_str()))));
        let t0 = trim_chars(&chars_of(body.text.as_str()));
        if t0.len() == 0 {
            return Err(OrderError::BadState(owned("chat text is required")));
        }
        let text = string_of(&t0);
        if crate::text::longer_than_bytes(&t0, 500) {
            return Err(OrderError::BadState(owned("chat text must be at most 500 characters")));
        }
        let i = match self.lookup_trade(id) {
            Some(i) => i,
            None => return Err(trade_not_found(id)),
        };
        let mut t = self.trade_in(i).duplicate();
        if !crate::order::allows_chat(t.state) {
            return Err(OrderError::BadState(concat("post chat needs an open trade, got ", state_name(t.state))));
        }
        let l = join5("chat (", from.as_str(), "): ", text.as_str(), "");
        t.push_chat(from, text);
        let lines = vec![l];
        proof {
            reveal_strlit("");
            assert(texts_of(lines@) =~= seq![chat_line_text(party_name(body.from@), trim(body.text@))]);
        }
        t.push_logs(lines);
        let view = t.view();
        self.replace_trade(i, t);
        Ok(view)
    }
}

/// A hold whose status is `Expired` ends the trade by path D.
pub fn hold_expired(status: &str) -> (r: bool)
    ensures
        r == (status@ == "Expired"@),
{
    crate::text::text_is(status, "Expired")
}

/// The note that expiry records of the settle tried after a hold expired:
/// `None` when no preimage was sealed, else the outcome of `settle_invoice`.
pub open spec fn expiry_note(attempt: Option<Result<(), Seq<char>>>) -> Seq<char> {
    match attempt {
        None => "missing sealed preimage S; settle_invoice not attempted"@,
        Some(Ok(())) => "settle_invoice returned ok after Expired (unexpected; not treated as Path A settle)"@,
        Some(Err(e)) => e,
    }
}

pub fn expiry_settle_note(attempt: Option<Result<(), String>>) -> (r: String)
    ensures
        r@ == expiry_note(
            match attempt {
                None => None,
                Some(Ok(())) => Some(Ok(())),
                Some(Err(e)) => Some(Err(e@)),
            },
        ),
{
    match attempt {
        None => owned("missing sealed preimage S; settle_invoice not attempted"),
        Some(Ok(())) => owned(
            "settle_invoice returned ok after Expired (unexpected; not treated as Path A settle)",
        ),
        Some(Err(e)) => e,
    }
}

pub open spec fn expiry_lines(payment_hash: Seq<char>, note: Option<Seq<char>>) -> Seq<Seq<char>> {
    seq![
        "path D: hold invoice Expired H="@ + payment_hash
            + "; seller payment failed back; seller refunded because the TLC expired"@,
        "path D: cancel_invoice not called (not legal / not needed after Received\u{2192}Expired)"@,
    ] + match note {
        Some(e) => seq![
            "path D: settle_invoice(H, S) after expiry failed as expected: "@ + e
                + " (not a successful settle)"@,
        ],
        None => Seq::empty(),
    }
}

pub open spec fn pay_failure_lines(detail: Seq<char>, mode: PayFailureMode) -> Seq<Seq<char>> {
    match mode {
        PayFailureMode::Leg2Failed => seq![
            "pay failed: "@ + detail + "; settle_invoice not called (hold stays Received)"@,
            "path B: buyer should submit a new invoice to retry (POST /trades/:id/retry)"@,
            "if the buyer never returns, the seller is refunded when the TLC expires (do not cancel_invoice on Received)"@,
        ],
        PayFailureMode::StayDisputed => seq![
            "path C buyer award pay failed: "@ + detail
                + "; settle_invoice not called; stay Disputed (hold stays Received)"@,
        ],
    }
}

pub open spec fn failure_state(mode: PayFailureMode) -> OrderState {
    match mode {
        PayFailureMode::Leg2Failed => OrderState::Leg2Failed,
        PayFailureMode::StayDisputed => OrderState::Disputed,
    }
}

pub open spec fn settled_lines(status: Seq<char>, mode: PayFailureMode) -> Seq<Seq<char>> {
    seq![
        "settle: hold invoice="@ + status,
        match mode {
            PayFailureMode::Leg2Failed => "path A complete: state Settled"@,
            PayFailureMode::StayDisputed => "path C buyer wins complete: state Settled"@,
        },
    ]
}

/// The ads once the settled trade `trade_id` no longer holds the ad `ad_id`.
pub open spec fn freed_ad(
    ads: Map<Seq<char>, crate::market::AdModel>,
    ad_id: Seq<char>,
    trade_id: Seq<char>,
) -> Map<Seq<char>, crate::market::AdModel> {
    if ads.contains_key(ad_id) && ads[ad_id].open_trade_id == Some(trade_id) {
        ads.insert(ad_id, crate::market::AdModel { open_trade_id: None, ..ads[ad_id] })
    } else {
        ads
    }
}

impl MarketStore {
    /// The buyer's invoice and the hold hash for awarding the disputed trade `id` to the buyer.
    pub fn award_buyer_target(&self, id: &str, body: &BuyerInvoiceBody) -> (r: Result<
        (String, String),
        OrderError,
    >)
        requires
            self.wf(),
        ensures
            match required_text(body.invoice@, "invoice"@) {
                Err(e) => r matches Err(x) && x.model() == e,
                Ok(inv) => if !self.trades().contains_key(id@) {
                    r matches Err(x) && x.model() == missing_trade(id@)
                } else if self.trades()[id@].state != OrderState::Disputed {
                    r matches Err(x) && x.model() == ErrorModel::BadState(
                        "award buyer needs Disputed, got "@ + state_text(self.trades()[id@].state),
                    )
                } else {
                    match self.trades()[id@].payment_hash {
                        None => r matches Err(x) && x.model() == ErrorModel::BadState(
                            "missing hold payment hash"@,
                        ),
                        Some(h) => r matches Ok((i, hh)) && i@ == inv && hh@ == h,
                    }
                },
            },
    {
        let invoice = require_text(body.invoice.as_str(), "invoice")?;
        let i = match self.lookup_trade(id) {
            Some(i) => i,
            None => return Err(trade_not_found(id)),
        };
        let t = self.trade_in(i);
        if t.state != OrderState::Disputed {
            return Err(OrderError::BadState(concat("award buyer needs Disputed, got ", state_name(t.state))));
        }
        match &t.payment_hash {
            Some(h) => Ok((invoice, h.clone())),
            None => Err(OrderError::BadState(owned("missing hold payment hash"))),
        }
    }

    /// The hold hash for awarding the disputed trade `id` to the seller.
    pub fn award_seller_target(&self, id: &str) -> (r: Result<String, OrderError>)
        requires
            self.wf(),
        ensures
            if !self.trades().contains_key(id@) {
                r matches Err(x) && x.model() == missing_trade(id@)
            } else if self.trades()[id@].state != OrderState::Disputed {
                r matches Err(x) && x.model() == ErrorModel::BadState(
                    "award seller needs Disputed, got "@ + state_text(self.trades()[id@].state),
                )
            } else {
                match self.trades()[id@].payment_hash {
                    None => r matches Err(x) && x.model() == ErrorModel::BadState(
                        "missing hold payment hash"@,
                    ),
                    Some(h) => r matches Ok(hh) && hh@ == h,
                }
            },
    {
        let i = match self.lookup_trade(id) {
            Some(i) => i,
            None => return Err(trade_not_found(id)),
        };
        let t = self.trade_in(i);
        if t.state != OrderState::Disputed {
            return Err(OrderError::BadState(concat("award seller needs Disputed, got ", state_name(t.state))));
        }
        match &t.payment_hash {
            Some(h) => Ok(h.clone()),
            None => Err(OrderError::BadState(owned("missing hold payment hash"))),
        }
    }

    /// Records the award to the buyer: the buyer's invoice is paid next.
    pub fn record_award_buyer(&mut self, id: &str, invoice: String, status: String) -> (r: Result<
        (),
        OrderError,
    >)
        requires
            old(self).wf(),
        ensures
            final(self).wf(),
            final(self).ads() == old(self).ads(),
            if !old(self).trades().contains_key(id@) {
                (r matches Err(e) && e.model() == missing_trade(id@)) && final(self).trades() == old(
                    self,
                ).trades()
            } else if old(self).trades()[id@].state != OrderState::Disputed {
                (r matches Err(e) && e.model() == ErrorModel::BadState(
                    "trade changed while awarding buyer"@,
                )) && final(self).trades() == old(self).trades()
            } else {
                r is Ok && becomes(
                    old(self).trades(),
                    final(self).trades(),
                    id@,
                    TradeModel {
                        buyer_invoice: Some(invoice@),
                        invoice_status: Some(status@),
                        ..old(self).trades()[id@]
                    },
                    seq!["solver awarded buyer; path C \u{2192} path A: pay buyer then settle hold"@],
                )
            },
    {
        let i = match self.lookup_trade(id) {
            Some(i) => i,
            None => return Err(trade_not_found(id)),
        };
        let mut t = self.trade_in(i).duplicate();
        if t.state != OrderState::Disputed {
            return Err(OrderError::BadState(owned("trade changed while awarding buyer")));
        }
        t.buyer_invoice = Some(invoice);
        t.invoice_status = Some(status);
        let lines = vec![owned("solver awarded buyer; path C \u{2192} path A: pay buyer then settle hold")];
        proof {
            assert(texts_of(lines@) =~= seq!["solver awarded buyer; path C \u{2192} path A: pay buyer then settle hold"@]);
        }
        t.push_logs(lines);
        self.replace_trade(i, t);
        Ok(())
    }

    /// Records the award to the seller: nothing is settled or cancelled; the
    /// seller is refunded when the hold expires.
    pub fn record_award_seller(&mut self, id: &str, status: &str) -> (r: Result<TradeView, OrderError>)
        requires
            old(self).wf(),
        ensures
            final(self).wf(),
            final(self).ads() == old(self).ads(),
            if !old(self).trades().contains_key(id@) {
                (r matches Err(e) && e.model() == missing_trade(id@)) && final(self).trades() == old(
                    self,
                ).trades()
            } else if old(self).trades()[id@].state != OrderState::Disputed {
                (r matches Err(e) && e.model() == ErrorModel::BadState(
                    "trade changed while awarding seller"@,
                )) && final(self).trades() == old(self).trades()
            } else {
                &&& becomes(
                    old(self).trades(),
                    final(self).trades(),
                    id@,
                    TradeModel { invoice_status: Some(status@), ..old(self).trades()[id@] },
                    seq![
                        "solver awarded seller: hold stays "@ + status@
                            + "; settle_invoice not called; cancel_invoice not called; seller refund at TLC expiry"@,
                    ],
                )
                &&& r matches Ok(v) && v.model() == public_view(final(self).trades()[id@])
            },
    {
        let i = match self.lookup_trade(id) {
            Some(i) => i,
            None => return Err(trade_not_found(id)),
        };
        let mut t = self.trade_in(i).duplicate();
        if t.state != OrderState::Disputed {
            return Err(OrderError::BadState(owned("trade changed while awarding seller")));
        }
        t.invoice_status = Some(owned(status));
        let lines = vec![
            join3(
                "solver awarded seller: hold stays ",
                status,
                "; settle_invoice not called; cancel_invoice not called; seller refund at TLC expiry",
            ),
        ];
        proof {
            assert(texts_of(lines@) =~= seq![
                "solver awarded seller: hold stays "@ + status@
                    + "; settle_invoice not called; cancel_invoice not called; seller refund at TLC expiry"@,
            ]);
        }
        t.push_logs(lines);
        let view = t.view();
        self.replace_trade(i, t);
        Ok(view)
    }

    /// The hold hash to check for expiry, when the trade `id` may still expire.
    pub fn expiry_target(&self, id: &str) -> (r: Option<String>)
        requires
            self.wf(),
        ensures
            match r {
                Some(h) => self.trades().contains_key(id@) && self.trades()[id@].state
                    != OrderState::Expired && watches_hold(self.trades()[id@].state)
                    && self.trades()[id@].payment_hash == Some(h@),
                None => !self.trades().contains_key(id@) || self.trades()[id@].state
                    == OrderState::Expired || !watches_hold(self.trades()[id@].state)
                    || self.trades()[id@].payment_hash is None,
            },
            crate::order::opt_text(r) == expiry_target_of(self.trades(), id@),
    {
        let i = match self.lookup_trade(id) {
            Some(i) => i,
            None => return None,
        };
        let t = self.trade_in(i);
        if t.state == OrderState::Expired || !crate::order::Trade::watches_hold_invoice(t.state) {
            return None;
        }
        match &t.payment_hash {
            Some(h) => Some(h.clone()),
            None => None,
        }
    }

    /// Records the latest status of a hold that has not expired.
    pub fn record_hold_status(&mut self, id: &str, status: String)
        requires
            old(self).wf(),
        ensures
            final(self).wf(),
            final(self).ads() == old(self).ads(),
            if old(self).trades().contains_key(id@) && watches_hold(old(self).trades()[id@].state) {
                final(self).trades() == old(self).trades().insert(
                    id@,
                    TradeModel { invoice_status: Some(status@), ..old(self).trades()[id@] },
                )
            } else {
                final(self).trades() == old(self).trades()
            },
    {
        let i = match self.lookup_trade(id) {
            Some(i) => i,
            None => return,
        };
        let mut t = self.trade_in(i).duplicate();
        if crate::order::Trade::watches_hold_invoice(t.state) {
            t.invoice_status = Some(status);
            self.replace_trade(i, t);
        }
    }

    /// The preimage sealed for the trade `id`, for the settle tried after expiry.
    pub fn expiry_preimage(&self, id: &str) -> (r: Result<Option<String>, OrderError>)
        requires
            self.wf(),
        ensures
            match r {
                Ok(p) => self.trades().contains_key(id@) && crate::order::opt_text(p)
                    == self.trades()[id@].payment_preimage,
                Err(e) => !self.trades().contains_key(id@) && e.model() == missing_trade(id@),
            },
    {
        match self.lookup_trade(id) {
            Some(i) => Ok(crate::order::copy_opt(&self.trade_in(i).payment_preimage)),
            None => Err(trade_not_found(id)),
        }
    }

    /// Records that the hold of the trade `id` expired: the trade is
    /// `Expired` and its reserved CKB returns to the ad.
    pub fn record_expired(&mut self, id: &str, payment_hash: &str, note: Option<String>) -> (r: Result<
        TradeView,
        OrderError,
    >)
        requires
            old(self).wf(),
        ensures
            final(self).wf(),
            !old(self).trades().contains_key(id@) ==> (r matches Err(e) && e.model()
                == missing_trade(id@) && final(self).trades() == old(self).trades()
                && final(self).ads() == old(self).ads()),
            old(self).trades().contains_key(id@) ==> ({
                let t = old(self).trades()[id@];
                if t.state == OrderState::Expired {
                    (r matches Ok(v) && v.model() == public_view(t)) && final(self).trades() == old(
                        self,
                    ).trades() && final(self).ads() == old(self).ads()
                } else if !watches_hold(t.state) {
                    (r matches Err(e) && e.model() == ErrorModel::BadState(
                        "path D expiry interrupted; trade is "@ + state_text(t.state),
                    )) && final(self).trades() == old(self).trades() && final(self).ads() == old(
                        self,
                    ).ads()
                } else {
                    &&& becomes(
                        old(self).trades(),
                        final(self).trades(),
                        id@,
                        TradeModel {
                            state: OrderState::Expired,
                            invoice_status: Some("Expired"@),
                            ..t
                        },
                        expiry_lines(payment_hash@, crate::order::opt_text(note)),
                    )
                    &&& match returned_ckb(old(self).ads(), t.ad_id, id@, t.amount) {
                        Ok(ads) => final(self).ads() == ads && (r matches Ok(v) && v.model()
                            == public_view(final(self).trades()[id@])),
                        Err(e) => final(self).ads() == old(self).ads() && (r matches Err(x)
                            && x.model() == e),
                    }
                }
            }),
            expiry_ends(old(self).trades(), id@) ==> ({
                let t = old(self).trades()[id@];
                &&& final(self).trades()[id@].state == OrderState::Expired
                &&& final(self).trades()[id@].invoice_status == Some("Expired"@)
                &&& returned_ckb(old(self).ads(), t.ad_id, id@, t.amount) matches Ok(ads) ==> (r is Ok
                    && final(self).ads() == ads)
            }),
            old(self).trades().contains_key(id@) && !expiry_ends(old(self).trades(), id@) ==> (
            final(self).trades() == old(self).trades() && final(self).ads() == old(self).ads()),
    {
        let i = match self.lookup_trade(id) {
            Some(i) => i,
            None => return Err(trade_not_found(id)),
        };
        let mut t = self.trade_in(i).duplicate();
        if t.state == OrderState::Expired {
            return Ok(t.view());
        }
        if !crate::order::Trade::watches_hold_invoice(t.state) {
            return Err(OrderError::BadState(concat("path D expiry interrupted; trade is ", state_name(t.state))));
        }
        let ad_id = t.ad_id.clone();
        let amount = t.amount.clone();
        t.state = OrderState::Expired;
        t.invoice_status = Some(owned("Expired"));
        let mut lines = vec![
            join3(
                "path D: hold invoice Expired H=",
                payment_hash,
                "; seller payment failed back; seller refunded because the TLC expired",
            ),
            owned("path D: cancel_invoice not called (not legal / not needed after Received\u{2192}Expired)"),
        ];
        match &note {
            Some(e) => {
                lines.push(
                    join3(
                        "path D: settle_invoice(H, S) after expiry failed as expected: ",
                        e.as_str(),
                        " (not a successful settle)",
                    ),
                );
            },
            None => {},
        }
        proof {
            assert(texts_of(lines@) =~= expiry_lines(payment_hash@, crate::order::opt_text(note)));
        }
        t.push_logs(lines);
        let view = t.view();
        self.replace_trade(i, t);
        self.return_ckb(ad_id.as_str(), id, amount.as_str())?;
        Ok(view)
    }

    /// What paying the buyer of the trade `id` and settling its hold need;
    /// logs the invoice that will be paid.
    pub fn payout_plan(&mut self, id: &str) -> (r: Result<PayoutPlan, OrderError>)
        requires
            old(self).wf(),
        ensures
            final(self).wf(),
            final(self).ads() == old(self).ads(),
            !old(self).trades().contains_key(id@) ==> (r matches Err(e) && e.model()
                == missing_trade(id@) && final(self).trades() == old(self).trades()),
            old(self).trades().contains_key(id@) ==> ({
                let t = old(self).trades()[id@];
                if t.payment_hash is None {
                    (r matches Err(e) && e.model() == ErrorModel::BadState("missing hold payment hash"@))
                        && final(self).trades() == old(self).trades()
                } else if t.payment_preimage is None {
                    (r matches Err(e) && e.model() == ErrorModel::BadState(
                        "missing hold payment preimage"@,
                    )) && final(self).trades() == old(self).trades()
                } else if t.buyer_invoice is None {
                    (r matches Err(e) && e.model() == ErrorModel::BadState("missing buyer invoice"@))
                        && final(self).trades() == old(self).trades()
                } else {
                    &&& becomes(
                        old(self).trades(),
                        final(self).trades(),
                        id@,
                        t,
                        seq![
                            "pay: using buyer invoice "@ + t.buyer_invoice->Some_0
                                + " (normal invoice, preimage on buyer node)"@,
                        ],
                    )
                    &&& r matches Ok(p) && Some(p.hold_hash@) == t.payment_hash && Some(
                        p.hold_preimage@,
                    ) == t.payment_preimage && Some(p.buyer_invoice@) == t.buyer_invoice
                }
            }),
    {
        let i = match self.lookup_trade(id) {
            Some(i) => i,
            None => return Err(trade_not_found(id)),
        };
        let mut t = self.trade_in(i).duplicate();
        let hold_hash = match &t.payment_hash {
            Some(h) => h.clone(),
            None => return Err(OrderError::BadState(owned("missing hold payment hash"))),
        };
        let hold_preimage = match &t.payment_preimage {
            Some(p) => p.clone(),
            None => return Err(OrderError::BadState(owned("missing hold payment preimage"))),
        };
        let buyer_invoice = match &t.buyer_invoice {
            Some(b) => b.clone(),
            None => return Err(OrderError::BadState(owned("missing buyer invoice"))),
        };
        let lines = vec![
            join3(
                "pay: using buyer invoice ",
                buyer_invoice.as_str(),
                " (normal invoice, preimage on buyer node)",
            ),
        ];
        proof {
            assert(texts_of(lines@) =~= seq![
                "pay: using buyer invoice "@ + buyer_invoice@ + " (normal invoice, preimage on buyer node)"@,
            ]);
        }
        t.push_logs(lines);
        self.replace_trade(i, t);
        Ok(PayoutPlan { hold_hash, hold_preimage, buyer_invoice })
    }

    /// Appends the line `text` to the log of the trade `id`.
    pub fn record_note(&mut self, id: &str, text: String) -> (r: Result<(), OrderError>)
        requires
            old(self).wf(),
        ensures
            final(self).wf(),
            final(self).ads() == old(self).ads(),
            !old(self).trades().contains_key(id@) ==> (r matches Err(e) && e.model()
                == missing_trade(id@) && final(self).trades() == old(self).trades()),
            old(self).trades().contains_key(id@) ==> r is Ok && becomes(
                old(self).trades(),
                final(self).trades(),
                id@,
                old(self).trades()[id@],
                seq![text@],
            ),
    {
        let i = match self.lookup_trade(id) {
            Some(i) => i,
            None => return Err(trade_not_found(id)),
        };
        let mut t = self.trade_in(i).duplicate();
        let ghost tv = text@;
        let lines = vec![text];
        proof {
            assert(texts_of(lines@) =~= seq![tv]);
        }
        t.push_logs(lines);
        self.replace_trade(i, t);
        Ok(())
    }

    /// Records that Twine submitted the payment to the buyer.
    pub fn record_payment_submitted(&mut self, id: &str, pay_hash: &str) -> (r: Result<(), OrderError>)
        requires
            old(self).wf(),
        ensures
            final(self).wf(),
            final(self).ads() == old(self).ads(),
            !old(self).trades().contains_key(id@) ==> (r matches Err(e) && e.model()
                == missing_trade(id@) && final(self).trades() == old(self).trades()),
            old(self).trades().contains_key(id@) ==> r is Ok && becomes(
                old(self).trades(),
                final(self).trades(),
                id@,
                old(self).trades()[id@],
                seq!["pay: twine send_payment submitted payment_hash="@ + pay_hash@],
            ),
    {
        self.record_note(id, concat("pay: twine send_payment submitted payment_hash=", pay_hash))
    }

    /// Records that the payment to the buyer reached `status` (`Success`).
    pub fn record_payment_done(&mut self, id: &str, status: &str) -> (r: Result<(), OrderError>)
        requires
            old(self).wf(),
        ensures
            final(self).wf(),
            final(self).ads() == old(self).ads(),
            !old(self).trades().contains_key(id@) ==> (r matches Err(e) && e.model()
                == missing_trade(id@) && final(self).trades() == old(self).trades()),
            old(self).trades().contains_key(id@) ==> r is Ok && becomes(
                old(self).trades(),
                final(self).trades(),
                id@,
                old(self).trades()[id@],
                seq!["pay: get_payment="@ + status@],
            ),
    {
        self.record_note(id, concat("pay: get_payment=", status))
    }

    /// Records that `settle_invoice(H, S)` was submitted.
    pub fn record_settle_submitted(&mut self, id: &str) -> (r: Result<(), OrderError>)
        requires
            old(self).wf(),
        ensures
            final(self).wf(),
            final(self).ads() == old(self).ads(),
            !old(self).trades().contains_key(id@) ==> (r matches Err(e) && e.model()
                == missing_trade(id@) && final(self).trades() == old(self).trades()),
            old(self).trades().contains_key(id@) ==> r is Ok && becomes(
                old(self).trades(),
                final(self).trades(),
                id@,
                old(self).trades()[id@],
                seq!["settle: settle_invoice(H, S) submitted on twine"@],
            ),
    {
        self.record_note(id, owned("settle: settle_invoice(H, S) submitted on twine"))
    }

    /// Records that paying the buyer failed: `Leg2Failed` after a release or
    /// retry, still `Disputed` after an award. The hold is not settled.
    pub fn record_pay_failure(&mut self, id: &str, detail: &str, mode: PayFailureMode) -> (r: Result<
        TradeView,
        OrderError,
    >)
        requires
            old(self).wf(),
        ensures
            final(self).wf(),
            final(self).ads() == old(self).ads(),
            !old(self).trades().contains_key(id@) ==> (r matches Err(e) && e.model()
                == missing_trade(id@) && final(self).trades() == old(self).trades()),
            old(self).trades().contains_key(id@) ==> ({
                &&& becomes(
                    old(self).trades(),
                    final(self).trades(),
                    id@,
                    TradeModel { state: failure_state(mode), ..old(self).trades()[id@] },
                    pay_failure_lines(detail@, mode),
                )
                &&& r matches Ok(v) && v.model() == public_view(final(self).trades()[id@])
            }),
    {
        let i = match self.lookup_trade(id) {
            Some(i) => i,
            None => return Err(trade_not_found(id)),
        };
        let mut t = self.trade_in(i).duplicate();
        let lines = match mode {
            PayFailureMode::Leg2Failed => {
                t.state = OrderState::Leg2Failed;
                vec![
                    join3("pay failed: ", detail, "; settle_invoice not called (hold stays Received)"),
                    owned("path B: buyer should submit a new invoice to retry (POST /trades/:id/retry)"),
                    owned("if the buyer never returns, the seller is refunded when the TLC expires (do not cancel_invoice on Received)"),
                ]
            },
            PayFailureMode::StayDisputed => {
                t.state = OrderState::Disputed;
                vec![
                    join3(
                        "path C buyer award pay failed: ",
                        detail,
                        "; settle_invoice not called; stay Disputed (hold stays Received)",
                    ),
                ]
            },
        };
        proof {
            assert(texts_of(lines@) =~= pay_failure_lines(detail@, mode));
        }
        t.push_logs(lines);
        let view = t.view();
        self.replace_trade(i, t);
        Ok(view)
    }

    /// Records that the hold reached `status` (`Paid`) after the settle: the
    /// trade is `Settled`, its slice stays sold, and the ad is freed.
    pub fn record_settled(&mut self, id: &str, status: &str, mode: PayFailureMode) -> (r: Result<
        TradeView,
        OrderError,
    >)
        requires
            old(self).wf(),
        ensures
            final(self).wf(),
            !old(self).trades().contains_key(id@) ==> (r matches Err(e) && e.model()
                == missing_trade(id@) && final(self).trades() == old(self).trades()
                && final(self).ads() == old(self).ads()),
            old(self).trades().contains_key(id@) ==> ({
                let t = old(self).trades()[id@];
                &&& becomes(
                    old(self).trades(),
                    final(self).trades(),
                    id@,
                    TradeModel { state: OrderState::Settled, invoice_status: Some(status@), ..t },
                    settled_lines(status@, mode),
                )
                &&& final(self).ads() == freed_ad(old(self).ads(), t.ad_id, id@)
                &&& r matches Ok(v) && v.model() == public_view(final(self).trades()[id@])
            }),
    {
        let i = match self.lookup_trade(id) {
            Some(i) => i,
            None => return Err(trade_not_found(id)),
        };
        let mut t = self.trade_in(i).duplicate();
        t.state = OrderState::Settled;
        t.invoice_status = Some(owned(status));
        let lines = vec![
            concat("settle: hold invoice=", status),
            match mode {
                PayFailureMode::Leg2Failed => owned("path A complete: state Settled"),
                PayFailureMode::StayDisputed => owned("path C buyer wins complete: state Settled"),
            },
        ];
        proof {
            assert(texts_of(lines@) =~= settled_lines(status@, mode));
        }
        t.push_logs(lines);
        let view = t.view();
        let ad_id = t.ad_id.clone();
        self.replace_trade(i, t);
        match self.lookup_ad(ad_id.as_str()) {
            Some(j) => {
                let frees = match &self.ad_in(j).open_trade_id {
                    Some(o) => crate::text::text_is(o.as_str(), id),
                    None => false,
                };
                if frees {
                    let mut ad = self.ad_in(j).duplicate();
                    ad.open_trade_id = None;
                    self.replace_ad(j, ad);
                }
            },
            None => {},
        }
        Ok(view)
    }
}

} // verus!
