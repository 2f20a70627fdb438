//! Paying the buyer, then settling the hold (path A): what the daemon does
//! after each answer of the Twine node. Each step takes where the payout
//! stands and what the node answered, records it in the book, and says
//! which call to make next. The settle is asked for only once the payment
//! to the buyer reported `Success`.

use vstd::prelude::*;

use crate::fiber::{
    paid_outcome, paid_poll, payment_outcome, payment_poll, send_failure_detail, sent_payment_hash,
    PollDecision, PollModel,
};
use crate::flow::{
    becomes, failure_state, freed_ad, missing_trade, pay_failure_lines, settled_lines, PayoutPlan,
};
use crate::market::{AdModel, MarketStore};
use crate::order::{
    opt_text, public_view, ErrorModel, OrderError, OrderState, PayFailureMode, TradeModel,
    TradeView,
};
use crate::text::owned;

verus! {

/// The texts of a `PayoutPlan`.
pub struct PlanModel {
    pub hold_hash: Seq<char>,
    pub hold_preimage: Seq<char>,
    pub buyer_invoice: Seq<char>,
}

impl PayoutPlan {
    pub open spec fn model(&self) -> PlanModel {
        PlanModel {
            hold_hash: self.hold_hash@,
            hold_preimage: self.hold_preimage@,
            buyer_invoice: self.buyer_invoice@,
        }
    }
}

/// Where paying the buyer and settling the hold stands.
#[derive(Debug)]
pub enum PayoutStep {
    /// Nothing asked of the node yet.
    Start,
    /// `send_payment` to the buyer's invoice was asked.
    AwaitSend(PayoutPlan),
    /// The payment was submitted and is followed by this hash.
    AwaitPayment(PayoutPlan, String),
    /// The payment succeeded and `settle_invoice(H, S)` was asked.
    AwaitSettle(PayoutPlan),
    /// The settle was submitted; the hold is followed until `Paid`.
    AwaitPaid(PayoutPlan),
    /// Nothing more to do.
    Done,
}

/// What `get_payment` reported, and whether the wait for it ran out.
#[derive(Debug)]
pub struct PaymentReport {
    pub status: String,
    pub failed_error: Option<String>,
    pub timed_out: bool,
}

/// What `get_invoice` reported for the hold, and whether the wait ran out.
#[derive(Debug)]
pub struct InvoiceReport {
    pub status: String,
    pub timed_out: bool,
}

/// What the node answered to the last call; an `Err` carries the call's
/// error message.
#[derive(Debug)]
pub enum PayoutEvent {
    /// The payout is asked for.
    Begin,
    /// The answer to `send_payment`: the payment hash it reported, if any.
    SendReply(Result<Option<String>, String>),
    /// The answer to `get_payment`.
    PaymentReply(Result<PaymentReport, String>),
    /// The answer to `settle_invoice`.
    SettleReply(Result<(), String>),
    /// The answer to `get_invoice` on the hold.
    InvoiceReply(Result<InvoiceReport, String>),
}

/// The next thing to do.
#[derive(Debug)]
pub enum PayoutAction {
    /// `send_payment` to this buyer invoice.
    SendPayment(String),
    /// `get_payment` for this hash; after a pause when `true`, else at once
    /// and with a fresh deadline.
    PollPayment(String, bool),
    /// `settle_invoice` with this payment hash `H` and preimage `S`.
    SettleInvoice(String, String),
    /// `get_invoice` for this hold hash; after a pause when `true`, else at
    /// once and with a fresh deadline.
    PollInvoice(String, bool),
    /// The payout ended with this trade.
    Finish(TradeView),
    /// The payout stopped with this error.
    Fail(OrderError),
}

pub enum StepModel {
    Start,
    AwaitSend(PlanModel),
    AwaitPayment(PlanModel, Seq<char>),
    AwaitSettle(PlanModel),
    AwaitPaid(PlanModel),
    Done,
}

pub enum EventModel {
    Begin,
    SendReply(Result<Option<Seq<char>>, Seq<char>>),
    PaymentReply(Result<(Seq<char>, Option<Seq<char>>, bool), Seq<char>>),
    SettleReply(Result<(), Seq<char>>),
    InvoiceReply(Result<(Seq<char>, bool), Seq<char>>),
}

pub enum ActionModel {
    SendPayment(Seq<char>),
    PollPayment(Seq<char>, bool),
    SettleInvoice(Seq<char>, Seq<char>),
    PollInvoice(Seq<char>, bool),
    Finish,
    Fail(ErrorModel),
}

/// How a step changes the book.
pub enum PayoutEffect {
    /// Not at all.
    Unchanged,
    /// The trade's log gains this line.
    Note(Seq<char>),
    /// The payment failed with this detail (`record_pay_failure`).
    Failure(Seq<char>),
    /// The hold reached this status after the settle (`record_settled`).
    Settled(Seq<char>),
}

impl PayoutStep {
    pub open spec fn model(&self) -> StepModel {
        match self {
            PayoutStep::Start => StepModel::Start,
            PayoutStep::AwaitSend(p) => StepModel::AwaitSend(p.model()),
            PayoutStep::AwaitPayment(p, h) => StepModel::AwaitPayment(p.model(), h@),
            PayoutStep::AwaitSettle(p) => StepModel::AwaitSettle(p.model()),
            PayoutStep::AwaitPaid(p) => StepModel::AwaitPaid(p.model()),
            PayoutStep::Done => StepModel::Done,
        }
    }
}

impl PayoutEvent {
    pub open spec fn model(&self) -> EventModel {
        match self {
            PayoutEvent::Begin => EventModel::Begin,
            PayoutEvent::SendReply(Ok(h)) => EventModel::SendReply(Ok(opt_text(*h))),
            PayoutEvent::SendReply(Err(m)) => EventModel::SendReply(Err(m@)),
            PayoutEvent::PaymentReply(Ok(p)) => EventModel::PaymentReply(
                Ok((p.status@, opt_text(p.failed_error), p.timed_out)),
            ),
            PayoutEvent::PaymentReply(Err(m)) => EventModel::PaymentReply(Err(m@)),
            PayoutEvent::SettleReply(Ok(())) => EventModel::SettleReply(Ok(())),
            PayoutEvent::SettleReply(Err(m)) => EventModel::SettleReply(Err(m@)),
            PayoutEvent::InvoiceReply(Ok(i)) => EventModel::InvoiceReply(Ok((i.status@, i.timed_out))),
            PayoutEvent::InvoiceReply(Err(m)) => EventModel::InvoiceReply(Err(m@)),
        }
    }
}

impl PayoutAction {
    pub open spec fn model(&self) -> ActionModel {
        match self {
            PayoutAction::SendPayment(i) => ActionModel::SendPayment(i@),
            PayoutAction::PollPayment(h, p) => ActionModel::PollPayment(h@, *p),
            PayoutAction::SettleInvoice(h, s) => ActionModel::SettleInvoice(h@, s@),
            PayoutAction::PollInvoice(h, p) => ActionModel::PollInvoice(h@, *p),
            PayoutAction::Finish(_) => ActionModel::Finish,
            PayoutAction::Fail(e) => ActionModel::Fail(e.model()),
        }
    }
}

/// The hold hash, preimage and buyer invoice that the trade `t` pays with.
pub open spec fn plan_of(t: TradeModel) -> PlanModel {
    PlanModel {
        hold_hash: t.payment_hash->Some_0,
        hold_preimage: t.payment_preimage->Some_0,
        buyer_invoice: t.buyer_invoice->Some_0,
    }
}

/// Why the trade `t` cannot be paid out, if it cannot.
pub open spec fn plan_problem(t: TradeModel) -> Option<ErrorModel> {
    if t.payment_hash is None {
        Some(ErrorModel::BadState("missing hold payment hash"@))
    } else if t.payment_preimage is None {
        Some(ErrorModel::BadState("missing hold payment preimage"@))
    } else if t.buyer_invoice is None {
        Some(ErrorModel::BadState("missing buyer invoice"@))
    } else {
        None
    }
}

/// A step that records in the trade `id`: as given when the book holds the
/// trade, else refused with the book unchanged.
pub open spec fn recorded(
    trades: Map<Seq<char>, TradeModel>,
    id: Seq<char>,
    step: StepModel,
    action: ActionModel,
    effect: PayoutEffect,
) -> (StepModel, ActionModel, PayoutEffect) {
    if trades.contains_key(id) {
        (step, action, effect)
    } else {
        (StepModel::Done, ActionModel::Fail(missing_trade(id)), PayoutEffect::Unchanged)
    }
}

/// The refusal of an event that the step does not wait for.
pub open spec fn out_of_turn() -> ErrorModel {
    ErrorModel::BadState("payout step does not take this event"@)
}

/// The next step, the next action and the change of the book, after the
/// event `event` at the step `step` of paying out the trade `id`.
pub open spec fn payout_next(
    trades: Map<Seq<char>, TradeModel>,
    id: Seq<char>,
    step: StepModel,
    event: EventModel,
) -> (StepModel, ActionModel, PayoutEffect) {
    match step {
        StepModel::Start => match event {
            EventModel::Begin => if !trades.contains_key(id) {
                (StepModel::Done, ActionModel::Fail(missing_trade(id)), PayoutEffect::Unchanged)
            } else {
                match plan_problem(trades[id]) {
                    Some(e) => (StepModel::Done, ActionModel::Fail(e), PayoutEffect::Unchanged),
                    None => {
                        let p = plan_of(trades[id]);
                        (
                            StepModel::AwaitSend(p),
                            ActionModel::SendPayment(p.buyer_invoice),
                            PayoutEffect::Note(
                                "pay: using buyer invoice "@ + p.buyer_invoice
                                    + " (normal invoice, preimage on buyer node)"@,
                            ),
                        )
                    },
                }
            },
            _ => (StepModel::Done, ActionModel::Fail(out_of_turn()), PayoutEffect::Unchanged),
        },
        StepModel::AwaitSend(p) => match event {
            EventModel::SendReply(Err(m)) => recorded(
                trades,
                id,
                StepModel::Done,
                ActionModel::Finish,
                PayoutEffect::Failure("send_payment failed: "@ + m),
            ),
            EventModel::SendReply(Ok(h)) => {
                let hash = match h {
                    Some(x) => x,
                    None => p.buyer_invoice,
                };
                recorded(
                    trades,
                    id,
                    StepModel::AwaitPayment(p, hash),
                    ActionModel::PollPayment(hash, false),
                    PayoutEffect::Note("pay: twine send_payment submitted payment_hash="@ + hash),
                )
            },
            _ => (StepModel::Done, ActionModel::Fail(out_of_turn()), PayoutEffect::Unchanged),
        },
        StepModel::AwaitPayment(p, hash) => match event {
            EventModel::PaymentReply(Err(m)) => recorded(
                trades,
                id,
                StepModel::Done,
                ActionModel::Finish,
                PayoutEffect::Failure(m),
            ),
            EventModel::PaymentReply(Ok(rep)) => match payment_outcome(rep.0, rep.1, hash, rep.2) {
                PollModel::Done(s) => recorded(
                    trades,
                    id,
                    StepModel::AwaitSettle(p),
                    ActionModel::SettleInvoice(p.hold_hash, p.hold_preimage),
                    PayoutEffect::Note("pay: get_payment="@ + s),
                ),
                PollModel::Fail(m) => recorded(
                    trades,
                    id,
                    StepModel::Done,
                    ActionModel::Finish,
                    PayoutEffect::Failure(m),
                ),
                PollModel::Wait => (
                    StepModel::AwaitPayment(p, hash),
                    ActionModel::PollPayment(hash, true),
                    PayoutEffect::Unchanged,
                ),
            },
            _ => (StepModel::Done, ActionModel::Fail(out_of_turn()), PayoutEffect::Unchanged),
        },
        StepModel::AwaitSettle(p) => match event {
            EventModel::SettleReply(Err(m)) => (
                StepModel::Done,
                ActionModel::Fail(ErrorModel::Fiber(m)),
                PayoutEffect::Unchanged,
            ),
            EventModel::SettleReply(Ok(())) => recorded(
                trades,
                id,
                StepModel::AwaitPaid(p),
                ActionModel::PollInvoice(p.hold_hash, false),
                PayoutEffect::Note("settle: settle_invoice(H, S) submitted on twine"@),
            ),
            _ => (StepModel::Done, ActionModel::Fail(out_of_turn()), PayoutEffect::Unchanged),
        },
        StepModel::AwaitPaid(p) => match event {
            EventModel::InvoiceReply(Err(m)) => (
                StepModel::Done,
                ActionModel::Fail(ErrorModel::Fiber(m)),
                PayoutEffect::Unchanged,
            ),
            EventModel::InvoiceReply(Ok(rep)) => match paid_outcome(rep.0, rep.1) {
                PollModel::Done(s) => recorded(
                    trades,
                    id,
                    StepModel::Done,
                    ActionModel::Finish,
                    PayoutEffect::Settled(s),
                ),
                PollModel::Fail(m) => (
                    StepModel::Done,
                    ActionModel::Fail(ErrorModel::Fiber(m)),
                    PayoutEffect::Unchanged,
                ),
                PollModel::Wait => (
                    StepModel::AwaitPaid(p),
                    ActionModel::PollInvoice(p.hold_hash, true),
                    PayoutEffect::Unchanged,
                ),
            },
            _ => (StepModel::Done, ActionModel::Fail(out_of_turn()), PayoutEffect::Unchanged),
        },
        StepModel::Done => (StepModel::Done, ActionModel::Fail(out_of_turn()), PayoutEffect::Unchanged),
    }
}

/// The book `new` is `old` changed by `effect` on the trade `id`.
pub open spec fn payout_effect_holds(
    old_ads: Map<Seq<char>, AdModel>,
    old_trades: Map<Seq<char>, TradeModel>,
    new_ads: Map<Seq<char>, AdModel>,
    new_trades: Map<Seq<char>, TradeModel>,
    id: Seq<char>,
    effect: PayoutEffect,
    mode: PayFailureMode,
) -> bool {
    match effect {
        PayoutEffect::Unchanged => new_ads == old_ads && new_trades == old_trades,
        PayoutEffect::Note(line) => new_ads == old_ads && becomes(
            old_trades,
            new_trades,
            id,
            old_trades[id],
            seq![line],
        ),
        PayoutEffect::Failure(detail) => new_ads == old_ads && becomes(
            old_trades,
            new_trades,
            id,
            TradeModel { state: failure_state(mode), ..old_trades[id] },
            pay_failure_lines(detail, mode),
        ),
        PayoutEffect::Settled(status) => new_ads == freed_ad(
            old_ads,
            old_trades[id].ad_id,
            id,
        ) && becomes(
            old_trades,
            new_trades,
            id,
            TradeModel {
                state: OrderState::Settled,
                invoice_status: Some(status),
                ..old_trades[id]
            },
            settled_lines(status, mode),
        ),
    }
}

fn out_of_turn_error() -> (r: OrderError)
    ensures
        r.model() == out_of_turn(),
{
    OrderError::BadState(owned("payout step does not take this event"))
}

impl MarketStore {
    /// Records what the node answered (`event`) at the step `step` of paying
    /// out the trade `id`, and says the next step and what to do next. A
    /// failed payment ends as `mode` says.
    pub fn payout_step(
        &mut self,
        id: &str,
        step: PayoutStep,
        event: PayoutEvent,
        mode: PayFailureMode,
    ) -> (r: (PayoutStep, PayoutAction))
        requires
            old(self).wf(),
        ensures
            final(self).wf(),
            ({
                let n = payout_next(old(self).trades(), id@, step.model(), event.model());
                &&& r.0.model() == n.0
                &&& r.1.model() == n.1
                &&& payout_effect_holds(
                    old(self).ads(),
                    old(self).trades(),
                    final(self).ads(),
                    final(self).trades(),
                    id@,
                    n.2,
                    mode,
                )
            }),
            r.1 matches PayoutAction::Finish(v) ==> v.model() == public_view(
                final(self).trades()[id@],
            ),
    {
        match step {
            PayoutStep::Start => match event {
                PayoutEvent::Begin => match self.payout_plan(id) {
                    Ok(plan) => {
                        let invoice = plan.buyer_invoice.clone();
                        (PayoutStep::AwaitSend(plan), PayoutAction::SendPayment(invoice))
                    },
                    Err(e) => (PayoutStep::Done, PayoutAction::Fail(e)),
                },
                _ => (PayoutStep::Done, PayoutAction::Fail(out_of_turn_error())),
            },
            PayoutStep::AwaitSend(plan) => match event {
                PayoutEvent::SendReply(Err(m)) => {
                    let detail = send_failure_detail(m.as_str());
                    match self.record_pay_failure(id, detail.as_str(), mode) {
                        Ok(v) => (PayoutStep::Done, PayoutAction::Finish(v)),
                        Err(e) => (PayoutStep::Done, PayoutAction::Fail(e)),
                    }
                },
                PayoutEvent::SendReply(Ok(reported)) => {
                    let hash = sent_payment_hash(reported, plan.buyer_invoice.as_str());
                    match self.record_payment_submitted(id, hash.as_str()) {
                        Ok(()) => {
                            let follow = hash.clone();
                            (PayoutStep::AwaitPayment(plan, hash), PayoutAction::PollPayment(follow, false))
                        },
                        Err(e) => (PayoutStep::Done, PayoutAction::Fail(e)),
                    }
                },
                _ => (PayoutStep::Done, PayoutAction::Fail(out_of_turn_error())),
            },
            PayoutStep::AwaitPayment(plan, hash) => match event {
                PayoutEvent::PaymentReply(Err(m)) => match self.record_pay_failure(id, m.as_str(), mode) {
                    Ok(v) => (PayoutStep::Done, PayoutAction::Finish(v)),
                    Err(e) => (PayoutStep::Done, PayoutAction::Fail(e)),
                },
                PayoutEvent::PaymentReply(Ok(rep)) => {
                    match payment_poll(rep.status.as_str(), rep.failed_error, hash.as_str(), rep.timed_out) {
                        PollDecision::Done(s) => match self.record_payment_done(id, s.as_str()) {
                            Ok(()) => {
                                let h = plan.hold_hash.clone();
                                let pre = plan.hold_preimage.clone();
                                (PayoutStep::AwaitSettle(plan), PayoutAction::SettleInvoice(h, pre))
                            },
                            Err(e) => (PayoutStep::Done, PayoutAction::Fail(e)),
                        },
                        PollDecision::Fail(m) => match self.record_pay_failure(id, m.as_str(), mode) {
                            Ok(v) => (PayoutStep::Done, PayoutAction::Finish(v)),
                            Err(e) => (PayoutStep::Done, PayoutAction::Fail(e)),
                        },
                        PollDecision::Wait => {
                            let follow = hash.clone();
                            (PayoutStep::AwaitPayment(plan, hash), PayoutAction::PollPayment(follow, true))
                        },
                    }
                },
                _ => (PayoutStep::Done, PayoutAction::Fail(out_of_turn_error())),
            },
            PayoutStep::AwaitSettle(plan) => match event {
                PayoutEvent::SettleReply(Err(m)) => (PayoutStep::Done, PayoutAction::Fail(OrderError::Fiber(m))),
                PayoutEvent::SettleReply(Ok(())) => match self.record_settle_submitted(id) {
                    Ok(()) => {
                        let h = plan.hold_hash.clone();
                        (PayoutStep::AwaitPaid(plan), PayoutAction::PollInvoice(h, false))
                    },
                    Err(e) => (PayoutStep::Done, PayoutAction::Fail(e)),
                },
                _ => (PayoutStep::Done, PayoutAction::Fail(out_of_turn_error())),
            },
            PayoutStep::AwaitPaid(plan) => match event {
                PayoutEvent::InvoiceReply(Err(m)) => (PayoutStep::Done, PayoutAction::Fail(OrderError::Fiber(m))),
                PayoutEvent::InvoiceReply(Ok(rep)) => match paid_poll(rep.status.as_str(), rep.timed_out) {
                    PollDecision::Done(s) => match self.record_settled(id, s.as_str(), mode) {
                        Ok(v) => (PayoutStep::Done, PayoutAction::Finish(v)),
                        Err(e) => (PayoutStep::Done, PayoutAction::Fail(e)),
                    },
                    PollDecision::Fail(m) => (PayoutStep::Done, PayoutAction::Fail(OrderError::Fiber(m))),
                    PollDecision::Wait => {
                        let h = plan.hold_hash.clone();
                        (PayoutStep::AwaitPaid(plan), PayoutAction::PollInvoice(h, true))
                    },
                },
                _ => (PayoutStep::Done, PayoutAction::Fail(out_of_turn_error())),
            },
            PayoutStep::Done => (PayoutStep::Done, PayoutAction::Fail(out_of_turn_error())),
        }
    }
}

} // verus!
