//! Trades: their states, the record kept of each, the public view of it, and
//! the checks on what traders send (parties, payment proofs, invoice states).

use vstd::prelude::*;

use crate::outside::{
    base64_decoded, base64_standard_decode, clock_seconds, hex_bytes, hex_encode, random_bytes,
    rfc3339_at, rfc3339_of, sha256_digest, sha256_of,
};
use crate::text::{
    chars_eq, chars_of, concat, is_white, is_whitespace_char, lower_all, lower_chars, owned,
    string_of, text_is, trim, trim_chars, trim_end, trim_start,
};

verus! {

/// Fiber `new_invoice` `final_expiry_delta` in milliseconds (16 hours).
pub const FINAL_EXPIRY_DELTA_MS: u64 = 57_600_000;

/// Largest accepted payment proof, in bytes (1.5 MB).
pub const MAX_PROOF_BYTES: usize = 1_572_864;

#[derive(Clone, Copy, Debug, PartialEq, Eq, Structural)]
pub enum OrderState {
    Idle,
    Pending,
    WaitingHold,
    Held,
    WaitingFiat,
    FiatSent,
    Releasing,
    Leg2Failed,
    Disputed,
    Cancelled,
    Paid,
    Settled,
    Expired,
}

/// States in which a hold that reached `Received` may still expire on Fiber.
pub open spec fn watches_hold(state: OrderState) -> bool {
    state == OrderState::Held || state == OrderState::WaitingHold || state
        == OrderState::WaitingFiat || state == OrderState::FiatSent || state
        == OrderState::Leg2Failed || state == OrderState::Disputed || state
        == OrderState::Releasing
}

/// States of a trade that has not ended.
pub open spec fn is_open_state(state: OrderState) -> bool {
    !(state == OrderState::Idle || state == OrderState::Cancelled || state == OrderState::Paid
        || state == OrderState::Settled || state == OrderState::Expired)
}

/// States in which the parties may chat.
pub open spec fn chat_allowed(state: OrderState) -> bool {
    state == OrderState::WaitingFiat || state == OrderState::FiatSent || state
        == OrderState::Leg2Failed || state == OrderState::Disputed
}

pub open spec fn opt_text(o: Option<String>) -> Option<Seq<char>> {
    match o {
        Some(s) => Some(s@),
        None => None,
    }
}

#[derive(Clone, Debug, PartialEq, Eq)]
pub struct ProofMeta {
    pub content_type: String,
    pub bytes: usize,
}

pub struct ProofModel {
    pub content_type: Seq<char>,
    pub bytes: nat,
}

impl ProofMeta {
    pub open spec fn model(&self) -> ProofModel {
        ProofModel { content_type: self.content_type@, bytes: self.bytes as nat }
    }

    pub fn duplicate(&self) -> (r: ProofMeta)
        ensures
            r.model() == self.model(),
    {
        ProofMeta { content_type: self.content_type.clone(), bytes: self.bytes }
    }
}

pub open spec fn opt_proof(o: Option<ProofMeta>) -> Option<ProofModel> {
    match o {
        Some(p) => Some(p.model()),
        None => None,
    }
}

#[derive(Clone, Debug, PartialEq, Eq)]
pub struct LogLine {
    pub at: String,
    pub text: String,
}

pub struct LineModel {
    pub at: Seq<char>,
    pub text: Seq<char>,
}

impl LogLine {
    pub open spec fn model(&self) -> LineModel {
        LineModel { at: self.at@, text: self.text@ }
    }

    pub fn duplicate(&self) -> (r: LogLine)
        ensures
            r.model() == self.model(),
    {
        LogLine { at: self.at.clone(), text: self.text.clone() }
    }
}

#[derive(Clone, Debug, PartialEq, Eq)]
pub struct ChatLine {
    pub at: String,
    pub from: String,
    pub text: String,
}

pub struct ChatModel {
    pub at: Seq<char>,
    pub from: Seq<char>,
    pub text: Seq<char>,
}

impl ChatLine {
    pub open spec fn model(&self) -> ChatModel {
        ChatModel { at: self.at@, from: self.from@, text: self.text@ }
    }

    pub fn duplicate(&self) -> (r: ChatLine)
        ensures
            r.model() == self.model(),
    {
        ChatLine { at: self.at.clone(), from: self.from.clone(), text: self.text.clone() }
    }
}

pub open spec fn log_model(s: Seq<LogLine>) -> Seq<LineModel> {
    s.map_values(|l: LogLine| l.model())
}

pub open spec fn chat_model(s: Seq<ChatLine>) -> Seq<ChatModel> {
    s.map_values(|c: ChatLine| c.model())
}

/// `new` is `old` with lines carrying the texts `texts` appended.
pub open spec fn log_appended(old: Seq<LineModel>, new: Seq<LineModel>, texts: Seq<Seq<char>>) -> bool {
    &&& new.len() == old.len() + texts.len()
    &&& new.subrange(0, old.len() as int) == old
    &&& forall|j: int|
        0 <= j < texts.len() ==> #[trigger] new[old.len() + j].text == texts[j] && is_clock_text(
            new[old.len() + j].at,
        )
}

pub fn copy_log(v: &Vec<LogLine>) -> (r: Vec<LogLine>)
    ensures
        log_model(r@) == log_model(v@),
{
    let mut r: Vec<LogLine> = Vec::new();
    let n = v.len();
    for i in 0..n
        invariant
            n == v@.len(),
            r@.len() == i,
            forall|j: int| 0 <= j < i ==> (#[trigger] r@[j]).model() == v@[j].model(),
    {
        r.push(v[i].duplicate());
    }
    assert(log_model(r@) =~= log_model(v@));
    r
}

pub fn copy_chat(v: &Vec<ChatLine>) -> (r: Vec<ChatLine>)
    ensures
        chat_model(r@) == chat_model(v@),
{
    let mut r: Vec<ChatLine> = Vec::new();
    let n = v.len();
    for i in 0..n
        invariant
            n == v@.len(),
            r@.len() == i,
            forall|j: int| 0 <= j < i ==> (#[trigger] r@[j]).model() == v@[j].model(),
    {
        r.push(v[i].duplicate());
    }
    assert(chat_model(r@) =~= chat_model(v@));
    r
}

pub fn copy_opt(o: &Option<String>) -> (r: Option<String>)
    ensures
        opt_text(r) == opt_text(*o),
{
    match o {
        Some(s) => Some(s.clone()),
        None => None,
    }
}

/// A trade as the daemon keeps it. `payment_preimage` never leaves the daemon.
#[derive(Clone, Debug, PartialEq, Eq)]
pub struct Trade {
    pub id: String,
    pub ad_id: String,
    pub pubkey: String,
    pub taker: String,
    pub currency: String,
    pub price: String,
    pub pay_amount: String,
    pub amount: String,
    pub payment_method: String,
    pub state: OrderState,
    pub payment_hash: Option<String>,
    pub payment_preimage: Option<String>,
    pub invoice_address: Option<String>,
    pub invoice_status: Option<String>,
    /// When the seller accepted the order by locking its hold (RFC 3339, UTC).
    pub accept_by: Option<String>,
    /// When the buyer's pay window, opened by the lock, closes (RFC 3339, UTC).
    pub pay_by: Option<String>,
    pub buyer_invoice: Option<String>,
    pub proof: Option<ProofMeta>,
    pub dispute_from: Option<String>,
    pub dispute_reason: Option<String>,
    pub log: Vec<LogLine>,
    pub chat: Vec<ChatLine>,
}

pub struct TradeModel {
    pub id: Seq<char>,
    pub ad_id: Seq<char>,
    pub pubkey: Seq<char>,
    pub taker: Seq<char>,
    pub currency: Seq<char>,
    pub price: Seq<char>,
    pub pay_amount: Seq<char>,
    pub amount: Seq<char>,
    pub payment_method: Seq<char>,
    pub state: OrderState,
    pub payment_hash: Option<Seq<char>>,
    pub payment_preimage: Option<Seq<char>>,
    pub invoice_address: Option<Seq<char>>,
    pub invoice_status: Option<Seq<char>>,
    pub accept_by: Option<Seq<char>>,
    pub pay_by: Option<Seq<char>>,
    pub buyer_invoice: Option<Seq<char>>,
    pub proof: Option<ProofModel>,
    pub dispute_from: Option<Seq<char>>,
    pub dispute_reason: Option<Seq<char>>,
    pub log: Seq<LineModel>,
    pub chat: Seq<ChatModel>,
}

/// The public view of a trade: everything but the preimage.
#[derive(Clone, Debug, PartialEq, Eq)]
pub struct TradeView {
    pub id: String,
    pub ad_id: String,
    pub pubkey: String,
    pub taker: String,
    pub currency: String,
    pub price: String,
    pub pay_amount: String,
    pub amount: String,
    pub payment_method: String,
    pub state: OrderState,
    pub payment_hash: Option<String>,
    pub invoice_address: Option<String>,
    pub invoice_status: Option<String>,
    pub accept_by: Option<String>,
    pub pay_by: Option<String>,
    pub buyer_invoice: Option<String>,
    pub proof: Option<ProofMeta>,
    pub dispute_from: Option<String>,
    pub dispute_reason: Option<String>,
    pub log: Vec<LogLine>,
    pub chat: Vec<ChatLine>,
}

pub struct TradeViewModel {
    pub id: Seq<char>,
    pub ad_id: Seq<char>,
    pub pubkey: Seq<char>,
    pub taker: Seq<char>,
    pub currency: Seq<char>,
    pub price: Seq<char>,
    pub pay_amount: Seq<char>,
    pub amount: Seq<char>,
    pub payment_method: Seq<char>,
    pub state: OrderState,
    pub payment_hash: Option<Seq<char>>,
    pub invoice_address: Option<Seq<char>>,
    pub invoice_status: Option<Seq<char>>,
    pub accept_by: Option<Seq<char>>,
    pub pay_by: Option<Seq<char>>,
    pub buyer_invoice: Option<Seq<char>>,
    pub proof: Option<ProofModel>,
    pub dispute_from: Option<Seq<char>>,
    pub dispute_reason: Option<Seq<char>>,
    pub log: Seq<LineModel>,
    pub chat: Seq<ChatModel>,
}

impl TradeView {
    pub open spec fn model(&self) -> TradeViewModel {
        TradeViewModel {
            id: self.id@,
            ad_id: self.ad_id@,
            pubkey: self.pubkey@,
            taker: self.taker@,
            currency: self.currency@,
            price: self.price@,
            pay_amount: self.pay_amount@,
            amount: self.amount@,
            payment_method: self.payment_method@,
            state: self.state,
            payment_hash: opt_text(self.payment_hash),
            invoice_address: opt_text(self.invoice_address),
            invoice_status: opt_text(self.invoice_status),
            accept_by: opt_text(self.accept_by),
            pay_by: opt_text(self.pay_by),
            buyer_invoice: opt_text(self.buyer_invoice),
            proof: opt_proof(self.proof),
            dispute_from: opt_text(self.dispute_from),
            dispute_reason: opt_text(self.dispute_reason),
            log: log_model(self.log@),
            chat: chat_model(self.chat@),
        }
    }
}

/// What the public sees of the trade `t`.
pub open spec fn public_view(t: TradeModel) -> TradeViewModel {
    TradeViewModel {
        id: t.id,
        ad_id: t.ad_id,
        pubkey: t.pubkey,
        taker: t.taker,
        currency: t.currency,
        price: t.price,
        pay_amount: t.pay_amount,
        amount: t.amount,
        payment_method: t.payment_method,
        state: t.state,
        payment_hash: t.payment_hash,
        invoice_address: t.invoice_address,
        invoice_status: t.invoice_status,
        accept_by: t.accept_by,
        pay_by: t.pay_by,
        buyer_invoice: t.buyer_invoice,
        proof: t.proof,
        dispute_from: t.dispute_from,
        dispute_reason: t.dispute_reason,
        log: t.log,
        chat: t.chat,
    }
}

/// A time the clock can show, as `rfc3339_of` writes it.
pub open spec fn is_clock_text(t: Seq<char>) -> bool {
    exists|secs: i64| rfc3339_of(secs) == Some(t)
}

/// The current time, in RFC 3339 to the second with a `Z`.
pub fn timestamp() -> (r: String)
    ensures
        is_clock_text(r@),
{
    let secs = clock_seconds();
    rfc3339_at(secs).unwrap()
}

impl Trade {
    pub open spec fn model(&self) -> TradeModel {
        TradeModel {
            id: self.id@,
            ad_id: self.ad_id@,
            pubkey: self.pubkey@,
            taker: self.taker@,
            currency: self.currency@,
            price: self.price@,
            pay_amount: self.pay_amount@,
            amount: self.amount@,
            payment_method: self.payment_method@,
            state: self.state,
            payment_hash: opt_text(self.payment_hash),
            payment_preimage: opt_text(self.payment_preimage),
            invoice_address: opt_text(self.invoice_address),
            invoice_status: opt_text(self.invoice_status),
            accept_by: opt_text(self.accept_by),
            pay_by: opt_text(self.pay_by),
            buyer_invoice: opt_text(self.buyer_invoice),
            proof: opt_proof(self.proof),
            dispute_from: opt_text(self.dispute_from),
            dispute_reason: opt_text(self.dispute_reason),
            log: log_model(self.log@),
            chat: chat_model(self.chat@),
        }
    }

    /// States where a `Received` hold may still expire on Fiber.
    pub fn watches_hold_invoice(state: OrderState) -> (r: bool)
        ensures
            r == watches_hold(state),
    {
        matches!(
            state,
            OrderState::Held | OrderState::WaitingHold | OrderState::WaitingFiat
                | OrderState::FiatSent | OrderState::Leg2Failed | OrderState::Disputed
                | OrderState::Releasing
        )
    }

    /// The public view: every field but the preimage.
    pub fn view(&self) -> (r: TradeView)
        ensures
            r.model() == public_view(self.model()),
    {
        TradeView {
            id: self.id.clone(),
            ad_id: self.ad_id.clone(),
            pubkey: self.pubkey.clone(),
            taker: self.taker.clone(),
            currency: self.currency.clone(),
            price: self.price.clone(),
            pay_amount: self.pay_amount.clone(),
            amount: self.amount.clone(),
            payment_method: self.payment_method.clone(),
            state: self.state,
            payment_hash: copy_opt(&self.payment_hash),
            invoice_address: copy_opt(&self.invoice_address),
            invoice_status: copy_opt(&self.invoice_status),
            accept_by: copy_opt(&self.accept_by),
            pay_by: copy_opt(&self.pay_by),
            buyer_invoice: copy_opt(&self.buyer_invoice),
            proof: match &self.proof {
                Some(p) => Some(p.duplicate()),
                None => None,
            },
            dispute_from: copy_opt(&self.dispute_from),
            dispute_reason: copy_opt(&self.dispute_reason),
            log: copy_log(&self.log),
            chat: copy_chat(&self.chat),
        }
    }

    /// Whether the trade has not ended.
    pub fn is_open(&self) -> (r: bool)
        ensures
            r == is_open_state(self.state),
    {
        !matches!(
            self.state,
            OrderState::Idle | OrderState::Cancelled | OrderState::Paid | OrderState::Settled
                | OrderState::Expired
        )
    }

    /// Appends a log line with the current time and `text`.
    pub fn push_log(&mut self, text: String)
        ensures
            final(self).model() == (TradeModel { log: final(self).model().log, ..old(self).model() }),
            log_appended(old(self).model().log, final(self).model().log, seq![text@]),
    {
        let ghost tv = text@;
        let at = timestamp();
        let ghost av = at@;
        let line = LogLine { at, text };
        let ghost old_log = self.log@;
        self.log.push(line);
        proof {
            assert(log_model(self.log@).subrange(0, old_log.len() as int) =~= log_model(old_log));
            assert(log_model(self.log@)[old_log.len() as int].text == seq![tv][0]);
            assert(log_model(self.log@)[old_log.len() as int].at == av);
        }
    }

    /// Appends a chat line from `from` with the current time.
    pub fn push_chat(&mut self, from: String, text: String)
        ensures
            final(self).model() == (TradeModel { chat: final(self).model().chat, ..old(self).model() }),
            final(self).model().chat.len() == old(self).model().chat.len() + 1,
            final(self).model().chat.subrange(0, old(self).model().chat.len() as int) == old(
                self,
            ).model().chat,
            final(self).model().chat.last().from == from@,
            final(self).model().chat.last().text == text@,
            is_clock_text(final(self).model().chat.last().at),
    {
        let line = ChatLine { at: timestamp(), from, text };
        let ghost old_chat = self.chat@;
        self.chat.push(line);
        proof {
            assert(chat_model(self.chat@).subrange(0, old_chat.len() as int) =~= chat_model(
                old_chat,
            ));
        }
    }

    pub fn duplicate(&self) -> (r: Trade)
        ensures
            r.model() == self.model(),
    {
        Trade {
            id: self.id.clone(),
            ad_id: self.ad_id.clone(),
            pubkey: self.pubkey.clone(),
            taker: self.taker.clone(),
            currency: self.currency.clone(),
            price: self.price.clone(),
            pay_amount: self.pay_amount.clone(),
            amount: self.amount.clone(),
            payment_method: self.payment_method.clone(),
            state: self.state,
            payment_hash: copy_opt(&self.payment_hash),
            payment_preimage: copy_opt(&self.payment_preimage),
            invoice_address: copy_opt(&self.invoice_address),
            invoice_status: copy_opt(&self.invoice_status),
            accept_by: copy_opt(&self.accept_by),
            pay_by: copy_opt(&self.pay_by),
            buyer_invoice: copy_opt(&self.buyer_invoice),
            proof: match &self.proof {
                Some(p) => Some(p.duplicate()),
                None => None,
            },
            dispute_from: copy_opt(&self.dispute_from),
            dispute_reason: copy_opt(&self.dispute_reason),
            log: copy_log(&self.log),
            chat: copy_chat(&self.chat),
        }
    }
}

/// Chat is open while the hold is locked and the trade is live.
pub fn allows_chat(state: OrderState) -> (r: bool)
    ensures
        r == chat_allowed(state),
{
    matches!(
        state,
        OrderState::WaitingFiat | OrderState::FiatSent | OrderState::Leg2Failed
            | OrderState::Disputed
    )
}

/// How a failed payment to the buyer changes the trade.
#[derive(Clone, Copy, Debug, PartialEq, Eq, Structural)]
pub enum PayFailureMode {
    /// Release or retry: the trade moves to `Leg2Failed`.
    Leg2Failed,
    /// Award to the buyer: the trade stays `Disputed` and is not settled.
    StayDisputed,
}

#[derive(Debug, PartialEq, Eq)]
pub enum OrderError {
    BadAmount(String),
    AlreadyOpen,
    NotFound(String),
    BadState(String),
    Fiber(String),
    Save(String),
}

/// `OrderError` with its messages as character sequences.
pub enum ErrorModel {
    BadAmount(Seq<char>),
    AlreadyOpen,
    NotFound(Seq<char>),
    BadState(Seq<char>),
    Fiber(Seq<char>),
    Save(Seq<char>),
}

impl OrderError {
    pub open spec fn model(&self) -> ErrorModel {
        match self {
            OrderError::BadAmount(m) => ErrorModel::BadAmount(m@),
            OrderError::AlreadyOpen => ErrorModel::AlreadyOpen,
            OrderError::NotFound(m) => ErrorModel::NotFound(m@),
            OrderError::BadState(m) => ErrorModel::BadState(m@),
            OrderError::Fiber(m) => ErrorModel::Fiber(m@),
            OrderError::Save(m) => ErrorModel::Save(m@),
        }
    }
}

/// The HTTP status and message with which a refused request is answered.
pub open spec fn http_answer(e: ErrorModel) -> (u16, Seq<char>) {
    match e {
        ErrorModel::BadAmount(m) => (400, m),
        ErrorModel::BadState(m) => (400, m),
        ErrorModel::AlreadyOpen => (409, "an order is already open"@),
        ErrorModel::NotFound(m) => (404, m),
        ErrorModel::Fiber(m) => (502, m),
        ErrorModel::Save(m) => (500, m),
    }
}

/// The HTTP status and message that answer a request refused with `err`.
pub fn http_error(err: OrderError) -> (r: (u16, String))
    ensures
        r.0 == http_answer(err.model()).0,
        r.1@ == http_answer(err.model()).1,
{
    match err {
        OrderError::BadAmount(m) => (400, m),
        OrderError::BadState(m) => (400, m),
        OrderError::AlreadyOpen => (409, owned("an order is already open")),
        OrderError::NotFound(m) => (404, m),
        OrderError::Fiber(m) => (502, m),
        OrderError::Save(m) => (500, m),
    }
}

pub struct PostChatBody {
    pub from: String,
    pub text: String,
}

/// A party's cancel of a trade: `from` is `lister` or `taker`.
pub struct CancelTradeBody {
    pub from: String,
}

pub struct FiatSentBody {
    pub invoice: String,
    pub proof_b64: String,
    pub content_type: String,
}

pub struct OpenDisputeBody {
    pub from: String,
    pub reason: String,
}

pub struct CreateAdBody {
    pub pubkey: String,
    pub available: String,
    pub currency: Option<String>,
    pub price: String,
    pub min: String,
    pub max: String,
    pub payment_method: String,
}

pub struct CreateTradeBody {
    pub ad_id: String,
    pub taker: String,
    pub pay_amount: String,
}

pub struct ConnectBody {
    pub pubkey: String,
    pub address: String,
}

pub struct BuyerInvoiceBody {
    pub invoice: String,
}

/// The name `raw` gives, trimmed and ASCII lower-cased.
pub open spec fn party_name(raw: Seq<char>) -> Seq<char> {
    lower_all(trim(raw))
}

/// The party named by `raw`, after trimming and ASCII lower-casing.
pub open spec fn party_of(raw: Seq<char>) -> Option<Seq<char>> {
    let t = party_name(raw);
    if t == "lister"@ || t == "seller"@ {
        Some("lister"@)
    } else if t == "taker"@ || t == "buyer"@ {
        Some("taker"@)
    } else {
        None
    }
}

/// `lister` for "lister"/"seller", `taker` for "taker"/"buyer", in any case and
/// with surrounding white space.
pub fn party_from(raw: &str) -> (r: Result<String, OrderError>)
    ensures
        match r {
            Ok(p) => party_of(raw@) == Some(p@),
            Err(e) => party_of(raw@) is None && e.model() == ErrorModel::BadState(
                "from must be lister or taker"@,
            ),
        },
{
    let t = lower_chars(&trim_chars(&chars_of(raw)));
    let s = string_of(&t);
    if text_is(s.as_str(), "lister") || text_is(s.as_str(), "seller") {
        Ok(owned("lister"))
    } else if text_is(s.as_str(), "taker") || text_is(s.as_str(), "buyer") {
        Ok(owned("taker"))
    } else {
        Err(OrderError::BadState(owned("from must be lister or taker")))
    }
}

/// Opening a dispute needs the hold invoice `Received`.
pub fn require_received_for_dispute(status: &str) -> (r: Result<(), OrderError>)
    ensures
        r is Ok <==> status@ == "Received"@,
        r matches Err(e) ==> e.model() == ErrorModel::BadState(
            "open dispute needs hold invoice Received, got "@ + status@,
        ),
{
    if text_is(status, "Received") {
        return Ok(());
    }
    Err(OrderError::BadState(concat("open dispute needs hold invoice Received, got ", status)))
}

/// Awards need the hold invoice `Received`; an `Expired` hold refuses both awards.
pub fn require_received_for_award(status: &str) -> (r: Result<(), OrderError>)
    ensures
        r is Ok <==> status@ == "Received"@,
        r matches Err(e) ==> e.model() == ErrorModel::BadState(
            if status@ == "Expired"@ {
                "award refused: hold invoice is Expired; neither buyer nor seller award can run"@
            } else {
                "award needs hold invoice Received, got "@ + status@
            },
        ),
{
    proof {
        reveal_strlit("Expired");
        reveal_strlit("Received");
        assert("Expired"@[0] != "Received"@[0]);
    }
    if text_is(status, "Expired") {
        return Err(
            OrderError::BadState(
                owned(
                    "award refused: hold invoice is Expired; neither buyer nor seller award can run",
                ),
            ),
        );
    }
    if text_is(status, "Received") {
        return Ok(());
    }
    Err(OrderError::BadState(concat("award needs hold invoice Received, got ", status)))
}

/// A public key without surrounding white space or `0x` prefixes, lower-cased.
pub open spec fn pubkey_key(pubkey: Seq<char>) -> Seq<char> {
    lower_all(crate::text::strip_all_prefix(trim(pubkey), seq!['0', 'x']))
}

pub fn normalize_pubkey(pubkey: &str) -> (r: String)
    ensures
        r@ == pubkey_key(pubkey@),
{
    let t = trim_chars(&chars_of(pubkey));
    let p = vec!['0', 'x'];
    assert(p@ == seq!['0', 'x']);
    let s = crate::text::strip_all_prefix_chars(&t, &p);
    string_of(&lower_chars(&s))
}

pub open spec fn jpeg_magic(d: Seq<u8>) -> bool {
    d.len() >= 3 && d[0] == 0xFF && d[1] == 0xD8 && d[2] == 0xFF
}

pub open spec fn png_magic(d: Seq<u8>) -> bool {
    d.len() >= 8 && d[0] == 0x89 && d[1] == 0x50 && d[2] == 0x4E && d[3] == 0x47 && d[4]
        == 0x0D && d[5] == 0x0A && d[6] == 0x1A && d[7] == 0x0A
}

/// The image type that the bytes `d` start with.
pub open spec fn image_kind(d: Seq<u8>) -> Option<Seq<char>> {
    if jpeg_magic(d) {
        Some("image/jpeg"@)
    } else if png_magic(d) {
        Some("image/png"@)
    } else {
        None
    }
}

fn detect_image(data: &[u8]) -> (r: Result<String, OrderError>)
    ensures
        match r {
            Ok(k) => image_kind(data@) == Some(k@),
            Err(e) => image_kind(data@) is None && e.model() == ErrorModel::BadState(
                "proof must be a JPEG or PNG"@,
            ),
        },
{
    if data.len() >= 3 && data[0] == 0xFF && data[1] == 0xD8 && data[2] == 0xFF {
        return Ok(owned("image/jpeg"));
    }
    if data.len() >= 8 && data[0] == 0x89 && data[1] == 0x50 && data[2] == 0x4E && data[3]
        == 0x47 && data[4] == 0x0D && data[5] == 0x0A && data[6] == 0x1A && data[7] == 0x0A {
        return Ok(owned("image/png"));
    }
    Err(OrderError::BadState(owned("proof must be a JPEG or PNG")))
}

/// The content type that `raw` asks for, or why it is refused.
pub open spec fn requested_type(raw: Seq<char>) -> Result<Seq<char>, Seq<char>> {
    let t = lower_all(trim(raw));
    if t == "image/jpeg"@ || t == "image/jpg"@ {
        Ok("image/jpeg"@)
    } else if t == "image/png"@ {
        Ok("image/png"@)
    } else if t.len() == 0 {
        Err("content_type is required"@)
    } else {
        Err("proof must be a JPEG or PNG"@)
    }
}

fn normalize_content_type(raw: &str) -> (r: Result<String, OrderError>)
    ensures
        match r {
            Ok(k) => requested_type(raw@) == Ok::<Seq<char>, Seq<char>>(k@),
            Err(e) => requested_type(raw@) is Err && e.model() == ErrorModel::BadState(
                requested_type(raw@)->Err_0,
            ),
        },
{
    let t = lower_chars(&trim_chars(&chars_of(raw)));
    let s = string_of(&t);
    if text_is(s.as_str(), "image/jpeg") || text_is(s.as_str(), "image/jpg") {
        Ok(owned("image/jpeg"))
    } else if text_is(s.as_str(), "image/png") {
        Ok(owned("image/png"))
    } else if t.len() == 0 {
        Err(OrderError::BadState(owned("content_type is required")))
    } else {
        Err(OrderError::BadState(owned("proof must be a JPEG or PNG")))
    }
}

/// `s` without any white-space character.
pub open spec fn without_white(s: Seq<char>) -> Seq<char> {
    s.filter(|c: char| !is_white(c))
}

fn remove_white(v: &[char]) -> (r: Vec<char>)
    ensures
        r@ == without_white(v@),
{
    let mut r: Vec<char> = Vec::new();
    let n = v.len();
    for i in 0..n
        invariant
            n == v@.len(),
            r@ == without_white(v@.subrange(0, i as int)),
    {
        proof {
            reveal_with_fuel(Seq::<_>::filter, 1);
            assert(v@.subrange(0, i + 1).drop_last() == v@.subrange(0, i as int));
        }
        if !is_whitespace_char(v[i]) {
            r.push(v[i]);
        }
    }
    assert(v@.subrange(0, n as int) == v@);
    r
}

/// What the checks on decoded proof bytes `data` give: the detected content
/// type and the bytes, when the file is small enough, is a JPEG or PNG, and
/// is what `content_type` names.
pub open spec fn checked_proof(data: Seq<u8>, content_type: Seq<char>) -> Result<
    (Seq<char>, Seq<u8>),
    Seq<char>,
> {
    if data.len() > MAX_PROOF_BYTES {
        Err("proof must be at most 1.5 MB"@)
    } else {
        match image_kind(data) {
            None => Err("proof must be a JPEG or PNG"@),
            Some(kind) => match requested_type(content_type) {
                Err(e) => Err(e),
                Ok(want) => if kind != want {
                    Err("proof content_type "@ + content_type + " does not match file"@)
                } else {
                    Ok((kind, data))
                },
            },
        }
    }
}

/// What `decode_payment_proof` gives: the detected content type and the bytes.
pub open spec fn proof_outcome(proof_b64: Seq<char>, content_type: Seq<char>) -> Result<
    (Seq<char>, Seq<u8>),
    Seq<char>,
> {
    let raw = trim(proof_b64);
    if raw.len() == 0 {
        Err("proof_b64 is required"@)
    } else {
        match base64_decoded(without_white(raw)) {
            None => Err("proof_b64 is not valid base64"@),
            Some(data) => checked_proof(data, content_type),
        }
    }
}

proof fn lemma_without_white_split(a: Seq<char>, b: Seq<char>)
    ensures
        without_white(a + b) == without_white(a) + without_white(b),
{
    Seq::filter_distributes_over_add(a, b, |c: char| !is_white(c));
}

proof fn lemma_without_white_one(c: char)
    ensures
        without_white(seq![c]) == if is_white(c) {
            Seq::<char>::empty()
        } else {
            seq![c]
        },
{
    reveal_with_fuel(Seq::<_>::filter, 2);
    assert(seq![c].drop_last() =~= Seq::<char>::empty());
}

proof fn lemma_without_white_trim_start(s: Seq<char>)
    ensures
        without_white(trim_start(s)) == without_white(s),
    decreases s.len(),
{
    if s.len() > 0 && is_white(s[0]) {
        let t = s.drop_first();
        lemma_without_white_trim_start(t);
        assert(s =~= seq![s[0]] + t);
        lemma_without_white_split(seq![s[0]], t);
        lemma_without_white_one(s[0]);
        assert(Seq::<char>::empty() + without_white(t) =~= without_white(t));
    }
}

proof fn lemma_without_white_trim_end(s: Seq<char>)
    ensures
        without_white(trim_end(s)) == without_white(s),
    decreases s.len(),
{
    if s.len() > 0 && is_white(s.last()) {
        let t = s.drop_last();
        lemma_without_white_trim_end(t);
        assert(s =~= t + seq![s.last()]);
        lemma_without_white_split(t, seq![s.last()]);
        lemma_without_white_one(s.last());
        assert(without_white(t) + Seq::<char>::empty() =~= without_white(t));
    }
}

/// A payment proof that is accepted is the base64 decode of the sent text
/// with all its white space removed: at most 1.5 MB, a JPEG or PNG by its
/// first bytes, and of the content type the sender named (`image/jpg` read
/// as `image/jpeg`). A decode over 1.5 MB is refused as too large.
pub proof fn law_payment_proof_is_decoded_text(proof_b64: Seq<char>, content_type: Seq<char>)
    ensures
        proof_outcome(proof_b64, content_type) is Ok ==> ({
            let (kind, data) = proof_outcome(proof_b64, content_type)->Ok_0;
            &&& base64_decoded(without_white(proof_b64)) == Some(data)
            &&& data.len() <= MAX_PROOF_BYTES
            &&& (kind == "image/jpeg"@ && jpeg_magic(data)) || (kind == "image/png"@ && png_magic(
                data,
            ))
            &&& requested_type(content_type) == Ok::<Seq<char>, Seq<char>>(kind)
        }),
        trim(proof_b64).len() > 0 && base64_decoded(without_white(proof_b64)) is Some
            && base64_decoded(without_white(proof_b64))->Some_0.len() > MAX_PROOF_BYTES
            ==> proof_outcome(proof_b64, content_type) == Err::<(Seq<char>, Seq<u8>), Seq<char>>(
            "proof must be at most 1.5 MB"@,
        ),
{
    lemma_without_white_trim_start(proof_b64);
    lemma_without_white_trim_end(trim_start(proof_b64));
    assert(without_white(trim(proof_b64)) == without_white(proof_b64));
}

/// Checks decoded proof bytes: at most 1.5 MB, a JPEG or PNG, and of the
/// content type the sender named.
pub fn check_payment_proof(data: Vec<u8>, content_type: &str) -> (r: Result<
    (String, Vec<u8>),
    OrderError,
>)
    ensures
        match r {
            Ok((kind, bytes)) => checked_proof(data@, content_type@) == Ok::<
                (Seq<char>, Seq<u8>),
                Seq<char>,
            >((kind@, bytes@)),
            Err(e) => checked_proof(data@, content_type@) is Err && e.model()
                == ErrorModel::BadState(checked_proof(data@, content_type@)->Err_0),
        },
{
    if data.len() > MAX_PROOF_BYTES {
        return Err(OrderError::BadState(owned("proof must be at most 1.5 MB")));
    }
    let detected = detect_image(&data)?;
    let requested = normalize_content_type(content_type)?;
    let a = chars_of(detected.as_str());
    let b = chars_of(requested.as_str());
    if !chars_eq(&a, &b) {
        let m = concat("proof content_type ", content_type);
        return Err(OrderError::BadState(concat(m.as_str(), " does not match file")));
    }
    Ok((detected, data))
}

/// Decodes a base64 JPEG or PNG of at most 1.5 MB whose bytes match the
/// content type the sender named.
pub fn decode_payment_proof(proof_b64: &str, content_type: &str) -> (r: Result<
    (String, Vec<u8>),
    OrderError,
>)
    ensures
        match r {
            Ok((kind, data)) => proof_outcome(proof_b64@, content_type@) == Ok::<
                (Seq<char>, Seq<u8>),
                Seq<char>,
            >((kind@, data@)),
            Err(e) => proof_outcome(proof_b64@, content_type@) is Err && e.model()
                == ErrorModel::BadState(proof_outcome(proof_b64@, content_type@)->Err_0),
        },
        base64_decoded(without_white(proof_b64@)) matches Some(d) && d.len() > MAX_PROOF_BYTES ==> (
        r matches Err(e) && e.model() == ErrorModel::BadState("proof must be at most 1.5 MB"@)),
{
    let raw = trim_chars(&chars_of(proof_b64));
    let compact = string_of(&remove_white(&raw));
    let decoded = base64_standard_decode(compact.as_str());
    proof {
        law_payment_proof_is_decoded_text(proof_b64@, content_type@);
        lemma_without_white_trim_start(proof_b64@);
        lemma_without_white_trim_end(trim_start(proof_b64@));
    }
    if raw.len() == 0 {
        return Err(OrderError::BadState(owned("proof_b64 is required")));
    }
    let data = match decoded {
        Ok(d) => d,
        Err(_) => return Err(OrderError::BadState(owned("proof_b64 is not valid base64"))),
    };
    check_payment_proof(data, content_type)
}

/// A fresh trade or ad id: 16 lower-case hexadecimal digits of 8 random bytes.
pub fn new_id() -> (r: String)
    ensures
        exists|b: Seq<u8>| b.len() == 8 && r@ == hex_bytes(b),
{
    let bytes = random_bytes(8);
    hex_encode(&bytes)
}

/// `0x` followed by the lower-case hexadecimal digits of `bytes`.
pub fn prefixed_hex(bytes: &[u8]) -> (r: String)
    ensures
        r@ == seq!['0', 'x'] + hex_bytes(bytes@),
{
    proof {
        assert("0x"@ == seq!['0', 'x']) by {
            reveal_strlit("0x");
        }
    }
    concat("0x", hex_encode(bytes).as_str())
}

/// A fresh preimage `S` and its payment hash `H = SHA256(S)`, both `0x`-prefixed hex.
pub fn generate_preimage() -> (r: (String, String))
    ensures
        exists|b: Seq<u8>|
            b.len() == 32 && r.0@ == seq!['0', 'x'] + hex_bytes(b) && r.1@ == seq!['0', 'x']
                + hex_bytes(sha256_of(b)),
{
    let bytes = random_bytes(32);
    let preimage = prefixed_hex(&bytes);
    let hash = sha256_digest(&bytes);
    let payment_hash = prefixed_hex(&hash);
    (preimage, payment_hash)
}

/// The name of a state, as `{:?}` writes it.
pub open spec fn state_text(s: OrderState) -> Seq<char> {
    match s {
        OrderState::Idle => "Idle"@,
        OrderState::Pending => "Pending"@,
        OrderState::WaitingHold => "WaitingHold"@,
        OrderState::Held => "Held"@,
        OrderState::WaitingFiat => "WaitingFiat"@,
        OrderState::FiatSent => "FiatSent"@,
        OrderState::Releasing => "Releasing"@,
        OrderState::Leg2Failed => "Leg2Failed"@,
        OrderState::Disputed => "Disputed"@,
        OrderState::Cancelled => "Cancelled"@,
        OrderState::Paid => "Paid"@,
        OrderState::Settled => "Settled"@,
        OrderState::Expired => "Expired"@,
    }
}

pub fn state_name(s: OrderState) -> (r: &'static str)
    ensures
        r@ == state_text(s),
{
    match s {
        OrderState::Idle => "Idle",
        OrderState::Pending => "Pending",
        OrderState::WaitingHold => "WaitingHold",
        OrderState::Held => "Held",
        OrderState::WaitingFiat => "WaitingFiat",
        OrderState::FiatSent => "FiatSent",
        OrderState::Releasing => "Releasing",
        OrderState::Leg2Failed => "Leg2Failed",
        OrderState::Disputed => "Disputed",
        OrderState::Cancelled => "Cancelled",
        OrderState::Paid => "Paid",
        OrderState::Settled => "Settled",
        OrderState::Expired => "Expired",
    }
}

pub proof fn lemma_log_chain(
    a: Seq<LineModel>,
    b: Seq<LineModel>,
    c: Seq<LineModel>,
    t1: Seq<Seq<char>>,
    t2: Seq<Seq<char>>,
)
    requires
        log_appended(a, b, t1),
        log_appended(b, c, t2),
    ensures
        log_appended(a, c, t1 + t2),
{
    assert(c.subrange(0, a.len() as int) =~= a) by {
        assert forall|j: int| 0 <= j < a.len() implies c.subrange(0, a.len() as int)[j] == a[j] by {
            assert(c.subrange(0, b.len() as int)[j] == b[j]);
            assert(b.subrange(0, a.len() as int)[j] == a[j]);
        }
    }
    assert forall|j: int| 0 <= j < (t1 + t2).len() implies #[trigger] c[a.len() + j].text == (t1
        + t2)[j] && is_clock_text(c[a.len() + j].at) by {
        if j < t1.len() {
            assert(c.subrange(0, b.len() as int)[a.len() + j] == b[a.len() + j]);
            assert(b[a.len() + j].text == t1[j]);
        } else {
            assert(c[b.len() + (j - t1.len())].text == t2[j - t1.len()]);
        }
    }
}

pub proof fn lemma_log_none(a: Seq<LineModel>)
    ensures
        log_appended(a, a, Seq::empty()),
{
    assert(a.subrange(0, a.len() as int) =~= a);
}

pub open spec fn texts_of(v: Seq<String>) -> Seq<Seq<char>> {
    v.map_values(|s: String| s@)
}

impl Trade {
    /// Appends one log line per text, in order, each with the current time.
    pub fn push_logs(&mut self, lines: Vec<String>)
        ensures
            final(self).model() == (TradeModel { log: final(self).model().log, ..old(self).model() }),
            log_appended(old(self).model().log, final(self).model().log, texts_of(lines@)),
    {
        let ghost start = self.model().log;
        let mut lines = lines;
        let ghost all = texts_of(lines@);
        let ghost mut done: Seq<Seq<char>> = Seq::empty();
        proof {
            lemma_log_none(start);
        }
        while lines.len() > 0
            invariant
                self.model() == (TradeModel { log: self.model().log, ..old(self).model() }),
                start == old(self).model().log,
                log_appended(start, self.model().log, done),
                done + texts_of(lines@) == all,
            decreases lines.len(),
        {
            let ghost before = self.model().log;
            let ghost prev = lines@;
            let line = lines.remove(0);
            proof {
                assert(texts_of(prev) == seq![line@] + texts_of(lines@)) by {
                    assert(texts_of(prev) =~= seq![line@] + texts_of(lines@));
                }
            }
            let ghost lv = line@;
            self.push_log(line);
            proof {
                lemma_log_chain(start, before, self.model().log, done, seq![lv]);
                assert(done + seq![lv] + texts_of(lines@) == all) by {
                    assert(done + seq![lv] + texts_of(lines@) =~= done + (seq![lv] + texts_of(
                        lines@,
                    )));
                }
                done = done + seq![lv];
            }
        }
        assert(done =~= all);
    }
}

} // verus!
