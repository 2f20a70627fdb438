//! What the daemon asks of the Twine Fiber node and how it reads the answers:
//! the hold invoice it creates, the checks on the node's reply, and when a
//! poll of an invoice or a payment is done, failed, or must wait.

use vstd::prelude::*;

use crate::amount::{
    amount_to_shannon, hex_text, hex_u128, hex_u64, normalize_hex, normalized_hex, shannon_amount,
};
use crate::order::{generate_preimage, ErrorModel, OrderError, FINAL_EXPIRY_DELTA_MS};
use crate::outside::{hex_bytes, sha256_of};
use crate::text::{concat, owned, text_is};

verus! {

/// A hold invoice to create: its preimage `S` stays with the daemon. Only
/// `hold_invoice_request` makes one, so `S` is always sealed to its hash.
#[derive(Debug)]
pub struct HoldRequest {
    preimage: String,
    payment_hash: String,
    amount: String,
    description: String,
    final_expiry_delta: String,
}

/// The texts of a `HoldRequest`.
pub struct HoldRequestModel {
    pub preimage: Seq<char>,
    pub payment_hash: Seq<char>,
    pub amount: Seq<char>,
    pub description: Seq<char>,
    pub final_expiry_delta: Seq<char>,
}

impl HoldRequest {
    #[verifier::type_invariant]
    spec fn is_sealed(self) -> bool {
        sealed_pair(self.preimage@, self.payment_hash@)
    }

    pub closed spec fn model(self) -> HoldRequestModel {
        HoldRequestModel {
            preimage: self.preimage@,
            payment_hash: self.payment_hash@,
            amount: self.amount@,
            description: self.description@,
            final_expiry_delta: self.final_expiry_delta@,
        }
    }

    /// The preimage `S`, sealed to the payment hash.
    pub fn preimage(&self) -> (r: String)
        ensures
            r@ == self.model().preimage,
            sealed_pair(self.model().preimage, self.model().payment_hash),
    {
        proof {
            use_type_invariant(self);
        }
        self.preimage.clone()
    }

    /// The payment hash `H = SHA256(S)`.
    pub fn payment_hash(&self) -> (r: String)
        ensures
            r@ == self.model().payment_hash,
            sealed_pair(self.model().preimage, self.model().payment_hash),
    {
        proof {
            use_type_invariant(self);
        }
        self.payment_hash.clone()
    }

    /// The amount in hexadecimal shannon.
    pub fn amount(&self) -> (r: String)
        ensures
            r@ == self.model().amount,
    {
        self.amount.clone()
    }

    pub fn description(&self) -> (r: String)
        ensures
            r@ == self.model().description,
    {
        self.description.clone()
    }

    /// The hold's `final_expiry_delta` in hexadecimal milliseconds.
    pub fn final_expiry_delta(&self) -> (r: String)
        ensures
            r@ == self.model().final_expiry_delta,
    {
        self.final_expiry_delta.clone()
    }
}

/// `S` and `H = SHA256(S)` as the daemon writes them, for some 32 bytes `S`.
pub open spec fn sealed_pair(preimage: Seq<char>, payment_hash: Seq<char>) -> bool {
    exists|b: Seq<u8>|
        b.len() == 32 && preimage == seq!['0', 'x'] + hex_bytes(b) && payment_hash == seq!['0', 'x']
            + hex_bytes(sha256_of(b))
}

/// The hold invoice for a trade of `amount` CKB: the amount in hexadecimal
/// shannon, a fresh preimage and its SHA-256 hash, and the 16-hour expiry.
pub fn hold_invoice_request(amount: &str) -> (r: Result<HoldRequest, OrderError>)
    ensures
        match shannon_amount(amount@) {
            Err(e) => r matches Err(x) && x.model() == ErrorModel::BadAmount(e),
            Ok(v) => r matches Ok(q) && q.model().amount == hex_text(v as nat)
                && q.model().description == "twine order "@ + amount@ + " CKB"@
                && q.model().final_expiry_delta == hex_text(57_600_000) && sealed_pair(
                q.model().preimage,
                q.model().payment_hash,
            ),
        },
{
    let shannon = match amount_to_shannon(amount) {
        Ok(v) => v,
        Err(e) => return Err(OrderError::BadAmount(e)),
    };
    let (preimage, payment_hash) = generate_preimage();
    let mut description = concat("twine order ", amount);
    description.append(" CKB");
    Ok(
        HoldRequest {
            preimage,
            payment_hash,
            amount: hex_u128(shannon),
            description,
            final_expiry_delta: hex_u64(FINAL_EXPIRY_DELTA_MS),
        },
    )
}

/// The throwaway invoice that shows an unpaid invoice can be cancelled:
/// its payment hash and its amount in hexadecimal shannon.
pub fn demo_invoice_request(amount: &str) -> (r: Result<(String, String), OrderError>)
    ensures
        match shannon_amount(amount@) {
            Err(e) => r matches Err(x) && x.model() == ErrorModel::BadAmount(e),
            Ok(v) => r matches Ok((h, a)) && a@ == hex_text(v as nat) && exists|s: Seq<char>|
                #[trigger] sealed_pair(s, h@),
        },
{
    let shannon = match amount_to_shannon(amount) {
        Ok(v) => v,
        Err(e) => return Err(OrderError::BadAmount(e)),
    };
    let (preimage, payment_hash) = generate_preimage();
    let ghost s = preimage@;
    assert(sealed_pair(s, payment_hash@));
    let r = (payment_hash, hex_u128(shannon));
    assert(sealed_pair(s, r.0@));
    Ok(r)
}

/// What the node answered to `new_invoice`, as far as the daemon reads it.
#[derive(Debug)]
pub struct InvoiceReply {
    pub invoice_address: Option<String>,
    pub status: Option<String>,
    /// The first `final_htlc_minimum_expiry_delta` attribute of the invoice.
    pub final_expiry_delta: Option<String>,
}

/// The address and status of a created hold, or why the reply is refused.
pub open spec fn hold_reply_outcome(
    address: Option<Seq<char>>,
    status: Option<Seq<char>>,
    delta: Option<Seq<char>>,
) -> Result<(Seq<char>, Seq<char>), Seq<char>> {
    match address {
        None => Err("new_invoice missing invoice_address"@),
        Some(a) => {
            let s = match status {
                Some(s) => s,
                None => "Open"@,
            };
            match delta {
                Some(d) => if normalized_hex(d) != normalized_hex(hex_text(57_600_000)) {
                    Err(
                        "new_invoice final_htlc_minimum_expiry_delta="@ + d
                            + " did not match requested "@ + hex_text(57_600_000),
                    )
                } else {
                    Ok((a, s))
                },
                None => Ok((a, s)),
            }
        },
    }
}

/// Checks the reply to `new_invoice`: an address is required, the status
/// defaults to `Open`, and an expiry the node reports must be the one asked for.
pub fn check_hold_reply(reply: &InvoiceReply) -> (r: Result<(String, String), OrderError>)
    ensures
        match hold_reply_outcome(
            crate::order::opt_text(reply.invoice_address),
            crate::order::opt_text(reply.status),
            crate::order::opt_text(reply.final_expiry_delta),
        ) {
            Ok((a, s)) => r matches Ok((ra, rs)) && ra@ == a && rs@ == s,
            Err(m) => r matches Err(x) && x.model() == ErrorModel::Fiber(m),
        },
{
    let address = match &reply.invoice_address {
        Some(a) => a.clone(),
        None => return Err(OrderError::Fiber(owned("new_invoice missing invoice_address"))),
    };
    let status = match &reply.status {
        Some(s) => s.clone(),
        None => owned("Open"),
    };
    match &reply.final_expiry_delta {
        Some(attr) => {
            let expected = hex_u64(FINAL_EXPIRY_DELTA_MS);
            let a = normalize_hex(attr.as_str());
            let b = normalize_hex(expected.as_str());
            if !(a == b) {
                let mut m = concat("new_invoice final_htlc_minimum_expiry_delta=", attr.as_str());
                m.append(" did not match requested ");
                m.append(expected.as_str());
                return Err(OrderError::Fiber(m));
            }
        },
        None => {},
    }
    Ok((address, status))
}

/// The status a reply reports, `unknown` when it gives none.
pub fn reported_status(status: Option<String>) -> (r: String)
    ensures
        r@ == match status {
            Some(s) => s@,
            None => "unknown"@,
        },
{
    match status {
        Some(s) => s,
        None => owned("unknown"),
    }
}

/// The hash by which a submitted payment is followed: the one `send_payment`
/// reported, else the buyer's invoice itself.
pub fn sent_payment_hash(reported: Option<String>, buyer_invoice: &str) -> (r: String)
    ensures
        r@ == match reported {
            Some(h) => h@,
            None => buyer_invoice@,
        },
{
    match reported {
        Some(h) => h,
        None => owned(buyer_invoice),
    }
}

/// What a failed `send_payment` records as the failure's detail.
pub fn send_failure_detail(err: &str) -> (r: String)
    ensures
        r@ == "send_payment failed: "@ + err@,
{
    concat("send_payment failed: ", err)
}

/// What a poll concludes.
#[derive(Debug)]
pub enum PollDecision {
    /// The awaited status was reached.
    Done(String),
    /// The poll gave up with this message.
    Fail(String),
    /// Ask again later.
    Wait,
}

pub enum PollModel {
    Done(Seq<char>),
    Fail(Seq<char>),
    Wait,
}

impl PollDecision {
    pub open spec fn model(&self) -> PollModel {
        match self {
            PollDecision::Done(s) => PollModel::Done(s@),
            PollDecision::Fail(s) => PollModel::Fail(s@),
            PollDecision::Wait => PollModel::Wait,
        }
    }
}

/// Waiting for the seller's lock: `Received` ends the wait; `Paid`,
/// `Cancelled` or `Expired` can no longer become `Received`.
pub open spec fn received_outcome(status: Seq<char>, timed_out: bool) -> PollModel {
    if status == "Received"@ {
        PollModel::Done(status)
    } else if status == "Paid"@ || status == "Cancelled"@ || status == "Expired"@ {
        PollModel::Fail("invoice reached "@ + status + " while waiting for Received"@)
    } else if timed_out {
        PollModel::Fail("timed out waiting for Received (last status "@ + status + ")"@)
    } else {
        PollModel::Wait
    }
}

pub fn received_poll(status: &str, timed_out: bool) -> (r: PollDecision)
    ensures
        r.model() == received_outcome(status@, timed_out),
{
    if text_is(status, "Received") {
        return PollDecision::Done(owned(status));
    }
    if text_is(status, "Paid") || text_is(status, "Cancelled") || text_is(status, "Expired") {
        let mut m = concat("invoice reached ", status);
        m.append(" while waiting for Received");
        return PollDecision::Fail(m);
    }
    if timed_out {
        let mut m = concat("timed out waiting for Received (last status ", status);
        m.append(")");
        return PollDecision::Fail(m);
    }
    PollDecision::Wait
}

/// Waiting for the payment to the buyer: only `Success` ends the wait well.
pub open spec fn payment_outcome(
    status: Seq<char>,
    failed_error: Option<Seq<char>>,
    payment_hash: Seq<char>,
    timed_out: bool,
) -> PollModel {
    if status == "Success"@ {
        PollModel::Done(status)
    } else if status == "Failed"@ {
        PollModel::Fail(
            "get_payment Failed for "@ + payment_hash + ": "@ + match failed_error {
                Some(d) => d,
                None => "payment Failed"@,
            },
        )
    } else if timed_out {
        PollModel::Fail("timed out waiting for payment Success (last status "@ + status + ")"@)
    } else {
        PollModel::Wait
    }
}

pub fn payment_poll(
    status: &str,
    failed_error: Option<String>,
    payment_hash: &str,
    timed_out: bool,
) -> (r: PollDecision)
    ensures
        r.model() == payment_outcome(
            status@,
            crate::order::opt_text(failed_error),
            payment_hash@,
            timed_out,
        ),
{
    if text_is(status, "Success") {
        return PollDecision::Done(owned(status));
    }
    if text_is(status, "Failed") {
        let detail = match failed_error {
            Some(d) => d,
            None => owned("payment Failed"),
        };
        let mut m = concat("get_payment Failed for ", payment_hash);
        m.append(": ");
        m.append(detail.as_str());
        return PollDecision::Fail(m);
    }
    if timed_out {
        let mut m = concat("timed out waiting for payment Success (last status ", status);
        m.append(")");
        return PollDecision::Fail(m);
    }
    PollDecision::Wait
}

/// Waiting for the settled hold: `Paid` ends the wait; `Cancelled` or
/// `Expired` can no longer become `Paid`.
pub open spec fn paid_outcome(status: Seq<char>, timed_out: bool) -> PollModel {
    if status == "Paid"@ {
        PollModel::Done(status)
    } else if status == "Cancelled"@ || status == "Expired"@ {
        PollModel::Fail("invoice reached "@ + status + " while waiting for Paid after settle"@)
    } else if timed_out {
        PollModel::Fail("timed out waiting for Paid after settle (last status "@ + status + ")"@)
    } else {
        PollModel::Wait
    }
}

pub fn paid_poll(status: &str, timed_out: bool) -> (r: PollDecision)
    ensures
        r.model() == paid_outcome(status@, timed_out),
{
    if text_is(status, "Paid") {
        return PollDecision::Done(owned(status));
    }
    if text_is(status, "Cancelled") || text_is(status, "Expired") {
        let mut m = concat("invoice reached ", status);
        m.append(" while waiting for Paid after settle");
        return PollDecision::Fail(m);
    }
    if timed_out {
        let mut m = concat("timed out waiting for Paid after settle (last status ", status);
        m.append(")");
        return PollDecision::Fail(m);
    }
    PollDecision::Wait
}

} // verus!
