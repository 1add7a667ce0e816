//! The rules the payment handlers apply: accepted payment methods and
//! formats, how a callback's reported status moves a transaction, and the
//! refund state machine.
use vstd::prelude::*;

use crate::text::text;

use crate::json::{json_get, str_field, Json};
use crate::money::{parse_i64, parsed_i64};
use crate::text::{chars_of, is_ascii_text, is_prefix, push_str, str_eq, string_of, to_uppercase, uppercased, starts_with, ascii_upper};

verus! {

broadcast use {vstd::string::group_string_axioms, vstd::slice::group_slice_axioms};


/// Anti-replay headers of an inbound callback.
#[derive(Debug, Clone)]
pub struct CallbackHeaders {
    pub signature: String,
    pub nonce: String,
    /// Unix timestamp, seconds.
    pub timestamp: i64,
}

/// `POST /payments/imports` body.
pub struct UploadImportRequest {
    pub filename: String,
    pub source: String,
    pub format: String,
    pub content_base64: String,
}

/// Whether `m` is an accepted payment method.
pub open spec fn is_payment_method(m: Seq<char>) -> bool {
    m == "cash"@ || m == "card"@ || m == "mobile"@ || m == "bank_transfer"@ || m == "voucher"@ || m == "other"@
}

/// A payment method must be one of the accepted ones.
pub fn check_payment_method(method: &str) -> (r: Result<(), String>)
    ensures
        r is Ok <==> is_payment_method(method@),
        r matches Err(m) ==> m@ == "payment_method must be one of: cash, card, mobile, bank_transfer, voucher, other"@,
{
    if str_eq(method, "cash") || str_eq(method, "card") || str_eq(method, "mobile") || str_eq(method, "bank_transfer")
        || str_eq(method, "voucher") || str_eq(method, "other") {
        Ok(())
    } else {
        Err(text("payment_method must be one of: cash, card, mobile, bank_transfer, voucher, other"))
    }
}

/// The currency of a new transaction: as given, or `CNY`.
pub fn transaction_currency(currency: Option<String>) -> (r: String)
    ensures
        r@ == (match currency { Some(c) => c@, None => "CNY"@ }),
{
    match currency {
        Some(c) => c,
        None => text("CNY"),
    }
}

/// The header value a callback needs, or the error naming the missing header.
pub fn required_header(value: Option<String>, name: &str) -> (r: Result<String, String>)
    ensures
        match value {
            Some(v) => r == Ok::<String, String>(v),
            None => r matches Err(m) && m@ == "Missing required header: "@ + name@,
        },
{
    match value {
        Some(v) => Ok(v),
        None => {
            let mut m: Vec<char> = Vec::new();
            push_str(&mut m, "Missing required header: ");
            push_str(&mut m, name);
            Err(string_of(m.as_slice()))
        },
    }
}

/// The callback timestamp header as integer seconds.
pub fn parse_timestamp_header(value: &str) -> (r: Result<i64, String>)
    ensures
        match parsed_i64(value@) {
            Some(t) => r == Ok::<i64, String>(t),
            None => r matches Err(m) && m@ == "Invalid timestamp header (expected integer seconds)"@,
        },
{
    let cs = chars_of(value);
    match parse_i64(cs.as_slice()) {
        Some(t) => Ok(t),
        None => Err(text("Invalid timestamp header (expected integer seconds)")),
    }
}

/// The transaction reference of a callback payload: the first of
/// `transaction_ref`, `out_trade_no`, `transaction_id` that is present, when
/// its value is text.
pub open spec fn callback_reference(payload: Json) -> Option<Seq<char>> {
    if json_get(payload, "transaction_ref"@) is Some {
        str_field(payload, "transaction_ref"@)
    } else if json_get(payload, "out_trade_no"@) is Some {
        str_field(payload, "out_trade_no"@)
    } else {
        str_field(payload, "transaction_id"@)
    }
}

/// Pick the transaction reference of a callback payload.
pub fn callback_transaction_ref(payload: &Json) -> (r: Option<&str>)
    ensures
        match r {
            Some(s) => callback_reference(*payload) == Some(s@),
            None => callback_reference(*payload) is None,
        },
{
    let v = if payload.get("transaction_ref").is_some() {
        payload.get("transaction_ref")
    } else if payload.get("out_trade_no").is_some() {
        payload.get("out_trade_no")
    } else {
        payload.get("transaction_id")
    };
    match v {
        Some(x) => x.as_str(),
        None => None,
    }
}

/// The status a callback's reported status moves its transaction to:
/// `failed` when it starts with `FAIL`, `completed` when it starts with
/// `SUCCESS` or is `PAID` or `COMPLETED` (all upper-cased first), otherwise
/// none.
pub open spec fn callback_outcome(status: Seq<char>) -> Option<Seq<char>> {
    let up = uppercased(status);
    if is_prefix("FAIL"@, up) {
        Some("failed"@)
    } else if is_prefix("SUCCESS"@, up) || up == "PAID"@ || up == "COMPLETED"@ {
        Some("completed"@)
    } else {
        None
    }
}

/// Map a callback's reported status to the new transaction status.
pub fn callback_transaction_status(status: &str) -> (r: Option<&'static str>)
    ensures
        match r {
            Some(s) => callback_outcome(status@) == Some(s@),
            None => callback_outcome(status@) is None,
        },
{
    let up = to_uppercase(status);
    let u = chars_of(up.as_str());
    if starts_with(u.as_slice(), chars_of("FAIL").as_slice()) {
        Some("failed")
    } else if starts_with(u.as_slice(), chars_of("SUCCESS").as_slice()) || str_eq(up.as_str(), "PAID") || str_eq(
        up.as_str(),
        "COMPLETED",
    ) {
        Some("completed")
    } else {
        None
    }
}

/// A simulated callback's status must be `completed` or `failed`.
pub fn check_simulated_status(status: &str) -> (r: Result<(), String>)
    ensures
        r is Ok <==> (status@ == "completed"@ || status@ == "failed"@),
        r matches Err(m) ==> m@ == "status must be 'completed' or 'failed'"@,
{
    if str_eq(status, "completed") || str_eq(status, "failed") {
        Ok(())
    } else {
        Err(text("status must be 'completed' or 'failed'"))
    }
}

/// An import's format must be `csv` or `json`.
pub fn check_import_format(format: &str) -> (r: Result<(), String>)
    ensures
        r is Ok <==> (format@ == "csv"@ || format@ == "json"@),
        r matches Err(m) ==> m@ == "format must be 'csv' or 'json'"@,
{
    if str_eq(format, "csv") || str_eq(format, "json") {
        Ok(())
    } else {
        Err(text("format must be 'csv' or 'json'"))
    }
}

/// A refund may be requested for a `completed` or `partially_refunded`
/// transaction.
pub fn check_refundable(tx_status: &str) -> (r: Result<(), String>)
    ensures
        r is Ok <==> (tx_status@ == "completed"@ || tx_status@ == "partially_refunded"@),
        r matches Err(m) ==> m@ == "Transaction status '"@ + tx_status@
            + "' is not refundable (must be completed or partially_refunded)"@,
{
    if str_eq(tx_status, "completed") || str_eq(tx_status, "partially_refunded") {
        Ok(())
    } else {
        let mut m: Vec<char> = Vec::new();
        push_str(&mut m, "Transaction status '");
        push_str(&mut m, tx_status);
        push_str(&mut m, "' is not refundable (must be completed or partially_refunded)");
        Err(string_of(m.as_slice()))
    }
}

/// The status of a refund.
#[derive(Debug, Clone, Copy, PartialEq, Eq, Structural)]
pub enum RefundStep {
    /// `pending` → `approved`.
    Approve,
    /// `approved` → `completed`.
    Process,
}

/// The status a refund must have for `step`, and the status it ends in.
pub open spec fn refund_transition(step: RefundStep) -> (Seq<char>, Seq<char>) {
    match step {
        RefundStep::Approve => ("pending"@, "approved"@),
        RefundStep::Process => ("approved"@, "completed"@),
    }
}

/// The status a refund moves to under `step`, or why it cannot.
pub fn advance_refund(status: &str, step: RefundStep) -> (r: Result<&'static str, String>)
    ensures
        status@ == refund_transition(step).0 ==> (r matches Ok(s) && s@ == refund_transition(step).1),
        status@ != refund_transition(step).0 ==> (r matches Err(m) && m@ == (match step {
            RefundStep::Approve => "Refund cannot be approved from status '"@ + status@ + "'"@,
            RefundStep::Process => "Refund cannot be processed from status '"@ + status@ + "' (must be approved)"@,
        })),
{
    match step {
        RefundStep::Approve => {
            if str_eq(status, "pending") {
                Ok("approved")
            } else {
                let mut m: Vec<char> = Vec::new();
                push_str(&mut m, "Refund cannot be approved from status '");
                push_str(&mut m, status);
                push_str(&mut m, "'");
                Err(string_of(m.as_slice()))
            }
        },
        RefundStep::Process => {
            if str_eq(status, "approved") {
                Ok("completed")
            } else {
                let mut m: Vec<char> = Vec::new();
                push_str(&mut m, "Refund cannot be processed from status '");
                push_str(&mut m, status);
                push_str(&mut m, "' (must be approved)");
                Err(string_of(m.as_slice()))
            }
        },
    }
}

/// A refund goes `pending` → `approved` → `completed`: approval ends in the
/// status that processing starts from, the two steps start from different
/// statuses, and no step starts from `completed`.
pub proof fn law_refund_steps_are_ordered()
    ensures
        refund_transition(RefundStep::Approve).1 == refund_transition(RefundStep::Process).0,
        refund_transition(RefundStep::Approve).0 != refund_transition(RefundStep::Process).0,
        refund_transition(RefundStep::Process).1 != refund_transition(RefundStep::Approve).0,
        refund_transition(RefundStep::Process).1 != refund_transition(RefundStep::Process).0,
{
    reveal_strlit("pending");
    reveal_strlit("approved");
    reveal_strlit("completed");
    assert("completed"@.len() != "pending"@.len());
    assert("completed"@.len() != "approved"@.len());
    assert("pending"@.len() != "approved"@.len());
}

/// Interval between two compensation sweeps, in seconds (15 minutes).
pub const SWEEP_INTERVAL_SECS: u64 = 900;

/// The compensation sweeps, in the order they run.
pub fn compensation_sweeps() -> (r: Vec<&'static str>)
    ensures
        r@.len() == 3,
        r@[0]@ == "stuck_transactions"@,
        r@[1]@ == "pending_refunds"@,
        r@[2]@ == "callback_retry"@,
{
    let mut v: Vec<&'static str> = Vec::new();
    v.push("stuck_transactions");
    v.push("pending_refunds");
    v.push("callback_retry");
    v
}

/// The new status of a stuck transaction from its latest processed
/// callback's payload status: `failed` when it upper-cases to a `FAIL…`
/// text, otherwise `completed`.
pub fn stuck_transaction_status(payload_status: Option<&str>) -> (r: &'static str)
    ensures
        r@ == (match payload_status {
            Some(s) => if is_prefix("FAIL"@, uppercased(s@)) { "failed"@ } else { "completed"@ },
            None => "completed"@,
        }),
{
    match payload_status {
        Some(s) => {
            let up = to_uppercase(s);
            if starts_with(chars_of(up.as_str()).as_slice(), chars_of("FAIL").as_slice()) {
                "failed"
            } else {
                "completed"
            }
        },
        None => "completed",
    }
}

} // verus!
