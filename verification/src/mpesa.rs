//! M-Pesa: deposits by STK push, the payment callback that credits them,
//! transaction statistics, and withdrawals by B2C payment. Amounts are in
//! cents; the payment service and the store stay outside and hand this
//! module their answers.

use vstd::prelude::*;
use crate::ids::{is_object_id, check_object_id};
use crate::text::{str_eq, concat};
use crate::money::{spec_amount_short, amount_short};
use crate::auth::spec_normalize_phone;
pub use crate::auth::normalize_phone;

verus! {

/// A request to start an STK push deposit.
#[derive(Debug, Clone)]
pub struct StkPushRequest {
    pub phone_number: String,
    pub amount: String,
    pub account_reference: Option<String>,
    pub transaction_desc: Option<String>,
    pub user_id: Option<String>,
}

/// A request for a payment's status by checkout id.
#[derive(Debug, Clone)]
pub struct StatusRequest {
    pub checkout_request_id: String,
}

/// A query for a transaction by checkout or merchant request id.
#[derive(Debug, Clone)]
pub struct StatusQuery {
    pub checkout_request_id: Option<String>,
    pub merchant_request_id: Option<String>,
}

/// A request to withdraw to a phone number.
#[derive(Debug, Clone)]
pub struct B2CPaymentRequest {
    pub phone_number: String,
    pub amount: String,
    pub remarks: String,
    pub occasion: Option<String>,
    pub user_id: Option<String>,
    pub channel_id: Option<String>,
}

/// A request to send a B2C payment directly.
#[derive(Debug, Clone)]
pub struct B2CRequest {
    pub phone_number: String,
    pub amount: String,
    pub command_id: String,
    pub remarks: String,
    pub occasion: Option<String>,
}

/// The answer to a B2C payment that was sent.
#[derive(Debug, Clone)]
pub struct B2CResponse {
    pub success: bool,
    pub conversation_id: String,
    pub originator_conversation_id: String,
    pub response_code: String,
    pub response_description: String,
    pub message: String,
}

/// `r` refuses with message `msg`.
pub open spec fn refused<T>(r: Result<T, String>, msg: Seq<char>) -> bool {
    r matches Err(m) && m@ == msg
}

/// Decides an STK push request, given whether its amount reads as a
/// number above zero and whether the payment service is up: phone and
/// amount must be given, then a user id, then a positive amount.
pub fn decide_stk_push(req: &StkPushRequest, amount_positive: bool, service_up: bool) -> (r: Result<(), String>)
    ensures
        req.phone_number@.len() == 0 || req.amount@.len() == 0 ==> refused(r, "Phone number and amount are required"@),
        req.phone_number@.len() > 0 && req.amount@.len() > 0 && !(req.user_id matches Some(u) && u@.len() > 0)
            ==> refused(r, "User ID is required"@),
        req.phone_number@.len() > 0 && req.amount@.len() > 0 && (req.user_id matches Some(u) && u@.len() > 0)
            && !amount_positive ==> refused(r, "Amount must be greater than 0"@),
        req.phone_number@.len() > 0 && req.amount@.len() > 0 && (req.user_id matches Some(u) && u@.len() > 0)
            && amount_positive && !service_up ==> refused(r, "M-Pesa service is not available"@),
        req.phone_number@.len() > 0 && req.amount@.len() > 0 && (req.user_id matches Some(u) && u@.len() > 0)
            && amount_positive && service_up ==> r is Ok,
{
    if req.phone_number.unicode_len() == 0 || req.amount.unicode_len() == 0 {
        return Err(String::from_str("Phone number and amount are required"));
    }
    let has_user = match &req.user_id {
        Some(u) => u.unicode_len() > 0,
        None => false,
    };
    if !has_user {
        return Err(String::from_str("User ID is required"));
    }
    if !amount_positive {
        return Err(String::from_str("Amount must be greater than 0"));
    }
    if !service_up {
        return Err(String::from_str("M-Pesa service is not available"));
    }
    Ok(())
}

/// A metadata item's value, as the callback carries it: its JSON text, and
/// its text when it is a number or a string, and its amount in cents when
/// it is a number.
#[derive(Debug, Clone)]
pub struct CallbackValue {
    pub json_text: String,
    pub number_text: Option<String>,
    pub string_value: Option<String>,
    pub amount_cents: Option<i64>,
}

/// A metadata item of a payment callback.
#[derive(Debug, Clone)]
pub struct CallbackItem {
    pub name: String,
    pub value: CallbackValue,
}

/// What a payment callback's metadata says.
#[derive(Debug, Clone)]
pub struct CallbackReading {
    pub receipt: Option<String>,
    pub paid_cents: Option<i64>,
    pub transaction_date: Option<String>,
    pub paying_phone: Option<String>,
}

/// The metadata read item by item, later items overriding earlier ones: an
/// `Amount` that is a number, an `MpesaReceiptNumber` that is a string, any
/// `TransactionDate` (its JSON text), and a `PhoneNumber` that is a number
/// or a string.
pub open spec fn spec_reading(items: Seq<CallbackItem>) -> (Option<Seq<char>>, Option<i64>, Option<Seq<char>>, Option<Seq<char>>)
    decreases items.len(),
{
    if items.len() == 0 {
        (None, None, None, None)
    } else {
        let prev = spec_reading(items.drop_last());
        let it = items.last();
        let n = it.name@;
        let v = it.value;
        let receipt = if n == "MpesaReceiptNumber"@ && v.string_value is Some { Some(v.string_value->0@) } else { prev.0 };
        let paid = if n == "Amount"@ && v.number_text is Some { v.amount_cents } else { prev.1 };
        let date = if n == "TransactionDate"@ { Some(v.json_text@) } else { prev.2 };
        let phone = if n == "PhoneNumber"@ && v.number_text is Some {
            Some(v.number_text->0@)
        } else if n == "PhoneNumber"@ && v.string_value is Some {
            Some(v.string_value->0@)
        } else {
            prev.3
        };
        (receipt, paid, date, phone)
    }
}

/// The plain view of a reading.
pub open spec fn reading_view(r: CallbackReading) -> (Option<Seq<char>>, Option<i64>, Option<Seq<char>>, Option<Seq<char>>) {
    (
        match r.receipt { Some(s) => Some(s@), None => None },
        r.paid_cents,
        match r.transaction_date { Some(s) => Some(s@), None => None },
        match r.paying_phone { Some(s) => Some(s@), None => None },
    )
}

fn view_opt(o: &Option<String>) -> (r: Option<String>)
    ensures
        r == *o,
{
    crate::bets::clone_opt(o)
}

/// Reads a payment callback's metadata (see `spec_reading`).
pub fn read_callback(items: &Vec<CallbackItem>) -> (r: CallbackReading)
    ensures
        reading_view(r) == spec_reading(items@),
{
    let mut r = CallbackReading { receipt: None, paid_cents: None, transaction_date: None, paying_phone: None };
    let mut i: usize = 0;
    while i < items.len()
        invariant
            i <= items@.len(),
            reading_view(r) == spec_reading(items@.take(i as int)),
        decreases items.len() - i,
    {
        proof {
            assert(items@.take(i + 1).drop_last() =~= items@.take(i as int));
            assert(items@.take(i + 1).last() == items@[i as int]);
        }
        let it = &items[i];
        let n = it.name.as_str();
        if str_eq(n, "Amount") {
            if it.value.number_text.is_some() {
                r.paid_cents = it.value.amount_cents;
            }
        }
        if str_eq(n, "MpesaReceiptNumber") {
            if it.value.string_value.is_some() {
                r.receipt = view_opt(&it.value.string_value);
            }
        }
        if str_eq(n, "TransactionDate") {
            r.transaction_date = Some(it.value.json_text.clone());
        }
        if str_eq(n, "PhoneNumber") {
            if it.value.number_text.is_some() {
                r.paying_phone = view_opt(&it.value.number_text);
            } else if it.value.string_value.is_some() {
                r.paying_phone = view_opt(&it.value.string_value);
            }
        }
        proof {
            reveal_strlit("Amount");
            reveal_strlit("MpesaReceiptNumber");
            reveal_strlit("TransactionDate");
            reveal_strlit("PhoneNumber");
        }
        i = i + 1;
    }
    proof {
        assert(items@.take(items@.len() as int) =~= items@);
    }
    r
}

/// What a payment callback does to its transaction: the status it records,
/// and for a successful payment the amount to credit to the transaction's
/// user (the paid amount when the callback gives one, else the amount the
/// transaction was started with).
#[derive(Debug, Clone)]
pub struct CallbackEffect {
    pub status: String,
    pub credit_cents: Option<i64>,
}

/// Decides what a payment callback does, in the order of the checks: both
/// request ids present (else the callback is answered "Invalid callback
/// data"); then the status is recorded; a successful payment is credited
/// to the transaction's user when that id is a well-formed object id (else
/// the callback is answered "Invalid user_id").
pub fn decide_callback(
    merchant_request_id: &str,
    checkout_request_id: &str,
    result_code: i32,
    reading: &CallbackReading,
    transaction_cents: i64,
    transaction_user_id: &str,
) -> (r: Result<CallbackEffect, String>)
    ensures
        merchant_request_id@.len() == 0 || checkout_request_id@.len() == 0 ==> refused(r, "Invalid callback data"@),
        merchant_request_id@.len() > 0 && checkout_request_id@.len() > 0 && result_code != 0
            ==> (r matches Ok(e) && e.status@ == "failed"@ && e.credit_cents is None),
        merchant_request_id@.len() > 0 && checkout_request_id@.len() > 0 && result_code == 0 && !is_object_id(transaction_user_id@)
            ==> refused(r, "Invalid user_id"@),
        merchant_request_id@.len() > 0 && checkout_request_id@.len() > 0 && result_code == 0 && is_object_id(transaction_user_id@)
            ==> (r matches Ok(e) && e.status@ == "completed"@ && e.credit_cents == Some(match reading.paid_cents {
                Some(p) => p,
                None => transaction_cents,
            })),
{
    if merchant_request_id.unicode_len() == 0 || checkout_request_id.unicode_len() == 0 {
        return Err(String::from_str("Invalid callback data"));
    }
    if result_code != 0 {
        return Ok(CallbackEffect { status: String::from_str("failed"), credit_cents: None });
    }
    if check_object_id(transaction_user_id).is_err() {
        return Err(String::from_str("Invalid user_id"));
    }
    let credit = match reading.paid_cents {
        Some(p) => p,
        None => transaction_cents,
    };
    Ok(CallbackEffect { status: String::from_str("completed"), credit_cents: Some(credit) })
}

/// How many of `s` read `st`.
pub open spec fn count_status(s: Seq<String>, st: Seq<char>) -> nat
    decreases s.len(),
{
    if s.len() == 0 { 0 } else { count_status(s.drop_last(), st) + if s.last()@ == st { 1nat } else { 0nat } }
}

/// Transaction statistics: all, completed, failed, and the rest.
#[derive(Debug, Clone, Copy, PartialEq, Eq, Structural)]
pub struct TransactionStats {
    pub total: u64,
    pub successful: u64,
    pub failed: u64,
    pub pending: u64,
}

/// Counts transactions by status.
pub fn transaction_stats(statuses: &Vec<String>) -> (r: TransactionStats)
    ensures
        r.total == statuses@.len(),
        r.successful == count_status(statuses@, "completed"@),
        r.failed == count_status(statuses@, "failed"@),
        r.pending == r.total - r.successful - r.failed,
{
    let mut ok: u64 = 0;
    let mut bad: u64 = 0;
    let mut i: usize = 0;
    while i < statuses.len()
        invariant
            i <= statuses@.len(),
            ok == count_status(statuses@.take(i as int), "completed"@),
            bad == count_status(statuses@.take(i as int), "failed"@),
            ok + bad <= i,
        decreases statuses.len() - i,
    {
        proof {
            assert(statuses@.take(i + 1).drop_last() =~= statuses@.take(i as int));
            assert(statuses@.take(i + 1).last() == statuses@[i as int]);
            reveal_strlit("completed");
            reveal_strlit("failed");
            assert("completed"@.len() != "failed"@.len());
        }
        if str_eq(statuses[i].as_str(), "completed") {
            ok = ok + 1;
        } else if str_eq(statuses[i].as_str(), "failed") {
            bad = bad + 1;
        }
        i = i + 1;
    }
    proof {
        assert(statuses@.take(statuses@.len() as int) =~= statuses@);
    }
    let total = statuses.len() as u64;
    TransactionStats { total, successful: ok, failed: bad, pending: total - ok - bad }
}

/// A payment counts as successful or failed by its recorded status.
pub fn payment_outcome(status: &str) -> (r: (bool, bool))
    ensures
        r.0 == (status@ == "completed"@),
        r.1 == (status@ == "failed"@),
{
    (str_eq(status, "completed"), str_eq(status, "failed"))
}

/// A status query must name a checkout or a merchant request.
pub fn check_status_query(q: &StatusQuery) -> (r: Result<(), String>)
    ensures
        q.checkout_request_id is None && q.merchant_request_id is None
            ==> refused(r, "checkout_request_id or merchant_request_id required"@),
        q.checkout_request_id is Some || q.merchant_request_id is Some ==> r is Ok,
{
    if q.checkout_request_id.is_none() && q.merchant_request_id.is_none() {
        return Err(String::from_str("checkout_request_id or merchant_request_id required"));
    }
    Ok(())
}

/// The stored spellings a withdrawal tries, in order, to find the user of
/// a phone number: as given, `254` and `0` before its last nine digits, and
/// a pattern on those digits.
pub fn withdrawal_phone_keys(phone: &str) -> (r: (String, String, String, String))
    ensures
        r.0@ == phone@,
        r.1@ == "254"@ + spec_normalize_phone(phone@),
        r.2@ == "0"@ + spec_normalize_phone(phone@),
        r.3@ == spec_normalize_phone(phone@) + "$"@,
{
    let n = normalize_phone(phone);
    let mut pat = n.clone();
    pat.append("$");
    (String::from_str(phone), concat("254", n.as_str()), concat("0", n.as_str()), pat)
}

/// The stage of a withdrawal, deciding from the request, the user found
/// and their balance. Phone and amount must be given, the amount must be a
/// number above zero, a user must be found, and the balance must cover the
/// amount; the result is the balance after the deduction.
pub fn decide_withdrawal(
    req: &B2CPaymentRequest,
    amount_cents: Option<i64>,
    balance: Option<i64>,
) -> (r: Result<i128, String>)
    ensures
        req.phone_number@.len() == 0 || req.amount@.len() == 0 ==> refused(r, "Phone number and amount are required"@),
        req.phone_number@.len() > 0 && req.amount@.len() > 0 && !(amount_cents matches Some(a) && a > 0)
            ==> refused(r, "Amount must be greater than 0"@),
        req.phone_number@.len() > 0 && req.amount@.len() > 0 && (amount_cents matches Some(a) && a > 0)
            && balance is None ==> refused(r, "User not found"@),
        req.phone_number@.len() > 0 && req.amount@.len() > 0 && (amount_cents matches Some(a) && a > 0)
            && (balance matches Some(b) && b < amount_cents->0) ==> refused(r,
                "Insufficient balance: have KES "@ + spec_amount_short(balance->0 as int) + ", need KES "@
                    + spec_amount_short(amount_cents->0 as int)),
        req.phone_number@.len() > 0 && req.amount@.len() > 0 && (amount_cents matches Some(a) && a > 0)
            && (balance matches Some(b) && b >= amount_cents->0) ==> r == Ok::<i128, String>((balance->0 - amount_cents->0) as i128),
{
    if req.phone_number.unicode_len() == 0 || req.amount.unicode_len() == 0 {
        return Err(String::from_str("Phone number and amount are required"));
    }
    let a = match amount_cents {
        Some(a) => if a > 0 { a } else { return Err(String::from_str("Amount must be greater than 0")) },
        None => return Err(String::from_str("Amount must be greater than 0")),
    };
    let b = match balance {
        None => return Err(String::from_str("User not found")),
        Some(b) => b,
    };
    if b < a {
        let have = amount_short(b);
        let need = amount_short(a);
        let mut m = concat("Insufficient balance: have KES ", have.as_str());
        m.append(", need KES ");
        m.append(need.as_str());
        return Err(m);
    }
    Ok(b as i128 - a as i128)
}

/// What the payment service's answer to a withdrawal does: a response code
/// of `0` keeps the deduction; any other code, or no answer, puts the
/// amount back and refuses with the reason.
pub fn decide_b2c_answer(response: &Result<(String, String), String>) -> (r: Result<(), String>)
    ensures
        match response {
            Err(e) => refused(r, e@),
            Ok(a) => if a.0@ == "0"@ { r is Ok } else { refused(r, "M-Pesa declined: "@ + a.1@) },
        },
{
    match response {
        Err(e) => Err(e.clone()),
        Ok(a) => if str_eq(a.0.as_str(), "0") {
            Ok(())
        } else {
            Err(concat("M-Pesa declined: ", a.1.as_str()))
        },
    }
}

/// Whether the payment service accepted a withdrawal: it answered with
/// response code `0`.
pub open spec fn accepted(response: Result<(String, String), String>) -> bool {
    response matches Ok(a) && a.0@ == "0"@
}

/// The balance once the service has answered a withdrawal of `amount` from
/// a balance already lowered to `deducted`: the deduction stands when the
/// service accepted, the amount is put back otherwise.
pub open spec fn spec_after_answer(deducted: int, amount: int, accepted: bool) -> int {
    if accepted { deducted } else { deducted + amount }
}

/// The balance after the service's answer to a withdrawal of `amount`, the
/// user's balance having been lowered to `deducted` before asking; with the
/// answer as `decide_b2c_answer` gives it.
pub fn balance_after_answer(
    deducted: i128,
    amount: i64,
    response: &Result<(String, String), String>,
) -> (r: (i128, Result<(), String>))
    requires
        i64::MIN <= deducted <= i64::MAX,
    ensures
        r.0 == spec_after_answer(deducted as int, amount as int, accepted(*response)),
        r.1 is Ok <==> accepted(*response),
        match response {
            Err(e) => refused(r.1, e@),
            Ok(a) => if a.0@ == "0"@ { r.1 is Ok } else { refused(r.1, "M-Pesa declined: "@ + a.1@) },
        },
{
    let answer = decide_b2c_answer(response);
    if answer.is_ok() {
        (deducted, answer)
    } else {
        (deducted + amount as i128, answer)
    }
}

/// A declined withdrawal leaves the balance as it was, and an accepted one
/// lowers it by the amount: the amount deducted before asking the service
/// (as `decide_withdrawal` computes the lowered balance) is what is put
/// back when the service declines.
pub proof fn law_declined_withdrawal_restores_balance(balance: int, amount: int, accepted: bool)
    ensures
        !accepted ==> spec_after_answer(balance - amount, amount, accepted) == balance,
        accepted ==> spec_after_answer(balance - amount, amount, accepted) == balance - amount,
{
}

/// The commands a direct B2C payment may carry.
pub open spec fn is_b2c_command(c: Seq<char>) -> bool {
    c == "BusinessPayment"@ || c == "SalaryPayment"@ || c == "PromotionPayment"@
}

/// Decides a direct B2C payment request: a known command, then a payment
/// service that is up. A refusal carries its HTTP status.
pub fn decide_b2c_request(req: &B2CRequest, service_up: bool) -> (r: Result<(), (u16, String)>)
    ensures
        !is_b2c_command(req.command_id@) ==> (r matches Err(e) && e.0 == 400
            && e.1@ == "Invalid command_id. Must be: BusinessPayment, SalaryPayment, or PromotionPayment"@),
        is_b2c_command(req.command_id@) && !service_up ==> (r matches Err(e) && e.0 == 503
            && e.1@ == "M-Pesa service is not available"@),
        is_b2c_command(req.command_id@) && service_up ==> r is Ok,
{
    let c = req.command_id.as_str();
    if !(str_eq(c, "BusinessPayment") || str_eq(c, "SalaryPayment") || str_eq(c, "PromotionPayment")) {
        return Err((400, String::from_str("Invalid command_id. Must be: BusinessPayment, SalaryPayment, or PromotionPayment")));
    }
    if !service_up {
        return Err((503, String::from_str("M-Pesa service is not available")));
    }
    Ok(())
}

} // verus!
