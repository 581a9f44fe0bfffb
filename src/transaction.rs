//! Transaction records: one per transfer or deposit attempt, keyed by a
//! reference that doubles as the idempotency key of the attempt.

use vstd::prelude::*;
use crate::models::{
    CurrencyType, TransactionStatus, TransactionType, currency_code, status_name, transaction_type_name,
};
use crate::money::{Amount, amount_text, format_amount};

verus! {

/// A transaction record; `transaction_time` is
/// in milliseconds since the Unix epoch and never changes after creation. A
/// deposit has an empty `from_account`.
#[derive(Debug)]
pub struct Transaction {
    pub transaction_reference: String,
    pub from_account: String,
    pub to_account: String,
    pub amount: Amount,
    pub currency_type: CurrencyType,
    pub transaction_time: u64,
    pub status: TransactionStatus,
    pub transaction_type: TransactionType,
    pub description: Option<String>,
    pub metadata: Option<String>,
    pub fee_amount: Option<Amount>,
    pub fee_currency: Option<CurrencyType>,
}

/// A copy of an optional string.
pub fn copy_text(o: &Option<String>) -> (r: Option<String>)
    ensures
        r == *o,
{
    match o {
        Some(s) => Some(s.clone()),
        None => None,
    }
}

impl Transaction {
    /// A pending record of a transaction made at `now`, with no fee.
    pub fn new(
        transaction_reference: String,
        from_account: String,
        to_account: String,
        amount: Amount,
        currency_type: CurrencyType,
        transaction_type: TransactionType,
        description: Option<String>,
        metadata: Option<String>,
        now: u64,
    ) -> (r: Transaction)
        ensures
            r == (Transaction {
                transaction_reference,
                from_account,
                to_account,
                amount,
                currency_type,
                transaction_time: now,
                status: TransactionStatus::Pending,
                transaction_type,
                description,
                metadata,
                fee_amount: None,
                fee_currency: None,
            }),
    {
        Transaction {
            transaction_reference,
            from_account,
            to_account,
            amount,
            currency_type,
            transaction_time: now,
            status: TransactionStatus::Pending,
            transaction_type,
            description,
            metadata,
            fee_amount: None,
            fee_currency: None,
        }
    }

    /// A copy of this record.
    pub fn copy(&self) -> (r: Transaction)
        ensures
            r == *self,
    {
        Transaction {
            transaction_reference: self.transaction_reference.clone(),
            from_account: self.from_account.clone(),
            to_account: self.to_account.clone(),
            amount: self.amount,
            currency_type: self.currency_type,
            transaction_time: self.transaction_time,
            status: self.status,
            transaction_type: self.transaction_type,
            description: copy_text(&self.description),
            metadata: copy_text(&self.metadata),
            fee_amount: self.fee_amount,
            fee_currency: self.fee_currency,
        }
    }
}

/// A transaction record as the remote interface reports it, every field as text.
#[derive(Debug)]
pub struct TransactionResponse {
    pub transaction_reference: String,
    pub from_account: String,
    pub to_account: String,
    pub amount: String,
    pub currency_type: String,
    pub transaction_status: String,
    pub transaction_type: String,
    pub description: String,
    pub metadata: String,
    pub fee_amount: String,
    pub fee_currency: String,
    pub timestamp: String,
}

/// What `chrono` writes, in RFC 3339, for the instant `millis` milliseconds
/// after the Unix epoch, or `None` outside the range it can represent.
pub uninterp spec fn rfc3339_text(millis: u64) -> Option<Seq<char>>;

/// Relies on `chrono::DateTime::from_timestamp_millis` and
/// `DateTime::to_rfc3339`: the instant written in RFC 3339.
#[verifier::external_body]
fn format_rfc3339(millis: u64) -> (r: Option<String>)
    ensures
        match r {
            Some(t) => rfc3339_text(millis) == Some(t@),
            None => rfc3339_text(millis) is None,
        },
{
    let m = i64::try_from(millis).ok()?;
    chrono::DateTime::from_timestamp_millis(m).map(|d| d.to_rfc3339())
}

/// The text of an optional string, empty where there is none.
pub open spec fn text_or_empty(o: Option<String>) -> Seq<char> {
    match o {
        Some(s) => s@,
        None => Seq::empty(),
    }
}

impl Transaction {
    /// The record as reported to callers: amounts with all their decimal
    /// places, a missing fee as zero, missing texts as empty ones, the time
    /// in RFC 3339 (empty where it cannot be written).
    pub fn to_response(self) -> (r: TransactionResponse)
        requires
            self.amount.wf(),
            self.fee_amount matches Some(f) ==> f.wf(),
        ensures
            r.transaction_reference@ == self.transaction_reference@,
            r.from_account@ == self.from_account@,
            r.to_account@ == self.to_account@,
            r.amount@ == amount_text(self.amount),
            r.currency_type@ == currency_code(self.currency_type),
            r.transaction_status@ == status_name(self.status),
            r.transaction_type@ == transaction_type_name(self.transaction_type),
            r.description@ == text_or_empty(self.description),
            r.metadata@ == text_or_empty(self.metadata),
            r.fee_amount@ == amount_text(match self.fee_amount { Some(f) => f, None => Amount { units: 0, scale: 0 } }),
            r.fee_currency@ == match self.fee_currency { Some(c) => currency_code(c), None => Seq::empty() },
            r.timestamp@ == match rfc3339_text(self.transaction_time) { Some(t) => t, None => Seq::empty() },
    {
        let fee = match self.fee_amount {
            Some(f) => f,
            None => Amount::zero(),
        };
        let fee_currency = match self.fee_currency {
            Some(c) => c.code(),
            None => String::new(),
        };
        let description = match self.description {
            Some(d) => d,
            None => String::new(),
        };
        let metadata = match self.metadata {
            Some(m) => m,
            None => String::new(),
        };
        let timestamp = match format_rfc3339(self.transaction_time) {
            Some(t) => t,
            None => String::new(),
        };
        TransactionResponse {
            transaction_reference: self.transaction_reference,
            from_account: self.from_account,
            to_account: self.to_account,
            amount: format_amount(self.amount),
            currency_type: self.currency_type.code(),
            transaction_status: self.status.name(),
            transaction_type: self.transaction_type.name(),
            description,
            metadata,
            fee_amount: format_amount(fee),
            fee_currency,
            timestamp,
        }
    }
}

} // verus!
