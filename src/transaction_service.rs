//! The transfer service: validates requests, keeps the transaction records
//! and drives the transfer saga against the ledger store.

use vstd::prelude::*;
use vstd::seq_lib::{to_multiset_build, to_multiset_insert};
use crate::account::{Account, with_balance};
use crate::account_service::{AccountService, credit_allowed, debit_allowed};
use crate::errors::TransactionError;
use crate::models::{AccountStatus, CurrencyType, TransactionStatus, TransactionType, currency_named};
use crate::money::{
    Amount, amount_diff, amount_of_text, amount_sum, lemma_diff_value, lemma_sum_value, parse_amount,
};
use crate::saga::{SagaAction, TransferSaga, with_record_status};
use crate::text::str_eq;
use crate::transaction::Transaction;

verus! {

/// A request for an internal transfer or a deposit. `reference`, where
/// given, is the idempotency key: a request whose reference is already on
/// record is answered from the record. A deposit ignores `from_account`.
#[derive(Debug)]
pub struct TransactionRequest {
    pub reference: Option<String>,
    pub from_account: String,
    pub to_account: String,
    pub amount: String,
    pub currency_type: String,
    pub description: String,
    pub metadata: String,
}

/// The ledger `l` after the record's amount has been debited from its source.
pub open spec fn debited_ledger(l: Map<Seq<char>, Account>, rec: Transaction, now: u64) -> Map<Seq<char>, Account> {
    let f = rec.from_account@;
    l.insert(f, with_balance(l[f], amount_diff(l[f].current_balance, rec.amount), now))
}

/// The ledger `l` after the record's amount has been credited to `k`.
pub open spec fn credited_ledger(l: Map<Seq<char>, Account>, k: Seq<char>, rec: Transaction, now: u64) -> Map<Seq<char>, Account> {
    l.insert(k, with_balance(l[k], amount_sum(l[k].current_balance, rec.amount), now))
}

/// Whether the ledger `l` accepts a debit of the record's amount from its source.
pub open spec fn debit_ok(l: Map<Seq<char>, Account>, rec: Transaction) -> bool {
    l.contains_key(rec.from_account@) && debit_allowed(l[rec.from_account@], rec.amount, rec.currency_type)
}

/// Whether the ledger `l` accepts a credit of the record's amount to `k`.
pub open spec fn credit_ok(l: Map<Seq<char>, Account>, k: Seq<char>, rec: Transaction) -> bool {
    l.contains_key(k) && credit_allowed(l[k], rec.amount, rec.currency_type)
}

/// Two ledgers hold the same accounts with the same balances.
pub open spec fn same_balances(a: Map<Seq<char>, Account>, b: Map<Seq<char>, Account>) -> bool {
    &&& a.dom() == b.dom()
    &&& forall|k: Seq<char>| #[trigger] a.contains_key(k) ==> a[k].current_balance.value() == b[k].current_balance.value()
        && a[k].available_balance.value() == b[k].available_balance.value()
}

/// The ledger `l` after a completed transfer of the record's amount.
pub open spec fn transferred_ledger(l: Map<Seq<char>, Account>, rec: Transaction, now: u64) -> Map<Seq<char>, Account> {
    credited_ledger(debited_ledger(l, rec, now), rec.to_account@, rec, now)
}

/// Whether the transfer of the record goes through on the ledger `l`.
pub open spec fn transfer_ok(l: Map<Seq<char>, Account>, rec: Transaction, now: u64) -> bool {
    debit_ok(l, rec) && credit_ok(debited_ledger(l, rec, now), rec.to_account@, rec)
}

/// `e` is the error that reports a refused debit of `amount` in `currency`
/// from account `k` of ledger `l`.
pub open spec fn debit_error_fits(l: Map<Seq<char>, Account>, k: Seq<char>, amount: Amount, currency: CurrencyType, e: TransactionError) -> bool {
    if !l.contains_key(k) {
        e is AccountNotFound
    } else if l[k].account_status != AccountStatus::Active {
        e is IneligibleAccount
    } else if l[k].currency_type != currency {
        e is InvalidCurrency
    } else if l[k].available_balance.value() < amount.value() {
        e matches TransactionError::InsufficientFunds { balance, amount: requested, .. }
            && balance == l[k].current_balance && requested == amount
    } else {
        e is InvalidAmount
    }
}

/// `e` is the error that reports a refused credit of `amount` in `currency`
/// to account `k` of ledger `l`.
pub open spec fn credit_error_fits(l: Map<Seq<char>, Account>, k: Seq<char>, amount: Amount, currency: CurrencyType, e: TransactionError) -> bool {
    if !l.contains_key(k) {
        e is AccountNotFound
    } else if l[k].account_status != AccountStatus::Active {
        e is IneligibleAccount
    } else if l[k].currency_type != currency {
        e is InvalidCurrency
    } else {
        e is InvalidAmount
    }
}

/// How a saga that started from `start` on ledger `l` ended, with record
/// `end`, failure `failure` and ledger `l2`: a transfer whose debit is refused
/// fails with the ledger unchanged; one whose debit passes and credit is
/// refused fails after the reversing credit, with every balance as before;
/// otherwise it completes with both calls applied. A deposit completes with
/// its credit applied or fails with the ledger unchanged.
pub open spec fn saga_settled(
    l: Map<Seq<char>, Account>,
    l2: Map<Seq<char>, Account>,
    start: Transaction,
    end: Transaction,
    failure: Option<TransactionError>,
    now: u64,
) -> bool {
    &&& end == with_record_status(start, end.status)
    &&& if start.transaction_type == TransactionType::Internal {
        if !debit_ok(l, start) {
            &&& end.status == TransactionStatus::Failed
            &&& failure matches Some(e) && debit_error_fits(l, start.from_account@, start.amount, start.currency_type, e)
            &&& l2 == l
        } else if credit_ok(debited_ledger(l, start, now), start.to_account@, start) {
            end.status == TransactionStatus::Completed && failure is None && l2 == transferred_ledger(l, start, now)
        } else {
            &&& end.status == TransactionStatus::Failed
            &&& failure matches Some(e) && credit_error_fits(debited_ledger(l, start, now), start.to_account@,
                start.amount, start.currency_type, e)
            &&& same_balances(l2, l)
        }
    } else {
        if credit_ok(l, start.to_account@, start) {
            end.status == TransactionStatus::Completed && failure is None
                && l2 == credited_ledger(l, start.to_account@, start, now)
        } else {
            &&& end.status == TransactionStatus::Failed
            &&& failure matches Some(e) && credit_error_fits(l, start.to_account@, start.amount, start.currency_type, e)
            &&& l2 == l
        }
    }
}

/// Performs one ledger call that a saga asks for.
fn perform(ledger: &mut AccountService, action: &SagaAction, now: u64) -> (r: Result<(), TransactionError>)
    requires
        old(ledger).wf(),
        match *action {
            SagaAction::Debit { amount, .. } => amount.wf(),
            SagaAction::Credit { amount, .. } => amount.wf(),
            SagaAction::Finish(_) => false,
        },
    ensures
        final(ledger).wf(),
        match *action {
            SagaAction::Debit { account, amount, currency } => {
                let l = old(ledger)@;
                let k = account@;
                &&& (r is Ok) == (l.contains_key(k) && debit_allowed(l[k], amount, currency))
                &&& r is Ok ==> final(ledger)@ == l.insert(k, with_balance(l[k], amount_diff(l[k].current_balance, amount), now))
                &&& r is Err ==> final(ledger)@ == l
                &&& r matches Err(e) ==> debit_error_fits(l, k, amount, currency, e)
            },
            SagaAction::Credit { account, amount, currency } => {
                let l = old(ledger)@;
                let k = account@;
                &&& (r is Ok) == (l.contains_key(k) && credit_allowed(l[k], amount, currency))
                &&& r is Ok ==> final(ledger)@ == l.insert(k, with_balance(l[k], amount_sum(l[k].current_balance, amount), now))
                &&& r is Err ==> final(ledger)@ == l
                &&& r matches Err(e) ==> credit_error_fits(l, k, amount, currency, e)
            },
            SagaAction::Finish(_) => true,
        },
{
    match action {
        SagaAction::Debit { account, amount, currency } => {
            match ledger.debit_account(account.as_str(), *amount, *currency, now) {
                Ok(_) => Ok(()),
                Err(e) => Err(e.into_transaction_error()),
            }
        },
        SagaAction::Credit { account, amount, currency } => {
            match ledger.credit_account(account.as_str(), *amount, *currency, now) {
                Ok(_) => Ok(()),
                Err(e) => Err(e.into_transaction_error()),
            }
        },
        SagaAction::Finish(_) => Ok(()),
    }
}

/// Drives the saga of a pending transfer or deposit over the ledger until it
/// finishes; returns the final record and the failure, if any.
fn run_saga(ledger: &mut AccountService, record: Transaction, now: u64) -> (r: (Transaction, Option<TransactionError>))
    requires
        old(ledger).wf(),
        record.amount.wf(),
        record.status == TransactionStatus::Pending,
        record.transaction_type == TransactionType::Internal
            || record.transaction_type == TransactionType::Deposit,
    ensures
        final(ledger).wf(),
        saga_settled(old(ledger)@, final(ledger)@, record, r.0, r.1, now),
{
    let ghost l0 = ledger@;
    proof {
        ledger.lemma_wf_values();
    }
    let (mut saga, first) = TransferSaga::start(record);
    let o1 = perform(ledger, &first, now);
    let second = saga.advance(o1);
    if let SagaAction::Finish(e) = second {
        return (saga.record, e);
    }
    let ghost l1 = ledger@;
    proof {
        ledger.lemma_wf_values();
    }
    let o2 = perform(ledger, &second, now);
    let third = saga.advance(o2);
    if let SagaAction::Finish(e) = third {
        return (saga.record, e);
    }
    proof {
        let f = saga.record.from_account@;
        assert(l1 == debited_ledger(l0, saga.record, now));
        assert(l1[f].account_status == l0[f].account_status);
        assert(l0[f].wf());
        lemma_diff_value(l0[f].current_balance, saga.record.amount);
        ledger.lemma_wf_values();
    }
    let o3 = perform(ledger, &third, now);
    let fourth = saga.advance(o3);
    proof {
        let f = saga.record.from_account@;
        lemma_diff_value(l0[f].current_balance, saga.record.amount);
        assert(o3 is Ok);
        assert(ledger@.dom() =~= l0.dom());
        assert forall|k: Seq<char>| #[trigger] ledger@.contains_key(k) implies ledger@[k].current_balance.value()
            == l0[k].current_balance.value() && ledger@[k].available_balance.value()
            == l0[k].available_balance.value() by {
            if k != f {
                assert(ledger@[k] == l0[k]);
            }
        }
    }
    match fourth {
        SagaAction::Finish(e) => (saga.record, e),
        _ => {
            // a compensation always ends the saga
            proof {
                assert(false);
            }
            (saga.record, None)
        },
    }
}

/// No two records share a reference.
pub open spec fn references_unique(s: Seq<Transaction>) -> bool {
    forall|i: int, j: int|
        0 <= i < s.len() && 0 <= j < s.len() && #[trigger] s[i].transaction_reference@
            == #[trigger] s[j].transaction_reference@ ==> i == j
}

/// Some record of `s` has the reference `r`.
pub open spec fn has_reference(s: Seq<Transaction>, r: Seq<char>) -> bool {
    exists|i: int| 0 <= i < s.len() && #[trigger] s[i].transaction_reference@ == r
}

/// The request names a reference that is already on record in `s`.
pub open spec fn is_replay(s: Seq<Transaction>, request: TransactionRequest) -> bool {
    request.reference matches Some(x) && has_reference(s, x@)
}

/// `rec` is the pending record that `request` of the given kind opens at
/// `now`, for `amount` in `currency`.
pub open spec fn opens_record(
    rec: Transaction,
    request: TransactionRequest,
    kind: TransactionType,
    amount: Amount,
    currency: CurrencyType,
    now: u64,
) -> bool {
    &&& rec.from_account@ == (if kind == TransactionType::Deposit { Seq::<char>::empty() } else { request.from_account@ })
    &&& rec.to_account@ == request.to_account@
    &&& rec.amount == amount
    &&& rec.currency_type == currency
    &&& rec.transaction_time == now
    &&& rec.status == TransactionStatus::Pending
    &&& rec.transaction_type == kind
    &&& rec.description matches Some(d) && d@ == request.description@
    &&& rec.metadata matches Some(m) && m@ == request.metadata@
    &&& rec.fee_amount is None
    &&& rec.fee_currency is None
    &&& request.reference matches Some(x) ==> rec.transaction_reference@ == x@
}

/// Relies on `uuid::Uuid::new_v4` and the `Display` form of `Uuid`: a random
/// identifier in hyphenated form, 36 characters long.
#[verifier::external_body]
fn new_reference() -> (r: String)
    ensures
        r@.len() == 36,
{
    uuid::Uuid::new_v4().to_string()
}

/// The transfer service: the transaction records, each filed once under
/// its reference.
pub struct TransactionService {
    records: Vec<Transaction>,
}

impl View for TransactionService {
    type V = Seq<Transaction>;

    closed spec fn view(&self) -> Seq<Transaction> {
        self.records@
    }
}

impl TransactionService {
    /// References are unique.
    pub closed spec fn wf(&self) -> bool {
        references_unique(self.records@)
    }

    /// A well-formed service holds at most one record per reference.
    pub proof fn lemma_references_unique(&self)
        requires
            self.wf(),
        ensures
            references_unique(self@),
    {
    }

    /// A service with no records.
    pub fn new() -> (r: TransactionService)
        ensures
            r.wf(),
            r@ == Seq::<Transaction>::empty(),
    {
        TransactionService { records: Vec::new() }
    }

    /// The position of the record with the given reference, if any.
    fn find(&self, reference: &str) -> (r: Option<usize>)
        requires
            self.wf(),
        ensures
            match r {
                Some(i) => i < self@.len() && self@[i as int].transaction_reference@ == reference@,
                None => !has_reference(self@, reference@),
            },
    {
        let mut i: usize = 0;
        while i < self.records.len()
            invariant
                i <= self.records@.len(),
                forall|j: int| 0 <= j < i ==> self.records@[j].transaction_reference@ != reference@,
            decreases self.records@.len() - i,
        {
            if str_eq(self.records[i].transaction_reference.as_str(), reference) {
                return Some(i);
            }
            i = i + 1;
        }
        None
    }

    /// Validates and runs a transfer or deposit request; see `internal_transfer`.
    fn submit(&mut self, ledger: &mut AccountService, request: &TransactionRequest, kind: TransactionType, now: u64)
        -> (r: Result<Transaction, TransactionError>)
        requires
            old(self).wf(),
            old(ledger).wf(),
            kind == TransactionType::Internal || kind == TransactionType::Deposit,
        ensures
            final(self).wf(),
            final(ledger).wf(),
            submitted(old(self)@, final(self)@, old(ledger)@, final(ledger)@, *request, kind, now, r),
    {
        if let Some(x) = &request.reference {
            if let Some(i) = self.find(x.as_str()) {
                proof {
                    assert forall|j: int| 0 <= j < self@.len() && self@[j].transaction_reference@ == x@
                        implies answers_with(Ok::<Transaction, TransactionError>(self@[j]), self@[i as int]) by {
                        assert(self.records@[j].transaction_reference@ == self.records@[i as int].transaction_reference@);
                    }
                }
                return Ok(self.records[i].copy());
            }
        }
        let amount = match parse_amount(request.amount.as_str()) {
            Ok(a) => a,
            Err(_) => return Err(TransactionError::InvalidAmount("amount is not a valid amount of money".to_string())),
        };
        if amount.is_zero() {
            return Err(TransactionError::InvalidAmount("amount must be positive".to_string()));
        }
        let currency = match CurrencyType::from_code(request.currency_type.as_str()) {
            Some(c) => c,
            None => return Err(TransactionError::InvalidCurrency("unknown currency code".to_string())),
        };
        let reference = match &request.reference {
            Some(x) => x.clone(),
            None => {
                let fresh = new_reference();
                if self.find(fresh.as_str()).is_some() {
                    return Err(TransactionError::Internal("generated reference is already in use".to_string()));
                }
                fresh
            },
        };
        let from = if kind == TransactionType::Deposit { String::new() } else { request.from_account.clone() };
        let record = Transaction::new(
            reference,
            from,
            request.to_account.clone(),
            amount,
            currency,
            kind,
            Some(request.description.clone()),
            Some(request.metadata.clone()),
            now,
        );
        let pos = self.records.len();
        self.records.push(record.copy());
        proof {
            assert(references_unique(self.records@)) by {
                assert forall|i: int, j: int|
                    0 <= i < self.records@.len() && 0 <= j < self.records@.len()
                        && #[trigger] self.records@[i].transaction_reference@
                        == #[trigger] self.records@[j].transaction_reference@ implies i == j by {
                    if i < pos && j == pos {
                        assert(old(self).records@[i].transaction_reference@ == record.transaction_reference@);
                    }
                    if j < pos && i == pos {
                        assert(old(self).records@[j].transaction_reference@ == record.transaction_reference@);
                    }
                }
            }
        }
        let (done, failure) = run_saga(ledger, record, now);
        self.records.set(pos, done.copy());
        proof {
            assert(self.records@.drop_last() =~= old(self).records@);
        }
        match failure {
            None => Ok(done),
            Some(e) => Err(e),
        }
    }
}

/// Milliseconds in a day.
pub const MILLIS_PER_DAY: u64 = 86_400_000;

/// The UTC calendar day, counted from the Unix epoch, of an instant in
/// milliseconds since the epoch.
pub open spec fn day_of(millis: int) -> int {
    millis / (MILLIS_PER_DAY as int)
}

/// What `chrono::DateTime::parse_from_rfc3339` reads from `s`, as
/// milliseconds since the Unix epoch, or `None` where it refuses `s`.
pub uninterp spec fn rfc3339_millis(s: Seq<char>) -> Option<i64>;

/// Relies on `chrono::DateTime::parse_from_rfc3339` and
/// `DateTime::timestamp_millis`: the instant written in `s`.
#[verifier::external_body]
fn parse_rfc3339(s: &str) -> (r: Option<i64>)
    ensures
        r == rfc3339_millis(s@),
{
    chrono::DateTime::parse_from_rfc3339(s).ok().map(|d| d.timestamp_millis())
}

/// Which records a listing selects.
pub enum Selector {
    /// Records whose source account is the given one.
    From(String),
    /// Records whose destination account is the given one.
    To(String),
    /// Records made on the given UTC day.
    Day(u64),
}

/// Whether record `t` is selected by `q`.
pub open spec fn selects(q: Selector, t: Transaction) -> bool {
    match q {
        Selector::From(a) => t.from_account@ == a@,
        Selector::To(a) => t.to_account@ == a@,
        Selector::Day(d) => day_of(t.transaction_time as int) == d,
    }
}

/// Whether account `a` is the source or the destination of record `t`.
pub open spec fn involves(t: Transaction, a: Seq<char>) -> bool {
    t.from_account@ == a || t.to_account@ == a
}

/// No record of `s` is newer than the one before it.
pub open spec fn newest_first(s: Seq<Transaction>) -> bool {
    forall|i: int, j: int| 0 <= i < j < s.len() ==> #[trigger] s[i].transaction_time >= #[trigger] s[j].transaction_time
}

impl TransactionService {
    fn selected(q: &Selector, t: &Transaction) -> (r: bool)
        ensures
            r == selects(*q, *t),
    {
        match q {
            Selector::From(a) => str_eq(t.from_account.as_str(), a.as_str()),
            Selector::To(a) => str_eq(t.to_account.as_str(), a.as_str()),
            Selector::Day(d) => t.transaction_time / MILLIS_PER_DAY == *d,
        }
    }

    /// The records that `q` selects, in the order they were made.
    pub fn select(&self, q: &Selector) -> (r: Vec<Transaction>)
        ensures
            r@ == self@.filter(|t: Transaction| selects(*q, t)),
    {
        let ghost pred = |t: Transaction| selects(*q, t);
        let mut r: Vec<Transaction> = Vec::new();
        let mut i: usize = 0;
        proof {
            reveal(Seq::filter);
            assert(self.records@.subrange(0, 0).filter(pred) =~= r@);
        }
        while i < self.records.len()
            invariant
                i <= self.records@.len(),
                pred == (|t: Transaction| selects(*q, t)),
                r@ == self.records@.subrange(0, i as int).filter(pred),
            decreases self.records@.len() - i,
        {
            let ghost prev = r@;
            let hit = Self::selected(q, &self.records[i]);
            if hit {
                r.push(self.records[i].copy());
            }
            proof {
                reveal(Seq::filter);
                let pre = self.records@.subrange(0, i as int);
                let s1 = self.records@.subrange(0, i + 1);
                assert(s1.drop_last() == pre);
                assert(s1.last() == self.records@[i as int]);
                assert(hit == pred(self.records@[i as int]));
                if hit {
                    assert(s1.filter(pred) == pre.filter(pred).push(self.records@[i as int]));
                } else {
                    assert(s1.filter(pred) == pre.filter(pred));
                }
                assert(r@ == s1.filter(pred));
            }
            i = i + 1;
        }
        proof {
            assert(self.records@.subrange(0, i as int) == self.records@);
        }
        r
    }

    /// The records whose source is `account_number`.
    pub fn get_transactions_by_from_account(&self, account_number: &str) -> (r: Vec<Transaction>)
        ensures
            r@ == self@.filter(|t: Transaction| t.from_account@ == account_number@),
    {
        let q = Selector::From(account_number.to_string());
        let r = self.select(&q);
        proof {
            assert(self@.filter(|t: Transaction| selects(q, t))
                == self@.filter(|t: Transaction| t.from_account@ == account_number@)) by {
                assert((|t: Transaction| selects(q, t)) =~= (|t: Transaction| t.from_account@ == account_number@));
            }
        }
        r
    }

    /// The records whose destination is `account_number`.
    pub fn get_transactions_by_to_account(&self, account_number: &str) -> (r: Vec<Transaction>)
        ensures
            r@ == self@.filter(|t: Transaction| t.to_account@ == account_number@),
    {
        let q = Selector::To(account_number.to_string());
        let r = self.select(&q);
        proof {
            assert(self@.filter(|t: Transaction| selects(q, t))
                == self@.filter(|t: Transaction| t.to_account@ == account_number@)) by {
                assert((|t: Transaction| selects(q, t)) =~= (|t: Transaction| t.to_account@ == account_number@));
            }
        }
        r
    }

    /// The records made on the UTC calendar day of the instant written in
    /// `time` (RFC 3339); `InvalidRequest` where `time` cannot be read.
    pub fn get_transaction_by_transaction_time(&self, time: &str) -> (r: Result<Vec<Transaction>, TransactionError>)
        ensures
            match rfc3339_millis(time@) {
                None => r matches Err(TransactionError::InvalidRequest(_)),
                Some(ms) => r matches Ok(v) && v@ == self@.filter(
                    |t: Transaction| day_of(t.transaction_time as int) == day_of(ms as int)),
            },
    {
        let ms = match parse_rfc3339(time) {
            None => return Err(TransactionError::InvalidRequest("Invalid timestamp format".to_string())),
            Some(ms) => ms,
        };
        let ghost pred = |t: Transaction| day_of(t.transaction_time as int) == day_of(ms as int);
        if ms < 0 {
            proof {
                assert(day_of(ms as int) < 0);
                assert forall|i: int| 0 <= i < self@.len() implies !pred(self@[i]) by {
                    assert(day_of(self@[i].transaction_time as int) >= 0);
                }
                self@.lemma_all_neg_filter_empty(pred);
                assert(self@.all(|x: Transaction| !pred(x)));
            }
            return Ok(Vec::new());
        }
        let q = Selector::Day(ms as u64 / MILLIS_PER_DAY);
        let r = self.select(&q);
        proof {
            assert((|t: Transaction| selects(q, t)) =~= pred);
        }
        Ok(r)
    }

    /// The records in which `account_number` is the source or the
    /// destination, each once, newest first (records made at the same instant
    /// keep the order in which they were made).
    pub fn get_transactions_by_account_id(&self, account_number: &str) -> (r: Vec<Transaction>)
        ensures
            newest_first(r@),
            r@.to_multiset() == self@.filter(|t: Transaction| involves(t, account_number@)).to_multiset(),
    {
        let ghost pred = |t: Transaction| involves(t, account_number@);
        let mut r: Vec<Transaction> = Vec::new();
        let mut i: usize = 0;
        proof {
            reveal(Seq::filter);
            assert(self.records@.subrange(0, 0).filter(pred) =~= r@);
        }
        while i < self.records.len()
            invariant
                i <= self.records@.len(),
                pred == (|t: Transaction| involves(t, account_number@)),
                newest_first(r@),
                r@.to_multiset() == self.records@.subrange(0, i as int).filter(pred).to_multiset(),
            decreases self.records@.len() - i,
        {
            let ghost prev = r@;
            let t = &self.records[i];
            let hit = str_eq(t.from_account.as_str(), account_number) || str_eq(t.to_account.as_str(), account_number);
            if hit {
                let mut p: usize = 0;
                while p < r.len() && r[p].transaction_time >= t.transaction_time
                    invariant
                        p <= r@.len(),
                        forall|j: int| 0 <= j < p ==> r@[j].transaction_time >= t.transaction_time,
                    decreases r@.len() - p,
                {
                    p = p + 1;
                }
                let ghost before = r@;
                r.insert(p, t.copy());
                proof {
                    broadcast use vstd::seq_lib::to_multiset_build, vstd::seq_lib::to_multiset_insert;
                    assert(r@ == before.insert(p as int, *t));
                    assert forall|x: int, y: int| 0 <= x < y < r@.len() implies
                        #[trigger] r@[x].transaction_time >= #[trigger] r@[y].transaction_time by {
                        if y < p {
                        } else if y == p {
                        } else if x < p {
                            if p < before.len() {
                                assert(before[p as int].transaction_time < t.transaction_time);
                            }
                        } else if x == p {
                            assert(before[p as int].transaction_time < t.transaction_time);
                            assert(before[p as int].transaction_time >= before[y - 1].transaction_time || y - 1 == p);
                        }
                    }
                    to_multiset_insert(before, p as int, *t);
                }
            }
            proof {
                reveal(Seq::filter);
                let pre = self.records@.subrange(0, i as int);
                let s1 = self.records@.subrange(0, i + 1);
                assert(s1.drop_last() == pre);
                assert(s1.last() == self.records@[i as int]);
                assert(hit == pred(self.records@[i as int]));
                if hit {
                    assert(s1.filter(pred) == pre.filter(pred).push(self.records@[i as int]));
                    to_multiset_build(pre.filter(pred), self.records@[i as int]);
                } else {
                    assert(s1.filter(pred) == pre.filter(pred));
                }
                assert(r@.to_multiset() == s1.filter(pred).to_multiset());
            }
            i = i + 1;
        }
        proof {
            assert(self.records@.subrange(0, i as int) == self.records@);
        }
        r
    }
}

impl TransactionService {
    /// Transfers `request.amount` in `request.currency_type` from
    /// `request.from_account` to `request.to_account` at `now`: a replayed
    /// reference is answered from its record; an invalid amount or currency
    /// is refused before any record exists; otherwise a pending record is
    /// opened and settled by the saga: debit the source, credit the
    /// destination, and reverse the debit where the credit is refused.
    pub fn internal_transfer(&mut self, ledger: &mut AccountService, request: &TransactionRequest, now: u64)
        -> (r: Result<Transaction, TransactionError>)
        requires
            old(self).wf(),
            old(ledger).wf(),
        ensures
            final(self).wf(),
            final(ledger).wf(),
            submitted(old(self)@, final(self)@, old(ledger)@, final(ledger)@, *request,
                TransactionType::Internal, now, r),
    {
        self.submit(ledger, request, TransactionType::Internal, now)
    }

    /// Deposits `request.amount` in `request.currency_type` into
    /// `request.to_account` at `now`, under the same rules as a transfer but
    /// with no debit: a refused credit fails the record and moves no funds.
    pub fn process_deposit(&mut self, ledger: &mut AccountService, request: &TransactionRequest, now: u64)
        -> (r: Result<Transaction, TransactionError>)
        requires
            old(self).wf(),
            old(ledger).wf(),
        ensures
            final(self).wf(),
            final(ledger).wf(),
            submitted(old(self)@, final(self)@, old(ledger)@, final(ledger)@, *request,
                TransactionType::Deposit, now, r),
    {
        self.submit(ledger, request, TransactionType::Deposit, now)
    }

    /// The record with the given reference; `TransactionNotFound` where
    /// there is none.
    pub fn get_transaction_by_reference(&self, reference: &str) -> (r: Result<Transaction, TransactionError>)
        requires
            self.wf(),
        ensures
            !has_reference(self@, reference@) ==> (r matches Err(TransactionError::TransactionNotFound(_))),
            has_reference(self@, reference@) ==> forall|j: int| 0 <= j < self@.len()
                && #[trigger] self@[j].transaction_reference@ == reference@ ==> answers_with(r, self@[j]),
    {
        match self.find(reference) {
            Some(i) => {
                proof {
                    assert forall|j: int| 0 <= j < self@.len()
                        && #[trigger] self@[j].transaction_reference@ == reference@ implies answers_with(
                        Ok::<Transaction, TransactionError>(self@[i as int]), self@[j]) by {
                        assert(self.records@[j].transaction_reference@ == self.records@[i as int].transaction_reference@);
                    }
                }
                Ok(self.records[i].copy())
            },
            None => Err(TransactionError::TransactionNotFound(reference.to_string())),
        }
    }
}

/// The answer `r` is the record `rec`.
pub open spec fn answers_with(r: Result<Transaction, TransactionError>, rec: Transaction) -> bool {
    r == Ok::<Transaction, TransactionError>(rec)
}

/// What a transfer or deposit request of kind `kind` at `now` does, from
/// records `s` and ledger `l` to records `s2` and ledger `l2`, answering `r`.
/// A replayed reference is answered from its record with nothing changed. A
/// request whose amount is unreadable or not positive is refused with
/// `InvalidAmount`, then one with an unknown currency with
/// `InvalidCurrency`, in both cases with nothing changed. A request without
/// a reference gets a fresh one; where the fresh one is already on record it
/// is refused with `Internal`. Otherwise a
/// record is opened and the saga settles it: the answer is the completed
/// record or the failure, and the record keeps its final status.
pub open spec fn submitted(
    s: Seq<Transaction>,
    s2: Seq<Transaction>,
    l: Map<Seq<char>, Account>,
    l2: Map<Seq<char>, Account>,
    request: TransactionRequest,
    kind: TransactionType,
    now: u64,
    r: Result<Transaction, TransactionError>,
) -> bool {
    if is_replay(s, request) {
        &&& s2 == s
        &&& l2 == l
        &&& forall|j: int| 0 <= j < s.len() && s[j].transaction_reference@ == request.reference->0@
            ==> answers_with(r, s[j])
    } else {
        match amount_of_text(request.amount@) {
            None => (r matches Err(TransactionError::InvalidAmount(_))) && s2 == s && l2 == l,
            Some(a) => if a.value() == 0 {
                (r matches Err(TransactionError::InvalidAmount(_))) && s2 == s && l2 == l
            } else {
                match currency_named(request.currency_type@) {
                    None => (r matches Err(TransactionError::InvalidCurrency(_))) && s2 == s && l2 == l,
                    Some(c) => {
                        ||| (r matches Err(TransactionError::Internal(_))) && request.reference is None && s2 == s && l2 == l
                            && exists|j: int| 0 <= j < s.len() && (#[trigger] s[j]).transaction_reference@.len() == 36
                        ||| {
                            let end = s2.last();
                            let start = with_record_status(end, TransactionStatus::Pending);
                            &&& s2.len() == s.len() + 1
                            &&& s2.drop_last() == s
                            &&& !has_reference(s, end.transaction_reference@)
                            &&& opens_record(start, request, kind, a, c, now)
                            &&& exists|failure: Option<TransactionError>| saga_settled(l, l2, start, end, failure, now)
                                && match r {
                                    Ok(t) => t == end && failure is None,
                                    Err(e) => failure == Some(e),
                                }
                        }
                    },
                }
            }
        }
    }
}

} // verus!
