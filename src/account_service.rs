//! The ledger store: every account keyed by its number, with the operations
//! that create, credit, debit, freeze and close accounts. Each operation
//! either applies in full or leaves the store as it was.

use vstd::prelude::*;
use crate::account::{Account, with_balance, with_status};
use crate::account_number::is_account_number_for;
use crate::errors::AccountError;
use crate::models::{AccountStatus, AccountType, CurrencyType};
use crate::money::{
    Amount, amount_diff, amount_of_text, amount_sum, decimal_parts, diff_fits, parse_amount, parse_rate, sum_fits,
};
use crate::text::{lower_of, lowercase, str_eq};

verus! {

/// How many freshly minted numbers account creation tries before it gives up.
pub const MAX_NUMBER_ATTEMPTS: u32 = 8;

/// No two accounts of `s` share a number.
pub open spec fn numbers_unique(s: Seq<Account>) -> bool {
    forall|i: int, j: int|
        0 <= i < s.len() && 0 <= j < s.len() && #[trigger] s[i].account_number@
            == #[trigger] s[j].account_number@ ==> i == j
}

/// The accounts of `s`, keyed by number.
pub open spec fn accounts_map(s: Seq<Account>) -> Map<Seq<char>, Account> {
    Map::new(
        |k: Seq<char>| exists|i: int| 0 <= i < s.len() && s[i].account_number@ == k,
        |k: Seq<char>| s[choose|i: int| 0 <= i < s.len() && s[i].account_number@ == k],
    )
}

/// The balance of account `k` in the ledger `m`, zero where there is none.
pub open spec fn balance_of(m: Map<Seq<char>, Account>, k: Seq<char>) -> int {
    if m.contains_key(k) { m[k].current_balance.value() } else { 0 }
}

/// Whether a credit of `amount` in `currency` to `a` goes through.
pub open spec fn credit_allowed(a: Account, amount: Amount, currency: CurrencyType) -> bool {
    a.account_status == AccountStatus::Active && a.currency_type == currency
        && sum_fits(a.current_balance, amount)
}

/// Whether a debit of `amount` in `currency` from `a` goes through.
pub open spec fn debit_allowed(a: Account, amount: Amount, currency: CurrencyType) -> bool {
    a.account_status == AccountStatus::Active && a.currency_type == currency
        && a.available_balance.value() >= amount.value() && diff_fits(a.current_balance, amount)
}

proof fn lemma_map_at(s: Seq<Account>, i: int)
    requires
        numbers_unique(s),
        0 <= i < s.len(),
    ensures
        accounts_map(s).contains_key(s[i].account_number@),
        accounts_map(s)[s[i].account_number@] == s[i],
{
    let k = s[i].account_number@;
    assert(exists|j: int| 0 <= j < s.len() && s[j].account_number@ == k);
    let j = choose|j: int| 0 <= j < s.len() && s[j].account_number@ == k;
    assert(s[j].account_number@ == s[i].account_number@);
}

proof fn lemma_map_update(s: Seq<Account>, i: int, a: Account)
    requires
        numbers_unique(s),
        0 <= i < s.len(),
        a.account_number@ == s[i].account_number@,
    ensures
        numbers_unique(s.update(i, a)),
        accounts_map(s.update(i, a)) == accounts_map(s).insert(a.account_number@, a),
{
    let t = s.update(i, a);
    assert forall|x: int, y: int|
        0 <= x < t.len() && 0 <= y < t.len() && #[trigger] t[x].account_number@
            == #[trigger] t[y].account_number@ implies x == y by {
        assert(t[x].account_number@ == s[x].account_number@);
        assert(t[y].account_number@ == s[y].account_number@);
    }
    let m = accounts_map(s).insert(a.account_number@, a);
    lemma_map_at(t, i);
    assert forall|k: Seq<char>| #[trigger] accounts_map(t).contains_key(k) == m.contains_key(k) by {
        if accounts_map(t).contains_key(k) {
            let j = choose|j: int| 0 <= j < t.len() && t[j].account_number@ == k;
            assert(s[j].account_number@ == k);
        }
        if accounts_map(s).contains_key(k) {
            let j = choose|j: int| 0 <= j < s.len() && s[j].account_number@ == k;
            assert(t[j].account_number@ == k);
        }
    }
    assert forall|k: Seq<char>| #[trigger] accounts_map(t).contains_key(k) implies accounts_map(t)[k] == m[k] by {
        if k != a.account_number@ {
            let j = choose|j: int| 0 <= j < t.len() && t[j].account_number@ == k;
            assert(j != i);
            assert(s[j] == t[j]);
            lemma_map_at(s, j);
            lemma_map_at(t, j);
        }
    }
    assert(accounts_map(t) =~= m);
}

proof fn lemma_map_push(s: Seq<Account>, a: Account)
    requires
        numbers_unique(s),
        !accounts_map(s).contains_key(a.account_number@),
    ensures
        numbers_unique(s.push(a)),
        accounts_map(s.push(a)) == accounts_map(s).insert(a.account_number@, a),
{
    let t = s.push(a);
    assert forall|x: int, y: int|
        0 <= x < t.len() && 0 <= y < t.len() && #[trigger] t[x].account_number@
            == #[trigger] t[y].account_number@ implies x == y by {
        if x < s.len() && y == s.len() {
            assert(s[x].account_number@ == a.account_number@);
        }
        if y < s.len() && x == s.len() {
            assert(s[y].account_number@ == a.account_number@);
        }
    }
    let m = accounts_map(s).insert(a.account_number@, a);
    lemma_map_at(t, s.len() as int);
    assert forall|k: Seq<char>| #[trigger] accounts_map(t).contains_key(k) == m.contains_key(k) by {
        if accounts_map(t).contains_key(k) && k != a.account_number@ {
            let j = choose|j: int| 0 <= j < t.len() && t[j].account_number@ == k;
            assert(s[j].account_number@ == k);
        }
        if accounts_map(s).contains_key(k) {
            let j = choose|j: int| 0 <= j < s.len() && s[j].account_number@ == k;
            assert(t[j].account_number@ == k);
        }
    }
    assert forall|k: Seq<char>| #[trigger] accounts_map(t).contains_key(k) implies accounts_map(t)[k] == m[k] by {
        if k != a.account_number@ {
            let j = choose|j: int| 0 <= j < t.len() && t[j].account_number@ == k;
            assert(j != s.len());
            lemma_map_at(s, j);
            lemma_map_at(t, j);
        }
    }
    assert(accounts_map(t) =~= m);
}

/// The ledger store.
pub struct AccountService {
    accounts: Vec<Account>,
}

impl View for AccountService {
    type V = Map<Seq<char>, Account>;

    closed spec fn view(&self) -> Map<Seq<char>, Account> {
        accounts_map(self.accounts@)
    }
}

impl AccountService {
    /// Account numbers are unique and every account's balances are consistent.
    pub closed spec fn wf(&self) -> bool {
        &&& numbers_unique(self.accounts@)
        &&& forall|i: int| 0 <= i < self.accounts@.len() ==> (#[trigger] self.accounts@[i]).wf()
    }

    /// Every account of a well-formed ledger is well-formed and is filed
    /// under its own number.
    pub proof fn lemma_wf_values(&self)
        requires
            self.wf(),
        ensures
            forall|k: Seq<char>| #[trigger] self@.contains_key(k) ==> self@[k].wf()
                && self@[k].account_number@ == k,
    {
        assert forall|k: Seq<char>| #[trigger] self@.contains_key(k) implies self@[k].wf()
            && self@[k].account_number@ == k by {
            let j = choose|j: int| 0 <= j < self.accounts@.len() && self.accounts@[j].account_number@ == k;
            lemma_map_at(self.accounts@, j);
        }
    }

    /// An empty ledger.
    pub fn new() -> (r: AccountService)
        ensures
            r.wf(),
            r@ == Map::<Seq<char>, Account>::empty(),
    {
        let r = AccountService { accounts: Vec::new() };
        assert(r@ =~= Map::<Seq<char>, Account>::empty());
        r
    }

    /// The position of the account numbered `number`, if there is one.
    fn find(&self, number: &str) -> (r: Option<usize>)
        requires
            self.wf(),
        ensures
            match r {
                Some(i) => i < self.accounts@.len() && self.accounts@[i as int].account_number@ == number@
                    && self@.contains_key(number@) && self@[number@] == self.accounts@[i as int],
                None => !self@.contains_key(number@),
            },
    {
        let mut i: usize = 0;
        while i < self.accounts.len()
            invariant
                self.wf(),
                i <= self.accounts@.len(),
                forall|j: int| 0 <= j < i ==> self.accounts@[j].account_number@ != number@,
            decreases self.accounts@.len() - i,
        {
            if str_eq(self.accounts[i].account_number.as_str(), number) {
                proof {
                    lemma_map_at(self.accounts@, i as int);
                }
                return Some(i);
            }
            i = i + 1;
        }
        None
    }

    /// The account numbered `account_number`; `NotFound` where there is none.
    pub fn get_account_details(&self, account_number: &str) -> (r: Result<Account, AccountError>)
        requires
            self.wf(),
        ensures
            self@.contains_key(account_number@) ==> r == Ok::<Account, AccountError>(self@[account_number@]),
            !self@.contains_key(account_number@) ==> r matches Err(AccountError::NotFound(_)),
    {
        match self.find(account_number) {
            Some(i) => Ok(self.accounts[i].copy()),
            None => Err(AccountError::NotFound(account_number.to_string())),
        }
    }

    /// Replaces the account at position `i` by `a`, which keeps its number.
    fn replace(&mut self, i: usize, a: Account)
        requires
            old(self).wf(),
            i < old(self).accounts@.len(),
            a.account_number@ == old(self).accounts@[i as int].account_number@,
            a.wf(),
        ensures
            final(self).wf(),
            final(self)@ == old(self)@.insert(a.account_number@, a),
            final(self).accounts@ == old(self).accounts@.update(i as int, a),
    {
        proof {
            lemma_map_update(self.accounts@, i as int, a);
        }
        self.accounts.set(i, a);
    }

    /// Credits `amount` in `currency` to account `account_number` at `now`,
    /// adding it to both balances. Refused with `NotFound` where the account
    /// does not exist, `IneligibleAccount` unless it is active,
    /// `InvalidCurrency` where its currency differs, and `InvalidAmount` where
    /// the new balance does not fit; a refusal changes nothing.
    pub fn credit_account(&mut self, account_number: &str, amount: Amount, currency: CurrencyType, now: u64)
        -> (r: Result<Account, AccountError>)
        requires
            old(self).wf(),
            amount.wf(),
        ensures
            final(self).wf(),
            match r {
                Ok(a) => old(self)@.contains_key(account_number@)
                    && credit_allowed(old(self)@[account_number@], amount, currency)
                    && a == with_balance(old(self)@[account_number@],
                        amount_sum(old(self)@[account_number@].current_balance, amount), now)
                    && final(self)@ == old(self)@.insert(account_number@, a),
                Err(_) => final(self)@ == old(self)@,
            },
            old(self)@.contains_key(account_number@) && credit_allowed(old(self)@[account_number@], amount, currency)
                ==> r is Ok,
            !old(self)@.contains_key(account_number@) ==> r matches Err(AccountError::NotFound(_)),
            old(self)@.contains_key(account_number@) && old(self)@[account_number@].account_status
                != AccountStatus::Active ==> r matches Err(AccountError::IneligibleAccount { .. }),
            old(self)@.contains_key(account_number@) && old(self)@[account_number@].account_status
                == AccountStatus::Active && old(self)@[account_number@].currency_type != currency
                ==> r matches Err(AccountError::InvalidCurrency(_)),
            old(self)@.contains_key(account_number@) && old(self)@[account_number@].account_status
                == AccountStatus::Active && old(self)@[account_number@].currency_type == currency
                && !sum_fits(old(self)@[account_number@].current_balance, amount)
                ==> r matches Err(AccountError::InvalidAmount(_)),
    {
        match self.find(account_number) {
            None => Err(AccountError::NotFound(account_number.to_string())),
            Some(i) => {
                proof {
                    self.lemma_wf_values();
                }
                match self.accounts[i].credited(&amount, currency, now) {
                    Ok(a) => {
                        self.replace(i, a.copy());
                        Ok(a)
                    },
                    Err(e) => Err(e),
                }
            },
        }
    }

    /// Debits `amount` in `currency` from account `account_number` at `now`,
    /// taking it from both balances. Refused with `NotFound` where the account
    /// does not exist, `IneligibleAccount` unless it is active,
    /// `InvalidCurrency` where its currency differs, `InsufficientFunds`
    /// (with the balance and the amount) where less than `amount` is
    /// available, and `InvalidAmount` where the balance cannot be written at
    /// the amount's scale; a refusal changes nothing.
    pub fn debit_account(&mut self, account_number: &str, amount: Amount, currency: CurrencyType, now: u64)
        -> (r: Result<Account, AccountError>)
        requires
            old(self).wf(),
            amount.wf(),
        ensures
            final(self).wf(),
            match r {
                Ok(a) => old(self)@.contains_key(account_number@)
                    && debit_allowed(old(self)@[account_number@], amount, currency)
                    && a == with_balance(old(self)@[account_number@],
                        amount_diff(old(self)@[account_number@].current_balance, amount), now)
                    && final(self)@ == old(self)@.insert(account_number@, a),
                Err(_) => final(self)@ == old(self)@,
            },
            old(self)@.contains_key(account_number@) && debit_allowed(old(self)@[account_number@], amount, currency)
                ==> r is Ok,
            !old(self)@.contains_key(account_number@) ==> r matches Err(AccountError::NotFound(_)),
            old(self)@.contains_key(account_number@) && old(self)@[account_number@].account_status
                != AccountStatus::Active ==> r matches Err(AccountError::IneligibleAccount { .. }),
            old(self)@.contains_key(account_number@) && old(self)@[account_number@].account_status
                == AccountStatus::Active && old(self)@[account_number@].currency_type != currency
                ==> r matches Err(AccountError::InvalidCurrency(_)),
            old(self)@.contains_key(account_number@) && old(self)@[account_number@].account_status
                == AccountStatus::Active && old(self)@[account_number@].currency_type == currency
                && old(self)@[account_number@].available_balance.value() < amount.value()
                ==> (r matches Err(AccountError::InsufficientFunds { account_number: n, current_balance, requested_amount })
                    && n@ == account_number@
                    && current_balance == old(self)@[account_number@].current_balance
                    && requested_amount == amount),
            old(self)@.contains_key(account_number@) && old(self)@[account_number@].account_status
                == AccountStatus::Active && old(self)@[account_number@].currency_type == currency
                && old(self)@[account_number@].available_balance.value() >= amount.value()
                && !diff_fits(old(self)@[account_number@].current_balance, amount)
                ==> r matches Err(AccountError::InvalidAmount(_)),
    {
        match self.find(account_number) {
            None => Err(AccountError::NotFound(account_number.to_string())),
            Some(i) => {
                proof {
                    self.lemma_wf_values();
                }
                match self.accounts[i].debited(&amount, currency, now) {
                    Ok(a) => {
                        self.replace(i, a.copy());
                        Ok(a)
                    },
                    Err(e) => Err(e),
                }
            },
        }
    }

    /// Freezes or unfreezes account `account_number` at `now`: the action
    /// `freeze` (in any letter case) sets the status to `Frozen`, `unfreeze`
    /// sets it to `Active`; any other action is refused with `Internal`, a
    /// missing account with `NotFound`, and a refusal changes nothing.
    pub fn freeze_action(&mut self, action: &str, account_number: &str, reason: &str, now: u64)
        -> (r: Result<Account, AccountError>)
        requires
            old(self).wf(),
        ensures
            final(self).wf(),
            !old(self)@.contains_key(account_number@) ==> (r matches Err(AccountError::NotFound(_)))
                && final(self)@ == old(self)@,
            old(self)@.contains_key(account_number@) ==> match freeze_target(lower_of(action@)) {
                Some(st) => r == Ok::<Account, AccountError>(with_status(old(self)@[account_number@], st, now))
                    && final(self)@ == old(self)@.insert(account_number@,
                        with_status(old(self)@[account_number@], st, now)),
                None => (r matches Err(AccountError::Internal(_))) && final(self)@ == old(self)@,
            },
    {
        let i = match self.find(account_number) {
            None => return Err(AccountError::NotFound(account_number.to_string())),
            Some(i) => i,
        };
        let act = lowercase(action);
        let status = if str_eq(act.as_str(), "freeze") {
            AccountStatus::Frozen
        } else if str_eq(act.as_str(), "unfreeze") {
            AccountStatus::Active
        } else {
            return Err(AccountError::Internal("Invalid freeze action".to_string()));
        };
        proof {
            self.lemma_wf_values();
        }
        let mut a = self.accounts[i].copy();
        a.account_status = status;
        a.updated_at = if a.updated_at >= now { a.updated_at } else { now };
        self.replace(i, a.copy());
        Ok(a)
    }

    /// Closes account `account_number` at `now`, whatever its status. A
    /// non-zero balance is first swept to `receiving_account_number` by a
    /// credit under the usual rules; the closing account's balances are then
    /// set to zero, both changes together or neither. Sweeping into the
    /// closing account itself is refused with `IneligibleAccount`. The closed
    /// account is returned; a refusal changes nothing.
    pub fn delete_account(&mut self, account_number: &str, receiving_account_number: &str, now: u64)
        -> (r: Result<Account, AccountError>)
        requires
            old(self).wf(),
        ensures
            final(self).wf(),
            match r {
                Ok(c) => old(self)@.contains_key(account_number@)
                    && c == closed_account(old(self)@[account_number@], now)
                    && if old(self)@[account_number@].current_balance.value() == 0 {
                        final(self)@ == old(self)@.insert(account_number@, c)
                    } else {
                        let amt = old(self)@[account_number@].current_balance;
                        let cur = old(self)@[account_number@].currency_type;
                        let rcv = old(self)@[receiving_account_number@];
                        &&& receiving_account_number@ != account_number@
                        &&& old(self)@.contains_key(receiving_account_number@)
                        &&& credit_allowed(rcv, amt, cur)
                        &&& final(self)@ == old(self)@.insert(receiving_account_number@,
                            with_balance(rcv, amount_sum(rcv.current_balance, amt), now)).insert(account_number@, c)
                    },
                Err(_) => final(self)@ == old(self)@,
            },
            !old(self)@.contains_key(account_number@) ==> r matches Err(AccountError::NotFound(_)),
            old(self)@.contains_key(account_number@) && old(self)@[account_number@].current_balance.value() == 0
                ==> r is Ok,
            old(self)@.contains_key(account_number@) && old(self)@[account_number@].current_balance.value() != 0
                ==> sweep_refusal(old(self)@, account_number@, receiving_account_number@, r),
    {
        let i = match self.find(account_number) {
            None => return Err(AccountError::NotFound(account_number.to_string())),
            Some(i) => i,
        };
        proof {
            self.lemma_wf_values();
        }
        let a = self.accounts[i].copy();
        let zero = Amount::zero();
        let mut closed = a.copy();
        closed.account_status = AccountStatus::Closed;
        closed.current_balance = zero;
        closed.available_balance = zero;
        closed.updated_at = if a.updated_at >= now { a.updated_at } else { now };
        if !a.current_balance.is_zero() {
            if str_eq(account_number, receiving_account_number) {
                return Err(AccountError::IneligibleAccount {
                    account_number: account_number.to_string(),
                    operation: "close".to_string(),
                });
            }
            let j = match self.find(receiving_account_number) {
                None => return Err(AccountError::NotFound(receiving_account_number.to_string())),
                Some(j) => j,
            };
            let credited = match self.accounts[j].credited(&a.current_balance, a.currency_type, now) {
                Ok(c) => c,
                Err(e) => return Err(e),
            };
            self.replace(j, credited);
        }
        self.replace(i, closed.copy());
        Ok(closed)
    }
}

/// `a` closed at `now`: status `Closed`, both balances zero.
pub open spec fn closed_account(a: Account, now: u64) -> Account {
    with_status(with_balance(a, Amount { units: 0, scale: 0 }, now), AccountStatus::Closed, now)
}

/// How closing account `n` of ledger `l` into `k` answers when a non-zero
/// balance must be swept: refused with `IneligibleAccount` when `k` is `n`
/// itself, with `NotFound` when `k` does not exist, and with the credit's
/// own error (`IneligibleAccount`, `InvalidCurrency`, `InvalidAmount`) when
/// `k` cannot take the balance; otherwise done.
pub open spec fn sweep_refusal(l: Map<Seq<char>, Account>, n: Seq<char>, k: Seq<char>, r: Result<Account, AccountError>) -> bool {
    let amt = l[n].current_balance;
    if k == n {
        r matches Err(AccountError::IneligibleAccount { .. })
    } else if !l.contains_key(k) {
        r matches Err(AccountError::NotFound(_))
    } else if l[k].account_status != AccountStatus::Active {
        r matches Err(AccountError::IneligibleAccount { .. })
    } else if l[k].currency_type != l[n].currency_type {
        r matches Err(AccountError::InvalidCurrency(_))
    } else if !sum_fits(l[k].current_balance, amt) {
        r matches Err(AccountError::InvalidAmount(_))
    } else {
        r is Ok
    }
}

impl AccountService {
    /// Opens an account for `user_id` at `now` with the opening balance and
    /// interest rate read from decimal text and a freshly minted number that
    /// no account holds yet. An unreadable balance or rate, or a negative
    /// balance, is refused with `InvalidAmount`; where every minted number is
    /// already taken (which needs an account of the same type to exist) the
    /// creation is refused with `Internal`. A refusal changes nothing.
    pub fn create_account(
        &mut self,
        user_id: u128,
        account_type: AccountType,
        currency_type: CurrencyType,
        current_balance: &str,
        interest_rate: &str,
        now: u64,
    ) -> (r: Result<Account, AccountError>)
        requires
            old(self).wf(),
        ensures
            final(self).wf(),
            match r {
                Ok(a) => {
                    &&& !old(self)@.contains_key(a.account_number@)
                    &&& final(self)@ == old(self)@.insert(a.account_number@, a)
                    &&& is_account_number_for(a.account_number@, account_type)
                    &&& a.user_id == user_id
                    &&& a.account_type == account_type
                    &&& a.account_status == AccountStatus::Active
                    &&& a.currency_type == currency_type
                    &&& amount_of_text(current_balance@) == Some(a.current_balance)
                    &&& a.available_balance == a.current_balance
                    &&& decimal_parts(interest_rate@) == Some((a.interest_rate.mantissa, a.interest_rate.scale))
                    &&& a.created_at == now
                    &&& a.updated_at == now
                },
                Err(_) => final(self)@ == old(self)@,
            },
            amount_of_text(current_balance@) is None ==> r matches Err(AccountError::InvalidAmount(_)),
            decimal_parts(interest_rate@) is None ==> r matches Err(AccountError::InvalidAmount(_)),
            amount_of_text(current_balance@) is Some && decimal_parts(interest_rate@) is Some
                ==> (r is Ok || r matches Err(AccountError::Internal(_))),
            r matches Err(AccountError::Internal(_)) ==> exists|k: Seq<char>|
                old(self)@.contains_key(k) && is_account_number_for(k, account_type),
    {
        let balance = match parse_amount(current_balance) {
            Ok(b) => b,
            Err(e) => return Err(e),
        };
        let rate = match parse_rate(interest_rate) {
            Ok(x) => x,
            Err(e) => return Err(e),
        };
        let mut attempt: u32 = 0;
        while attempt < MAX_NUMBER_ATTEMPTS
            invariant
                self.wf(),
                self@ == old(self)@,
                amount_of_text(current_balance@) == Some(balance),
                balance.wf(),
                attempt > 0 ==> exists|k: Seq<char>| old(self)@.contains_key(k) && is_account_number_for(k, account_type),
                decimal_parts(interest_rate@) == Some((rate.mantissa, rate.scale)),
            decreases MAX_NUMBER_ATTEMPTS - attempt,
        {
            let a = Account::new(user_id, account_type, currency_type, balance, rate, now);
            let found = self.find(a.account_number.as_str());
            if found.is_none() {
                proof {
                    lemma_map_push(self.accounts@, a);
                }
                self.accounts.push(a.copy());
                return Ok(a);
            }
            proof {
                assert(old(self)@.contains_key(a.account_number@));
            }
            attempt = attempt + 1;
        }
        Err(AccountError::Internal("no free account number was found".to_string()))
    }

    /// The accounts that belong to `user_id`, each once.
    pub fn get_accounts_by_user_id(&self, user_id: u128) -> (r: Vec<Account>)
        requires
            self.wf(),
        ensures
            numbers_unique(r@),
            forall|a: Account| #[trigger] r@.contains(a) <==> (self@.contains_key(a.account_number@)
                && self@[a.account_number@] == a && a.user_id == user_id),
    {
        let mut r: Vec<Account> = Vec::new();
        let ghost mut idx: Seq<int> = Seq::empty();
        let mut i: usize = 0;
        while i < self.accounts.len()
            invariant
                self.wf(),
                i <= self.accounts@.len(),
                idx.len() == r@.len(),
                forall|j: int| 0 <= j < idx.len() ==> 0 <= #[trigger] idx[j] < i
                    && r@[j] == self.accounts@[idx[j]],
                forall|j: int, l: int| 0 <= j < l < idx.len() ==> #[trigger] idx[j] < #[trigger] idx[l],
                forall|j: int| 0 <= j < i && (#[trigger] self.accounts@[j]).user_id == user_id
                    ==> r@.contains(self.accounts@[j]),
                forall|j: int| 0 <= j < r@.len() ==> (#[trigger] r@[j]).user_id == user_id,
            decreases self.accounts@.len() - i,
        {
            if self.accounts[i].user_id == user_id {
                let ghost old_r = r@;
                r.push(self.accounts[i].copy());
                proof {
                    idx = idx.push(i as int);
                    assert forall|j: int| 0 <= j < i && (#[trigger] self.accounts@[j]).user_id == user_id
                        implies r@.contains(self.accounts@[j]) by {
                        assert(old_r.contains(self.accounts@[j]));
                        let w = choose|w: int| 0 <= w < old_r.len() && old_r[w] == self.accounts@[j];
                        assert(r@[w] == self.accounts@[j]);
                    }
                    assert(r@[r@.len() - 1] == self.accounts@[i as int]);
                }
            }
            i = i + 1;
        }
        proof {
            assert forall|x: int, y: int|
                0 <= x < r@.len() && 0 <= y < r@.len() && #[trigger] r@[x].account_number@
                    == #[trigger] r@[y].account_number@ implies x == y by {
                assert(self.accounts@[idx[x]].account_number@ == self.accounts@[idx[y]].account_number@);
                if x < y {
                    assert(idx[x] < idx[y]);
                } else if y < x {
                    assert(idx[y] < idx[x]);
                }
            }
            assert forall|a: Account| #[trigger] r@.contains(a) <==> (self@.contains_key(a.account_number@)
                && self@[a.account_number@] == a && a.user_id == user_id) by {
                if r@.contains(a) {
                    let w = choose|w: int| 0 <= w < r@.len() && r@[w] == a;
                    lemma_map_at(self.accounts@, idx[w]);
                }
                if self@.contains_key(a.account_number@) && self@[a.account_number@] == a && a.user_id == user_id {
                    let j = choose|j: int| 0 <= j < self.accounts@.len()
                        && self.accounts@[j].account_number@ == a.account_number@;
                    lemma_map_at(self.accounts@, j);
                }
            }
        }
        r
    }
}

/// The status an action word (already lower-cased) sets, if it is one.
pub open spec fn freeze_target(action: Seq<char>) -> Option<AccountStatus> {
    if action == "freeze"@ {
        Some(AccountStatus::Frozen)
    } else if action == "unfreeze"@ {
        Some(AccountStatus::Active)
    } else {
        None
    }
}

} // verus!
