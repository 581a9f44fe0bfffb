//! An account of the ledger and the single-account rules for credit and debit.

use vstd::prelude::*;
use crate::account_number::{AccountNumberGenerator, is_account_number_for};
use crate::errors::AccountError;
use crate::models::{AccountStatus, AccountType, CurrencyType};
use crate::money::{Amount, Rate, amount_diff, amount_sum, diff_fits, sum_fits};

verus! {

/// An account. Timestamps are milliseconds since the Unix epoch; balances are
/// exact decimal amounts of the account's currency.
#[derive(Debug)]
pub struct Account {
    pub account_number: String,
    pub user_id: u128,
    pub account_type: AccountType,
    pub account_status: AccountStatus,
    pub currency_type: CurrencyType,
    pub current_balance: Amount,
    pub available_balance: Amount,
    pub interest_rate: Rate,
    pub created_at: u64,
    pub updated_at: u64,
}

/// The later of two instants: a change never moves `updated_at` back.
pub open spec fn later(a: u64, b: u64) -> u64 {
    if a >= b { a } else { b }
}

/// `a` with both balances set to `balance`, touched at `now`.
pub open spec fn with_balance(a: Account, balance: Amount, now: u64) -> Account {
    Account {
        current_balance: balance,
        available_balance: balance,
        updated_at: later(a.updated_at, now),
        ..a
    }
}

/// `a` with its status set to `status`, touched at `now`.
pub open spec fn with_status(a: Account, status: AccountStatus, now: u64) -> Account {
    Account { account_status: status, updated_at: later(a.updated_at, now), ..a }
}

impl Account {
    /// No funds are held back: the available balance is the current one.
    pub open spec fn wf(&self) -> bool {
        self.available_balance == self.current_balance && self.current_balance.wf()
    }

    /// A new active account with a freshly minted number and both balances
    /// set to `current_balance`.
    pub fn new(
        user_id: u128,
        account_type: AccountType,
        currency_type: CurrencyType,
        current_balance: Amount,
        interest_rate: Rate,
        now: u64,
    ) -> (r: Account)
        requires
            current_balance.wf(),
        ensures
            is_account_number_for(r.account_number@, account_type),
            r.user_id == user_id,
            r.account_type == account_type,
            r.account_status == AccountStatus::Active,
            r.currency_type == currency_type,
            r.current_balance == current_balance,
            r.available_balance == current_balance,
            r.interest_rate == interest_rate,
            r.created_at == now,
            r.updated_at == now,
            r.wf(),
    {
        Account {
            account_number: AccountNumberGenerator::generate(&account_type),
            user_id,
            account_type,
            account_status: AccountStatus::Active,
            currency_type,
            current_balance,
            available_balance: current_balance,
            interest_rate,
            created_at: now,
            updated_at: now,
        }
    }

    /// A copy of this account.
    pub fn copy(&self) -> (r: Account)
        ensures
            r == *self,
    {
        Account {
            account_number: self.account_number.clone(),
            user_id: self.user_id,
            account_type: self.account_type,
            account_status: self.account_status,
            currency_type: self.currency_type,
            current_balance: self.current_balance,
            available_balance: self.available_balance,
            interest_rate: self.interest_rate,
            created_at: self.created_at,
            updated_at: self.updated_at,
        }
    }

    /// Whether `amount` may be debited: the account is active and has the
    /// funds available.
    pub fn can_debit(&self, amount: &Amount) -> (r: bool)
        requires
            self.wf(),
            amount.wf(),
        ensures
            r == (self.account_status == AccountStatus::Active
                && self.available_balance.value() >= amount.value()),
    {
        self.account_status == AccountStatus::Active && self.available_balance.covers(amount)
    }

    /// Whether the account may be credited: it is active.
    pub fn can_credit(&self) -> (r: bool)
        ensures
            r == (self.account_status == AccountStatus::Active),
    {
        self.account_status == AccountStatus::Active
    }

    /// This account after a credit of `amount` in `currency` at `now`. It is
    /// refused with `IneligibleAccount` unless the account is active, with
    /// `InvalidCurrency` where the currencies differ, and with `InvalidAmount`
    /// where the new balance does not fit.
    pub fn credited(&self, amount: &Amount, currency: CurrencyType, now: u64) -> (r: Result<Account, AccountError>)
        requires
            self.wf(),
            amount.wf(),
        ensures
            self.account_status != AccountStatus::Active ==> r matches Err(AccountError::IneligibleAccount { .. }),
            self.account_status == AccountStatus::Active && self.currency_type != currency
                ==> r matches Err(AccountError::InvalidCurrency(_)),
            self.account_status == AccountStatus::Active && self.currency_type == currency
                && !sum_fits(self.current_balance, *amount) ==> r matches Err(AccountError::InvalidAmount(_)),
            self.account_status == AccountStatus::Active && self.currency_type == currency
                && sum_fits(self.current_balance, *amount) ==> r == Ok::<Account, AccountError>(
                with_balance(*self, amount_sum(self.current_balance, *amount), now)),
            r matches Ok(a) ==> a.wf(),
    {
        if !self.can_credit() {
            return Err(AccountError::IneligibleAccount {
                account_number: self.account_number.clone(),
                operation: "credit".to_string(),
            });
        }
        if self.currency_type != currency {
            return Err(AccountError::InvalidCurrency("account currency differs from the requested currency".to_string()));
        }
        let balance = match self.current_balance.checked_add(amount) {
            Some(b) => b,
            None => return Err(AccountError::InvalidAmount("balance would overflow".to_string())),
        };
        let mut r = self.copy();
        r.current_balance = balance;
        r.available_balance = balance;
        r.updated_at = if self.updated_at >= now { self.updated_at } else { now };
        Ok(r)
    }

    /// This account after a debit of `amount` in `currency` at `now`. It is
    /// refused with `IneligibleAccount` unless the account is active, with
    /// `InvalidCurrency` where the currencies differ, with
    /// `InsufficientFunds` where less than `amount` is available, and with
    /// `InvalidAmount` where the balance cannot be written at the amount's
    /// scale.
    pub fn debited(&self, amount: &Amount, currency: CurrencyType, now: u64) -> (r: Result<Account, AccountError>)
        requires
            self.wf(),
            amount.wf(),
        ensures
            self.account_status != AccountStatus::Active ==> r matches Err(AccountError::IneligibleAccount { .. }),
            self.account_status == AccountStatus::Active && self.currency_type != currency
                ==> r matches Err(AccountError::InvalidCurrency(_)),
            self.account_status == AccountStatus::Active && self.currency_type == currency
                && self.available_balance.value() < amount.value() ==> (r matches Err(
                AccountError::InsufficientFunds { account_number, current_balance, requested_amount })
                    && account_number@ == self.account_number@ && current_balance == self.current_balance
                    && requested_amount == *amount),
            self.account_status == AccountStatus::Active && self.currency_type == currency
                && self.available_balance.value() >= amount.value() && !diff_fits(self.current_balance, *amount)
                ==> r matches Err(AccountError::InvalidAmount(_)),
            self.account_status == AccountStatus::Active && self.currency_type == currency
                && self.available_balance.value() >= amount.value() && diff_fits(self.current_balance, *amount)
                ==> r == Ok::<Account, AccountError>(
                with_balance(*self, amount_diff(self.current_balance, *amount), now)),
            r matches Ok(a) ==> a.wf(),
    {
        if !self.can_credit() {
            return Err(AccountError::IneligibleAccount {
                account_number: self.account_number.clone(),
                operation: "debit".to_string(),
            });
        }
        if self.currency_type != currency {
            return Err(AccountError::InvalidCurrency("account currency differs from the requested currency".to_string()));
        }
        if !self.can_debit(amount) {
            return Err(AccountError::InsufficientFunds {
                account_number: self.account_number.clone(),
                current_balance: self.current_balance,
                requested_amount: *amount,
            });
        }
        let balance = match self.current_balance.checked_sub(amount) {
            Some(b) => b,
            None => return Err(AccountError::InvalidAmount("balance cannot be written at this scale".to_string())),
        };
        let mut r = self.copy();
        r.current_balance = balance;
        r.available_balance = balance;
        r.updated_at = if self.updated_at >= now { self.updated_at } else { now };
        Ok(r)
    }
}

} // verus!
