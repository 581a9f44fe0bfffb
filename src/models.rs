//! The enumerations of the data model: account type, status and currency,
//! transaction status and type.

use vstd::prelude::*;
use crate::text::{str_eq, upper_of, uppercase};

verus! {

/// The kind of an account.
#[derive(Clone, Copy, Debug, PartialEq, Eq, Structural)]
pub enum AccountType {
    Checking,
    Savings,
    Internal,
}

/// The two-digit code of an account type inside an account number.
pub open spec fn type_code(t: AccountType) -> Seq<char> {
    match t {
        AccountType::Savings => seq!['0', '2'],
        AccountType::Checking => seq!['0', '4'],
        AccountType::Internal => seq!['0', '5'],
    }
}


/// The upper-case name of an account type.
pub open spec fn account_type_name(t: AccountType) -> Seq<char> {
    match t {
        AccountType::Checking => "CHECKING"@,
        AccountType::Savings => "SAVINGS"@,
        AccountType::Internal => "INTERNAL"@,
    }
}

/// The account type whose name is `s`, if any.
pub open spec fn type_named(s: Seq<char>) -> Option<AccountType> {
    if s == "CHECKING"@ {
        Some(AccountType::Checking)
    } else if s == "SAVINGS"@ {
        Some(AccountType::Savings)
    } else if s == "INTERNAL"@ {
        Some(AccountType::Internal)
    } else {
        None
    }
}

impl AccountType {
    /// The upper-case name of this type.
    pub fn to_string(&self) -> (r: String)
        ensures
            r@ == account_type_name(*self),
    {
        proof {
            reveal_strlit("CHECKING");
            reveal_strlit("SAVINGS");
            reveal_strlit("INTERNAL");
        }
        match self {
            AccountType::Checking => "CHECKING".to_string(),
            AccountType::Savings => "SAVINGS".to_string(),
            AccountType::Internal => "INTERNAL".to_string(),
        }
    }

    /// Reads an account type from its name, in any letter case.
    pub fn from_str(s: &str) -> (r: Result<AccountType, String>)
        ensures
            match type_named(upper_of(s@)) {
                Some(t) => r == Ok::<AccountType, String>(t),
                None => r.is_err(),
            },
    {
        let up = uppercase(s);
        if str_eq(up.as_str(), "CHECKING") {
            Ok(AccountType::Checking)
        } else if str_eq(up.as_str(), "SAVINGS") {
            Ok(AccountType::Savings)
        } else if str_eq(up.as_str(), "INTERNAL") {
            Ok(AccountType::Internal)
        } else {
            Err("Invalid account type".to_string())
        }
    }
}

/// The lifecycle status of an account.
#[derive(Clone, Copy, Debug, PartialEq, Eq, Structural)]
pub enum AccountStatus {
    Active,
    Inactive,
    Frozen,
    Closed,
    Dormant,
}

/// The currencies an account or a transfer can be held in.
#[derive(Clone, Copy, Debug, PartialEq, Eq, Structural)]
pub enum CurrencyType {
    Kes,
    Usd,
    Eur,
    Gbp,
}

/// The currency whose three-letter code is `s`, if any.
pub open spec fn currency_named(s: Seq<char>) -> Option<CurrencyType> {
    if s == "KES"@ {
        Some(CurrencyType::Kes)
    } else if s == "USD"@ {
        Some(CurrencyType::Usd)
    } else if s == "EUR"@ {
        Some(CurrencyType::Eur)
    } else if s == "GBP"@ {
        Some(CurrencyType::Gbp)
    } else {
        None
    }
}

impl CurrencyType {
    /// The currency with the given upper-case code, if the code is known.
    pub fn from_code(s: &str) -> (r: Option<CurrencyType>)
        ensures
            r == currency_named(s@),
    {
        if str_eq(s, "KES") {
            Some(CurrencyType::Kes)
        } else if str_eq(s, "USD") {
            Some(CurrencyType::Usd)
        } else if str_eq(s, "EUR") {
            Some(CurrencyType::Eur)
        } else if str_eq(s, "GBP") {
            Some(CurrencyType::Gbp)
        } else {
            None
        }
    }
}

/// The status of a transaction record. `Pending` is the only state that is
/// not terminal.
#[derive(Clone, Copy, Debug, PartialEq, Eq, Structural)]
pub enum TransactionStatus {
    Pending,
    Completed,
    Failed,
    Cancelled,
}

/// The kind of a transaction record.
#[derive(Clone, Copy, Debug, PartialEq, Eq, Structural)]
pub enum TransactionType {
    Internal,
    External,
    Deposit,
    Withdrawal,
}

/// The three-letter code of a currency.
pub open spec fn currency_code(c: CurrencyType) -> Seq<char> {
    match c {
        CurrencyType::Kes => "KES"@,
        CurrencyType::Usd => "USD"@,
        CurrencyType::Eur => "EUR"@,
        CurrencyType::Gbp => "GBP"@,
    }
}

/// The name of a transaction status.
pub open spec fn status_name(s: TransactionStatus) -> Seq<char> {
    match s {
        TransactionStatus::Pending => "Pending"@,
        TransactionStatus::Completed => "Completed"@,
        TransactionStatus::Failed => "Failed"@,
        TransactionStatus::Cancelled => "Cancelled"@,
    }
}

/// The name of a transaction type.
pub open spec fn transaction_type_name(t: TransactionType) -> Seq<char> {
    match t {
        TransactionType::Internal => "Internal"@,
        TransactionType::External => "External"@,
        TransactionType::Deposit => "Deposit"@,
        TransactionType::Withdrawal => "Withdrawal"@,
    }
}

impl CurrencyType {
    /// The three-letter code of this currency.
    pub fn code(&self) -> (r: String)
        ensures
            r@ == currency_code(*self),
    {
        match self {
            CurrencyType::Kes => "KES".to_string(),
            CurrencyType::Usd => "USD".to_string(),
            CurrencyType::Eur => "EUR".to_string(),
            CurrencyType::Gbp => "GBP".to_string(),
        }
    }
}

impl TransactionStatus {
    /// The name of this status.
    pub fn name(&self) -> (r: String)
        ensures
            r@ == status_name(*self),
    {
        match self {
            TransactionStatus::Pending => "Pending".to_string(),
            TransactionStatus::Completed => "Completed".to_string(),
            TransactionStatus::Failed => "Failed".to_string(),
            TransactionStatus::Cancelled => "Cancelled".to_string(),
        }
    }
}

impl TransactionType {
    /// The name of this type.
    pub fn name(&self) -> (r: String)
        ensures
            r@ == transaction_type_name(*self),
    {
        match self {
            TransactionType::Internal => "Internal".to_string(),
            TransactionType::External => "External".to_string(),
            TransactionType::Deposit => "Deposit".to_string(),
            TransactionType::Withdrawal => "Withdrawal".to_string(),
        }
    }
}

} // verus!
