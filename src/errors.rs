//! The error taxonomy of the ledger and of the transfer service, and the
//! caller-facing category each error maps to.

use vstd::prelude::*;
use crate::money::Amount;

verus! {

/// Why a ledger operation was refused.
#[derive(Clone, Debug, PartialEq, Eq)]
pub enum AccountError {
    NotFound(String),
    InsufficientFunds { account_number: String, current_balance: Amount, requested_amount: Amount },
    IneligibleAccount { account_number: String, operation: String },
    InvalidAmount(String),
    InvalidCurrency(String),
    Internal(String),
}

/// Why a transfer, a deposit or a query was refused.
#[derive(Clone, Debug, PartialEq, Eq)]
pub enum TransactionError {
    Storage(String),
    AccountNotFound(String),
    InsufficientFunds { account: String, balance: Amount, amount: Amount },
    IneligibleAccount { account: String, reason: String },
    TransactionNotFound(String),
    InvalidCurrency(String),
    Encryption(String),
    Authentication(String),
    PermissionDenied(String),
    InvalidAmount(String),
    /// A request field that cannot be read, such as a malformed timestamp.
    InvalidRequest(String),
    /// The debit went through, the credit failed and the reversing credit
    /// failed too: the funds wait for an operator to reconcile them.
    CompensationFailed { reference: String, account: String, amount: Amount },
    Internal(String),
}

/// The caller-facing category of an error, as the remote interface reports it.
#[derive(Clone, Copy, Debug, PartialEq, Eq, Structural)]
pub enum StatusCode {
    NotFound,
    FailedPrecondition,
    InvalidArgument,
    Unauthenticated,
    PermissionDenied,
    DataLoss,
    Internal,
}

/// The category each transfer-service error is reported under.
pub open spec fn transaction_status_code(e: TransactionError) -> StatusCode {
    match e {
        TransactionError::Storage(_) => StatusCode::Internal,
        TransactionError::AccountNotFound(_) => StatusCode::NotFound,
        TransactionError::InsufficientFunds { .. } => StatusCode::FailedPrecondition,
        TransactionError::IneligibleAccount { .. } => StatusCode::FailedPrecondition,
        TransactionError::TransactionNotFound(_) => StatusCode::NotFound,
        TransactionError::InvalidCurrency(_) => StatusCode::InvalidArgument,
        TransactionError::Encryption(_) => StatusCode::Internal,
        TransactionError::Authentication(_) => StatusCode::Unauthenticated,
        TransactionError::PermissionDenied(_) => StatusCode::PermissionDenied,
        TransactionError::InvalidAmount(_) => StatusCode::InvalidArgument,
        TransactionError::InvalidRequest(_) => StatusCode::InvalidArgument,
        TransactionError::CompensationFailed { .. } => StatusCode::DataLoss,
        TransactionError::Internal(_) => StatusCode::Internal,
    }
}

/// The category each ledger error is reported under.
pub open spec fn account_status_code(e: AccountError) -> StatusCode {
    match e {
        AccountError::NotFound(_) => StatusCode::NotFound,
        AccountError::InsufficientFunds { .. } => StatusCode::FailedPrecondition,
        AccountError::IneligibleAccount { .. } => StatusCode::FailedPrecondition,
        AccountError::InvalidAmount(_) => StatusCode::InvalidArgument,
        AccountError::InvalidCurrency(_) => StatusCode::InvalidArgument,
        AccountError::Internal(_) => StatusCode::Internal,
    }
}

impl TransactionError {
    /// The category this error is reported under.
    pub fn status_code(&self) -> (r: StatusCode)
        ensures
            r == transaction_status_code(*self),
    {
        match self {
            TransactionError::Storage(_) => StatusCode::Internal,
            TransactionError::AccountNotFound(_) => StatusCode::NotFound,
            TransactionError::InsufficientFunds { .. } => StatusCode::FailedPrecondition,
            TransactionError::IneligibleAccount { .. } => StatusCode::FailedPrecondition,
            TransactionError::TransactionNotFound(_) => StatusCode::NotFound,
            TransactionError::InvalidCurrency(_) => StatusCode::InvalidArgument,
            TransactionError::Encryption(_) => StatusCode::Internal,
            TransactionError::Authentication(_) => StatusCode::Unauthenticated,
            TransactionError::PermissionDenied(_) => StatusCode::PermissionDenied,
            TransactionError::InvalidAmount(_) => StatusCode::InvalidArgument,
            TransactionError::InvalidRequest(_) => StatusCode::InvalidArgument,
            TransactionError::CompensationFailed { .. } => StatusCode::DataLoss,
            TransactionError::Internal(_) => StatusCode::Internal,
        }
    }
}

impl AccountError {
    /// The category this error is reported under.
    pub fn status_code(&self) -> (r: StatusCode)
        ensures
            r == account_status_code(*self),
    {
        match self {
            AccountError::NotFound(_) => StatusCode::NotFound,
            AccountError::InsufficientFunds { .. } => StatusCode::FailedPrecondition,
            AccountError::IneligibleAccount { .. } => StatusCode::FailedPrecondition,
            AccountError::InvalidAmount(_) => StatusCode::InvalidArgument,
            AccountError::InvalidCurrency(_) => StatusCode::InvalidArgument,
            AccountError::Internal(_) => StatusCode::Internal,
        }
    }

    /// The transfer-service error that a ledger error becomes when it is met
    /// during a transfer.
    pub fn into_transaction_error(self) -> (r: TransactionError)
        ensures
            r == ledger_error_as_transaction(self),
    {
        match self {
            AccountError::NotFound(m) => TransactionError::AccountNotFound(m),
            AccountError::InsufficientFunds { account_number, current_balance, requested_amount } => {
                TransactionError::InsufficientFunds {
                    account: account_number,
                    balance: current_balance,
                    amount: requested_amount,
                }
            },
            AccountError::IneligibleAccount { account_number, operation } => {
                TransactionError::IneligibleAccount { account: account_number, reason: operation }
            },
            AccountError::InvalidAmount(m) => TransactionError::InvalidAmount(m),
            AccountError::InvalidCurrency(m) => TransactionError::InvalidCurrency(m),
            AccountError::Internal(m) => TransactionError::Internal(m),
        }
    }
}

/// How a ledger error reads as a transfer-service error.
pub open spec fn ledger_error_as_transaction(e: AccountError) -> TransactionError {
    match e {
        AccountError::NotFound(m) => TransactionError::AccountNotFound(m),
        AccountError::InsufficientFunds { account_number, current_balance, requested_amount } => {
            TransactionError::InsufficientFunds {
                account: account_number,
                balance: current_balance,
                amount: requested_amount,
            }
        },
        AccountError::IneligibleAccount { account_number, operation } => {
            TransactionError::IneligibleAccount { account: account_number, reason: operation }
        },
        AccountError::InvalidAmount(m) => TransactionError::InvalidAmount(m),
        AccountError::InvalidCurrency(m) => TransactionError::InvalidCurrency(m),
        AccountError::Internal(m) => TransactionError::Internal(m),
    }
}

} // verus!
