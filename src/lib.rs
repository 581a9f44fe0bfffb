//! Account ledger and transfer orchestration: balances, account numbers,
//! the two-step transfer saga and the authorisation rules around it.

pub mod account;
pub mod account_number;
pub mod account_service;
pub mod auth;
pub mod errors;
pub mod laws;
pub mod money;
pub mod models;
pub mod saga;
pub mod text;
pub mod transaction;
pub mod transaction_service;
