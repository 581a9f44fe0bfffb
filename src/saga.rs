//! The transfer saga: the decisions of a transfer or a deposit, one ledger
//! call at a time. The debit comes first; a credit that fails after a
//! successful debit is followed by a reversing credit to the source; only
//! when that reversal fails too is the record left pending for an operator.
//! Whoever drives the saga performs each call and hands back its outcome.

use vstd::prelude::*;
use crate::errors::TransactionError;
use crate::models::{CurrencyType, TransactionStatus, TransactionType};
use crate::money::Amount;
use crate::transaction::Transaction;

verus! {

/// Where a saga stands.
#[derive(Clone, Copy, Debug, PartialEq, Eq, Structural)]
pub enum SagaPhase {
    /// Waiting for the debit of the source account.
    Debiting,
    /// Waiting for the credit of the destination account.
    Crediting,
    /// Waiting for the reversing credit of the source account.
    Compensating,
    /// Nothing is left to do.
    Finished,
}

/// The next thing the driver of a saga must do.
#[derive(Debug)]
pub enum SagaAction {
    Debit { account: String, amount: Amount, currency: CurrencyType },
    Credit { account: String, amount: Amount, currency: CurrencyType },
    /// The saga is over; `None` means the transfer completed.
    Finish(Option<TransactionError>),
}

/// A transfer or deposit in progress, with its record.
#[derive(Debug)]
pub struct TransferSaga {
    pub record: Transaction,
    pub phase: SagaPhase,
    /// The failure of the credit that a running compensation answers.
    pub cause: Option<TransactionError>,
}

/// A call to credit `account` with the record's amount.
pub open spec fn credit_call(rec: Transaction, account: String) -> SagaAction {
    SagaAction::Credit { account, amount: rec.amount, currency: rec.currency_type }
}

/// A call to debit `account` with the record's amount.
pub open spec fn debit_call(rec: Transaction, account: String) -> SagaAction {
    SagaAction::Debit { account, amount: rec.amount, currency: rec.currency_type }
}

/// `rec` with its status set to `st`.
pub open spec fn with_record_status(rec: Transaction, st: TransactionStatus) -> Transaction {
    Transaction { status: st, ..rec }
}

impl TransferSaga {
    /// A saga is over once it is finished.
    pub open spec fn is_finished(&self) -> bool {
        self.phase == SagaPhase::Finished
    }

    /// Starts the saga of a pending internal transfer (with a debit of the
    /// source) or deposit (with a credit of the destination).
    pub fn start(record: Transaction) -> (r: (TransferSaga, SagaAction))
        requires
            record.status == TransactionStatus::Pending,
            record.transaction_type == TransactionType::Internal
                || record.transaction_type == TransactionType::Deposit,
        ensures
            r.0.record == record,
            r.0.cause is None,
            record.transaction_type == TransactionType::Internal ==> r.0.phase == SagaPhase::Debiting
                && r.1 == debit_call(record, record.from_account),
            record.transaction_type == TransactionType::Deposit ==> r.0.phase == SagaPhase::Crediting
                && r.1 == credit_call(record, record.to_account),
    {
        let amount = record.amount;
        let currency = record.currency_type;
        if record.transaction_type == TransactionType::Internal {
            let account = record.from_account.clone();
            (TransferSaga { record, phase: SagaPhase::Debiting, cause: None },
             SagaAction::Debit { account, amount, currency })
        } else {
            let account = record.to_account.clone();
            (TransferSaga { record, phase: SagaPhase::Crediting, cause: None },
             SagaAction::Credit { account, amount, currency })
        }
    }

    /// Takes the outcome of the call last asked for and decides what follows.
    pub fn advance(&mut self, outcome: Result<(), TransactionError>) -> (r: SagaAction)
        requires
            !old(self).is_finished(),
            old(self).phase == SagaPhase::Debiting ==> old(self).record.transaction_type == TransactionType::Internal,
            old(self).phase == SagaPhase::Compensating ==> old(self).cause is Some,
        ensures
            ({
                let rec = old(self).record;
                match old(self).phase {
                    SagaPhase::Debiting => match outcome {
                        Ok(_) => final(self).phase == SagaPhase::Crediting && final(self).record == rec
                            && r == credit_call(rec, rec.to_account),
                        Err(e) => final(self).phase == SagaPhase::Finished
                            && final(self).record == with_record_status(rec, TransactionStatus::Failed)
                            && r == SagaAction::Finish(Some(e)),
                    },
                    SagaPhase::Crediting => match outcome {
                        Ok(_) => final(self).phase == SagaPhase::Finished
                            && final(self).record == with_record_status(rec, TransactionStatus::Completed)
                            && r == SagaAction::Finish(None),
                        Err(e) => if rec.transaction_type == TransactionType::Internal {
                            final(self).phase == SagaPhase::Compensating && final(self).record == rec
                                && final(self).cause == Some(e) && r == credit_call(rec, rec.from_account)
                        } else {
                            final(self).phase == SagaPhase::Finished
                                && final(self).record == with_record_status(rec, TransactionStatus::Failed)
                                && r == SagaAction::Finish(Some(e))
                        },
                    },
                    _ => match outcome {
                        Ok(_) => final(self).phase == SagaPhase::Finished
                            && final(self).record == with_record_status(rec, TransactionStatus::Failed)
                            && r == SagaAction::Finish(old(self).cause),
                        Err(_) => final(self).phase == SagaPhase::Finished && final(self).record == rec
                            && r matches SagaAction::Finish(Some(TransactionError::CompensationFailed { .. })),
                    },
                }
            }),
            final(self).phase == SagaPhase::Compensating ==> final(self).cause is Some,
    {
        match self.phase {
            SagaPhase::Debiting => match outcome {
                Ok(_) => {
                    self.phase = SagaPhase::Crediting;
                    SagaAction::Credit {
                        account: self.record.to_account.clone(),
                        amount: self.record.amount,
                        currency: self.record.currency_type,
                    }
                },
                Err(e) => {
                    self.phase = SagaPhase::Finished;
                    self.record.status = TransactionStatus::Failed;
                    SagaAction::Finish(Some(e))
                },
            },
            SagaPhase::Crediting => match outcome {
                Ok(_) => {
                    self.phase = SagaPhase::Finished;
                    self.record.status = TransactionStatus::Completed;
                    SagaAction::Finish(None)
                },
                Err(e) => {
                    if self.record.transaction_type == TransactionType::Internal {
                        self.phase = SagaPhase::Compensating;
                        self.cause = Some(e);
                        SagaAction::Credit {
                            account: self.record.from_account.clone(),
                            amount: self.record.amount,
                            currency: self.record.currency_type,
                        }
                    } else {
                        self.phase = SagaPhase::Finished;
                        self.record.status = TransactionStatus::Failed;
                        SagaAction::Finish(Some(e))
                    }
                },
            },
            _ => match outcome {
                Ok(_) => {
                    self.phase = SagaPhase::Finished;
                    self.record.status = TransactionStatus::Failed;
                    let cause = self.cause.take();
                    SagaAction::Finish(cause)
                },
                Err(_) => {
                    self.phase = SagaPhase::Finished;
                    SagaAction::Finish(Some(TransactionError::CompensationFailed {
                        reference: self.record.transaction_reference.clone(),
                        account: self.record.from_account.clone(),
                        amount: self.record.amount,
                    }))
                },
            },
        }
    }
}

} // verus!
