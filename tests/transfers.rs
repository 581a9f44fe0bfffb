use transfer_ledger::account_service::AccountService;
use transfer_ledger::errors::{AccountError, StatusCode, TransactionError};
use transfer_ledger::money::{format_amount, Amount};
use transfer_ledger::models::{AccountStatus, AccountType, CurrencyType, TransactionStatus, TransactionType};
use transfer_ledger::transaction_service::{TransactionRequest, TransactionService};

fn open(ledger: &mut AccountService, currency: CurrencyType, balance: &str) -> String {
    ledger
        .create_account(1, AccountType::Checking, currency, balance, "0.05", 1_000)
        .unwrap()
        .account_number
}

fn balance(ledger: &AccountService, n: &str) -> String {
    format_amount(ledger.get_account_details(n).unwrap().current_balance)
}

fn cents(units: u128) -> Amount {
    Amount { units, scale: 2 }
}

fn transfer(reference: Option<&str>, from: &str, to: &str, amount: &str, currency: &str) -> TransactionRequest {
    TransactionRequest {
        reference: reference.map(|r| r.to_string()),
        from_account: from.to_string(),
        to_account: to.to_string(),
        amount: amount.to_string(),
        currency_type: currency.to_string(),
        description: "rent".to_string(),
        metadata: "{}".to_string(),
    }
}

#[test]
fn concrete_transfer_scenario() {
    let mut ledger = AccountService::new();
    let mut service = TransactionService::new();
    let a = open(&mut ledger, CurrencyType::Usd, "100.00");
    let b = open(&mut ledger, CurrencyType::Usd, "0.00");

    let req = transfer(Some("ref-1"), &a, &b, "40.00", "USD");
    let first = service.internal_transfer(&mut ledger, &req, 2_000).unwrap();
    assert_eq!(first.status, TransactionStatus::Completed);
    assert_eq!(first.amount, cents(4000));
    assert_eq!(balance(&ledger, &a), "60.00");
    assert_eq!(balance(&ledger, &b), "40.00");

    let again = service.internal_transfer(&mut ledger, &req, 3_000).unwrap();
    assert_eq!(again.transaction_reference, first.transaction_reference);
    assert_eq!(again.status, TransactionStatus::Completed);
    assert_eq!(again.transaction_time, first.transaction_time);
    assert_eq!(balance(&ledger, &a), "60.00");
    assert_eq!(balance(&ledger, &b), "40.00");

    let big = transfer(Some("ref-2"), &a, &b, "1000.00", "USD");
    let err = service.internal_transfer(&mut ledger, &big, 4_000).unwrap_err();
    assert!(matches!(err, TransactionError::InsufficientFunds { amount: Amount { units: 100000, scale: 2 }, balance: Amount { units: 6000, scale: 2 }, .. }));
    assert_eq!(err.status_code(), StatusCode::FailedPrecondition);
    assert_eq!(balance(&ledger, &a), "60.00");
    assert_eq!(balance(&ledger, &b), "40.00");
    let rec = service.get_transaction_by_reference("ref-2").unwrap();
    assert_eq!(rec.status, TransactionStatus::Failed);
}

#[test]
fn replay_after_failure_returns_stored_record_without_moving_funds() {
    let mut ledger = AccountService::new();
    let mut service = TransactionService::new();
    let a = open(&mut ledger, CurrencyType::Usd, "10.00");
    let b = open(&mut ledger, CurrencyType::Usd, "0");
    let req = transfer(Some("dup"), &a, &b, "20.00", "USD");
    assert!(service.internal_transfer(&mut ledger, &req, 10).is_err());
    ledger.credit_account(&a, cents(5000), CurrencyType::Usd, 11).unwrap();
    let replay = service.internal_transfer(&mut ledger, &req, 12).unwrap();
    assert_eq!(replay.status, TransactionStatus::Failed);
    assert_eq!(balance(&ledger, &a), "60.00");
    assert_eq!(balance(&ledger, &b), "0");
    assert_eq!(service.get_transactions_by_from_account(&a).len(), 1);
}

#[test]
fn failed_credit_is_compensated() {
    let mut ledger = AccountService::new();
    let mut service = TransactionService::new();
    let a = open(&mut ledger, CurrencyType::Usd, "100.00");
    let b = open(&mut ledger, CurrencyType::Usd, "5.00");
    ledger.freeze_action("FREEZE", &b, "audit", 1_500).unwrap();
    let req = transfer(Some("c1"), &a, &b, "30.00", "USD");
    let err = service.internal_transfer(&mut ledger, &req, 2_000).unwrap_err();
    assert!(matches!(err, TransactionError::IneligibleAccount { .. }));
    assert_eq!(balance(&ledger, &a), "100.00");
    assert_eq!(format_amount(ledger.get_account_details(&a).unwrap().available_balance), "100.00");
    assert_eq!(balance(&ledger, &b), "5.00");
    assert_eq!(service.get_transaction_by_reference("c1").unwrap().status, TransactionStatus::Failed);

    let missing = transfer(Some("c2"), &a, "999999999", "30.00", "USD");
    let err = service.internal_transfer(&mut ledger, &missing, 2_100).unwrap_err();
    assert!(matches!(err, TransactionError::AccountNotFound(_)));
    assert_eq!(balance(&ledger, &a), "100.00");
}

#[test]
fn validation_happens_before_any_record() {
    let mut ledger = AccountService::new();
    let mut service = TransactionService::new();
    let a = open(&mut ledger, CurrencyType::Usd, "100.00");
    let b = open(&mut ledger, CurrencyType::Usd, "0");
    for amount in ["0", "0.000", "-5", "abc"] {
        let err = service.internal_transfer(&mut ledger, &transfer(Some("v"), &a, &b, amount, "USD"), 1).unwrap_err();
        assert!(matches!(err, TransactionError::InvalidAmount(_)), "{}", amount);
        assert_eq!(err.status_code(), StatusCode::InvalidArgument);
    }
    let err = service.internal_transfer(&mut ledger, &transfer(Some("v"), &a, &b, "1", "XYZ"), 1).unwrap_err();
    assert!(matches!(err, TransactionError::InvalidCurrency(_)));
    assert!(matches!(service.get_transaction_by_reference("v"), Err(TransactionError::TransactionNotFound(_))));
}

#[test]
fn currency_mismatch_is_refused() {
    let mut ledger = AccountService::new();
    let mut service = TransactionService::new();
    let a = open(&mut ledger, CurrencyType::Kes, "100.00");
    let b = open(&mut ledger, CurrencyType::Kes, "0");
    let err = service.internal_transfer(&mut ledger, &transfer(None, &a, &b, "1", "USD"), 1).unwrap_err();
    assert!(matches!(err, TransactionError::InvalidCurrency(_)));
    assert_eq!(balance(&ledger, &a), "100.00");
}

#[test]
fn deposits_credit_and_fail_without_compensation() {
    let mut ledger = AccountService::new();
    let mut service = TransactionService::new();
    let b = open(&mut ledger, CurrencyType::Eur, "1.50");
    let ok = service.process_deposit(&mut ledger, &transfer(None, "ignored", &b, "2.25", "EUR"), 5).unwrap();
    assert_eq!(ok.status, TransactionStatus::Completed);
    assert_eq!(ok.transaction_type, TransactionType::Deposit);
    assert_eq!(ok.from_account, "");
    assert_eq!(ok.transaction_reference.len(), 36);
    assert_eq!(balance(&ledger, &b), "3.75");
    let err = service.process_deposit(&mut ledger, &transfer(None, "", "nope", "1", "EUR"), 6).unwrap_err();
    assert!(matches!(err, TransactionError::AccountNotFound(_)));
    let err = service.process_deposit(&mut ledger, &transfer(None, "", &b, "-1", "EUR"), 6).unwrap_err();
    assert!(matches!(err, TransactionError::InvalidAmount(_)));
    assert_eq!(service.get_transactions_by_to_account(&b).len(), 1);
    assert_eq!(service.get_transactions_by_to_account("nope").len(), 1);
}

#[test]
fn listings_by_account_and_day() {
    let mut ledger = AccountService::new();
    let mut service = TransactionService::new();
    let a = open(&mut ledger, CurrencyType::Gbp, "100");
    let b = open(&mut ledger, CurrencyType::Gbp, "100");
    let c = open(&mut ledger, CurrencyType::Gbp, "100");
    let day = 86_400_000u64;
    service.internal_transfer(&mut ledger, &transfer(Some("t1"), &a, &b, "1", "GBP"), 19_000 * day + 5).unwrap();
    service.internal_transfer(&mut ledger, &transfer(Some("t2"), &b, &a, "1", "GBP"), 19_001 * day + 5).unwrap();
    service.internal_transfer(&mut ledger, &transfer(Some("t3"), &b, &c, "1", "GBP"), 19_000 * day + 9).unwrap();
    let all = service.get_transactions_by_account_id(&a);
    let refs: Vec<&str> = all.iter().map(|t| t.transaction_reference.as_str()).collect();
    assert_eq!(refs, vec!["t2", "t1"]);
    let for_b = service.get_transactions_by_account_id(&b);
    let refs: Vec<&str> = for_b.iter().map(|t| t.transaction_reference.as_str()).collect();
    assert_eq!(refs, vec!["t2", "t3", "t1"]);
    // 19000 days after the epoch is 2022-01-08.
    let on_day = service.get_transaction_by_transaction_time("2022-01-08T23:00:00Z").unwrap();
    let refs: Vec<&str> = on_day.iter().map(|t| t.transaction_reference.as_str()).collect();
    assert_eq!(refs, vec!["t1", "t3"]);
    assert!(matches!(
        service.get_transaction_by_transaction_time("yesterday"),
        Err(TransactionError::InvalidRequest(_))
    ));
    assert!(service.get_transaction_by_transaction_time("1960-01-01T00:00:00Z").unwrap().is_empty());
    assert_eq!(service.get_transactions_by_from_account(&b).len(), 2);
}

#[test]
fn ledger_operations() {
    let mut ledger = AccountService::new();
    let a = open(&mut ledger, CurrencyType::Usd, "12.34");
    let b = open(&mut ledger, CurrencyType::Usd, "0");
    let acct = ledger.get_account_details(&a).unwrap();
    assert_eq!(acct.current_balance, cents(1234));
    assert_eq!(acct.account_status, AccountStatus::Active);
    assert_eq!(acct.interest_rate.mantissa, 5);
    assert_eq!(acct.interest_rate.scale, 2);
    assert!(matches!(ledger.get_account_details("000000000"), Err(AccountError::NotFound(_))));

    assert_eq!(format_amount(ledger.credit_account(&a, cents(66), CurrencyType::Usd, 2_000).unwrap().current_balance), "13.00");
    assert!(matches!(ledger.credit_account(&a, cents(1), CurrencyType::Eur, 2_000), Err(AccountError::InvalidCurrency(_))));
    assert!(matches!(
        ledger.debit_account(&a, cents(1301), CurrencyType::Usd, 2_000),
        Err(AccountError::InsufficientFunds { current_balance: Amount { units: 1300, scale: 2 }, requested_amount: Amount { units: 1301, scale: 2 }, .. })
    ));
    assert_eq!(ledger.debit_account(&a, cents(300), CurrencyType::Usd, 2_500).unwrap().updated_at, 2_500);

    let frozen = ledger.freeze_action("freeze", &a, "fraud check", 3_000).unwrap();
    assert_eq!(frozen.account_status, AccountStatus::Frozen);
    assert!(matches!(ledger.debit_account(&a, cents(1), CurrencyType::Usd, 3_000), Err(AccountError::IneligibleAccount { .. })));
    assert!(matches!(ledger.freeze_action("thaw", &a, "", 3_000), Err(AccountError::Internal(_))));
    assert_eq!(ledger.freeze_action("Unfreeze", &a, "", 3_100).unwrap().account_status, AccountStatus::Active);

    assert!(matches!(ledger.delete_account(&a, &a, 4_000), Err(AccountError::IneligibleAccount { .. })));
    let closed = ledger.delete_account(&a, &b, 4_000).unwrap();
    assert_eq!(closed.account_status, AccountStatus::Closed);
    assert_eq!(closed.current_balance, Amount::zero());
    assert_eq!(balance(&ledger, &b), "10.00");
    assert_eq!(ledger.get_account_details(&a).unwrap().account_status, AccountStatus::Closed);

    assert!(matches!(
        ledger.create_account(1, AccountType::Savings, CurrencyType::Usd, "-1", "0", 0),
        Err(AccountError::InvalidAmount(_))
    ));
    assert!(matches!(
        ledger.create_account(1, AccountType::Savings, CurrencyType::Usd, "1", "x", 0),
        Err(AccountError::InvalidAmount(_))
    ));
    open(&mut ledger, CurrencyType::Usd, "1");
    ledger.create_account(2, AccountType::Savings, CurrencyType::Usd, "1", "0", 0).unwrap();
    assert_eq!(ledger.get_accounts_by_user_id(1).len(), 3);
    assert_eq!(ledger.get_accounts_by_user_id(2).len(), 1);
    assert_eq!(ledger.get_accounts_by_user_id(3).len(), 0);
}

#[test]
fn record_as_response() {
    let mut ledger = AccountService::new();
    let mut service = TransactionService::new();
    let a = open(&mut ledger, CurrencyType::Usd, "100.00");
    let b = open(&mut ledger, CurrencyType::Usd, "0.00");
    let t = service
        .internal_transfer(&mut ledger, &transfer(Some("resp"), &a, &b, "40.05", "USD"), 1_641_600_000_000)
        .unwrap();
    let r = t.to_response();
    assert_eq!(r.transaction_reference, "resp");
    assert_eq!(r.amount, "40.05");
    assert_eq!(r.currency_type, "USD");
    assert_eq!(r.transaction_status, "Completed");
    assert_eq!(r.transaction_type, "Internal");
    assert_eq!(r.description, "rent");
    assert_eq!(r.fee_amount, "0");
    assert_eq!(r.fee_currency, "");
    assert_eq!(r.timestamp, "2022-01-08T00:00:00+00:00");
    assert_eq!(format_amount(cents(7)), "0.07");
    assert_eq!(format_amount(Amount { units: 5, scale: 0 }), "5");
    assert_eq!(format_amount(Amount { units: 1, scale: 3 }), "0.001");
    assert_eq!(format_amount(cents(123456)), "1234.56");
}

#[test]
fn sub_cent_amounts_are_exact() {
    let mut ledger = AccountService::new();
    let mut service = TransactionService::new();
    let a = open(&mut ledger, CurrencyType::Usd, "1");
    let b = open(&mut ledger, CurrencyType::Usd, "0.5");
    let err = service.internal_transfer(&mut ledger, &transfer(None, &a, &b, "0.001", "XYZ"), 1).unwrap_err();
    assert!(matches!(err, TransactionError::InvalidCurrency(_)));
    let t = service.internal_transfer(&mut ledger, &transfer(None, &a, &b, "0.001", "USD"), 2).unwrap();
    assert_eq!(t.status, TransactionStatus::Completed);
    assert_eq!(balance(&ledger, &a), "0.999");
    assert_eq!(balance(&ledger, &b), "0.501");
    assert_eq!(t.to_response().amount, "0.001");
}

#[test]
fn frozen_account_can_be_closed() {
    let mut ledger = AccountService::new();
    let a = open(&mut ledger, CurrencyType::Usd, "25.50");
    let b = open(&mut ledger, CurrencyType::Usd, "1");
    let k = open(&mut ledger, CurrencyType::Kes, "1");
    ledger.freeze_action("freeze", &a, "dormant", 2).unwrap();
    assert!(matches!(ledger.delete_account(&a, &k, 3), Err(AccountError::InvalidCurrency(_))));
    assert!(matches!(ledger.delete_account(&a, "nobody", 3), Err(AccountError::NotFound(_))));
    assert_eq!(ledger.get_account_details(&a).unwrap().account_status, AccountStatus::Frozen);
    let closed = ledger.delete_account(&a, &b, 4).unwrap();
    assert_eq!(closed.account_status, AccountStatus::Closed);
    assert_eq!(balance(&ledger, &a), "0");
    assert_eq!(balance(&ledger, &b), "26.50");
    ledger.freeze_action("freeze", &b, "", 5).unwrap();
    let c = open(&mut ledger, CurrencyType::Usd, "2");
    assert!(matches!(ledger.delete_account(&c, &b, 6), Err(AccountError::IneligibleAccount { .. })));
}
