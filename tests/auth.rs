use transfer_ledger::auth::{authorize, bearer_token, Claims, JwtValidator, RsaKey, TokenCache};
use transfer_ledger::errors::{StatusCode, TransactionError};
use transfer_ledger::models::{AccountType, CurrencyType};
use transfer_ledger::money::{parse_amount, Amount};

fn claims(scopes: &[&str]) -> Claims {
    Claims {
        exp: 0,
        client_id: "svc".to_string(),
        scope: scopes.iter().map(|s| s.to_string()).collect(),
        iat: None,
        iss: None,
    }
}

#[test]
fn scope_enforcement() {
    let read_only = claims(&["account:read"]);
    assert!(matches!(authorize(&read_only, "InternalTransfer"), Err(TransactionError::PermissionDenied(_))));
    assert!(matches!(authorize(&read_only, "ProcessDeposit"), Err(TransactionError::PermissionDenied(_))));
    assert!(authorize(&read_only, "GetTransactionByTransactionTime").is_err());
    assert!(authorize(&read_only, "GetTransactionsByFromAccount").is_ok());
    let mover = claims(&["account:read", "account:transaction"]);
    assert!(authorize(&mover, "InternalTransfer").is_ok());
    assert!(authorize(&mover, "ProcessDeposit").is_ok());
    assert!(authorize(&mover, "Unknown").is_err());
    assert!(authorize(&claims(&["account:admin"]), "GetTransactionByTransactionTime").is_ok());
    let v = JwtValidator::new("http://auth".to_string());
    assert_eq!(v.jwks_url, "http://auth/.well-known/jwks.json");
    assert!(v.has_required_scope(&["account:write".to_string()], "CreateAccount"));
    assert!(!v.has_required_scope(&[], "CreateAccount"));
    assert_eq!(
        TransactionError::PermissionDenied(String::new()).status_code(),
        StatusCode::PermissionDenied
    );
}

#[test]
fn bearer_header_parsing() {
    assert_eq!(bearer_token(Some("Bearer abc.def.ghi")).unwrap(), "abc.def.ghi");
    assert!(matches!(bearer_token(None), Err(TransactionError::Authentication(_))));
    assert!(matches!(bearer_token(Some("Basic xyz")), Err(TransactionError::Authentication(_))));
    assert!(matches!(bearer_token(Some("Bearer")), Err(TransactionError::Authentication(_))));
    assert_eq!(
        TransactionError::Authentication(String::new()).status_code(),
        StatusCode::Unauthenticated
    );
}

#[test]
fn key_lookup_by_token_header() {
    let mut v = JwtValidator::new("http://auth".to_string());
    v.add_key("k1".to_string(), RsaKey { n: "n1".to_string(), e: "AQAB".to_string() });
    v.add_key("k1".to_string(), RsaKey { n: "n2".to_string(), e: "AQAB".to_string() });
    assert_eq!(v.key_for("k1").unwrap().n, "n2");
    assert!(v.key_for("k2").is_none());
    // header {"alg":"RS256","kid":"k1"}
    let token = "eyJhbGciOiJSUzI1NiIsImtpZCI6ImsxIn0.e30.sig";
    assert_eq!(v.key_for_token(token).unwrap().n, "n2");
    // header {"alg":"RS256"}
    assert!(matches!(v.key_for_token("eyJhbGciOiJSUzI1NiJ9.e30.sig"), Err(TransactionError::Authentication(_))));
    assert!(matches!(v.key_for_token("garbage"), Err(TransactionError::Authentication(_))));
}

#[test]
fn token_cache_freshness() {
    let mut cache = TokenCache::new();
    assert!(cache.get_token(0).is_none());
    cache.store("tok".to_string(), 1_000);
    assert_eq!(cache.get_token(1_000).unwrap(), "tok");
    assert_eq!(cache.get_token(270_999).unwrap(), "tok");
    assert!(cache.get_token(271_000).is_none());
    assert!(cache.get_token(400_000).is_none());
}

#[test]
fn amounts_and_codes() {
    assert_eq!(parse_amount("40.00").unwrap(), Amount { units: 4000, scale: 2 });
    assert_eq!(parse_amount("40").unwrap(), Amount { units: 40, scale: 0 });
    assert_eq!(parse_amount("0.1").unwrap(), Amount { units: 1, scale: 1 });
    assert_eq!(parse_amount("1.234").unwrap(), Amount { units: 1234, scale: 3 });
    assert!(parse_amount("-1").is_err());
    assert!(parse_amount("").is_err());
    assert_eq!(CurrencyType::from_code("KES"), Some(CurrencyType::Kes));
    assert_eq!(CurrencyType::from_code("GBP"), Some(CurrencyType::Gbp));
    assert_eq!(CurrencyType::from_code("usd"), None);
    assert_eq!(AccountType::from_str("savings").unwrap(), AccountType::Savings);
    assert_eq!(AccountType::from_str("Checking").unwrap(), AccountType::Checking);
    assert!(AccountType::from_str("loan").is_err());
    assert_eq!(AccountType::Internal.to_string(), "INTERNAL");
}

#[test]
fn outbound_header_round_trips() {
    let h = transfer_ledger::auth::bearer_header("tok.en");
    assert_eq!(h, "Bearer tok.en");
    assert_eq!(bearer_token(Some(&h)).unwrap(), "tok.en");
}

#[test]
fn basic_credentials_header() {
    assert_eq!(transfer_ledger::auth::basic_authorization("id", "secret"), "Basic aWQ6c2VjcmV0");
}
