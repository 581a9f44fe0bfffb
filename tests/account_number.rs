use transfer_ledger::account_number::AccountNumberGenerator;
use transfer_ledger::models::AccountType;

fn luhn_valid(n: &str) -> bool {
    let mut sum = 0u32;
    for (i, c) in n.chars().rev().enumerate() {
        let mut d = c.to_digit(10).unwrap();
        if i % 2 == 1 {
            d *= 2;
            if d > 9 {
                d -= 9;
            }
        }
        sum += d;
    }
    sum % 10 == 0
}

#[test]
fn test_account_number_generation() {
    let account_number = AccountNumberGenerator::generate(&AccountType::Savings);
    assert_eq!(account_number.len(), 9);
    assert!(account_number.starts_with("00"));
    assert!(account_number[2..4].eq("02"));
}

#[test]
fn test_luhn_checksum() {
    let base = "12345678";
    let checksum = AccountNumberGenerator::calculate_luhn_checksum(base);
    assert!(checksum <= 9);
}

#[test]
fn luhn_checksum_exact_values() {
    assert_eq!(AccountNumberGenerator::calculate_luhn_checksum("12345678"), 2);
    assert_eq!(AccountNumberGenerator::calculate_luhn_checksum("7992739871"), 3);
    assert_eq!(AccountNumberGenerator::calculate_luhn_checksum(""), 0);
    assert_eq!(AccountNumberGenerator::calculate_luhn_checksum("00000000"), 0);
}

#[test]
fn generated_numbers_pass_luhn_and_carry_type_code() {
    for (t, code) in [
        (AccountType::Savings, "02"),
        (AccountType::Checking, "04"),
        (AccountType::Internal, "05"),
    ] {
        for _ in 0..50 {
            let n = AccountNumberGenerator::generate(&t);
            assert_eq!(n.len(), 9);
            assert!(n.chars().all(|c| c.is_ascii_digit()));
            assert_eq!(&n[0..2], "00");
            assert_eq!(&n[2..4], code);
            assert!(luhn_valid(&n));
        }
    }
}

#[test]
fn number_from_random_part_is_exact() {
    let n = AccountNumberGenerator::from_random_part(&AccountType::Checking, 7);
    assert_eq!(n, "000400077");
    assert!(luhn_valid(&n));
    let m = AccountNumberGenerator::from_random_part(&AccountType::Savings, 9999);
    assert_eq!(&m[0..8], "00029999");
    assert!(luhn_valid(&m));
}
