//! Minting of account numbers: branch code, type code, four random digits
//! and a Luhn check digit.

use rand::{Rng, SeedableRng};
use vstd::prelude::*;
use vstd::arithmetic::div_mod::{lemma_add_mod_noop, lemma_mod_bound, lemma_mod_twice};
use crate::models::{AccountType, type_code};
use crate::text::{all_digits, digit_char, digit_char_spec, digit_value, is_digit, string_from_chars};

verus! {

/// The value a digit contributes to a Luhn sum, doubled or not.
pub open spec fn luhn_term(d: int, doubled: bool) -> int {
    if doubled {
        if 2 * d > 9 { 2 * d - 9 } else { 2 * d }
    } else {
        d
    }
}

/// The Luhn sum of `s`, read from its last character, which is doubled
/// exactly when `double_last` holds; the doubling alternates leftwards.
pub open spec fn luhn_sum(s: Seq<char>, double_last: bool) -> int
    decreases s.len(),
{
    if s.len() == 0 {
        0
    } else {
        luhn_term(digit_value(s.last()), double_last) + luhn_sum(s.drop_last(), !double_last)
    }
}

/// The Luhn check digit for the payload `s`.
pub open spec fn luhn_check_digit(s: Seq<char>) -> int {
    (10 - luhn_sum(s, true) % 10) % 10
}

/// A full number (payload followed by its check digit) passes the Luhn check.
pub open spec fn luhn_valid(s: Seq<char>) -> bool {
    luhn_sum(s, false) % 10 == 0
}

/// The branch code that starts every account number.
pub open spec fn branch_code() -> Seq<char> {
    seq!['0', '0']
}

/// `n` is a well-formed account number for an account of type `t`: nine
/// digits, the branch code, the type code, four digits and a Luhn check digit
/// over the first eight.
pub open spec fn is_account_number_for(n: Seq<char>, t: AccountType) -> bool {
    &&& n.len() == 9
    &&& all_digits(n)
    &&& n.subrange(0, 2) == branch_code()
    &&& n.subrange(2, 4) == type_code(t)
    &&& digit_value(n[8]) == luhn_check_digit(n.subrange(0, 8))
}

proof fn lemma_luhn_sum_nonneg(s: Seq<char>, double_last: bool)
    requires
        all_digits(s),
    ensures
        0 <= luhn_sum(s, double_last) <= 9 * s.len(),
    decreases s.len(),
{
    if s.len() > 0 {
        assert(is_digit(s[s.len() - 1]));
        assert(all_digits(s.drop_last()));
        lemma_luhn_sum_nonneg(s.drop_last(), !double_last);
    }
}

/// A payload followed by its Luhn check digit passes the Luhn check.
pub proof fn lemma_check_digit_completes(payload: Seq<char>)
    requires
        all_digits(payload),
    ensures
        luhn_valid(payload.push(digit_char_spec(luhn_check_digit(payload)))),
{
    let c = luhn_check_digit(payload);
    let s = luhn_sum(payload, true);
    lemma_luhn_sum_nonneg(payload, true);
    lemma_mod_bound(s, 10);
    let full = payload.push(digit_char_spec(c));
    assert(full.drop_last() == payload);
    assert(digit_value(digit_char_spec(c)) == c);
    assert(luhn_sum(full, false) == c + s);
    assert((c + s) % 10 == 0) by {
        lemma_add_mod_noop(c, s, 10);
        assert(c % 10 == c);
    }
}

proof fn lemma_mod_absorb(a: int, b: int)
    requires
        a >= 0,
        b >= 0,
    ensures
        (a % 10 + b) % 10 == (a + b) % 10,
{
    lemma_add_mod_noop(a, b, 10);
    lemma_add_mod_noop(a % 10, b, 10);
    lemma_mod_twice(a, 10);
}

/// Mints account numbers.
pub struct AccountNumberGenerator;

/// Relies on `rand::rngs::StdRng::from_entropy` and `Rng::gen_range`: a value
/// drawn from `0..bound`, which `gen_range` keeps below `bound`.
#[verifier::external_body]
fn random_below(bound: u32) -> (r: u32)
    requires
        bound > 0,
    ensures
        r < bound,
{
    let mut rng = rand::rngs::StdRng::from_entropy();
    rng.gen_range(0..bound)
}

impl AccountNumberGenerator {
    /// A fresh account number for an account of the given type, with four
    /// random digits drawn from a generator seeded by the operating system.
    pub fn generate(account_type: &AccountType) -> (r: String)
        ensures
            is_account_number_for(r@, *account_type),
    {
        let random = random_below(10000);
        Self::from_random_part(account_type, random)
    }

    /// The account number for the given type whose four middle digits are
    /// the decimal digits of `random`, padded with zeros.
    #[verifier::rlimit(40)]
    pub fn from_random_part(account_type: &AccountType, random: u32) -> (r: String)
        requires
            random < 10000,
        ensures
            is_account_number_for(r@, *account_type),
            digit_value(r@[4]) * 1000 + digit_value(r@[5]) * 100 + digit_value(r@[6]) * 10
                + digit_value(r@[7]) == random,
    {
        let mut chars: Vec<char> = Vec::new();
        chars.push('0');
        chars.push('0');
        match account_type {
            AccountType::Savings => {
                chars.push('0');
                chars.push('2');
            },
            AccountType::Checking => {
                chars.push('0');
                chars.push('4');
            },
            AccountType::Internal => {
                chars.push('0');
                chars.push('5');
            },
        }
        chars.push(digit_char(random / 1000));
        chars.push(digit_char((random / 100) % 10));
        chars.push(digit_char((random / 10) % 10));
        chars.push(digit_char(random % 10));
        let base = string_from_chars(&chars);
        let check = Self::calculate_luhn_checksum(base.as_str());
        chars.push(digit_char(check as u32));
        let r = string_from_chars(&chars);
        proof {
            assert(r@.subrange(0, 8) == base@);
            assert(r@.subrange(0, 2) == branch_code());
            assert(r@.subrange(2, 4) == type_code(*account_type));
            assert(all_digits(r@));
        }
        r
    }

    /// The Luhn check digit for a string of decimal digits: starting from
    /// the rightmost digit, every second digit is doubled (less nine when
    /// that exceeds nine), and the check digit brings the sum to a multiple
    /// of ten.
    pub fn calculate_luhn_checksum(base: &str) -> (r: u8)
        requires
            all_digits(base@),
        ensures
            r as int == luhn_check_digit(base@),
            r < 10,
    {
        let n = base.unicode_len();
        proof {
            assert(base@.subrange(0, n as int) == base@);
        }
        let mut i: usize = n;
        let mut acc: u32 = 0;
        let mut doubled = true;
        while i > 0
            invariant
                n == base@.len(),
                i <= n,
                all_digits(base@),
                acc < 10,
                (acc + luhn_sum(base@.subrange(0, i as int), doubled)) % 10
                    == luhn_sum(base@, true) % 10,
            decreases i,
        {
            let c = base.get_char(i - 1);
            proof {
                assert(is_digit(base@[i - 1]));
            }
            let d = (c as u32) - ('0' as u32);
            let term = if doubled {
                if 2 * d > 9 { 2 * d - 9 } else { 2 * d }
            } else {
                d
            };
            proof {
                let pre = base@.subrange(0, i as int);
                let rest = base@.subrange(0, i - 1);
                assert(pre.drop_last() == rest);
                assert(term == luhn_term(digit_value(pre.last()), doubled));
                assert(all_digits(rest));
                lemma_luhn_sum_nonneg(rest, !doubled);
                lemma_mod_absorb((acc + term) as int, luhn_sum(rest, !doubled));
            }
            acc = (acc + term) % 10;
            doubled = !doubled;
            i = i - 1;
        }
        proof {
            assert(base@.subrange(0, 0).len() == 0);
        }
        ((10 - acc) % 10) as u8
    }
}

} // verus!
