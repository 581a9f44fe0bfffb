//! Amounts of money: exact non-negative decimals `units / 10^scale`, with
//! up to 28 decimal places. Decimal text is read through `rust_decimal`.

use std::str::FromStr;
use vstd::prelude::*;
use crate::errors::AccountError;
use vstd::arithmetic::div_mod::{lemma_div_multiples_vanish, lemma_fundamental_div_mod, lemma_mod_pos_bound};
use crate::text::{digit_char, digit_char_spec, string_from_chars};

verus! {

/// What `rust_decimal::Decimal::from_str` reads from a string, as its
/// mantissa and scale, or `None` where it refuses the string.
pub uninterp spec fn decimal_parts(s: Seq<char>) -> Option<(i128, u32)>;

/// Ten to the power `n`.
pub open spec fn pow10(n: nat) -> int
    decreases n,
{
    if n == 0 { 1 } else { 10 * pow10((n - 1) as nat) }
}

/// Relies on `rust_decimal::Decimal::from_str`, `Decimal::mantissa` and
/// `Decimal::scale`: the decimal read from `s`, as `m / 10^e` with
/// `-2^96 < m < 2^96` and `e <= 28`, the bounds the crate documents for every
/// `Decimal`.
#[verifier::external_body]
fn parse_decimal(s: &str) -> (r: Option<(i128, u32)>)
    ensures
        r == decimal_parts(s@),
        r matches Some((m, e)) ==> -0x1_0000_0000_0000_0000_0000_0000 < m
            < 0x1_0000_0000_0000_0000_0000_0000 && e <= 28,
{
    rust_decimal::Decimal::from_str(s).ok().map(|d| (d.mantissa(), d.scale()))
}

proof fn lemma_pow10_positive(n: nat)
    ensures
        pow10(n) >= 1,
    decreases n,
{
    if n > 0 {
        lemma_pow10_positive((n - 1) as nat);
    }
}

fn pow10_exec(n: u32) -> (r: u128)
    requires
        n <= 28,
    ensures
        r as int == pow10(n as nat),
{
    let mut r: u128 = 1;
    let mut i: u32 = 0;
    while i < n
        invariant
            i <= n <= 28,
            r as int == pow10(i as nat),
        decreases n - i,
    {
        proof {
            assert(pow10((i + 1) as nat) == 10 * pow10(i as nat));
            lemma_pow10_monotone((i + 1) as nat, 28);
            lemma_pow10_28();
        }
        r = r * 10;
        i = i + 1;
    }
    r
}

proof fn lemma_pow10_28()
    ensures
        pow10(28) == 10_000_000_000_000_000_000_000_000_000,
{
    reveal_with_fuel(pow10, 29);
}

proof fn lemma_pow10_monotone(a: nat, b: nat)
    requires
        a <= b,
    ensures
        pow10(a) <= pow10(b),
    decreases b,
{
    lemma_pow10_positive(b);
    if a < b {
        lemma_pow10_monotone(a, (b - 1) as nat);
    }
}

/// A decimal rate, `mantissa / 10^scale`, kept exactly as it was given.
#[derive(Clone, Copy, Debug, PartialEq, Eq, Structural)]
pub struct Rate {
    pub mantissa: i128,
    pub scale: u32,
}

/// Reads a decimal rate from text.
pub fn parse_rate(s: &str) -> (r: Result<Rate, AccountError>)
    ensures
        match decimal_parts(s@) {
            None => r matches Err(AccountError::InvalidAmount(_)),
            Some((m, e)) => r == Ok::<Rate, AccountError>(Rate { mantissa: m, scale: e }),
        },
{
    match parse_decimal(s) {
        None => Err(AccountError::InvalidAmount("rate is not a decimal number".to_string())),
        Some((m, e)) => Ok(Rate { mantissa: m, scale: e }),
    }
}

/// The decimal digits of `n`, without leading zeros ("0" for zero).
pub open spec fn decimal_digits(n: nat) -> Seq<char>
    decreases n,
{
    if n < 10 {
        seq![digit_char_spec(n as int)]
    } else {
        decimal_digits(n / 10).push(digit_char_spec((n % 10) as int))
    }
}

fn push_digits(n: u128, out: &mut Vec<char>)
    ensures
        final(out)@ == old(out)@ + decimal_digits(n as nat),
    decreases n,
{
    if n >= 10 {
        push_digits(n / 10, out);
    }
    out.push(digit_char((n % 10) as u32));
    proof {
        if n >= 10 {
            assert(decimal_digits(n as nat) == decimal_digits((n / 10) as nat).push(digit_char_spec((n % 10) as int)));
        }
    }
}

/// The most decimal places an amount can have.
pub const MAX_SCALE: u32 = 28;

/// A non-negative amount of money, `units / 10^scale`.
#[derive(Clone, Copy, Debug, PartialEq, Eq, Structural)]
pub struct Amount {
    pub units: u128,
    pub scale: u32,
}

/// The size of one unit at scale `s`, counted in units of the finest scale.
pub open spec fn unit_at(s: u32) -> int {
    pow10((MAX_SCALE - s) as nat)
}

/// The finer of the scales of two amounts.
pub open spec fn common_scale(a: Amount, b: Amount) -> u32 {
    if a.scale >= b.scale { a.scale } else { b.scale }
}

/// The sum of two amounts fits at their common scale.
pub open spec fn sum_fits(a: Amount, b: Amount) -> bool {
    a.value() + b.value() <= u128::MAX * unit_at(common_scale(a, b))
}

/// The sum of two amounts, written at their common scale.
pub open spec fn amount_sum(a: Amount, b: Amount) -> Amount {
    let s = common_scale(a, b);
    Amount { units: ((a.value() + b.value()) / unit_at(s)) as u128, scale: s }
}

/// The minuend of a difference fits at the common scale.
pub open spec fn diff_fits(a: Amount, b: Amount) -> bool {
    a.value() <= u128::MAX * unit_at(common_scale(a, b))
}

/// The difference of two amounts, written at their common scale.
pub open spec fn amount_diff(a: Amount, b: Amount) -> Amount {
    let s = common_scale(a, b);
    Amount { units: ((a.value() - b.value()) / unit_at(s)) as u128, scale: s }
}

/// The amount that the decimal text `s` stands for, where it stands for a
/// non-negative one.
pub open spec fn amount_of_text(s: Seq<char>) -> Option<Amount> {
    match decimal_parts(s) {
        Some((m, e)) => if m >= 0 && e <= MAX_SCALE { Some(Amount { units: m as u128, scale: e }) } else { None },
        None => None,
    }
}

proof fn lemma_pow10_add(x: nat, y: nat)
    ensures
        pow10(x + y) == pow10(x) * pow10(y),
    decreases x,
{
    if x > 0 {
        lemma_pow10_add((x - 1) as nat, y);
        assert(pow10(x + y) == 10 * pow10((x - 1 + y) as nat));
        assert(10 * (pow10((x - 1) as nat) * pow10(y)) == (10 * pow10((x - 1) as nat)) * pow10(y)) by (nonlinear_arith);
    }
}

/// The units of `a` at the finer scale `s`, where they fit.
fn align(a: Amount, s: u32) -> (r: Option<u128>)
    requires
        a.wf(),
        a.scale <= s <= MAX_SCALE,
    ensures
        match r {
            Some(u) => u * unit_at(s) == a.value() && u as int == a.value() / unit_at(s),
            None => a.value() > u128::MAX * unit_at(s),
        },
{
    let f = pow10_exec(s - a.scale);
    let ghost g = unit_at(s);
    proof {
        lemma_pow10_add((s - a.scale) as nat, (MAX_SCALE - s) as nat);
        assert(a.value() == a.units * (f * g));
        lemma_pow10_positive((s - a.scale) as nat);
        lemma_pow10_positive((MAX_SCALE - s) as nat);
        assert(a.units * (f * g) == (a.units * f) * g) by (nonlinear_arith);
    }
    if a.units > u128::MAX / f {
        proof {
            let q = u128::MAX / f;
            lemma_fundamental_div_mod(u128::MAX as int, f as int);
            lemma_mod_pos_bound(u128::MAX as int, f as int);
            assert(a.units * f >= (q + 1) * f) by (nonlinear_arith)
                requires a.units >= q + 1, f > 0;
            assert((q + 1) * f == f * q + f) by (nonlinear_arith);
            assert((a.units * f) * g > u128::MAX * g) by (nonlinear_arith)
                requires a.units * f > u128::MAX, g > 0;
        }
        None
    } else {
        proof {
            assert(a.units * f <= (u128::MAX / f) * f) by (nonlinear_arith)
                requires a.units <= u128::MAX / f, f > 0;
            lemma_fundamental_div_mod(u128::MAX as int, f as int);
        }
        let u = a.units * f;
        proof {
            lemma_div_multiples_vanish(u as int, g);
            assert(u * g == g * u) by (nonlinear_arith);
        }
        Some(u)
    }
}

impl Amount {
    /// The scale is one an amount can have.
    pub open spec fn wf(self) -> bool {
        self.scale <= MAX_SCALE
    }

    /// The amount counted in units of the finest scale.
    pub open spec fn value(self) -> int {
        self.units * unit_at(self.scale)
    }

    /// Zero, with no decimal places.
    pub fn zero() -> (r: Amount)
        ensures
            r == (Amount { units: 0, scale: 0 }),
            r.wf(),
            r.value() == 0,
    {
        Amount { units: 0, scale: 0 }
    }

    /// Whether the amount is zero.
    pub fn is_zero(&self) -> (r: bool)
        requires
            self.wf(),
        ensures
            r == (self.value() == 0),
    {
        proof {
            lemma_pow10_positive((MAX_SCALE - self.scale) as nat);
            assert(self.units > 0 ==> self.value() > 0) by (nonlinear_arith)
                requires self.value() == self.units * unit_at(self.scale), unit_at(self.scale) > 0;
        }
        self.units == 0
    }

    /// Whether this amount is at least `other`.
    pub fn covers(&self, other: &Amount) -> (r: bool)
        requires
            self.wf(),
            other.wf(),
        ensures
            r == (self.value() >= other.value()),
    {
        if self.scale >= other.scale {
            proof {
                lemma_pow10_positive((MAX_SCALE - self.scale) as nat);
            }
            let g = Ghost(unit_at(self.scale));
            match align(*other, self.scale) {
                None => {
                    proof {
                        assert(self.units * g@ <= u128::MAX * g@) by (nonlinear_arith)
                            requires self.units <= u128::MAX, g@ > 0;
                    }
                    false
                },
                Some(o) => {
                    proof {
                        assert((self.units >= o) == (self.units * g@ >= o * g@)) by (nonlinear_arith)
                            requires g@ > 0;
                    }
                    self.units >= o
                },
            }
        } else {
            proof {
                lemma_pow10_positive((MAX_SCALE - other.scale) as nat);
            }
            let g = Ghost(unit_at(other.scale));
            match align(*self, other.scale) {
                None => {
                    proof {
                        assert(other.units * g@ <= u128::MAX * g@) by (nonlinear_arith)
                            requires other.units <= u128::MAX, g@ > 0;
                    }
                    true
                },
                Some(u) => {
                    proof {
                        assert((u >= other.units) == (u * g@ >= other.units * g@)) by (nonlinear_arith)
                            requires g@ > 0;
                    }
                    u >= other.units
                },
            }
        }
    }

    /// The sum of two amounts at their common scale; `None` where it does
    /// not fit there.
    pub fn checked_add(&self, other: &Amount) -> (r: Option<Amount>)
        requires
            self.wf(),
            other.wf(),
        ensures
            match r {
                Some(c) => c == amount_sum(*self, *other) && c.wf()
                    && c.value() == self.value() + other.value(),
                None => !sum_fits(*self, *other),
            },
            r is Some <==> sum_fits(*self, *other),
    {
        let s = if self.scale >= other.scale { self.scale } else { other.scale };
        let ghost g = unit_at(s);
        proof {
            lemma_pow10_positive((MAX_SCALE - s) as nat);
            lemma_pow10_positive((MAX_SCALE - self.scale) as nat);
            lemma_pow10_positive((MAX_SCALE - other.scale) as nat);
            assert(self.value() >= 0) by (nonlinear_arith)
                requires self.value() == self.units * unit_at(self.scale), unit_at(self.scale) > 0;
            assert(other.value() >= 0) by (nonlinear_arith)
                requires other.value() == other.units * unit_at(other.scale), unit_at(other.scale) > 0;
        }
        let a = match align(*self, s) {
            Some(a) => a,
            None => return None,
        };
        let b = match align(*other, s) {
            Some(b) => b,
            None => return None,
        };
        if a > u128::MAX - b {
            proof {
                assert((a + b) * g > u128::MAX * g) by (nonlinear_arith)
                    requires a + b > u128::MAX, g > 0;
                assert((a + b) * g == a * g + b * g) by (nonlinear_arith);
            }
            return None;
        }
        let c = Amount { units: a + b, scale: s };
        proof {
            assert((a + b) * g <= u128::MAX * g) by (nonlinear_arith) requires a + b <= u128::MAX, g > 0;
            assert((a + b) * g == a * g + b * g) by (nonlinear_arith);
            lemma_div_multiples_vanish((a + b) as int, g);
            assert((a + b) * g == g * (a + b)) by (nonlinear_arith);
        }
        Some(c)
    }

    /// This amount less `other`, which it covers, at their common scale;
    /// `None` where this amount does not fit at that scale.
    pub fn checked_sub(&self, other: &Amount) -> (r: Option<Amount>)
        requires
            self.wf(),
            other.wf(),
            self.value() >= other.value(),
        ensures
            match r {
                Some(c) => c == amount_diff(*self, *other) && c.wf()
                    && c.value() == self.value() - other.value(),
                None => !diff_fits(*self, *other),
            },
            r is Some <==> diff_fits(*self, *other),
    {
        let s = if self.scale >= other.scale { self.scale } else { other.scale };
        let ghost g = unit_at(s);
        proof {
            lemma_pow10_positive((MAX_SCALE - s) as nat);
        }
        let a = match align(*self, s) {
            Some(a) => a,
            None => return None,
        };
        proof {
            assert(a * g <= u128::MAX * g) by (nonlinear_arith) requires a <= u128::MAX, g > 0;
            assert(other.value() <= u128::MAX * g);
        }
        let b = match align(*other, s) {
            Some(b) => b,
            None => return None,
        };
        proof {
            assert(a >= b) by (nonlinear_arith)
                requires a * g >= b * g, g > 0;
        }
        let c = Amount { units: a - b, scale: s };
        proof {
            assert(a * g <= u128::MAX * g) by (nonlinear_arith) requires a <= u128::MAX, g > 0;
            assert((a - b) * g == a * g - b * g) by (nonlinear_arith);
            lemma_div_multiples_vanish((a - b) as int, g);
            assert((a - b) * g == g * (a - b)) by (nonlinear_arith);
        }
        Some(c)
    }
}

proof fn lemma_value_at(a: Amount, s: u32)
    requires
        a.wf(),
        a.scale <= s <= MAX_SCALE,
    ensures
        a.value() == (a.units * pow10((s - a.scale) as nat)) * unit_at(s),
        a.units * pow10((s - a.scale) as nat) >= 0,
        unit_at(s) > 0,
{
    lemma_pow10_add((s - a.scale) as nat, (MAX_SCALE - s) as nat);
    lemma_pow10_positive((s - a.scale) as nat);
    lemma_pow10_positive((MAX_SCALE - s) as nat);
    let f = pow10((s - a.scale) as nat);
    let g = unit_at(s);
    assert(a.units * (f * g) == (a.units * f) * g) by (nonlinear_arith);
    assert(a.units * f >= 0) by (nonlinear_arith) requires f >= 1;
}

/// The sum of two amounts, where it fits, has the value of the two together.
pub proof fn lemma_sum_value(a: Amount, b: Amount)
    requires
        a.wf(),
        b.wf(),
        sum_fits(a, b),
    ensures
        amount_sum(a, b).wf(),
        amount_sum(a, b).value() == a.value() + b.value(),
{
    let s = common_scale(a, b);
    lemma_value_at(a, s);
    lemma_value_at(b, s);
    let x = a.units * pow10((s - a.scale) as nat);
    let y = b.units * pow10((s - b.scale) as nat);
    let g = unit_at(s);
    assert(x * g + y * g == g * (x + y)) by (nonlinear_arith);
    lemma_div_multiples_vanish(x + y, g);
    assert((x + y) * g <= u128::MAX * g);
    assert(x + y <= u128::MAX) by (nonlinear_arith) requires (x + y) * g <= u128::MAX * g, g > 0;
    assert((x + y) * g == g * (x + y)) by (nonlinear_arith);
}

/// A difference that fits has the value of the minuend less the
/// subtrahend, and adding the subtrahend back fits and restores the value.
pub proof fn lemma_diff_value(a: Amount, b: Amount)
    requires
        a.wf(),
        b.wf(),
        a.value() >= b.value(),
        diff_fits(a, b),
    ensures
        amount_diff(a, b).wf(),
        amount_diff(a, b).value() == a.value() - b.value(),
        sum_fits(amount_diff(a, b), b),
        amount_sum(amount_diff(a, b), b).value() == a.value(),
{
    let s = common_scale(a, b);
    lemma_value_at(a, s);
    lemma_value_at(b, s);
    let x = a.units * pow10((s - a.scale) as nat);
    let y = b.units * pow10((s - b.scale) as nat);
    let g = unit_at(s);
    assert(x * g - y * g == g * (x - y)) by (nonlinear_arith);
    lemma_div_multiples_vanish(x - y, g);
    assert(x >= y) by (nonlinear_arith) requires x * g >= y * g, g > 0;
    assert(x <= u128::MAX) by (nonlinear_arith) requires x * g <= u128::MAX * g, g > 0;
    assert((x - y) * g == g * (x - y)) by (nonlinear_arith);
    let d = amount_diff(a, b);
    assert(common_scale(d, b) == s);
    lemma_sum_value(d, b);
}

/// Reads an amount of money from decimal text; `InvalidAmount` where the
/// text is not a decimal number or is negative.
pub fn parse_amount(s: &str) -> (r: Result<Amount, AccountError>)
    ensures
        match amount_of_text(s@) {
            Some(a) => r == Ok::<Amount, AccountError>(a),
            None => r matches Err(AccountError::InvalidAmount(_)),
        },
        r matches Ok(a) ==> a.wf(),
{
    match parse_decimal(s) {
        None => Err(AccountError::InvalidAmount("amount is not a decimal number".to_string())),
        Some((m, e)) => {
            if m < 0 {
                Err(AccountError::InvalidAmount("amount must not be negative".to_string()))
            } else {
                Ok(Amount { units: m as u128, scale: e })
            }
        },
    }
}

/// The last `w` decimal digits of `n`, with leading zeros.
pub open spec fn padded_digits(n: nat, w: nat) -> Seq<char>
    decreases w,
{
    if w == 0 {
        Seq::empty()
    } else {
        padded_digits(n / 10, (w - 1) as nat).push(digit_char_spec((n % 10) as int))
    }
}

/// An amount written with all its decimal places (`4000` at scale 2 is
/// `40.00`).
pub open spec fn amount_text(a: Amount) -> Seq<char> {
    if a.scale == 0 {
        decimal_digits(a.units as nat)
    } else {
        decimal_digits((a.units as int / pow10(a.scale as nat)) as nat) + seq!['.']
            + padded_digits((a.units as int % pow10(a.scale as nat)) as nat, a.scale as nat)
    }
}

fn push_padded(n: u128, w: u32, out: &mut Vec<char>)
    ensures
        final(out)@ == old(out)@ + padded_digits(n as nat, w as nat),
    decreases w,
{
    if w > 0 {
        push_padded(n / 10, w - 1, out);
        out.push(digit_char((n % 10) as u32));
        proof {
            assert(padded_digits(n as nat, w as nat) == padded_digits((n / 10) as nat, (w - 1) as nat).push(
                digit_char_spec((n % 10) as int)));
        }
    } else {
        proof {
            assert(old(out)@ + padded_digits(n as nat, w as nat) =~= old(out)@);
        }
    }
}

/// An amount as text, with all its decimal places.
pub fn format_amount(a: Amount) -> (r: String)
    requires
        a.wf(),
    ensures
        r@ == amount_text(a),
{
    let mut out: Vec<char> = Vec::new();
    if a.scale == 0 {
        push_digits(a.units, &mut out);
    } else {
        let f = pow10_exec(a.scale);
        proof {
            lemma_pow10_positive(a.scale as nat);
        }
        push_digits(a.units / f, &mut out);
        out.push('.');
        push_padded(a.units % f, a.scale, &mut out);
    }
    let r = string_from_chars(&out);
    assert(r@ =~= amount_text(a));
    r
}

} // verus!
