//! Signed fixed-point numbers with 64 integer and 64 fractional bits.
//!
//! A number is held as its scaled integer `bits`; it stands for the rational
//! `bits / 2^64`. Multiplication, division and the real-exponent power are
//! computed by the `substrate-fixed` crate.

use crate::error::ContractError;
use substrate_fixed::transcendental::pow;
use substrate_fixed::types::I64F64;
use vstd::arithmetic::div_mod::{
    lemma_fundamental_div_mod, lemma_hoist_over_denominator, lemma_mod_bound,
};
use vstd::prelude::*;

verus! {

/// The scaled integer of the number one, `2^64`.
pub const ONE_BITS: i128 = 0x1_0000_0000_0000_0000;

/// The least integer that has no fixed-point representation, `2^63`.
pub const INTEGER_LIMIT: u128 = 0x8000_0000_0000_0000;

/// The number of parts that a decimal of the chain has for one: decimals
/// are given in parts of `10^-18`.
pub const DECIMAL_ONE: u128 = 1_000_000_000_000_000_000;

/// The scaled integer of the least exponent that a power is computed for,
/// `-2^62`.
pub const LEAST_EXPONENT_BITS: i128 = -0x4000_0000_0000_0000_0000_0000_0000_0000;

/// A fixed-point number, standing for `bits / 2^64`.
#[derive(Clone, Copy, Debug, PartialEq, Eq, Structural)]
pub struct FixedFloat {
    pub bits: i128,
}

/// Whether `v` is the scaled integer of some fixed-point number.
pub open spec fn representable(v: int) -> bool {
    i128::MIN <= v <= i128::MAX
}

/// The quotient of `n` by `d` rounded towards zero.
pub open spec fn truncated_quotient(n: int, d: int) -> int {
    if n >= 0 && d > 0 {
        n / d
    } else if n >= 0 {
        -(n / (-d))
    } else if d > 0 {
        -((-n) / d)
    } else {
        (-n) / (-d)
    }
}

/// The scaled integer of the product of the numbers with scaled integers `a`
/// and `b`: the exact product rounded down to a multiple of `2^-64`.
pub open spec fn product_bits(a: int, b: int) -> int {
    (a * b) / (ONE_BITS as int)
}

/// The scaled integer of the quotient of the numbers with scaled integers
/// `a` and `b`, for `b != 0`: the exact quotient rounded towards zero to a
/// multiple of `2^-64`.
pub open spec fn quotient_bits(a: int, b: int) -> int {
    truncated_quotient(a * (ONE_BITS as int), b)
}

/// What `substrate_fixed::transcendental::pow` computes by logarithm and
/// exponential for the operand and the exponent with these scaled integers:
/// the scaled integer of the power, or `None` where the crate reports a
/// failure.
pub uninterp spec fn pow_bits(operand: i128, exponent: i128) -> Option<i128>;

/// What `substrate_fixed::transcendental::pow` returns. The crate decides
/// three cases before it takes any logarithm: a zero operand gives zero,
/// else a zero exponent gives one, else the exponent one gives the operand
/// itself. Of the operand one it takes the logarithm zero, and the
/// exponential of zero is one.
pub open spec fn power_bits(operand: i128, exponent: i128) -> Option<i128> {
    if operand == 0 {
        Some(0i128)
    } else if exponent == 0 {
        Some(ONE_BITS)
    } else if exponent == ONE_BITS {
        Some(operand)
    } else if operand == ONE_BITS {
        Some(ONE_BITS)
    } else {
        pow_bits(operand, exponent)
    }
}

/// The scaled integer of an optional number.
pub open spec fn bits_of(x: Option<FixedFloat>) -> Option<i128> {
    match x {
        Some(v) => Some(v.bits),
        None => None,
    }
}

/// `I64F64::checked_mul`: the product rounded down, or `None` where it does
/// not fit. Two negative factors are left out: on some of them the crate
/// stops at an assertion of its own when it is built with debug assertions.
#[verifier::external_body]
fn crate_checked_mul(a: FixedFloat, b: FixedFloat) -> (r: Option<FixedFloat>)
    requires
        a.bits >= 0 || b.bits >= 0,
    ensures
        representable(product_bits(a.bits as int, b.bits as int)) ==> r == Some(
            FixedFloat { bits: product_bits(a.bits as int, b.bits as int) as i128 },
        ),
        !representable(product_bits(a.bits as int, b.bits as int)) ==> r.is_none(),
{
    match I64F64::from_bits(a.bits).checked_mul(I64F64::from_bits(b.bits)) {
        Some(p) => Some(FixedFloat { bits: p.to_bits() }),
        None => None,
    }
}

/// `I64F64::checked_div`: the quotient rounded towards zero, or `None` where
/// the divisor is zero or the quotient does not fit.
#[verifier::external_body]
fn crate_checked_div(a: FixedFloat, b: FixedFloat) -> (r: Option<FixedFloat>)
    ensures
        b.bits != 0 && representable(quotient_bits(a.bits as int, b.bits as int)) ==> r == Some(
            FixedFloat { bits: quotient_bits(a.bits as int, b.bits as int) as i128 },
        ),
        b.bits == 0 || !representable(quotient_bits(a.bits as int, b.bits as int))
            ==> r.is_none(),
{
    match I64F64::from_bits(a.bits).checked_div(I64F64::from_bits(b.bits)) {
        Some(q) => Some(FixedFloat { bits: q.to_bits() }),
        None => None,
    }
}

/// `substrate_fixed::transcendental::pow` on `I64F64`: the three early
/// cases as the crate's source decides them, the power one of the operand
/// one, and elsewhere a result that depends on the two arguments alone,
/// named by `pow_bits`. The power of a positive operand is not negative:
/// the crate's exponential is a sum of terms that are not negative, or one
/// divided by such a sum. Exponents below
/// `-2^62` are left out: the crate multiplies the logarithm by the exponent
/// with `checked_mul`, which two negative factors of that size can stop at
/// an assertion.
#[verifier::external_body]
fn crate_pow(operand: FixedFloat, exponent: FixedFloat) -> (r: Option<FixedFloat>)
    requires
        exponent.bits >= LEAST_EXPONENT_BITS,
    ensures
        bits_of(r) == if operand.bits == 0 {
            Some(0i128)
        } else if exponent.bits == 0 {
            Some(ONE_BITS)
        } else if exponent.bits == ONE_BITS {
            Some(operand.bits)
        } else if operand.bits == ONE_BITS {
            Some(ONE_BITS)
        } else {
            pow_bits(operand.bits, exponent.bits)
        },
        operand.bits > 0 ==> (r matches Some(power) ==> power.bits >= 0),
{
    match pow::<I64F64, I64F64>(I64F64::from_bits(operand.bits), I64F64::from_bits(exponent.bits)) {
        Ok(p) => Some(FixedFloat { bits: p.to_bits() }),
        Err(_) => None,
    }
}

/// The integer `n` as a fixed-point number: `Overflow` from `2^63` on.
pub open spec fn number_of(n: u128) -> Result<FixedFloat, ContractError> {
    if n < INTEGER_LIMIT {
        Ok(FixedFloat { bits: (n * ONE_BITS) as i128 })
    } else {
        Err(ContractError::Overflow)
    }
}

/// The ratio of two integers as a fixed-point number.
pub open spec fn ratio_of(numerator: u128, denominator: u128) -> Result<FixedFloat, ContractError> {
    match number_of(numerator) {
        Err(e) => Err(e),
        Ok(n) => match number_of(denominator) {
            Err(e) => Err(e),
            Ok(d) => quotient_of(n, d),
        },
    }
}

/// The decimal of `atomics` parts of `10^-18` as a fixed-point number,
/// rounded down to a multiple of `2^-64`: `Overflow` from `2^63` on.
pub open spec fn number_of_decimal(atomics: u128) -> Result<FixedFloat, ContractError> {
    if atomics * ONE_BITS / (DECIMAL_ONE as int) <= i128::MAX {
        Ok(FixedFloat { bits: (atomics * ONE_BITS / (DECIMAL_ONE as int)) as i128 })
    } else {
        Err(ContractError::Overflow)
    }
}

/// The parts of `10^-18` of a number, rounded up: `DomainError` for a
/// negative number, which no decimal stands for.
pub open spec fn decimal_of(x: FixedFloat) -> Result<u128, ContractError> {
    if x.bits < 0 {
        Err(ContractError::DomainError)
    } else if (x.bits * DECIMAL_ONE) % (ONE_BITS as int) == 0 {
        Ok((x.bits * DECIMAL_ONE / (ONE_BITS as int)) as u128)
    } else {
        Ok((x.bits * DECIMAL_ONE / (ONE_BITS as int) + 1) as u128)
    }
}

/// A decimal that becomes a fixed-point number comes back as itself: the
/// way there rounds down by less than `2^-64`, the way back rounds up.
pub proof fn lemma_decimal_round_trip(atomics: u128)
    ensures
        number_of_decimal(atomics) matches Ok(x) ==> decimal_of(x) == Ok::<u128, ContractError>(
            atomics,
        ),
{
    let s = ONE_BITS as int;
    let d = DECIMAL_ONE as int;
    let n = atomics * s;
    let bits = n / d;
    lemma_fundamental_div_mod(n, d);
    lemma_mod_bound(n, d);
    assert(0 <= bits) by (nonlinear_arith)
        requires
            n == d * bits + n % d,
            n % d < d,
            0 <= n,
            0 < d,
    ;
    let m = bits * d;
    let back = m / s;
    lemma_fundamental_div_mod(m, s);
    lemma_mod_bound(m, s);
    // atomics * s - d < m <= atomics * s, and d < s
    assert(m <= atomics * s && m > atomics * s - s) by (nonlinear_arith)
        requires
            m == bits * d,
            n == d * bits + n % d,
            0 <= n % d < d,
            n == atomics * s,
            d < s,
    ;
    if m % s == 0 {
        assert(back == atomics) by (nonlinear_arith)
            requires
                m == s * back,
                m <= atomics * s,
                m > atomics * s - s,
                0 < s,
        ;
    } else {
        assert(back + 1 == atomics) by (nonlinear_arith)
            requires
                m == s * back + m % s,
                0 < m % s < s,
                m <= atomics * s,
                m > atomics * s - s,
                0 < s,
        ;
    }
}

/// The result of adding two numbers: `Overflow` where the sum does not fit.
pub open spec fn sum_of(a: FixedFloat, b: FixedFloat) -> Result<FixedFloat, ContractError> {
    if representable(a.bits + b.bits) {
        Ok(FixedFloat { bits: (a.bits + b.bits) as i128 })
    } else {
        Err(ContractError::Overflow)
    }
}

/// The result of subtracting `b` from `a`: `Overflow` where the difference
/// does not fit.
pub open spec fn difference_of(a: FixedFloat, b: FixedFloat) -> Result<FixedFloat, ContractError> {
    if representable(a.bits - b.bits) {
        Ok(FixedFloat { bits: (a.bits - b.bits) as i128 })
    } else {
        Err(ContractError::Overflow)
    }
}

/// The result of multiplying two numbers: the exact product rounded down,
/// `Overflow` where that does not fit.
pub open spec fn product_of(a: FixedFloat, b: FixedFloat) -> Result<FixedFloat, ContractError> {
    if representable(product_bits(a.bits as int, b.bits as int)) {
        Ok(FixedFloat { bits: product_bits(a.bits as int, b.bits as int) as i128 })
    } else {
        Err(ContractError::Overflow)
    }
}

/// The result of dividing `a` by `b`: `DomainError` for a zero divisor, else
/// the exact quotient rounded towards zero, `Overflow` where that does not
/// fit.
pub open spec fn quotient_of(a: FixedFloat, b: FixedFloat) -> Result<FixedFloat, ContractError> {
    if b.bits == 0 {
        Err(ContractError::DomainError)
    } else if representable(quotient_bits(a.bits as int, b.bits as int)) {
        Ok(FixedFloat { bits: quotient_bits(a.bits as int, b.bits as int) as i128 })
    } else {
        Err(ContractError::Overflow)
    }
}

/// The result of raising `base` to the power `exponent`: `DomainError` for
/// a base that is not positive, `Overflow` for an exponent below `-2^62` and
/// where the crate reports a failure, else the power as the crate computes
/// it.
pub open spec fn power_of(base: FixedFloat, exponent: FixedFloat) -> Result<
    FixedFloat,
    ContractError,
> {
    if base.bits <= 0 {
        Err(ContractError::DomainError)
    } else if exponent.bits < LEAST_EXPONENT_BITS {
        Err(ContractError::Overflow)
    } else {
        match power_bits(base.bits, exponent.bits) {
            Some(bits) => Ok(FixedFloat { bits }),
            None => Err(ContractError::Overflow),
        }
    }
}

/// The greatest integer that is not above the number with scaled integer
/// `bits`.
pub open spec fn floor_of(bits: int) -> int {
    bits / (ONE_BITS as int)
}

/// The least integer that is not below the number with scaled integer
/// `bits`.
pub open spec fn ceiling_of(bits: int) -> int {
    -((-bits) / (ONE_BITS as int))
}

/// A number rounded down to a token amount: `Overflow` for a negative
/// number, which no amount stands for.
pub open spec fn floor_amount(x: FixedFloat) -> Result<u128, ContractError> {
    if x.bits >= 0 {
        Ok(floor_of(x.bits as int) as u128)
    } else {
        Err(ContractError::Overflow)
    }
}

/// A number rounded up to a token amount: `Overflow` where the rounded
/// number is negative.
pub open spec fn ceiling_amount(x: FixedFloat) -> Result<u128, ContractError> {
    if ceiling_of(x.bits as int) >= 0 {
        Ok(ceiling_of(x.bits as int) as u128)
    } else {
        Err(ContractError::Overflow)
    }
}

/// The factors of a product can change places.
proof fn lemma_product_commutes(a: int, b: int)
    ensures
        product_bits(a, b) == product_bits(b, a),
{
    assert(a * b == b * a) by (nonlinear_arith);
}

/// The product of two numbers is that of their negatives.
proof fn lemma_product_of_negatives(a: int, b: int)
    ensures
        product_bits(a, b) == product_bits(-a, -b),
{
    assert(a * b == (-a) * (-b)) by (nonlinear_arith);
}

/// The product of the least number, `-2^63`, and a negative number: the
/// number's magnitude times `2^63`, which fits where the magnitude is below
/// one.
fn times_least(x: FixedFloat) -> (r: Option<FixedFloat>)
    requires
        x.bits < 0,
    ensures
        representable(product_bits(i128::MIN as int, x.bits as int)) ==> r == Some(
            FixedFloat { bits: product_bits(i128::MIN as int, x.bits as int) as i128 },
        ),
        !representable(product_bits(i128::MIN as int, x.bits as int)) ==> r.is_none(),
{
    proof {
        let k = -(x.bits as int);
        let half: int = 0x8000_0000_0000_0000;
        assert((i128::MIN as int) * (x.bits as int) == (k * half) * (ONE_BITS as int))
            by (nonlinear_arith)
            requires
                k == -(x.bits as int),
                half == 0x8000_0000_0000_0000,
                i128::MIN as int == -(half * (ONE_BITS as int)),
        ;
        assert((k * half) * (ONE_BITS as int) / (ONE_BITS as int) == k * half)
            by (nonlinear_arith);
        assert(k < ONE_BITS <==> k * half < 0x8000_0000_0000_0000_0000_0000_0000_0000)
            by (nonlinear_arith)
            requires
                half == 0x8000_0000_0000_0000,
                k > 0,
        ;
    }
    if x.bits > -ONE_BITS {
        let magnitude: i128 = -x.bits;
        Some(FixedFloat { bits: magnitude * 0x8000_0000_0000_0000 })
    } else {
        None
    }
}

impl FixedFloat {
    /// The number with the scaled integer `bits`.
    pub fn from_bits(bits: i128) -> (r: FixedFloat)
        ensures
            r.bits == bits,
    {
        FixedFloat { bits }
    }

    /// The scaled integer of the number.
    pub fn to_bits(self) -> (r: i128)
        ensures
            r == self.bits,
    {
        self.bits
    }

    /// The number zero.
    pub fn zero() -> (r: FixedFloat)
        ensures
            r.bits == 0,
    {
        FixedFloat { bits: 0 }
    }

    /// The number one.
    pub fn one() -> (r: FixedFloat)
        ensures
            r.bits == ONE_BITS,
    {
        FixedFloat { bits: ONE_BITS }
    }

    /// The integer `n` as a fixed-point number.
    pub fn from_num(n: u128) -> (r: Result<FixedFloat, ContractError>)
        ensures
            r == number_of(n),
    {
        if n < INTEGER_LIMIT {
            let whole: i128 = n as i128;
            Ok(FixedFloat { bits: whole * ONE_BITS })
        } else {
            Err(ContractError::Overflow)
        }
    }

    /// The ratio `numerator / denominator`, rounded down to a multiple of
    /// `2^-64`.
    pub fn from_ratio(numerator: u128, denominator: u128) -> (r: Result<FixedFloat, ContractError>)
        ensures
            r == ratio_of(numerator, denominator),
    {
        let n = FixedFloat::from_num(numerator)?;
        let d = FixedFloat::from_num(denominator)?;
        n.checked_div(d)
    }

    /// The decimal of `atomics` parts of `10^-18`, rounded down to a multiple
    /// of `2^-64`.
    pub fn from_decimal(atomics: u128) -> (r: Result<FixedFloat, ContractError>)
        ensures
            r == number_of_decimal(atomics),
    {
        let whole: u128 = atomics / DECIMAL_ONE;
        let rest: u128 = atomics % DECIMAL_ONE;
        let one: u128 = ONE_BITS as u128;
        proof {
            let s = ONE_BITS as int;
            let d = DECIMAL_ONE as int;
            lemma_fundamental_div_mod(atomics as int, d);
            assert(atomics * s == rest * s + (whole * s) * d) by (nonlinear_arith)
                requires
                    atomics == d * whole + rest,
            ;
            lemma_hoist_over_denominator(rest * s, whole * s, d as nat);
            lemma_fundamental_div_mod(rest * s, d);
            lemma_mod_bound(rest * s, d);
            assert(0 <= (rest * s) / d < s) by (nonlinear_arith)
                requires
                    rest * s == d * ((rest * s) / d) + (rest * s) % d,
                    0 <= (rest * s) % d < d,
                    0 <= rest < d,
                    0 < s,
            ;
            assert(0 <= rest * s < 0x1_0000_0000_0000_0000_0000_0000_0000_0000)
                by (nonlinear_arith)
                requires
                    0 <= rest < 0x1_0000_0000_0000_0000,
                    s == 0x1_0000_0000_0000_0000,
            ;
            assert(whole >= 0x8000_0000_0000_0000 ==> whole * s
                >= 0x8000_0000_0000_0000_0000_0000_0000_0000) by (nonlinear_arith)
                requires
                    s == 0x1_0000_0000_0000_0000,
            ;
            assert(whole < 0x8000_0000_0000_0000 ==> whole * s + s
                <= 0x8000_0000_0000_0000_0000_0000_0000_0000) by (nonlinear_arith)
                requires
                    s == 0x1_0000_0000_0000_0000,
                    0 <= whole,
            ;
        }
        if whole >= INTEGER_LIMIT {
            return Err(ContractError::Overflow);
        }
        let bits: u128 = whole * one + rest * one / DECIMAL_ONE;
        Ok(FixedFloat { bits: bits as i128 })
    }

    /// The number in parts of `10^-18`, rounded up.
    pub fn to_decimal(self) -> (r: Result<u128, ContractError>)
        ensures
            r == decimal_of(self),
    {
        if self.bits < 0 {
            return Err(ContractError::DomainError);
        }
        let magnitude: u128 = self.bits as u128;
        let one: u128 = ONE_BITS as u128;
        let whole: u128 = magnitude / one;
        let rest: u128 = magnitude % one;
        proof {
            let s = ONE_BITS as int;
            let d = DECIMAL_ONE as int;
            assert(magnitude * d == rest * d + (whole * d) * s) by (nonlinear_arith)
                requires
                    magnitude == s * whole + rest,
            ;
            lemma_hoist_over_denominator(rest * d, whole * d, s as nat);
            vstd::arithmetic::div_mod::lemma_mod_multiples_vanish(whole * d, rest * d, s);
            assert(rest * d + (whole * d) * s == s * (whole * d) + rest * d) by (nonlinear_arith);
            assert(0 <= rest * d < 0x1000_0000_0000_0000_0000_0000_0000_0000 && 0 <= whole * d
                < 0x0800_0000_0000_0000_0000_0000_0000_0000) by (nonlinear_arith)
                requires
                    0 <= rest < 0x1_0000_0000_0000_0000,
                    0 <= whole < 0x8000_0000_0000_0000,
                    d == 1_000_000_000_000_000_000,
            ;
        }
        let part: u128 = rest * DECIMAL_ONE;
        if part % one == 0 {
            Ok(whole * DECIMAL_ONE + part / one)
        } else {
            Ok(whole * DECIMAL_ONE + part / one + 1)
        }
    }

    /// The sum of two numbers.
    pub fn checked_add(self, rhs: FixedFloat) -> (r: Result<FixedFloat, ContractError>)
        ensures
            r == sum_of(self, rhs),
    {
        match self.bits.checked_add(rhs.bits) {
            Some(bits) => Ok(FixedFloat { bits }),
            None => Err(ContractError::Overflow),
        }
    }

    /// The difference of two numbers.
    pub fn checked_sub(self, rhs: FixedFloat) -> (r: Result<FixedFloat, ContractError>)
        ensures
            r == difference_of(self, rhs),
    {
        match self.bits.checked_sub(rhs.bits) {
            Some(bits) => Ok(FixedFloat { bits }),
            None => Err(ContractError::Overflow),
        }
    }

    /// The product of two numbers, rounded down to a multiple of `2^-64`.
    pub fn checked_mul(self, rhs: FixedFloat) -> (r: Result<FixedFloat, ContractError>)
        ensures
            r == product_of(self, rhs),
    {
        let product = if self.bits >= 0 || rhs.bits >= 0 {
            crate_checked_mul(self, rhs)
        } else if self.bits == i128::MIN {
            times_least(rhs)
        } else if rhs.bits == i128::MIN {
            proof {
                lemma_product_commutes(self.bits as int, rhs.bits as int);
            }
            times_least(self)
        } else {
            proof {
                lemma_product_of_negatives(self.bits as int, rhs.bits as int);
            }
            crate_checked_mul(FixedFloat { bits: -self.bits }, FixedFloat { bits: -rhs.bits })
        };
        match product {
            Some(p) => Ok(p),
            None => Err(ContractError::Overflow),
        }
    }

    /// The quotient of two numbers, rounded towards zero to a multiple of
    /// `2^-64`.
    pub fn checked_div(self, rhs: FixedFloat) -> (r: Result<FixedFloat, ContractError>)
        ensures
            r == quotient_of(self, rhs),
    {
        if rhs.bits == 0 {
            return Err(ContractError::DomainError);
        }
        match crate_checked_div(self, rhs) {
            Some(q) => Ok(q),
            None => Err(ContractError::Overflow),
        }
    }

    /// The power of a positive base with a real exponent, as the crate
    /// computes it.
    pub fn pow(self, exponent: FixedFloat) -> (r: Result<FixedFloat, ContractError>)
        ensures
            r == power_of(self, exponent),
            r matches Ok(power) ==> power.bits >= 0,
    {
        if self.bits <= 0 {
            return Err(ContractError::DomainError);
        }
        if exponent.bits < LEAST_EXPONENT_BITS {
            return Err(ContractError::Overflow);
        }
        match crate_pow(self, exponent) {
            Some(p) => Ok(p),
            None => Err(ContractError::Overflow),
        }
    }

    /// The number rounded down to a token amount.
    pub fn floor(self) -> (r: Result<u128, ContractError>)
        ensures
            r == floor_amount(self),
    {
        if self.bits >= 0 {
            let magnitude: u128 = self.bits as u128;
            let scale: u128 = ONE_BITS as u128;
            Ok(magnitude / scale)
        } else {
            Err(ContractError::Overflow)
        }
    }

    /// The number rounded up to a token amount.
    pub fn ceil(self) -> (r: Result<u128, ContractError>)
        ensures
            r == ceiling_amount(self),
    {
        let scale: u128 = ONE_BITS as u128;
        if self.bits >= 0 {
            let magnitude: u128 = self.bits as u128;
            let whole: u128 = magnitude / scale;
            if magnitude % scale == 0 {
                Ok(whole)
            } else {
                Ok(whole + 1)
            }
        } else if self.bits > -ONE_BITS {
            Ok(0)
        } else {
            Err(ContractError::Overflow)
        }
    }
}

} // verus!
