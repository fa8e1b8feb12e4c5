//! Pricing of the weighted constant-product market: how much of one asset
//! leaves the pool for a given amount of the other that enters it, and how
//! much has to enter for a given amount to leave.
//!
//! Where the two weights give the exponent one the formulas are ratios of
//! integers, and the amounts are computed exactly and rounded once: a
//! return down, a cost up. For every other exponent the reserve ratio is
//! taken at the full precision of the fixed-point type, rounded up, and
//! raised to the exponent by the outside crate. Reserves and amounts are
//! priced below `2^63`.

use crate::error::ContractError;
use crate::fixed_point::{
    ceiling_amount, difference_of, floor_amount, number_of, power_of, product_of, quotient_of,
    FixedFloat, INTEGER_LIMIT, ONE_BITS,
};
use vstd::arithmetic::div_mod::{lemma_fundamental_div_mod, lemma_mod_bound};
use vstd::prelude::*;

verus! {

/// The quotient of `n` by `d` rounded up, for `n >= 0` and `d > 0`.
pub open spec fn ceiling_quotient(n: int, d: int) -> int {
    if n % d == 0 {
        n / d
    } else {
        n / d + 1
    }
}

/// The part of the enlarged input reserve that was there before the offer,
/// `balance_in / (balance_in + amount_in)`, rounded up to a multiple of
/// `2^-64`. `Overflow` for a reserve from `2^63` on or a sum beyond the
/// integers of the machine, `DomainError` where reserve and offer are both
/// nothing.
pub open spec fn spec_offer_ratio(balance_in: u128, amount_in: u128) -> Result<
    FixedFloat,
    ContractError,
> {
    if balance_in >= INTEGER_LIMIT || balance_in + amount_in > u128::MAX {
        Err(ContractError::Overflow)
    } else if balance_in + amount_in == 0 {
        Err(ContractError::DomainError)
    } else {
        Ok(
            FixedFloat {
                bits: ceiling_quotient(balance_in * ONE_BITS, balance_in + amount_in) as i128,
            },
        )
    }
}

/// The output reserve over what is left of it after the request,
/// `balance_out / (balance_out - amount_out)`, rounded up to a multiple of
/// `2^-64`. `InsufficientPoolBalance` where the request is the whole reserve
/// or more, `Overflow` for a reserve from `2^63` on.
pub open spec fn spec_request_ratio(balance_out: u128, amount_out: u128) -> Result<
    FixedFloat,
    ContractError,
> {
    if amount_out >= balance_out {
        Err(ContractError::InsufficientPoolBalance)
    } else if balance_out >= INTEGER_LIMIT {
        Err(ContractError::Overflow)
    } else {
        Ok(
            FixedFloat {
                bits: ceiling_quotient(balance_out * ONE_BITS, balance_out - amount_out) as i128,
            },
        )
    }
}

/// `balance_out * (1 - power)` before it is rounded to a token amount.
pub open spec fn spec_unrounded_out(balance_out: u128, power: FixedFloat) -> Result<
    FixedFloat,
    ContractError,
> {
    match difference_of(FixedFloat { bits: ONE_BITS }, power) {
        Err(e) => Err(e),
        Ok(multiplier) => match number_of(balance_out) {
            Err(e) => Err(e),
            Ok(reserve) => product_of(reserve, multiplier),
        },
    }
}

/// `balance_in * (power - 1)` before it is rounded to a token amount.
pub open spec fn spec_unrounded_in(balance_in: u128, power: FixedFloat) -> Result<
    FixedFloat,
    ContractError,
> {
    match difference_of(power, FixedFloat { bits: ONE_BITS }) {
        Err(e) => Err(e),
        Ok(multiplier) => match number_of(balance_in) {
            Err(e) => Err(e),
            Ok(reserve) => product_of(reserve, multiplier),
        },
    }
}

/// The amount that leaves the pool where the offer ratio raised to the
/// weight ratio is `power`: `balance_out * (1 - power)`, rounded down.
pub open spec fn spec_amount_out_for(balance_out: u128, power: FixedFloat) -> Result<
    u128,
    ContractError,
> {
    match spec_unrounded_out(balance_out, power) {
        Err(e) => Err(e),
        Ok(amount) => floor_amount(amount),
    }
}

/// The amount that has to enter the pool where the request ratio raised to
/// the weight ratio is `power`: `balance_in * (power - 1)`, rounded up.
pub open spec fn spec_amount_in_for(balance_in: u128, power: FixedFloat) -> Result<
    u128,
    ContractError,
> {
    match spec_unrounded_in(balance_in, power) {
        Err(e) => Err(e),
        Ok(amount) => ceiling_amount(amount),
    }
}

/// The return of an offer for the exponent one: `balance_out * (1 -
/// balance_in / (balance_in + amount_in))`, which is `balance_out *
/// amount_in / (balance_in + amount_in)`, rounded down.
pub open spec fn even_out(balance_in: u128, balance_out: u128, amount_in: u128) -> int {
    balance_out * amount_in / (balance_in + amount_in)
}

/// The cost of a request for the exponent one: `balance_in * (balance_out /
/// (balance_out - amount_out) - 1)`, which is `balance_in * amount_out /
/// (balance_out - amount_out)`, rounded up.
pub open spec fn even_in(balance_in: u128, balance_out: u128, amount_out: u128) -> int {
    ceiling_quotient(balance_in * amount_out, balance_out - amount_out)
}

/// What `calc_out_given_in` returns.
///
/// An empty offer returns nothing. Reserves and offer are priced below
/// `2^63`. The exponent is `weight_in / weight_out`; for the exponent one
/// the return is exact, else it is `balance_out * (1 - ratio ^ exponent)`
/// with the offer ratio rounded up and the result rounded down.
pub open spec fn out_given_in(
    balance_in: u128,
    weight_in: FixedFloat,
    balance_out: u128,
    weight_out: FixedFloat,
    amount_in: u128,
) -> Result<u128, ContractError> {
    if amount_in == 0 {
        Ok(0u128)
    } else if balance_in >= INTEGER_LIMIT || balance_out >= INTEGER_LIMIT || amount_in
        >= INTEGER_LIMIT {
        Err(ContractError::Overflow)
    } else {
        match quotient_of(weight_in, weight_out) {
            Err(e) => Err(e),
            Ok(exponent) => if exponent.bits == ONE_BITS {
                Ok(even_out(balance_in, balance_out, amount_in) as u128)
            } else {
                match spec_offer_ratio(balance_in, amount_in) {
                    Err(e) => Err(e),
                    Ok(ratio) => match power_of(ratio, exponent) {
                        Err(e) => Err(e),
                        Ok(power) => spec_amount_out_for(balance_out, power),
                    },
                }
            },
        }
    }
}

/// What `calc_in_given_out` returns.
///
/// A request for the whole output reserve or more is refused. Reserves are
/// priced below `2^63`. The exponent is `weight_out / weight_in`; for the
/// exponent one the cost is exact, else it is `balance_in * (ratio ^
/// exponent - 1)` with the request ratio and the result rounded up.
pub open spec fn in_given_out(
    balance_in: u128,
    weight_in: FixedFloat,
    balance_out: u128,
    weight_out: FixedFloat,
    amount_out: u128,
) -> Result<u128, ContractError> {
    if amount_out >= balance_out {
        Err(ContractError::InsufficientPoolBalance)
    } else if balance_in >= INTEGER_LIMIT || balance_out >= INTEGER_LIMIT {
        Err(ContractError::Overflow)
    } else {
        match quotient_of(weight_out, weight_in) {
            Err(e) => Err(e),
            Ok(exponent) => if exponent.bits == ONE_BITS {
                Ok(even_in(balance_in, balance_out, amount_out) as u128)
            } else {
                match spec_request_ratio(balance_out, amount_out) {
                    Err(e) => Err(e),
                    Ok(ratio) => match power_of(ratio, exponent) {
                        Err(e) => Err(e),
                        Ok(power) => spec_amount_in_for(balance_in, power),
                    },
                }
            },
        }
    }
}

/// A product of two integers below `2^63` and its quotients fit the machine.
pub proof fn lemma_quotient_bounds(a: int, b: int, d: int)
    requires
        0 <= a < INTEGER_LIMIT,
        0 <= b <= ONE_BITS,
        0 < d,
    ensures
        0 <= a * b < 0x8000_0000_0000_0000_0000_0000_0000_0000,
        0 <= a * b / d <= a * b,
        0 <= ceiling_quotient(a * b, d) <= a * b,
        ceiling_quotient(a * b, d) * d >= a * b,
        (a * b / d) * d <= a * b,
        ceiling_quotient(a * b, d) * d < a * b + d,
{
    assert(0 <= a * b < 0x8000_0000_0000_0000_0000_0000_0000_0000) by (nonlinear_arith)
        requires
            0 <= a < 0x8000_0000_0000_0000,
            0 <= b <= 0x1_0000_0000_0000_0000,
    ;
    let n = a * b;
    lemma_fundamental_div_mod(n, d);
    lemma_mod_bound(n, d);
    let q = n / d;
    assert(0 <= q <= n && q * d <= n && (n % d != 0 ==> q + 1 <= n) && q * d == d * q)
        by (nonlinear_arith)
        requires
            n == d * q + n % d,
            0 <= n % d < d,
            0 <= n,
            0 < d,
    ;
    assert((q + 1) * d == q * d + d) by (nonlinear_arith);
}

/// The quotient of `n` by `d`, rounded up.
fn divide_up(n: u128, d: u128) -> (q: u128)
    requires
        0 < d,
        ceiling_quotient(n as int, d as int) <= u128::MAX,
    ensures
        q == ceiling_quotient(n as int, d as int),
{
    if n % d == 0 {
        n / d
    } else {
        n / d + 1
    }
}

/// The part of the enlarged input reserve that was there before an offer of
/// `amount_in`, rounded up.
pub fn offer_ratio(balance_in: u128, amount_in: u128) -> (r: Result<FixedFloat, ContractError>)
    ensures
        r == spec_offer_ratio(balance_in, amount_in),
        r matches Ok(ratio) ==> 0 <= ratio.bits <= ONE_BITS,
{
    if balance_in >= INTEGER_LIMIT {
        return Err(ContractError::Overflow);
    }
    let adjusted_in: u128 = match balance_in.checked_add(amount_in) {
        Some(sum) => sum,
        None => {
            return Err(ContractError::Overflow);
        },
    };
    if adjusted_in == 0 {
        return Err(ContractError::DomainError);
    }
    let one: u128 = ONE_BITS as u128;
    proof {
        lemma_quotient_bounds(balance_in as int, ONE_BITS as int, adjusted_in as int);
        lemma_ratio_at_most_one(balance_in as int, adjusted_in as int);
    }
    let bits: u128 = divide_up(balance_in * one, adjusted_in);
    Ok(FixedFloat { bits: bits as i128 })
}

/// A part of a whole, rounded up to a multiple of `2^-64`, is at most one.
proof fn lemma_ratio_at_most_one(part: int, whole: int)
    requires
        0 <= part <= whole,
        0 < whole,
    ensures
        ceiling_quotient(part * ONE_BITS, whole) <= ONE_BITS,
{
    let n = part * ONE_BITS;
    let one = ONE_BITS as int;
    lemma_fundamental_div_mod(n, whole);
    lemma_mod_bound(n, whole);
    let q = n / whole;
    let rest = n % whole;
    assert(part * one <= whole * one) by (nonlinear_arith)
        requires
            part <= whole,
            one > 0,
    ;
    if rest == 0 {
        assert(q <= one) by (nonlinear_arith)
            requires
                whole * q <= whole * one,
                0 < whole,
        ;
    } else {
        assert(q < one) by (nonlinear_arith)
            requires
                whole * q < whole * one,
                0 < whole,
        ;
    }
}

/// The output reserve over what a request of `amount_out` leaves of it,
/// rounded up.
pub fn request_ratio(balance_out: u128, amount_out: u128) -> (r: Result<FixedFloat, ContractError>)
    ensures
        r == spec_request_ratio(balance_out, amount_out),
        r matches Ok(ratio) ==> ratio.bits >= ONE_BITS,
{
    if amount_out >= balance_out {
        return Err(ContractError::InsufficientPoolBalance);
    }
    if balance_out >= INTEGER_LIMIT {
        return Err(ContractError::Overflow);
    }
    let updated_balance: u128 = balance_out - amount_out;
    let one: u128 = ONE_BITS as u128;
    proof {
        lemma_quotient_bounds(balance_out as int, ONE_BITS as int, updated_balance as int);
        let n = balance_out * ONE_BITS;
        let q = n / (updated_balance as int);
        lemma_fundamental_div_mod(n, updated_balance as int);
        lemma_mod_bound(n, updated_balance as int);
        assert(ceiling_quotient(n, updated_balance as int) >= ONE_BITS) by (nonlinear_arith)
            requires
                ceiling_quotient(n, updated_balance as int) * updated_balance >= n,
                n == balance_out * 0x1_0000_0000_0000_0000,
                0 < updated_balance <= balance_out,
        ;
    }
    let bits: u128 = divide_up(balance_out * one, updated_balance);
    Ok(FixedFloat { bits: bits as i128 })
}

/// `balance_out * (1 - power)` as a fixed-point number.
pub fn unrounded_out(balance_out: u128, power: FixedFloat) -> (r: Result<
    FixedFloat,
    ContractError,
>)
    ensures
        r == spec_unrounded_out(balance_out, power),
{
    let multiplier = FixedFloat::one().checked_sub(power)?;
    let reserve = FixedFloat::from_num(balance_out)?;
    reserve.checked_mul(multiplier)
}

/// `balance_in * (power - 1)` as a fixed-point number.
pub fn unrounded_in(balance_in: u128, power: FixedFloat) -> (r: Result<FixedFloat, ContractError>)
    ensures
        r == spec_unrounded_in(balance_in, power),
{
    let multiplier = power.checked_sub(FixedFloat::one())?;
    let reserve = FixedFloat::from_num(balance_in)?;
    reserve.checked_mul(multiplier)
}

/// The amount that leaves the pool once the offer ratio has been raised to
/// the weight ratio. A power that is not negative leaves the return within
/// the reserve.
pub fn amount_out_for(balance_out: u128, power: FixedFloat) -> (r: Result<u128, ContractError>)
    ensures
        r == spec_amount_out_for(balance_out, power),
        power.bits >= 0 ==> (r matches Ok(amount) ==> amount <= balance_out),
{
    proof {
        if power.bits >= 0 && balance_out < INTEGER_LIMIT {
            let m = ONE_BITS - power.bits;
            let one = ONE_BITS as int;
            let b = balance_out as int;
            assert(b * one * m == (b * m) * one) by (nonlinear_arith);
            assert((b * m) * one / one == b * m) by (nonlinear_arith)
                requires
                    one > 0,
            ;
            assert(b * m <= b * one) by (nonlinear_arith)
                requires
                    m <= one,
                    0 <= b,
            ;
            vstd::arithmetic::div_mod::lemma_div_is_ordered(b * m, b * one, one);
            assert(b * one / one == b) by (nonlinear_arith)
                requires
                    one > 0,
            ;
        }
    }
    let amount = unrounded_out(balance_out, power)?;
    amount.floor()
}

/// The amount that has to enter the pool once the request ratio has been
/// raised to the weight ratio.
pub fn amount_in_for(balance_in: u128, power: FixedFloat) -> (r: Result<u128, ContractError>)
    ensures
        r == spec_amount_in_for(balance_in, power),
{
    let amount = unrounded_in(balance_in, power)?;
    amount.ceil()
}

/// The amount of the output asset that an offer of `amount_in` buys:
/// `balance_out * (1 - (balance_in / (balance_in + amount_in)) ^ (weight_in /
/// weight_out))`, rounded down. An empty offer buys nothing, whatever the
/// reserves and weights are, and no offer buys more than the reserve holds.
pub fn calc_out_given_in(
    balance_in: u128,
    weight_in: FixedFloat,
    balance_out: u128,
    weight_out: FixedFloat,
    amount_in: u128,
) -> (r: Result<u128, ContractError>)
    ensures
        r == out_given_in(balance_in, weight_in, balance_out, weight_out, amount_in),
        amount_in == 0 ==> r == Ok::<u128, ContractError>(0u128),
        r matches Ok(amount_out) ==> amount_out <= balance_out,
{
    if amount_in == 0 {
        return Ok(0);
    }
    if balance_in >= INTEGER_LIMIT || balance_out >= INTEGER_LIMIT || amount_in >= INTEGER_LIMIT {
        return Err(ContractError::Overflow);
    }
    let exponent = weight_in.checked_div(weight_out)?;
    if exponent.bits == ONE_BITS {
        proof {
            lemma_even_out(balance_in, balance_out, amount_in);
        }
        return Ok(balance_out * amount_in / (balance_in + amount_in));
    }
    let ratio = offer_ratio(balance_in, amount_in)?;
    let power = ratio.pow(exponent)?;
    amount_out_for(balance_out, power)
}

/// The amount of the input asset that has to be offered for `amount_out` to
/// leave the pool: `balance_in * ((balance_out / (balance_out - amount_out))
/// ^ (weight_out / weight_in) - 1)`, rounded up. A request for the whole
/// output reserve or more is refused, and a request for nothing costs
/// nothing.
pub fn calc_in_given_out(
    balance_in: u128,
    weight_in: FixedFloat,
    balance_out: u128,
    weight_out: FixedFloat,
    amount_out: u128,
) -> (r: Result<u128, ContractError>)
    ensures
        r == in_given_out(balance_in, weight_in, balance_out, weight_out, amount_out),
        amount_out >= balance_out <==> r == Err::<u128, ContractError>(
            ContractError::InsufficientPoolBalance,
        ),
        amount_out == 0 ==> (r matches Ok(amount_in) ==> amount_in == 0),
{
    proof {
        lemma_empty_request_is_free(balance_in, weight_in, balance_out, weight_out);
    }
    if amount_out >= balance_out {
        return Err(ContractError::InsufficientPoolBalance);
    }
    if balance_in >= INTEGER_LIMIT || balance_out >= INTEGER_LIMIT {
        return Err(ContractError::Overflow);
    }
    let exponent = weight_out.checked_div(weight_in)?;
    if exponent.bits == ONE_BITS {
        proof {
            lemma_quotient_bounds(
                balance_in as int,
                amount_out as int,
                (balance_out - amount_out) as int,
            );
        }
        return Ok(divide_up(balance_in * amount_out, balance_out - amount_out));
    }
    let ratio = request_ratio(balance_out, amount_out)?;
    let power = ratio.pow(exponent)?;
    amount_in_for(balance_in, power)
}

/// For the exponent one the return of an offer fits the machine, stays
/// within the output reserve, and leaves the product of the two reserves no
/// smaller than it was.
pub proof fn lemma_even_out(balance_in: u128, balance_out: u128, amount_in: u128)
    requires
        balance_in < INTEGER_LIMIT,
        balance_out < INTEGER_LIMIT,
        0 < amount_in < INTEGER_LIMIT,
    ensures
        0 <= balance_out * amount_in < 0x8000_0000_0000_0000_0000_0000_0000_0000,
        0 <= even_out(balance_in, balance_out, amount_in) <= balance_out,
        balance_in > 0 && balance_out > 0 ==> even_out(balance_in, balance_out, amount_in)
            < balance_out,
        (balance_in + amount_in) * (balance_out - even_out(balance_in, balance_out, amount_in))
            >= balance_in * balance_out,
{
    lemma_quotient_bounds(balance_out as int, amount_in as int, balance_in + amount_in);
    let n = balance_out * amount_in;
    let d = balance_in + amount_in;
    let r = n / d;
    assert(r <= balance_out && d * (balance_out - r) >= balance_in * balance_out)
        by (nonlinear_arith)
        requires
            r * d <= n,
            n == balance_out * amount_in,
            d == balance_in + amount_in,
            0 <= balance_in,
            0 < amount_in,
            0 <= balance_out,
            0 <= r,
    ;
    if balance_in > 0 && balance_out > 0 {
        assert(r < balance_out) by (nonlinear_arith)
            requires
                r * d <= n,
                n == balance_out * amount_in,
                d == balance_in + amount_in,
                0 < balance_in,
                0 < amount_in,
                0 < balance_out,
        ;
    }
}

/// Dividing a number that is not zero by itself gives one.
pub proof fn lemma_equal_weights(weight: FixedFloat)
    requires
        weight.bits != 0,
    ensures
        quotient_of(weight, weight) == Ok::<FixedFloat, ContractError>(
            FixedFloat { bits: ONE_BITS },
        ),
{
    let w = weight.bits as int;
    let one = ONE_BITS as int;
    if w > 0 {
        assert(w * one / w == one) by (nonlinear_arith)
            requires
                w > 0,
        ;
    } else {
        assert(-(w * one) == (-w) * one && (-w) * one / (-w) == one) by (nonlinear_arith)
            requires
                w < 0,
        ;
        assert(w * one < 0) by (nonlinear_arith)
            requires
                w < 0,
                one > 0,
        ;
    }
}

/// With equal weights an offer leaves the product of the two reserves no
/// smaller than it was: what it returns is rounded down.
pub proof fn lemma_offer_keeps_invariant(
    balance_in: u128,
    balance_out: u128,
    weight: FixedFloat,
    amount_in: u128,
)
    requires
        weight.bits != 0,
    ensures
        out_given_in(balance_in, weight, balance_out, weight, amount_in) matches Ok(amount_out)
            ==> amount_out <= balance_out && (balance_in + amount_in) * (balance_out - amount_out)
            >= balance_in * balance_out,
{
    lemma_equal_weights(weight);
    if amount_in == 0 {
        assert((balance_in + 0) * (balance_out - 0) == balance_in * balance_out);
    } else if balance_in < INTEGER_LIMIT && balance_out < INTEGER_LIMIT && amount_in
        < INTEGER_LIMIT {
        lemma_even_out(balance_in, balance_out, amount_in);
    }
}

/// With equal weights a request leaves the product of the two reserves no
/// smaller than it was: what it costs is rounded up.
pub proof fn lemma_request_keeps_invariant(
    balance_in: u128,
    balance_out: u128,
    weight: FixedFloat,
    amount_out: u128,
)
    requires
        weight.bits != 0,
    ensures
        in_given_out(balance_in, weight, balance_out, weight, amount_out) matches Ok(amount_in)
            ==> (balance_in + amount_in) * (balance_out - amount_out) >= balance_in * balance_out,
{
    lemma_equal_weights(weight);
    if amount_out < balance_out && balance_in < INTEGER_LIMIT && balance_out < INTEGER_LIMIT {
        let d = balance_out - amount_out;
        lemma_quotient_bounds(balance_in as int, amount_out as int, d);
        let r = even_in(balance_in, balance_out, amount_out);
        assert((balance_in + r) * d >= balance_in * balance_out) by (nonlinear_arith)
            requires
                r * d >= balance_in * amount_out,
                d == balance_out - amount_out,
                0 <= r,
        ;
    }
}

/// With whatever weights, a request for nothing costs nothing.
pub proof fn lemma_empty_request_is_free(
    balance_in: u128,
    weight_in: FixedFloat,
    balance_out: u128,
    weight_out: FixedFloat,
)
    ensures
        in_given_out(balance_in, weight_in, balance_out, weight_out, 0) matches Ok(amount_in)
            ==> amount_in == 0,
{
    if 0 < balance_out < INTEGER_LIMIT && balance_in < INTEGER_LIMIT {
        let n = balance_out * ONE_BITS;
        assert(n % (balance_out as int) == 0 && n / (balance_out as int) == ONE_BITS)
            by (nonlinear_arith)
            requires
                n == balance_out * 0x1_0000_0000_0000_0000,
                balance_out > 0,
        ;
        assert(balance_in * 0 == 0);
        assert((balance_in * 0) % (balance_out as int) == 0);
        assert(balance_in * ONE_BITS * 0 == 0);
    }
}

/// The round trip with equal weights: asking what has to be offered for the
/// return of an offer.
///
/// The offer is never recovered as more than it was. It is recovered within
/// one unit exactly where the return is fine enough: where `balance_in *
/// amount_out > (amount_in - 2) * (balance_out - amount_out)`. That holds
/// wherever `(balance_in + amount_in - 1)^2 <= balance_in * balance_out`.
/// Where one unit of the return is worth more than that, rounding the
/// return down loses more than one unit of the offer. An empty input
/// reserve has no round trip: the offer buys the whole output reserve.
pub proof fn lemma_round_trip(
    balance_in: u128,
    balance_out: u128,
    weight: FixedFloat,
    amount_in: u128,
)
    requires
        weight.bits != 0,
        0 < balance_in < INTEGER_LIMIT,
        0 < balance_out < INTEGER_LIMIT,
        amount_in < INTEGER_LIMIT,
    ensures
        out_given_in(balance_in, weight, balance_out, weight, amount_in) matches Ok(amount_out)
            && in_given_out(balance_in, weight, balance_out, weight, amount_out) matches Ok(
            recovered,
        ) && recovered <= amount_in && (amount_in - recovered <= 1 <==> balance_in * amount_out
            > (amount_in - 2) * (balance_out - amount_out)) && ((balance_in + amount_in - 1) * (
        balance_in + amount_in - 1) <= balance_in * balance_out ==> amount_in - recovered <= 1),
{
    lemma_equal_weights(weight);
    if amount_in == 0 {
        lemma_empty_request_is_free(balance_in, weight, balance_out, weight);
        assert(balance_in * 0 == 0);
        assert((balance_in * 0) % (balance_out as int) == 0);
        assert(balance_in * 0 > (0 - 2) * (balance_out - 0)) by (nonlinear_arith)
            requires
                balance_out > 0,
        ;
    } else {
        lemma_even_out(balance_in, balance_out, amount_in);
        let o = even_out(balance_in, balance_out, amount_in);
        let d = balance_out - o;
        let sum = balance_in + amount_in;
        lemma_quotient_bounds(balance_out as int, amount_in as int, sum);
        lemma_quotient_bounds(balance_in as int, o, d);
        let back = ceiling_quotient(balance_in * o, d);
        // the return is at most the exact return, so its cost is at most the offer
        assert(balance_in * o <= amount_in * d) by (nonlinear_arith)
            requires
                o * sum <= balance_out * amount_in,
                sum == balance_in + amount_in,
                d == balance_out - o,
        ;
        assert(back <= amount_in) by (nonlinear_arith)
            requires
                back * d < balance_in * o + d,
                balance_in * o <= amount_in * d,
                0 < d,
        ;
        assert(amount_in - back <= 1 <==> balance_in * o > (amount_in - 2) * d)
            by (nonlinear_arith)
            requires
                back * d >= balance_in * o,
                back * d < balance_in * o + d,
                0 < d,
        ;
        if (sum - 1) * (sum - 1) <= balance_in * balance_out {
            lemma_fundamental_div_mod(balance_out * amount_in, sum);
            lemma_mod_bound(balance_out * amount_in, sum);
            assert(balance_in * o > (amount_in - 2) * d) by (nonlinear_arith)
                requires
                    balance_out * amount_in == sum * o + (balance_out * amount_in) % sum,
                    0 <= (balance_out * amount_in) % sum < sum,
                    (sum - 1) * (sum - 1) <= balance_in * balance_out,
                    sum == balance_in + amount_in,
                    d == balance_out - o,
                    0 < balance_in,
                    0 < amount_in,
                    0 < balance_out,
                    0 <= o < balance_out,
            ;
        }
    }
}

} // verus!
