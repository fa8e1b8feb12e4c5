//! The tax of the chain's treasury on a transfer of native coins, computed
//! from the rate and the cap that the treasury answers with.

use crate::error::ContractError;
use vstd::arithmetic::div_mod::{
    lemma_fundamental_div_mod, lemma_hoist_over_denominator, lemma_mod_bound,
};
use vstd::prelude::*;
use vstd::string::StringExecFns;

verus! {

/// The number of parts that the rate one has: the rate is given in parts of
/// `10^-18`.
pub const DECIMAL_FRACTION: u128 = 1_000_000_000_000_000_000;

/// The least rate that no tax is computed for, `2^64` parts.
pub const RATE_LIMIT: u128 = 0x1_0000_0000_0000_0000;

/// What of `amount` arrives where the tax is charged on top of it at the
/// rate `rate`: `amount / (1 + rate)`, rounded down.
pub open spec fn amount_after_tax(amount: u128, rate: u128) -> int {
    amount * DECIMAL_FRACTION / (DECIMAL_FRACTION + rate)
}

/// What `compute_tax` returns: what the rate takes of the amount, and at
/// most the cap. `Overflow` for a rate of `2^64` parts or more.
pub open spec fn spec_compute_tax(amount: u128, rate: u128, cap: u128) -> Result<
    u128,
    ContractError,
> {
    if rate >= RATE_LIMIT {
        Err(ContractError::Overflow)
    } else if amount - amount_after_tax(amount, rate) <= cap {
        Ok((amount - amount_after_tax(amount, rate)) as u128)
    } else {
        Ok(cap)
    }
}

/// Whether transfers of the coin are exempt from tax.
pub fn is_tax_exempt(denom: &String) -> (r: bool)
    ensures
        r == (denom@ == "uluna"@),
{
    let exempt = String::from_str("uluna");
    *denom == exempt
}

/// The tax on a transfer of `amount` at the rate `rate`, in parts of
/// `10^-18`, with the cap `cap`.
pub fn compute_tax(amount: u128, rate: u128, cap: u128) -> (r: Result<u128, ContractError>)
    ensures
        r == spec_compute_tax(amount, rate, cap),
        r matches Ok(tax) ==> tax <= amount && tax <= cap,
{
    if rate >= RATE_LIMIT {
        return Err(ContractError::Overflow);
    }
    let whole: u128 = DECIMAL_FRACTION + rate;
    let times: u128 = amount / whole;
    let rest: u128 = amount % whole;
    proof {
        let d = DECIMAL_FRACTION as int;
        let m = whole as int;
        lemma_fundamental_div_mod(amount as int, m);
        lemma_mod_bound(amount as int, m);
        assert(0 <= rest * d < 0x2000_0000_0000_0000_0000_0000_0000_0000) by (nonlinear_arith)
            requires
                0 <= rest < 0x2_0000_0000_0000_0000,
                d == 1_000_000_000_000_000_000,
        ;
        assert(amount * d == rest * d + (times * d) * m) by (nonlinear_arith)
            requires
                amount == m * times + rest,
        ;
        lemma_hoist_over_denominator(rest * d, times * d, m as nat);
        lemma_fundamental_div_mod(rest * d, m);
        lemma_mod_bound(rest * d, m);
        assert(times * d <= times * m && (rest * d) / m <= rest) by (nonlinear_arith)
            requires
                d <= m,
                0 <= times,
                0 <= rest,
                rest * d == m * ((rest * d) / m) + (rest * d) % m,
                0 <= (rest * d) % m,
                0 < d,
        ;
        assert(times * m + rest == amount) by (nonlinear_arith)
            requires
                amount == m * times + rest,
        ;
        assert(0 <= times * d) by (nonlinear_arith)
            requires
                0 <= times,
                0 <= d,
        ;
        assert(0 <= (rest * d) / m) by (nonlinear_arith)
            requires
                rest * d == m * ((rest * d) / m) + (rest * d) % m,
                (rest * d) % m < m,
                0 <= rest * d,
                0 < m,
        ;
    }
    let after: u128 = times * DECIMAL_FRACTION + rest * DECIMAL_FRACTION / whole;
    let tax: u128 = amount - after;
    if tax <= cap {
        Ok(tax)
    } else {
        Ok(cap)
    }
}

} // verus!
