//! The amounts of a swap: what enters the pool, what leaves it, and whether
//! the trader's price protection admits the exchange.

use crate::error::ContractError;
use crate::fixed_point::{
    difference_of, number_of, product_of, quotient_of, ratio_of, FixedFloat, INTEGER_LIMIT,
    ONE_BITS,
};
use crate::math::{calc_out_given_in, out_given_in};
use vstd::prelude::*;

verus! {

/// What a swap is computed from. The weights are those of the time of the
/// swap, and the taxes are what the tax oracle charges on the two transfers:
/// on the offered amount as it enters the pool, and on the ask amount as it
/// leaves. A leg that is no native coin has the tax zero.
#[derive(Clone, Copy, Debug, PartialEq, Eq, Structural)]
pub struct SwapTerms {
    pub offer_balance: u128,
    pub offer_weight: FixedFloat,
    pub ask_balance: u128,
    pub ask_weight: FixedFloat,
    pub offer_amount: u128,
    pub offer_tax: u128,
    pub ask_tax: u128,
    pub belief_price: Option<FixedFloat>,
    pub max_spread: Option<FixedFloat>,
}

/// The amounts of an admitted swap.
#[derive(Clone, Copy, Debug, PartialEq, Eq, Structural)]
pub struct SwapAmounts {
    /// What the offer adds to the reserve of the offered asset: the offered
    /// amount less the tax on it.
    pub offer_received: u128,
    /// What the swap takes out of the reserve of the asked asset.
    pub ask_amount: u128,
    /// What is transferred to the recipient: the ask amount less the tax on
    /// it.
    pub ask_sent: u128,
}

/// The least ask amount that belief price and maximal spread admit for an
/// offer: `belief_price * offer_amount * (1 - max_spread)`.
pub open spec fn minimum_ask(offer_amount: u128, belief_price: FixedFloat, max_spread: FixedFloat)
    -> Result<FixedFloat, ContractError> {
    match number_of(offer_amount) {
        Err(e) => Err(e),
        Ok(offer) => match product_of(belief_price, offer) {
            Err(e) => Err(e),
            Ok(expected) => match difference_of(FixedFloat { bits: ONE_BITS }, max_spread) {
                Err(e) => Err(e),
                Ok(kept) => product_of(expected, kept),
            },
        },
    }
}

/// The price of the pool before the swap, in units of the asked asset for
/// one unit of the offered asset: `(ask_balance / offer_balance) *
/// (offer_weight / ask_weight)`. `DomainError` for an empty offer reserve.
pub open spec fn spot_price(terms: SwapTerms) -> Result<FixedFloat, ContractError> {
    match ratio_of(terms.ask_balance, terms.offer_balance) {
        Err(e) => Err(e),
        Ok(reserves) => match quotient_of(terms.offer_weight, terms.ask_weight) {
            Err(e) => Err(e),
            Ok(weights) => product_of(reserves, weights),
        },
    }
}

/// The price that the spread is measured against: the trader's belief
/// price, or the price of the pool before the swap where the trader names
/// none.
pub open spec fn believed_price(terms: SwapTerms) -> Result<FixedFloat, ContractError> {
    match terms.belief_price {
        Some(price) => Ok(price),
        None => spot_price(terms),
    }
}

/// The least ask amount that the trader's bound admits, where a maximal
/// spread is given.
pub open spec fn least_ask(terms: SwapTerms, max_spread: FixedFloat) -> Result<
    FixedFloat,
    ContractError,
> {
    match believed_price(terms) {
        Err(e) => Err(e),
        Ok(price) => minimum_ask(terms.offer_amount, price, max_spread),
    }
}

/// Whether the trader's price protection admits the ask amount. A bound is
/// in force where a maximal spread is given; it fails with
/// `MaxSpreadExceeded` where the ask amount is below `price * offer_amount *
/// (1 - max_spread)`, the price being the believed one.
pub open spec fn spread_verdict(terms: SwapTerms, ask_amount: u128) -> Result<(), ContractError> {
    match terms.max_spread {
        None => Ok(()),
        Some(spread) => match least_ask(terms, spread) {
            Err(e) => Err(e),
            Ok(least) => if ask_amount * ONE_BITS >= least.bits {
                Ok(())
            } else {
                Err(ContractError::MaxSpreadExceeded)
            },
        },
    }
}

/// Whether the ask amount violates the trader's bound: a maximal spread is
/// given, and the ask amount is below the least that it admits.
pub open spec fn violates_spread(terms: SwapTerms, ask_amount: u128) -> bool {
    &&& terms.max_spread matches Some(spread)
    &&& least_ask(terms, spread) matches Ok(least)
    &&& ask_amount * ONE_BITS < least.bits
}

/// The offer less the tax on it: what the offer adds to its reserve.
/// `Overflow` where the tax exceeds the offer.
pub open spec fn received_offer(terms: SwapTerms) -> Result<u128, ContractError> {
    if terms.offer_tax > terms.offer_amount {
        Err(ContractError::Overflow)
    } else {
        Ok((terms.offer_amount - terms.offer_tax) as u128)
    }
}

/// What follows once the pricing has turned the received offer into
/// `priced`. The price protection comes first: an ask amount below the
/// trader's bound fails with `MaxSpreadExceeded` whatever else holds of it.
/// Then the ask amount has to leave something of the reserve, the enlarged
/// offer reserve has to stay below `2^63`, and the tax on the ask amount
/// cannot exceed it.
pub open spec fn settle_swap(terms: SwapTerms, priced: Result<u128, ContractError>) -> Result<
    SwapAmounts,
    ContractError,
> {
    match received_offer(terms) {
        Err(e) => Err(e),
        Ok(offer_received) => match priced {
            Err(e) => Err(e),
            Ok(ask_amount) => match spread_verdict(terms, ask_amount) {
                Err(e) => Err(e),
                Ok(_) => if ask_amount >= terms.ask_balance {
                    Err(ContractError::InsufficientPoolBalance)
                } else if terms.offer_balance + offer_received >= INTEGER_LIMIT {
                    Err(ContractError::Overflow)
                } else if terms.ask_tax > ask_amount {
                    Err(ContractError::Overflow)
                } else {
                    Ok(
                        SwapAmounts {
                            offer_received,
                            ask_amount,
                            ask_sent: (ask_amount - terms.ask_tax) as u128,
                        },
                    )
                },
            },
        },
    }
}

/// What `compute_swap` returns: the offer less its tax is priced and the
/// swap settled.
pub open spec fn spec_compute_swap(terms: SwapTerms) -> Result<SwapAmounts, ContractError> {
    match received_offer(terms) {
        Err(e) => Err(e),
        Ok(offer_received) => settle_swap(
            terms,
            out_given_in(
                terms.offer_balance,
                terms.offer_weight,
                terms.ask_balance,
                terms.ask_weight,
                offer_received,
            ),
        ),
    }
}

/// The price of the pool before the swap.
pub fn current_price(terms: &SwapTerms) -> (r: Result<FixedFloat, ContractError>)
    ensures
        r == spot_price(*terms),
{
    let reserves = FixedFloat::from_ratio(terms.ask_balance, terms.offer_balance)?;
    let weights = terms.offer_weight.checked_div(terms.ask_weight)?;
    reserves.checked_mul(weights)
}

/// Whether the trader's price protection admits the ask amount.
pub fn check_spread(terms: &SwapTerms, ask_amount: u128) -> (r: Result<(), ContractError>)
    ensures
        r == spread_verdict(*terms, ask_amount),
{
    match terms.max_spread {
        None => Ok(()),
        Some(spread) => {
            let price = match terms.belief_price {
                Some(price) => price,
                None => current_price(terms)?,
            };
            let offer = FixedFloat::from_num(terms.offer_amount)?;
            let expected = price.checked_mul(offer)?;
            let kept = FixedFloat::one().checked_sub(spread)?;
            let least = expected.checked_mul(kept)?;
            if ask_amount >= INTEGER_LIMIT {
                return Ok(());
            }
            let scaled: i128 = (ask_amount as i128) * ONE_BITS;
            if scaled >= least.bits {
                Ok(())
            } else {
                Err(ContractError::MaxSpreadExceeded)
            }
        },
    }
}

/// Settles a swap whose received offer the pricing has turned into `priced`.
pub fn settle(terms: &SwapTerms, priced: Result<u128, ContractError>) -> (r: Result<
    SwapAmounts,
    ContractError,
>)
    ensures
        r == settle_swap(*terms, priced),
        r matches Ok(amounts) ==> {
            &&& amounts.offer_received == terms.offer_amount - terms.offer_tax
            &&& terms.offer_balance + amounts.offer_received < INTEGER_LIMIT
            &&& amounts.ask_amount < terms.ask_balance
            &&& amounts.ask_sent == amounts.ask_amount - terms.ask_tax
        },
{
    if terms.offer_tax > terms.offer_amount {
        return Err(ContractError::Overflow);
    }
    let ask_amount: u128 = priced?;
    check_spread(terms, ask_amount)?;
    if ask_amount >= terms.ask_balance {
        return Err(ContractError::InsufficientPoolBalance);
    }
    let offer_received: u128 = terms.offer_amount - terms.offer_tax;
    if terms.offer_balance >= INTEGER_LIMIT || offer_received >= INTEGER_LIMIT
        - terms.offer_balance {
        return Err(ContractError::Overflow);
    }
    if terms.ask_tax > ask_amount {
        return Err(ContractError::Overflow);
    }
    Ok(SwapAmounts { offer_received, ask_amount, ask_sent: ask_amount - terms.ask_tax })
}

/// The amounts of the swap with these terms, or why it is refused.
pub fn compute_swap(terms: &SwapTerms) -> (r: Result<SwapAmounts, ContractError>)
    ensures
        r == spec_compute_swap(*terms),
        r matches Ok(amounts) ==> {
            &&& amounts.offer_received == terms.offer_amount - terms.offer_tax
            &&& terms.offer_balance + amounts.offer_received < INTEGER_LIMIT
            &&& amounts.ask_amount < terms.ask_balance
            &&& amounts.ask_sent == amounts.ask_amount - terms.ask_tax
        },
{
    if terms.offer_tax > terms.offer_amount {
        return Err(ContractError::Overflow);
    }
    let priced = calc_out_given_in(
        terms.offer_balance,
        terms.offer_weight,
        terms.ask_balance,
        terms.ask_weight,
        terms.offer_amount - terms.offer_tax,
    );
    settle(terms, priced)
}

/// A swap whose ask amount violates the trader's bound is not settled: it
/// fails with `MaxSpreadExceeded`, unless the tax on the offer exceeds the
/// offer, which fails before anything is priced.
pub proof fn lemma_spread_violation_refused(terms: SwapTerms, ask_amount: u128)
    requires
        violates_spread(terms, ask_amount),
    ensures
        settle_swap(terms, Ok(ask_amount)) is Err,
        received_offer(terms) is Ok ==> settle_swap(terms, Ok(ask_amount)) == Err::<
            SwapAmounts,
            ContractError,
        >(ContractError::MaxSpreadExceeded),
{
}

} // verus!
