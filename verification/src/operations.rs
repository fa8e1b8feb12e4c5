//! The router's single swap operation: which messages swap the whole
//! balance of the offered asset into the asked one.
//!
//! The router itself asks nobody. It says which query it needs answered
//! next, and once the answers are there, which message is to be sent. Its
//! caller performs the queries and sends the message.

use crate::asset::{Asset, AssetInfo};
use crate::error::ContractError;
use crate::fixed_point::FixedFloat;
use crate::pool::{
    clone_text, lemma_swap_beyond_spread, swapped, Pool, SwapOutcome, SwapRequest, TaxAdjustment,
};
use crate::swap::violates_spread;
use vstd::prelude::*;

verus! {

/// An amount of a native coin.
#[derive(Debug, PartialEq, Eq)]
pub struct Coin {
    pub denom: String,
    pub amount: u128,
}

/// One hop of a route.
#[derive(Debug, PartialEq, Eq)]
pub enum SwapOperation {
    /// A swap of native coins on the chain's own market.
    NativeSwap { offer_denom: String, ask_denom: String },
    /// A swap in the pool of the two assets.
    TerraSwap { offer_asset_info: AssetInfo, ask_asset_info: AssetInfo },
}

/// A message that the router has sent for a hop.
#[derive(Debug, PartialEq, Eq)]
pub enum RouterMessage {
    /// Swap the coin on the chain's market; the router keeps the return.
    NativeSwap { offer_coin: Coin, ask_denom: String },
    /// Swap the coin on the chain's market and send the return to `to`.
    NativeSwapSend { to: String, offer_coin: Coin, ask_denom: String },
    /// Execute the swap on the pool contract, with the offered coin
    /// attached.
    PairSwap { pair_contract: String, funds: Coin, request: SwapRequest },
    /// Send the offered tokens to the pool contract through their token
    /// contract, with the swap as the message that goes with them.
    TokenSend { token_contract: String, pair_contract: String, amount: u128, request: SwapRequest },
}

/// A question that the router needs answered before it can go on.
#[derive(Debug, PartialEq, Eq)]
pub enum RouterQuery {
    /// How much of the native coin does the account hold?
    NativeBalance { account: String, denom: String },
    /// How much of the token does the account hold?
    TokenBalance { contract_addr: String, account: String },
    /// What is the tax on a transfer of this amount of the native coin?
    Tax { amount: u128, denom: String },
    /// Which pool does the factory know for the two assets?
    FactoryPair { offer_asset_info: AssetInfo, ask_asset_info: AssetInfo },
}

/// The answers that the router's caller has collected so far.
#[derive(Debug, PartialEq, Eq)]
pub struct QueryAnswers {
    /// The router's balance of the offered asset.
    pub balance: Option<u128>,
    /// The tax on a transfer of that balance.
    pub tax: Option<u128>,
    /// The pool contract of the two assets.
    pub pair_contract: Option<String>,
}

/// What the router's caller is to do next.
#[derive(Debug, PartialEq, Eq)]
pub enum OperationStep {
    /// Perform the query and come back with its answer.
    Ask(RouterQuery),
    /// Send the message; the operation is complete.
    Send(RouterMessage),
}

/// What `asset_into_swap_msg` returns.
///
/// A native coin goes to the pool contract attached to the swap, after the
/// tax on its transfer has been taken off: `Overflow` where the tax exceeds
/// the amount. A token goes through its own contract in full, as tokens pay
/// no tax.
pub open spec fn spec_asset_into_swap_msg(
    pair_contract: String,
    offer_asset: Asset,
    max_spread: Option<FixedFloat>,
    to: Option<String>,
    tax: u128,
) -> Result<RouterMessage, ContractError> {
    match offer_asset.info {
        AssetInfo::NativeToken { denom } => if tax > offer_asset.amount {
            Err(ContractError::Overflow)
        } else {
            Ok(
                RouterMessage::PairSwap {
                    pair_contract,
                    funds: Coin { denom, amount: (offer_asset.amount - tax) as u128 },
                    request: SwapRequest {
                        offer_asset: Asset {
                            info: offer_asset.info,
                            amount: (offer_asset.amount - tax) as u128,
                        },
                        belief_price: None,
                        max_spread,
                        to,
                    },
                },
            )
        },
        AssetInfo::Token { contract_addr } => Ok(
            RouterMessage::TokenSend {
                token_contract: contract_addr,
                pair_contract,
                amount: offer_asset.amount,
                request: SwapRequest { offer_asset, belief_price: None, max_spread, to },
            },
        ),
    }
}

/// The step of a swap on the chain's market. The router swaps all it holds
/// of the offered coin; where the return is sent on, the tax on the transfer
/// is taken off first.
pub open spec fn native_swap_step(
    contract_address: String,
    offer_denom: String,
    ask_denom: String,
    to: Option<String>,
    answers: QueryAnswers,
) -> Result<OperationStep, ContractError> {
    match answers.balance {
        None => Ok(
            OperationStep::Ask(
                RouterQuery::NativeBalance { account: contract_address, denom: offer_denom },
            ),
        ),
        Some(amount) => match to {
            None => Ok(
                OperationStep::Send(
                    RouterMessage::NativeSwap {
                        offer_coin: Coin { denom: offer_denom, amount },
                        ask_denom,
                    },
                ),
            ),
            Some(recipient) => match answers.tax {
                None => Ok(OperationStep::Ask(RouterQuery::Tax { amount, denom: offer_denom })),
                Some(tax) => if tax > amount {
                    Err(ContractError::Overflow)
                } else {
                    Ok(
                        OperationStep::Send(
                            RouterMessage::NativeSwapSend {
                                to: recipient,
                                offer_coin: Coin {
                                    denom: offer_denom,
                                    amount: (amount - tax) as u128,
                                },
                                ask_denom,
                            },
                        ),
                    )
                },
            },
        },
    }
}

/// The step of a swap in a pool. The router asks the factory for the pool,
/// then for all it holds of the offered asset, then, for a native coin, for
/// the tax on it, and sends that asset into the pool's swap.
pub open spec fn pool_swap_step(
    contract_address: String,
    offer_asset_info: AssetInfo,
    ask_asset_info: AssetInfo,
    to: Option<String>,
    answers: QueryAnswers,
) -> Result<OperationStep, ContractError> {
    match answers.pair_contract {
        None => Ok(OperationStep::Ask(RouterQuery::FactoryPair { offer_asset_info, ask_asset_info })),
        Some(pair_contract) => match answers.balance {
            None => match offer_asset_info {
                AssetInfo::NativeToken { denom } => Ok(
                    OperationStep::Ask(
                        RouterQuery::NativeBalance { account: contract_address, denom },
                    ),
                ),
                AssetInfo::Token { contract_addr } => Ok(
                    OperationStep::Ask(
                        RouterQuery::TokenBalance { contract_addr, account: contract_address },
                    ),
                ),
            },
            Some(amount) => match offer_asset_info {
                AssetInfo::NativeToken { denom } => match answers.tax {
                    None => Ok(OperationStep::Ask(RouterQuery::Tax { amount, denom })),
                    Some(tax) => sent(
                        spec_asset_into_swap_msg(
                            pair_contract,
                            Asset { info: offer_asset_info, amount },
                            None,
                            to,
                            tax,
                        ),
                    ),
                },
                AssetInfo::Token { .. } => sent(
                    spec_asset_into_swap_msg(
                        pair_contract,
                        Asset { info: offer_asset_info, amount },
                        None,
                        to,
                        0,
                    ),
                ),
            },
        },
    }
}

/// The final step with a message, or the error in its place.
pub open spec fn sent(message: Result<RouterMessage, ContractError>) -> Result<
    OperationStep,
    ContractError,
> {
    match message {
        Ok(m) => Ok(OperationStep::Send(m)),
        Err(e) => Err(e),
    }
}

/// What `execute_swap_operation` returns: `Unauthorized` for any sender but
/// the router itself, else the step of the operation.
pub open spec fn spec_execute_swap_operation(
    contract_address: String,
    sender: String,
    operation: SwapOperation,
    to: Option<String>,
    answers: QueryAnswers,
) -> Result<OperationStep, ContractError> {
    if contract_address@ != sender@ {
        Err(ContractError::Unauthorized)
    } else {
        match operation {
            SwapOperation::NativeSwap { offer_denom, ask_denom } => native_swap_step(
                contract_address,
                offer_denom,
                ask_denom,
                to,
                answers,
            ),
            SwapOperation::TerraSwap { offer_asset_info, ask_asset_info } => pool_swap_step(
                contract_address,
                offer_asset_info,
                ask_asset_info,
                to,
                answers,
            ),
        }
    }
}

/// The message that swaps `offer_asset` in the pool at `pair_contract`,
/// given the tax that the oracle charges on a transfer of it.
pub fn asset_into_swap_msg(
    pair_contract: String,
    offer_asset: Asset,
    max_spread: Option<FixedFloat>,
    to: Option<String>,
    tax: u128,
) -> (r: Result<RouterMessage, ContractError>)
    ensures
        r == spec_asset_into_swap_msg(pair_contract, offer_asset, max_spread, to, tax),
{
    match &offer_asset.info {
        AssetInfo::NativeToken { denom } => {
            if tax > offer_asset.amount {
                return Err(ContractError::Overflow);
            }
            let amount: u128 = offer_asset.amount - tax;
            let funds = Coin { denom: denom.clone(), amount };
            Ok(
                RouterMessage::PairSwap {
                    pair_contract,
                    funds,
                    request: SwapRequest {
                        offer_asset: Asset { info: offer_asset.info, amount },
                        belief_price: None,
                        max_spread,
                        to,
                    },
                },
            )
        },
        AssetInfo::Token { contract_addr } => {
            let token_contract = contract_addr.clone();
            let amount: u128 = offer_asset.amount;
            Ok(
                RouterMessage::TokenSend {
                    token_contract,
                    pair_contract,
                    amount,
                    request: SwapRequest { offer_asset, belief_price: None, max_spread, to },
                },
            )
        },
    }
}

/// Executes one swap operation: swaps all that the router holds of the
/// offered asset into the asked asset.
///
/// Only the router itself may call it. The result is the next step: a query
/// whose answer is still missing in `answers`, or the message to send.
pub fn execute_swap_operation(
    contract_address: &String,
    sender: &String,
    operation: &SwapOperation,
    to: &Option<String>,
    answers: &QueryAnswers,
) -> (r: Result<OperationStep, ContractError>)
    ensures
        r == spec_execute_swap_operation(*contract_address, *sender, *operation, *to, *answers),
{
    if *contract_address != *sender {
        return Err(ContractError::Unauthorized);
    }
    match operation {
        SwapOperation::NativeSwap { offer_denom, ask_denom } => {
            let amount: u128 = match answers.balance {
                Some(amount) => amount,
                None => {
                    return Ok(
                        OperationStep::Ask(
                            RouterQuery::NativeBalance {
                                account: contract_address.clone(),
                                denom: offer_denom.clone(),
                            },
                        ),
                    );
                },
            };
            match to {
                None => Ok(
                    OperationStep::Send(
                        RouterMessage::NativeSwap {
                            offer_coin: Coin { denom: offer_denom.clone(), amount },
                            ask_denom: ask_denom.clone(),
                        },
                    ),
                ),
                Some(recipient) => {
                    let tax: u128 = match answers.tax {
                        Some(tax) => tax,
                        None => {
                            return Ok(
                                OperationStep::Ask(
                                    RouterQuery::Tax { amount, denom: offer_denom.clone() },
                                ),
                            );
                        },
                    };
                    if tax > amount {
                        return Err(ContractError::Overflow);
                    }
                    Ok(
                        OperationStep::Send(
                            RouterMessage::NativeSwapSend {
                                to: recipient.clone(),
                                offer_coin: Coin {
                                    denom: offer_denom.clone(),
                                    amount: amount - tax,
                                },
                                ask_denom: ask_denom.clone(),
                            },
                        ),
                    )
                },
            }
        },
        SwapOperation::TerraSwap { offer_asset_info, ask_asset_info } => {
            let pair_contract = match &answers.pair_contract {
                Some(pair_contract) => pair_contract.clone(),
                None => {
                    return Ok(
                        OperationStep::Ask(
                            RouterQuery::FactoryPair {
                                offer_asset_info: offer_asset_info.clone(),
                                ask_asset_info: ask_asset_info.clone(),
                            },
                        ),
                    );
                },
            };
            let amount: u128 = match answers.balance {
                Some(amount) => amount,
                None => {
                    return match offer_asset_info {
                        AssetInfo::NativeToken { denom } => Ok(
                            OperationStep::Ask(
                                RouterQuery::NativeBalance {
                                    account: contract_address.clone(),
                                    denom: denom.clone(),
                                },
                            ),
                        ),
                        AssetInfo::Token { contract_addr } => Ok(
                            OperationStep::Ask(
                                RouterQuery::TokenBalance {
                                    contract_addr: contract_addr.clone(),
                                    account: contract_address.clone(),
                                },
                            ),
                        ),
                    };
                },
            };
            let tax: u128 = match offer_asset_info {
                AssetInfo::NativeToken { denom } => match answers.tax {
                    Some(tax) => tax,
                    None => {
                        return Ok(
                            OperationStep::Ask(RouterQuery::Tax { amount, denom: denom.clone() }),
                        );
                    },
                },
                AssetInfo::Token { .. } => 0,
            };
            let offer_asset = Asset { info: offer_asset_info.clone(), amount };
            let message = asset_into_swap_msg(
                pair_contract,
                offer_asset,
                None,
                clone_text(to),
                tax,
            )?;
            Ok(OperationStep::Send(message))
        },
    }
}

/// The swap that a message of the router asks a pool for, if it asks for
/// one.
pub open spec fn swap_request_of(message: RouterMessage) -> Option<SwapRequest> {
    match message {
        RouterMessage::PairSwap { request, .. } => Some(request),
        RouterMessage::TokenSend { request, .. } => Some(request),
        _ => None,
    }
}

/// The maximal spread that the router is given reaches the pool unchanged,
/// and binds there: where the ask amount that the pool computes for the
/// routed swap violates it, the pool refuses the swap and stays as it was.
/// Building the message changes no pool.
pub proof fn lemma_routed_swap_beyond_spread(
    pair_contract: String,
    offer_asset: Asset,
    max_spread: Option<FixedFloat>,
    to: Option<String>,
    tax_on_offer: u128,
    pre: Pool,
    post: Pool,
    sender: String,
    now: u64,
    tax: TaxAdjustment,
    r: Result<SwapOutcome, ContractError>,
)
    requires
        ({
            &&& spec_asset_into_swap_msg(pair_contract, offer_asset, max_spread, to, tax_on_offer)
                matches Ok(message)
            &&& swap_request_of(message) matches Some(request)
            &&& swapped(pre, post, sender, request, now, tax, r)
            &&& pre.slot_of(request.offer_asset.info@) matches Some(slot)
            &&& pre.priced_ask(slot, request, now, tax) matches Ok(ask_amount)
            &&& violates_spread(pre.swap_terms(slot, request, now, tax), ask_amount)
        }),
    ensures
        swap_request_of(
            spec_asset_into_swap_msg(
                pair_contract,
                offer_asset,
                max_spread,
                to,
                tax_on_offer,
            )->Ok_0,
        )->Some_0.max_spread == max_spread,
        r is Err,
        post == pre,
        pre.active() ==> r == Err::<SwapOutcome, ContractError>(ContractError::MaxSpreadExceeded),
{
    let message = spec_asset_into_swap_msg(
        pair_contract,
        offer_asset,
        max_spread,
        to,
        tax_on_offer,
    )->Ok_0;
    let request = swap_request_of(message)->Some_0;
    lemma_swap_beyond_spread(pre, post, sender, request, now, tax, r);
}

} // verus!
