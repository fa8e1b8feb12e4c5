//! The entry points of the pool: one request type for what changes it and
//! one for what only reads it, each handled by a dispatch on the request.

use crate::asset::Asset;
use crate::error::ContractError;
use crate::pool::{
    initialized, is_pair_info, is_pool_info, provided, swap_stepped, withdrawn,
    LiquidityProvisionRequest, PairInfo, Pool, PoolResponse, Refund, ShareMint, SwapOutcome,
    SwapRequest, SwapStep, TaxAnswers, TaxQuery,
};
use vstd::prelude::*;

verus! {

/// The circumstances of a call: who makes it, when, and what the tax oracle
/// has answered so far about the two transfers of a swap.
#[derive(Debug, PartialEq, Eq)]
pub struct Env {
    pub sender: String,
    /// The time of the block, in Unix seconds.
    pub now: u64,
    pub tax: TaxAnswers,
}

/// A request that changes the pool.
#[derive(Debug, PartialEq, Eq)]
pub enum ExecuteMsg {
    /// The token contract reports back; the sender becomes the share token.
    PostInitialize,
    Swap(SwapRequest),
    ProvideLiquidity(LiquidityProvisionRequest),
    /// Burn `share` liquidity shares of the sender.
    WithdrawLiquidity { share: u128 },
}

/// What the caller is to do after a request.
#[derive(Debug, PartialEq, Eq)]
pub enum Response {
    /// Nothing: the share token is bound.
    Initialized,
    /// Ask the tax oracle and repeat the request with its answer; the pool
    /// is unchanged.
    TaxQuery(TaxQuery),
    /// The transfer of the ask amount.
    Swapped(SwapOutcome),
    /// The mint of the new shares.
    Provided(ShareMint),
    /// The burn of the shares and the refund of the two amounts.
    Withdrawn(Refund),
}

/// A request that reads the pool.
#[derive(Debug, PartialEq, Eq)]
pub enum QueryMsg {
    Pair,
    Pool,
    Simulation { offer_asset: Asset },
    ReverseSimulation { ask_asset: Asset },
}

/// The answer to a request that reads the pool.
#[derive(Debug, PartialEq, Eq)]
pub enum QueryResponse {
    Pair(PairInfo),
    Pool(PoolResponse),
    /// The predicted ask amount.
    Simulation { return_amount: u128 },
    /// The predicted offer amount.
    ReverseSimulation { offer_amount: u128 },
}

/// What `execute` does: what the operation that the request names does.
pub open spec fn executed(
    pre: Pool,
    post: Pool,
    env: Env,
    msg: ExecuteMsg,
    r: Result<Response, ContractError>,
) -> bool {
    match msg {
        ExecuteMsg::PostInitialize => match r {
            Ok(response) => response is Initialized && initialized(pre, post, env.sender, Ok(())),
            Err(e) => initialized(pre, post, env.sender, Err(e)),
        },
        ExecuteMsg::Swap(request) => match r {
            Ok(Response::TaxQuery(query)) => swap_stepped(
                pre,
                post,
                env.sender,
                request,
                env.now,
                env.tax,
                Ok(SwapStep::Ask(query)),
            ),
            Ok(Response::Swapped(outcome)) => swap_stepped(
                pre,
                post,
                env.sender,
                request,
                env.now,
                env.tax,
                Ok(SwapStep::Done(outcome)),
            ),
            Ok(_) => false,
            Err(e) => swap_stepped(pre, post, env.sender, request, env.now, env.tax, Err(e)),
        },
        ExecuteMsg::ProvideLiquidity(request) => match r {
            Ok(response) => response matches Response::Provided(mint) && provided(
                pre,
                post,
                env.sender,
                request,
                Ok(mint),
            ),
            Err(e) => provided(pre, post, env.sender, request, Err(e)),
        },
        ExecuteMsg::WithdrawLiquidity { share } => match r {
            Ok(response) => response matches Response::Withdrawn(refund) && withdrawn(
                pre,
                post,
                env.sender,
                share,
                Ok(refund),
            ),
            Err(e) => withdrawn(pre, post, env.sender, share, Err(e)),
        },
    }
}

/// What `query` answers.
pub open spec fn answered(pool: Pool, now: u64, msg: QueryMsg, r: Result<
    QueryResponse,
    ContractError,
>) -> bool {
    match msg {
        QueryMsg::Pair => r matches Ok(QueryResponse::Pair(info)) && is_pair_info(pool, info),
        QueryMsg::Pool => r matches Ok(QueryResponse::Pool(info)) && is_pool_info(pool, info),
        QueryMsg::Simulation { offer_asset } => match r {
            Ok(response) => response matches QueryResponse::Simulation { return_amount }
                && pool.spec_simulation(offer_asset, now) == Ok::<u128, ContractError>(
                return_amount,
            ),
            Err(e) => pool.spec_simulation(offer_asset, now) == Err::<u128, ContractError>(e),
        },
        QueryMsg::ReverseSimulation { ask_asset } => match r {
            Ok(response) => response matches QueryResponse::ReverseSimulation { offer_amount }
                && pool.spec_reverse_simulation(ask_asset, now) == Ok::<u128, ContractError>(
                offer_amount,
            ),
            Err(e) => pool.spec_reverse_simulation(ask_asset, now) == Err::<u128, ContractError>(
                e,
            ),
        },
    }
}

/// Carries out a request that changes the pool. A request that fails leaves
/// the pool as it was.
pub fn execute(pool: &mut Pool, env: &Env, msg: &ExecuteMsg) -> (r: Result<Response, ContractError>)
    requires
        old(pool).wf(),
    ensures
        final(pool).wf(),
        executed(*old(pool), *final(pool), *env, *msg, r),
        r is Err ==> *final(pool) == *old(pool),
{
    match msg {
        ExecuteMsg::PostInitialize => {
            pool.post_initialize(&env.sender)?;
            Ok(Response::Initialized)
        },
        ExecuteMsg::Swap(request) => {
            match pool.swap_step(&env.sender, request, env.now, env.tax)? {
                SwapStep::Ask(query) => Ok(Response::TaxQuery(query)),
                SwapStep::Done(outcome) => Ok(Response::Swapped(outcome)),
            }
        },
        ExecuteMsg::ProvideLiquidity(request) => {
            let mint = pool.provide_liquidity(&env.sender, request)?;
            Ok(Response::Provided(mint))
        },
        ExecuteMsg::WithdrawLiquidity { share } => {
            let refund = pool.withdraw_liquidity(&env.sender, *share)?;
            Ok(Response::Withdrawn(refund))
        },
    }
}

/// Answers a request that reads the pool.
pub fn query(pool: &Pool, now: u64, msg: &QueryMsg) -> (r: Result<QueryResponse, ContractError>)
    requires
        pool.wf(),
    ensures
        answered(*pool, now, *msg, r),
{
    match msg {
        QueryMsg::Pair => Ok(QueryResponse::Pair(pool.pair_info())),
        QueryMsg::Pool => Ok(QueryResponse::Pool(pool.pool_info())),
        QueryMsg::Simulation { offer_asset } => {
            let return_amount: u128 = pool.simulation(offer_asset, now)?;
            Ok(QueryResponse::Simulation { return_amount })
        },
        QueryMsg::ReverseSimulation { ask_asset } => {
            let offer_amount: u128 = pool.reverse_simulation(ask_asset, now)?;
            Ok(QueryResponse::ReverseSimulation { offer_amount })
        },
    }
}

} // verus!
