//! The pool: two weighted assets, their reserves and the supply of liquidity
//! shares, with the operations that change them.
//!
//! A pool is created once and never deleted. It starts out uninitialized;
//! the one-time binding of its liquidity-share token makes it active, and
//! only an active pool trades or takes and returns liquidity. The pool
//! computes and records; what it returns tells its caller which transfers,
//! mints and refunds to issue. Tax on native coins is asked of the tax
//! oracle by the caller and handed in.

use crate::asset::{Asset, AssetId, AssetInfo, WeightedAssetInfo};
use crate::error::ContractError;
use crate::fixed_point::{FixedFloat, INTEGER_LIMIT};
use crate::liquidity::{spec_provide, spec_withdraw, Provision, Reserves, Withdrawal};
use crate::math::{calc_in_given_out, calc_out_given_in, in_given_out, out_given_in};
use crate::swap::{
    compute_swap, lemma_spread_violation_refused, received_offer, spec_compute_swap,
    violates_spread, SwapAmounts, SwapTerms,
};
use crate::weights::WeightSchedule;
use vstd::prelude::*;

verus! {

/// A pool of two assets.
#[derive(Debug, PartialEq, Eq)]
pub struct Pool {
    /// The two assets with their weights; the order is that of the reserves.
    pub asset_infos: [WeightedAssetInfo; 2],
    /// The time window of the weights, in Unix seconds.
    pub start_time: u64,
    pub end_time: u64,
    pub description: Option<String>,
    /// The token contract that is expected to report back once.
    pub token_contract: String,
    /// The liquidity-share token, once it is bound.
    pub liquidity_token: Option<String>,
    pub reserves: Reserves,
}

/// A request to exchange an amount of one pool asset for the other.
#[derive(Debug, PartialEq, Eq)]
pub struct SwapRequest {
    pub offer_asset: Asset,
    /// The price the trader believes in, in units of the asked asset for one
    /// unit of the offered asset; where none is given, the price of the pool
    /// before the swap.
    pub belief_price: Option<FixedFloat>,
    /// The part of the believed return that the trader is willing to lose.
    pub max_spread: Option<FixedFloat>,
    /// Who receives the asked asset, where it is not the sender.
    pub to: Option<String>,
}

/// A request to deposit an amount of each of the two pool assets, in either
/// order.
#[derive(Debug, PartialEq, Eq)]
pub struct LiquidityProvisionRequest {
    pub assets: [Asset; 2],
    /// The part of the deposit's worth in proportion that the provider is
    /// willing to lose.
    pub slippage_tolerance: Option<FixedFloat>,
}

/// What the tax oracle charges on the two transfers of a swap. The tax on a
/// leg counts only where that leg is a native coin.
#[derive(Clone, Copy, Debug, PartialEq, Eq, Structural)]
pub struct TaxAdjustment {
    pub offer_tax: u128,
    pub ask_tax: u128,
}

/// What the tax oracle has answered so far about the two transfers of a
/// swap.
#[derive(Clone, Copy, Debug, PartialEq, Eq, Structural)]
pub struct TaxAnswers {
    pub offer_tax: Option<u128>,
    pub ask_tax: Option<u128>,
}

/// One of the two transfers of a swap.
#[derive(Clone, Copy, Debug, PartialEq, Eq, Structural)]
pub enum SwapLeg {
    /// The offered asset on its way into the pool.
    Offer,
    /// The asked asset on its way to the recipient.
    Ask,
}

/// A question to the tax oracle: what is the tax on this transfer, of this
/// amount of the native coin?
#[derive(Debug, PartialEq, Eq)]
pub struct TaxQuery {
    pub leg: SwapLeg,
    pub amount: u128,
    pub denom: String,
}

impl TaxAnswers {
    /// The answers with the tax on one transfer added.
    pub fn with_answer(self, leg: SwapLeg, tax: u128) -> (r: TaxAnswers)
        ensures
            r == match leg {
                SwapLeg::Offer => (TaxAnswers { offer_tax: Some(tax), ask_tax: self.ask_tax }),
                SwapLeg::Ask => (TaxAnswers { offer_tax: self.offer_tax, ask_tax: Some(tax) }),
            },
    {
        match leg {
            SwapLeg::Offer => TaxAnswers { offer_tax: Some(tax), ask_tax: self.ask_tax },
            SwapLeg::Ask => TaxAnswers { offer_tax: self.offer_tax, ask_tax: Some(tax) },
        }
    }
}

/// What the caller of a swap is to do next.
#[derive(Debug, PartialEq, Eq)]
pub enum SwapStep {
    /// Ask the tax oracle and come back with its answer; the pool is
    /// unchanged.
    Ask(TaxQuery),
    /// Issue the transfer; the swap is executed.
    Done(SwapOutcome),
}

/// The instruction to transfer an amount of an asset to a recipient.
#[derive(Debug, PartialEq, Eq)]
pub struct Transfer {
    pub recipient: String,
    pub asset: Asset,
}

/// An executed swap: its amounts and the transfer to issue for it.
#[derive(Debug, PartialEq, Eq)]
pub struct SwapOutcome {
    pub amounts: SwapAmounts,
    pub transfer: Transfer,
}

/// The instruction to mint liquidity shares to a provider.
#[derive(Debug, PartialEq, Eq)]
pub struct ShareMint {
    pub recipient: String,
    pub amount: u128,
}

/// The instruction to burn a holder's shares and to return the two amounts
/// that they stand for.
#[derive(Debug, PartialEq, Eq)]
pub struct Refund {
    pub recipient: String,
    pub burned: u128,
    pub assets: [Asset; 2],
}

/// The configuration of a pool.
#[derive(Debug, PartialEq, Eq)]
pub struct PairInfo {
    pub asset_infos: [WeightedAssetInfo; 2],
    pub liquidity_token: Option<String>,
    pub start_time: u64,
    pub end_time: u64,
    pub description: Option<String>,
}

/// The reserves of a pool and the supply of its shares.
#[derive(Debug, PartialEq, Eq)]
pub struct PoolResponse {
    pub assets: [Asset; 2],
    pub total_share: u128,
}

/// The tax that counts on a transfer of the asset.
pub open spec fn tax_due(info: AssetId, tax: u128) -> u128 {
    if info is NativeToken {
        tax
    } else {
        0
    }
}

/// The taxes that the answers of the oracle amount to; an answer that is
/// missing counts as no tax.
pub open spec fn taxes_of(answers: TaxAnswers) -> TaxAdjustment {
    TaxAdjustment {
        offer_tax: match answers.offer_tax {
            Some(tax) => tax,
            None => 0,
        },
        ask_tax: match answers.ask_tax {
            Some(tax) => tax,
            None => 0,
        },
    }
}

/// The question about a transfer of `amount` of the asset that is still to
/// be answered: none for a token, and none for a coin once the answer is
/// there.
pub open spec fn tax_question(
    info: AssetInfo,
    leg: SwapLeg,
    amount: u128,
    answer: Option<u128>,
) -> Option<TaxQuery> {
    match info {
        AssetInfo::NativeToken { denom } => match answer {
            None => Some(TaxQuery { leg, amount, denom }),
            Some(_) => None,
        },
        AssetInfo::Token { .. } => None,
    }
}

/// Who receives what a swap returns.
pub open spec fn recipient_of(to: Option<String>, sender: Seq<char>) -> Seq<char> {
    match to {
        Some(recipient) => recipient@,
        None => sender,
    }
}

/// The verdict on the parameters of a new pool: the two assets differ, the
/// four weights are positive and have a fixed-point representation, and the
/// time window is not empty.
pub open spec fn instantiate_verdict(
    asset_infos: [WeightedAssetInfo; 2],
    start_time: u64,
    end_time: u64,
) -> Result<(), ContractError> {
    if asset_infos[0].info@ == asset_infos[1].info@ {
        Err(ContractError::AssetMismatch)
    } else if asset_infos[0].start_weight == 0 || asset_infos[0].end_weight == 0
        || asset_infos[1].start_weight == 0 || asset_infos[1].end_weight == 0 {
        Err(ContractError::InvalidZeroAmount)
    } else if asset_infos[0].start_weight >= INTEGER_LIMIT || asset_infos[0].end_weight
        >= INTEGER_LIMIT || asset_infos[1].start_weight >= INTEGER_LIMIT
        || asset_infos[1].end_weight >= INTEGER_LIMIT {
        Err(ContractError::Overflow)
    } else if start_time >= end_time {
        Err(ContractError::DomainError)
    } else {
        Ok(())
    }
}

/// What `Pool::post_initialize` does: it binds the caller as the share
/// token of a pool that has none and that expects this caller, and else
/// fails and leaves the pool as it was, with `AlreadyInitialized` where a
/// token is bound and with `Unauthorized` for another caller.
pub open spec fn initialized(pre: Pool, post: Pool, caller: String, r: Result<(), ContractError>)
    -> bool {
    match r {
        Ok(_) => {
            &&& !pre.active()
            &&& caller@ == pre.token_contract@
            &&& post.liquidity_token == Some(caller)
            &&& post.asset_infos == pre.asset_infos
            &&& post.start_time == pre.start_time
            &&& post.end_time == pre.end_time
            &&& post.description == pre.description
            &&& post.token_contract == pre.token_contract
            &&& post.reserves == pre.reserves
        },
        Err(e) => {
            &&& post == pre
            &&& e == ContractError::AlreadyInitialized || e == ContractError::Unauthorized
            &&& e == ContractError::AlreadyInitialized <==> pre.active()
            &&& e == ContractError::Unauthorized <==> !pre.active() && caller@
                != pre.token_contract@
        },
    }
}

/// What `Pool::swap` does: where the swap is admitted, the reserves change
/// by its amounts and the ask amount less its tax goes to the recipient;
/// where it is refused, the pool stays as it was.
pub open spec fn swapped(
    pre: Pool,
    post: Pool,
    sender: String,
    request: SwapRequest,
    now: u64,
    tax: TaxAdjustment,
    r: Result<SwapOutcome, ContractError>,
) -> bool {
    match r {
        Ok(outcome) => {
            &&& pre.spec_swap(request, now, tax) == Ok::<SwapAmounts, ContractError>(
                outcome.amounts,
            )
            &&& pre.slot_of(request.offer_asset.info@) matches Some(slot)
            &&& post == pre.with_reserves(pre.reserves_after_swap(slot, outcome.amounts))
            &&& outcome.transfer.recipient@ == recipient_of(request.to, sender@)
            &&& outcome.transfer.asset.info == pre.asset_infos[1 - slot].info
            &&& outcome.transfer.asset.amount == outcome.amounts.ask_sent
        },
        Err(e) => {
            &&& pre.spec_swap(request, now, tax) == Err::<SwapAmounts, ContractError>(e)
            &&& post == pre
        },
    }
}

/// What `Pool::swap_step` does. It asks for the tax on the offer first and
/// then for the tax on the ask amount that the pricing predicts, each only
/// for a native coin and only while the answer is missing, and leaves the
/// pool as it is. Once no question is left it swaps with the taxes that
/// were answered.
pub open spec fn swap_stepped(
    pre: Pool,
    post: Pool,
    sender: String,
    request: SwapRequest,
    now: u64,
    answers: TaxAnswers,
    r: Result<SwapStep, ContractError>,
) -> bool {
    match pre.pending_tax_query(request, now, answers) {
        Err(e) => r == Err::<SwapStep, ContractError>(e) && post == pre,
        Ok(Some(query)) => r == Ok::<SwapStep, ContractError>(SwapStep::Ask(query)) && post
            == pre,
        Ok(None) => match r {
            Ok(step) => step matches SwapStep::Done(outcome) && swapped(
                pre,
                post,
                sender,
                request,
                now,
                taxes_of(answers),
                Ok(outcome),
            ),
            Err(e) => swapped(pre, post, sender, request, now, taxes_of(answers), Err(e)),
        },
    }
}

/// What `Pool::provide_liquidity` does: where the deposit is admitted, the
/// reserves and the share supply grow by it and the minted shares go to the
/// provider; where it is refused, the pool stays as it was.
pub open spec fn provided(
    pre: Pool,
    post: Pool,
    provider: String,
    request: LiquidityProvisionRequest,
    r: Result<ShareMint, ContractError>,
) -> bool {
    match r {
        Ok(mint) => {
            &&& pre.spec_provide_liquidity(request) matches Ok(provision)
            &&& mint.amount == provision.minted
            &&& mint.recipient@ == provider@
            &&& post == pre.with_reserves(provision.reserves)
        },
        Err(e) => {
            &&& pre.spec_provide_liquidity(request) == Err::<Provision, ContractError>(e)
            &&& post == pre
        },
    }
}

/// What `Pool::withdraw_liquidity` does: where the shares can be burned, the
/// reserves shrink by the part that they stand for, which goes to the
/// holder; else the pool stays as it was.
pub open spec fn withdrawn(
    pre: Pool,
    post: Pool,
    holder: String,
    share: u128,
    r: Result<Refund, ContractError>,
) -> bool {
    match r {
        Ok(refund) => {
            &&& pre.spec_withdraw_liquidity(share) matches Ok(withdrawal)
            &&& refund.recipient@ == holder@
            &&& refund.burned == share
            &&& refund.assets[0].info == pre.asset_infos[0].info
            &&& refund.assets[0].amount == withdrawal.refund0
            &&& refund.assets[1].info == pre.asset_infos[1].info
            &&& refund.assets[1].amount == withdrawal.refund1
            &&& post == pre.with_reserves(withdrawal.reserves)
        },
        Err(e) => {
            &&& pre.spec_withdraw_liquidity(share) == Err::<Withdrawal, ContractError>(e)
            &&& post == pre
        },
    }
}

/// Whether `info` is the configuration of the pool.
pub open spec fn is_pair_info(pool: Pool, info: PairInfo) -> bool {
    &&& info.asset_infos == pool.asset_infos
    &&& info.liquidity_token == pool.liquidity_token
    &&& info.start_time == pool.start_time
    &&& info.end_time == pool.end_time
    &&& info.description == pool.description
}

/// Whether `info` holds the reserves and the share supply of the pool.
pub open spec fn is_pool_info(pool: Pool, info: PoolResponse) -> bool {
    &&& info.assets[0].info == pool.asset_infos[0].info
    &&& info.assets[0].amount == pool.reserves.balance0
    &&& info.assets[1].info == pool.asset_infos[1].info
    &&& info.assets[1].amount == pool.reserves.balance1
    &&& info.total_share == pool.reserves.total_share
}

impl Pool {
    /// The weight schedule of the asset in `slot`.
    pub open spec fn schedule(&self, slot: int) -> WeightSchedule {
        WeightSchedule {
            start_weight: self.asset_infos[slot].start_weight,
            end_weight: self.asset_infos[slot].end_weight,
            start_time: self.start_time,
            end_time: self.end_time,
        }
    }

    /// The reserve of the asset in `slot`.
    pub open spec fn balance(&self, slot: int) -> u128 {
        if slot == 0 {
            self.reserves.balance0
        } else {
            self.reserves.balance1
        }
    }

    /// The slot of an asset of the pool.
    pub open spec fn slot_of(&self, info: AssetId) -> Option<int> {
        if self.asset_infos[0].info@ == info {
            Some(0int)
        } else if self.asset_infos[1].info@ == info {
            Some(1int)
        } else {
            None
        }
    }

    /// Whether the liquidity-share token is bound.
    pub open spec fn active(&self) -> bool {
        self.liquidity_token is Some
    }

    /// The two assets differ, both weight schedules and the reserves are
    /// well formed, and a pool without its share token holds nothing.
    pub open spec fn wf(&self) -> bool {
        &&& self.asset_infos[0].info@ != self.asset_infos[1].info@
        &&& self.schedule(0).wf()
        &&& self.schedule(1).wf()
        &&& self.reserves.wf()
        &&& !self.active() ==> self.reserves.total_share == 0
    }

    /// The pool with other reserves.
    pub open spec fn with_reserves(&self, reserves: Reserves) -> Pool {
        Pool {
            asset_infos: self.asset_infos,
            start_time: self.start_time,
            end_time: self.end_time,
            description: self.description,
            token_contract: self.token_contract,
            liquidity_token: self.liquidity_token,
            reserves,
        }
    }

    /// What a swap is computed from where it offers the asset in
    /// `offer_slot`.
    pub open spec fn swap_terms(
        &self,
        offer_slot: int,
        request: SwapRequest,
        now: u64,
        tax: TaxAdjustment,
    ) -> SwapTerms {
        SwapTerms {
            offer_balance: self.balance(offer_slot),
            offer_weight: self.schedule(offer_slot).weight_at(now),
            ask_balance: self.balance(1 - offer_slot),
            ask_weight: self.schedule(1 - offer_slot).weight_at(now),
            offer_amount: request.offer_asset.amount,
            offer_tax: tax_due(self.asset_infos[offer_slot].info@, tax.offer_tax),
            ask_tax: tax_due(self.asset_infos[1 - offer_slot].info@, tax.ask_tax),
            belief_price: request.belief_price,
            max_spread: request.max_spread,
        }
    }

    /// The ask amount that the pricing computes for the offer of a swap,
    /// after the tax on the offer has been taken off.
    pub open spec fn priced_ask(
        &self,
        offer_slot: int,
        request: SwapRequest,
        now: u64,
        tax: TaxAdjustment,
    ) -> Result<u128, ContractError> {
        let terms = self.swap_terms(offer_slot, request, now, tax);
        match received_offer(terms) {
            Err(e) => Err(e),
            Ok(offer_received) => out_given_in(
                terms.offer_balance,
                terms.offer_weight,
                terms.ask_balance,
                terms.ask_weight,
                offer_received,
            ),
        }
    }

    /// The question to the tax oracle that a swap is waiting for, if any:
    /// first the tax on the offer, then the tax on the ask amount that the
    /// pricing predicts for the offer less its tax. `Uninitialized` for a
    /// pool that is not active, `AssetMismatch` for an offer of an asset
    /// that the pool does not hold, and whatever the pricing fails with.
    pub open spec fn pending_tax_query(
        &self,
        request: SwapRequest,
        now: u64,
        answers: TaxAnswers,
    ) -> Result<Option<TaxQuery>, ContractError> {
        if !self.active() {
            Err(ContractError::Uninitialized)
        } else {
            match self.slot_of(request.offer_asset.info@) {
                None => Err(ContractError::AssetMismatch),
                Some(slot) => match tax_question(
                    self.asset_infos[slot].info,
                    SwapLeg::Offer,
                    request.offer_asset.amount,
                    answers.offer_tax,
                ) {
                    Some(query) => Ok(Some(query)),
                    None => if tax_question(
                        self.asset_infos[1 - slot].info,
                        SwapLeg::Ask,
                        0,
                        answers.ask_tax,
                    ) is None {
                        Ok(None)
                    } else {
                        match self.priced_ask(slot, request, now, taxes_of(answers)) {
                            Err(e) => Err(e),
                            Ok(ask_amount) => Ok(
                                tax_question(
                                    self.asset_infos[1 - slot].info,
                                    SwapLeg::Ask,
                                    ask_amount,
                                    answers.ask_tax,
                                ),
                            ),
                        }
                    },
                },
            }
        }
    }

    /// The amounts of a swap, or why it is refused: `Uninitialized` for a
    /// pool that is not active, `AssetMismatch` for an offer of an asset
    /// that the pool does not hold.
    pub open spec fn spec_swap(&self, request: SwapRequest, now: u64, tax: TaxAdjustment)
        -> Result<SwapAmounts, ContractError> {
        if !self.active() {
            Err(ContractError::Uninitialized)
        } else {
            match self.slot_of(request.offer_asset.info@) {
                None => Err(ContractError::AssetMismatch),
                Some(slot) => spec_compute_swap(self.swap_terms(slot, request, now, tax)),
            }
        }
    }

    /// The reserves after a swap that offered the asset in `offer_slot`.
    pub open spec fn reserves_after_swap(&self, offer_slot: int, amounts: SwapAmounts)
        -> Reserves {
        if offer_slot == 0 {
            Reserves {
                balance0: (self.reserves.balance0 + amounts.offer_received) as u128,
                balance1: (self.reserves.balance1 - amounts.ask_amount) as u128,
                total_share: self.reserves.total_share,
            }
        } else {
            Reserves {
                balance0: (self.reserves.balance0 - amounts.ask_amount) as u128,
                balance1: (self.reserves.balance1 + amounts.offer_received) as u128,
                total_share: self.reserves.total_share,
            }
        }
    }

    /// The amounts that a request deposits into the two slots: its two
    /// assets are matched with those of the pool by identity, in either
    /// order.
    pub open spec fn deposits_of(&self, assets: [Asset; 2]) -> Option<(u128, u128)> {
        if assets[0].info@ == self.asset_infos[0].info@ && assets[1].info@
            == self.asset_infos[1].info@ {
            Some((assets[0].amount, assets[1].amount))
        } else if assets[0].info@ == self.asset_infos[1].info@ && assets[1].info@
            == self.asset_infos[0].info@ {
            Some((assets[1].amount, assets[0].amount))
        } else {
            None
        }
    }

    /// What a deposit does, or why it is refused: `Uninitialized` for a pool
    /// that is not active, `AssetMismatch` where the two assets are not
    /// those of the pool.
    pub open spec fn spec_provide_liquidity(&self, request: LiquidityProvisionRequest) -> Result<
        Provision,
        ContractError,
    > {
        if !self.active() {
            Err(ContractError::Uninitialized)
        } else {
            match self.deposits_of(request.assets) {
                None => Err(ContractError::AssetMismatch),
                Some((deposit0, deposit1)) => spec_provide(
                    self.reserves,
                    deposit0,
                    deposit1,
                    request.slippage_tolerance,
                ),
            }
        }
    }

    /// What burning shares does, or why it is refused: `Uninitialized` for a
    /// pool that is not active.
    pub open spec fn spec_withdraw_liquidity(&self, share: u128) -> Result<
        Withdrawal,
        ContractError,
    > {
        if !self.active() {
            Err(ContractError::Uninitialized)
        } else {
            spec_withdraw(self.reserves, share)
        }
    }

    /// The predicted ask amount for an offer, without tax and without a
    /// bound on the spread: `AssetMismatch` for an asset that the pool does
    /// not hold.
    pub open spec fn spec_simulation(&self, offer_asset: Asset, now: u64) -> Result<
        u128,
        ContractError,
    > {
        match self.slot_of(offer_asset.info@) {
            None => Err(ContractError::AssetMismatch),
            Some(slot) => out_given_in(
                self.balance(slot),
                self.schedule(slot).weight_at(now),
                self.balance(1 - slot),
                self.schedule(1 - slot).weight_at(now),
                offer_asset.amount,
            ),
        }
    }

    /// The predicted offer amount for an asked amount: `AssetMismatch` for
    /// an asset that the pool does not hold.
    pub open spec fn spec_reverse_simulation(&self, ask_asset: Asset, now: u64) -> Result<
        u128,
        ContractError,
    > {
        match self.slot_of(ask_asset.info@) {
            None => Err(ContractError::AssetMismatch),
            Some(slot) => in_given_out(
                self.balance(1 - slot),
                self.schedule(1 - slot).weight_at(now),
                self.balance(slot),
                self.schedule(slot).weight_at(now),
                ask_asset.amount,
            ),
        }
    }

    /// Whether the pool is well formed.
    pub fn is_well_formed(&self) -> (r: bool)
        ensures
            r == self.wf(),
    {
        let schedule0 = WeightSchedule {
            start_weight: self.asset_infos[0].start_weight,
            end_weight: self.asset_infos[0].end_weight,
            start_time: self.start_time,
            end_time: self.end_time,
        };
        let schedule1 = WeightSchedule {
            start_weight: self.asset_infos[1].start_weight,
            end_weight: self.asset_infos[1].end_weight,
            start_time: self.start_time,
            end_time: self.end_time,
        };
        !self.asset_infos[0].info.equal(&self.asset_infos[1].info) && schedule0.is_well_formed()
            && schedule1.is_well_formed() && self.reserves.is_well_formed() && (
        self.liquidity_token.is_some() || self.reserves.total_share == 0)
    }

    /// Creates a pool. It holds nothing and is not active until the token
    /// contract `token_contract` has reported back.
    pub fn instantiate(
        asset_infos: [WeightedAssetInfo; 2],
        start_time: u64,
        end_time: u64,
        description: Option<String>,
        token_contract: String,
    ) -> (r: Result<Pool, ContractError>)
        ensures
            match r {
                Ok(pool) => {
                    &&& instantiate_verdict(asset_infos, start_time, end_time) is Ok
                    &&& pool.wf()
                    &&& !pool.active()
                    &&& pool.asset_infos == asset_infos
                    &&& pool.start_time == start_time
                    &&& pool.end_time == end_time
                    &&& pool.description == description
                    &&& pool.token_contract == token_contract
                    &&& pool.reserves == (Reserves { balance0: 0, balance1: 0, total_share: 0 })
                },
                Err(e) => instantiate_verdict(asset_infos, start_time, end_time) == Err::<
                    (),
                    ContractError,
                >(e),
            },
    {
        if asset_infos[0].info.equal(&asset_infos[1].info) {
            return Err(ContractError::AssetMismatch);
        }
        if asset_infos[0].start_weight == 0 || asset_infos[0].end_weight == 0
            || asset_infos[1].start_weight == 0 || asset_infos[1].end_weight == 0 {
            return Err(ContractError::InvalidZeroAmount);
        }
        if asset_infos[0].start_weight >= INTEGER_LIMIT || asset_infos[0].end_weight
            >= INTEGER_LIMIT || asset_infos[1].start_weight >= INTEGER_LIMIT
            || asset_infos[1].end_weight >= INTEGER_LIMIT {
            return Err(ContractError::Overflow);
        }
        if start_time >= end_time {
            return Err(ContractError::DomainError);
        }
        Ok(
            Pool {
                asset_infos,
                start_time,
                end_time,
                description,
                token_contract,
                liquidity_token: None,
                reserves: Reserves::empty(),
            },
        )
    }

    /// Binds the liquidity-share token and makes the pool active. Only the
    /// token contract named at creation may report back, and only once.
    pub fn post_initialize(&mut self, caller: &String) -> (r: Result<(), ContractError>)
        requires
            old(self).wf(),
        ensures
            final(self).wf(),
            initialized(*old(self), *final(self), *caller, r),
    {
        if self.liquidity_token.is_some() {
            return Err(ContractError::AlreadyInitialized);
        }
        if *caller != self.token_contract {
            return Err(ContractError::Unauthorized);
        }
        self.liquidity_token = Some(caller.clone());
        Ok(())
    }

    /// The weight of the asset in `slot` at `now`.
    pub fn current_weight(&self, slot: usize, now: u64) -> (weight: FixedFloat)
        requires
            self.wf(),
            slot < 2,
        ensures
            weight == self.schedule(slot as int).weight_at(now),
    {
        let schedule = WeightSchedule {
            start_weight: self.asset_infos[slot].start_weight,
            end_weight: self.asset_infos[slot].end_weight,
            start_time: self.start_time,
            end_time: self.end_time,
        };
        schedule.current_weight(now)
    }

    /// The slot of an asset of the pool.
    pub fn find_slot(&self, info: &AssetInfo) -> (slot: Option<usize>)
        ensures
            match slot {
                Some(i) => self.slot_of(info@) == Some(i as int) && i < 2,
                None => self.slot_of(info@) is None,
            },
    {
        if self.asset_infos[0].info.equal(info) {
            Some(0)
        } else if self.asset_infos[1].info.equal(info) {
            Some(1)
        } else {
            None
        }
    }

    /// The reserve of the asset in `slot`.
    pub fn balance_of(&self, slot: usize) -> (balance: u128)
        ensures
            balance == self.balance(slot as int),
    {
        if slot == 0 {
            self.reserves.balance0
        } else {
            self.reserves.balance1
        }
    }

    /// Exchanges the offered amount of one pool asset for the other.
    ///
    /// The offer less the tax on it is priced with the weights of `now`.
    /// Where a maximal spread is given, the ask amount has to be at least
    /// `belief_price * offer_amount * (1 - max_spread)`, else the swap fails
    /// with `MaxSpreadExceeded`; without a belief price the price of the
    /// pool before the swap stands in. After that the ask amount has to
    /// leave something of its reserve. Then both reserves change at once, and the ask amount less
    /// the tax on it is to be transferred to the recipient, by default the
    /// sender. A refused swap leaves the pool as it was.
    pub fn swap(&mut self, sender: &String, request: &SwapRequest, now: u64, tax: TaxAdjustment)
        -> (r: Result<SwapOutcome, ContractError>)
        requires
            old(self).wf(),
        ensures
            final(self).wf(),
            swapped(*old(self), *final(self), *sender, *request, now, tax, r),
            r is Err ==> final(self).reserves == old(self).reserves,
    {
        if self.liquidity_token.is_none() {
            return Err(ContractError::Uninitialized);
        }
        let offer_slot: usize = match self.find_slot(&request.offer_asset.info) {
            Some(slot) => slot,
            None => {
                return Err(ContractError::AssetMismatch);
            },
        };
        let ask_slot: usize = 1 - offer_slot;
        let offer_tax: u128 = if self.asset_infos[offer_slot].info.is_native_token() {
            tax.offer_tax
        } else {
            0
        };
        let ask_tax: u128 = if self.asset_infos[ask_slot].info.is_native_token() {
            tax.ask_tax
        } else {
            0
        };
        let terms = SwapTerms {
            offer_balance: self.balance_of(offer_slot),
            offer_weight: self.current_weight(offer_slot, now),
            ask_balance: self.balance_of(ask_slot),
            ask_weight: self.current_weight(ask_slot, now),
            offer_amount: request.offer_asset.amount,
            offer_tax,
            ask_tax,
            belief_price: request.belief_price,
            max_spread: request.max_spread,
        };
        let amounts = compute_swap(&terms)?;
        let recipient = match &request.to {
            Some(to) => to.clone(),
            None => sender.clone(),
        };
        let transfer = Transfer {
            recipient,
            asset: Asset { info: self.asset_infos[ask_slot].info.clone(), amount: amounts.ask_sent },
        };
        let reserves = if offer_slot == 0 {
            Reserves {
                balance0: self.reserves.balance0 + amounts.offer_received,
                balance1: self.reserves.balance1 - amounts.ask_amount,
                total_share: self.reserves.total_share,
            }
        } else {
            Reserves {
                balance0: self.reserves.balance0 - amounts.ask_amount,
                balance1: self.reserves.balance1 + amounts.offer_received,
                total_share: self.reserves.total_share,
            }
        };
        self.reserves = reserves;
        Ok(SwapOutcome { amounts, transfer })
    }

    /// Takes a swap one step further: asks for a tax that the oracle has not
    /// answered yet, or executes the swap once all answers are there.
    pub fn swap_step(
        &mut self,
        sender: &String,
        request: &SwapRequest,
        now: u64,
        answers: TaxAnswers,
    ) -> (r: Result<SwapStep, ContractError>)
        requires
            old(self).wf(),
        ensures
            final(self).wf(),
            swap_stepped(*old(self), *final(self), *sender, *request, now, answers, r),
    {
        if self.liquidity_token.is_none() {
            return Err(ContractError::Uninitialized);
        }
        let offer_slot: usize = match self.find_slot(&request.offer_asset.info) {
            Some(slot) => slot,
            None => {
                return Err(ContractError::AssetMismatch);
            },
        };
        let ask_slot: usize = 1 - offer_slot;
        let offer_tax: u128 = match &self.asset_infos[offer_slot].info {
            AssetInfo::NativeToken { denom } => match answers.offer_tax {
                Some(tax) => tax,
                None => {
                    return Ok(
                        SwapStep::Ask(
                            TaxQuery {
                                leg: SwapLeg::Offer,
                                amount: request.offer_asset.amount,
                                denom: denom.clone(),
                            },
                        ),
                    );
                },
            },
            AssetInfo::Token { .. } => 0,
        };
        match &self.asset_infos[ask_slot].info {
            AssetInfo::NativeToken { denom } => {
                if answers.ask_tax.is_none() {
                    if offer_tax > request.offer_asset.amount {
                        return Err(ContractError::Overflow);
                    }
                    let ask_amount: u128 = calc_out_given_in(
                        self.balance_of(offer_slot),
                        self.current_weight(offer_slot, now),
                        self.balance_of(ask_slot),
                        self.current_weight(ask_slot, now),
                        request.offer_asset.amount - offer_tax,
                    )?;
                    return Ok(
                        SwapStep::Ask(
                            TaxQuery { leg: SwapLeg::Ask, amount: ask_amount, denom: denom.clone() },
                        ),
                    );
                }
            },
            AssetInfo::Token { .. } => {},
        }
        let tax = TaxAdjustment {
            offer_tax: match answers.offer_tax {
                Some(tax) => tax,
                None => 0,
            },
            ask_tax: match answers.ask_tax {
                Some(tax) => tax,
                None => 0,
            },
        };
        let outcome = self.swap(sender, request, now, tax)?;
        Ok(SwapStep::Done(outcome))
    }

    /// Takes a deposit of both pool assets and mints liquidity shares for it
    /// to the provider. A refused deposit leaves the pool as it was.
    pub fn provide_liquidity(&mut self, provider: &String, request: &LiquidityProvisionRequest)
        -> (r: Result<ShareMint, ContractError>)
        requires
            old(self).wf(),
        ensures
            final(self).wf(),
            provided(*old(self), *final(self), *provider, *request, r),
    {
        if self.liquidity_token.is_none() {
            return Err(ContractError::Uninitialized);
        }
        let first = &request.assets[0];
        let second = &request.assets[1];
        let straight: bool = first.info.equal(&self.asset_infos[0].info) && second.info.equal(
            &self.asset_infos[1].info,
        );
        let crossed: bool = first.info.equal(&self.asset_infos[1].info) && second.info.equal(
            &self.asset_infos[0].info,
        );
        let deposit0: u128;
        let deposit1: u128;
        if straight {
            deposit0 = first.amount;
            deposit1 = second.amount;
        } else if crossed {
            deposit0 = second.amount;
            deposit1 = first.amount;
        } else {
            return Err(ContractError::AssetMismatch);
        }
        let provision = self.reserves.provide(deposit0, deposit1, request.slippage_tolerance)?;
        self.reserves = provision.reserves;
        Ok(ShareMint { recipient: provider.clone(), amount: provision.minted })
    }

    /// Burns `share` liquidity shares of the holder and returns the part of
    /// both reserves that they stand for. A refused withdrawal leaves the
    /// pool as it was.
    pub fn withdraw_liquidity(&mut self, holder: &String, share: u128) -> (r: Result<
        Refund,
        ContractError,
    >)
        requires
            old(self).wf(),
        ensures
            final(self).wf(),
            withdrawn(*old(self), *final(self), *holder, share, r),
    {
        if self.liquidity_token.is_none() {
            return Err(ContractError::Uninitialized);
        }
        let withdrawal = self.reserves.withdraw(share)?;
        let assets = [
            Asset { info: self.asset_infos[0].info.clone(), amount: withdrawal.refund0 },
            Asset { info: self.asset_infos[1].info.clone(), amount: withdrawal.refund1 },
        ];
        self.reserves = withdrawal.reserves;
        Ok(Refund { recipient: holder.clone(), burned: share, assets })
    }

    /// The ask amount that an offer would buy at `now`.
    pub fn simulation(&self, offer_asset: &Asset, now: u64) -> (r: Result<u128, ContractError>)
        requires
            self.wf(),
        ensures
            r == self.spec_simulation(*offer_asset, now),
    {
        let offer_slot: usize = match self.find_slot(&offer_asset.info) {
            Some(slot) => slot,
            None => {
                return Err(ContractError::AssetMismatch);
            },
        };
        let ask_slot: usize = 1 - offer_slot;
        calc_out_given_in(
            self.balance_of(offer_slot),
            self.current_weight(offer_slot, now),
            self.balance_of(ask_slot),
            self.current_weight(ask_slot, now),
            offer_asset.amount,
        )
    }

    /// The offer amount that would buy an asked amount at `now`.
    pub fn reverse_simulation(&self, ask_asset: &Asset, now: u64) -> (r: Result<
        u128,
        ContractError,
    >)
        requires
            self.wf(),
        ensures
            r == self.spec_reverse_simulation(*ask_asset, now),
    {
        let ask_slot: usize = match self.find_slot(&ask_asset.info) {
            Some(slot) => slot,
            None => {
                return Err(ContractError::AssetMismatch);
            },
        };
        let offer_slot: usize = 1 - ask_slot;
        calc_in_given_out(
            self.balance_of(offer_slot),
            self.current_weight(offer_slot, now),
            self.balance_of(ask_slot),
            self.current_weight(ask_slot, now),
            ask_asset.amount,
        )
    }

    /// The configuration of the pool.
    pub fn pair_info(&self) -> (info: PairInfo)
        ensures
            is_pair_info(*self, info),
    {
        let asset_infos = [self.asset_infos[0].clone(), self.asset_infos[1].clone()];
        assert(asset_infos =~= self.asset_infos);
        PairInfo {
            asset_infos,
            liquidity_token: clone_text(&self.liquidity_token),
            start_time: self.start_time,
            end_time: self.end_time,
            description: clone_text(&self.description),
        }
    }

    /// The reserves of the two assets and the supply of liquidity shares.
    pub fn pool_info(&self) -> (info: PoolResponse)
        ensures
            is_pool_info(*self, info),
    {
        PoolResponse {
            assets: [
                Asset { info: self.asset_infos[0].info.clone(), amount: self.reserves.balance0 },
                Asset { info: self.asset_infos[1].info.clone(), amount: self.reserves.balance1 },
            ],
            total_share: self.reserves.total_share,
        }
    }
}

/// A copy of an optional text.
pub fn clone_text(text: &Option<String>) -> (r: Option<String>)
    ensures
        r == *text,
{
    match text {
        Some(t) => Some(t.clone()),
        None => None,
    }
}

/// A provider who at once burns the shares that a deposit was worth gets
/// back no more of either asset than was deposited.
pub proof fn lemma_provide_then_withdraw(pool: Pool, request: LiquidityProvisionRequest)
    requires
        pool.wf(),
    ensures
        pool.spec_provide_liquidity(request) matches Ok(provision) ==> {
            &&& pool.deposits_of(request.assets) matches Some(deposits)
            &&& pool.with_reserves(provision.reserves).spec_withdraw_liquidity(provision.minted)
                matches Ok(withdrawal)
            &&& withdrawal.refund0 <= deposits.0
            &&& withdrawal.refund1 <= deposits.1
        },
{
    if let Some(deposits) = pool.deposits_of(request.assets) {
        crate::liquidity::lemma_provide_then_withdraw(
            pool.reserves,
            deposits.0,
            deposits.1,
            request.slippage_tolerance,
        );
    }
}

/// A swap whose computed ask amount violates the trader's bound on the
/// spread is refused, and the pool, its balances among the rest, stays as it
/// was. The refusal of an active pool is `MaxSpreadExceeded`.
pub proof fn lemma_swap_beyond_spread(
    pre: Pool,
    post: Pool,
    sender: String,
    request: SwapRequest,
    now: u64,
    tax: TaxAdjustment,
    r: Result<SwapOutcome, ContractError>,
)
    requires
        swapped(pre, post, sender, request, now, tax, r),
        pre.slot_of(request.offer_asset.info@) matches Some(slot) && pre.priced_ask(
            slot,
            request,
            now,
            tax,
        ) matches Ok(ask_amount) && violates_spread(
            pre.swap_terms(slot, request, now, tax),
            ask_amount,
        ),
    ensures
        r is Err,
        post == pre,
        post.reserves == pre.reserves,
        pre.active() ==> r == Err::<SwapOutcome, ContractError>(ContractError::MaxSpreadExceeded),
{
    let slot = pre.slot_of(request.offer_asset.info@)->Some_0;
    let ask_amount = pre.priced_ask(slot, request, now, tax)->Ok_0;
    lemma_spread_violation_refused(pre.swap_terms(slot, request, now, tax), ask_amount);
}

} // verus!
