//! Liquidity shares: how many are minted for a deposit of both assets, and
//! what a holder gets back for the shares they burn.
//!
//! Reserves and the share supply stay below `2^63`, the range of integers
//! that have a fixed-point representation.

use crate::error::ContractError;
use crate::fixed_point::{
    difference_of, number_of, product_of, FixedFloat, INTEGER_LIMIT, ONE_BITS,
};
use vstd::prelude::*;

verus! {

/// The reserves of the two assets of a pool and the supply of its liquidity
/// shares.
#[derive(Clone, Copy, Debug, PartialEq, Eq, Structural)]
pub struct Reserves {
    pub balance0: u128,
    pub balance1: u128,
    pub total_share: u128,
}

/// What a deposit does to a pool.
#[derive(Clone, Copy, Debug, PartialEq, Eq, Structural)]
pub struct Provision {
    /// The shares minted to the provider.
    pub minted: u128,
    /// The reserves after the deposit.
    pub reserves: Reserves,
}

/// What burning shares does to a pool.
#[derive(Clone, Copy, Debug, PartialEq, Eq, Structural)]
pub struct Withdrawal {
    /// The amounts of the two assets returned to the holder.
    pub refund0: u128,
    pub refund1: u128,
    /// The reserves after the refund.
    pub reserves: Reserves,
}

/// Whether `root` is the square root of `n` rounded down.
pub open spec fn is_integer_sqrt(n: int, root: int) -> bool {
    0 <= root && root * root <= n < (root + 1) * (root + 1)
}

/// The square root of `n` rounded down.
pub open spec fn integer_sqrt(n: int) -> int {
    choose|root: int| is_integer_sqrt(n, root)
}

/// The smaller of two amounts.
pub open spec fn smaller(a: int, b: int) -> int {
    if a <= b {
        a
    } else {
        b
    }
}

/// The larger of two amounts.
pub open spec fn larger(a: int, b: int) -> int {
    if a <= b {
        b
    } else {
        a
    }
}

/// A number has one square root rounded down.
pub proof fn lemma_integer_sqrt_unique(n: int, a: int, b: int)
    requires
        is_integer_sqrt(n, a),
        is_integer_sqrt(n, b),
    ensures
        a == b,
{
    if a < b {
        assert((a + 1) * (a + 1) <= b * b) by (nonlinear_arith)
            requires
                0 <= a,
                a + 1 <= b,
        ;
    } else if b < a {
        assert((b + 1) * (b + 1) <= a * a) by (nonlinear_arith)
            requires
                0 <= b,
                b + 1 <= a,
        ;
    }
}

impl Reserves {
    /// Reserves and supply are below `2^63`, and either the pool is empty,
    /// with no shares and nothing of either asset, or all three are
    /// positive.
    pub open spec fn wf(&self) -> bool {
        &&& self.balance0 < INTEGER_LIMIT
        &&& self.balance1 < INTEGER_LIMIT
        &&& self.total_share < INTEGER_LIMIT
        &&& self.total_share == 0 ==> self.balance0 == 0 && self.balance1 == 0
        &&& self.total_share > 0 ==> self.balance0 > 0 && self.balance1 > 0
    }

    /// The shares that a deposit is worth.
    ///
    /// A deposit into an empty pool seeds it: it is worth the geometric mean
    /// of the two amounts, rounded down. Later deposits are worth the
    /// smaller of the two parts by which they enlarge the reserves, taken
    /// of the share supply and rounded down.
    pub open spec fn share_of_deposit(&self, deposit0: u128, deposit1: u128) -> int {
        if self.total_share == 0 {
            integer_sqrt(deposit0 * deposit1)
        } else {
            smaller(
                deposit0 * self.total_share / (self.balance0 as int),
                deposit1 * self.total_share / (self.balance1 as int),
            )
        }
    }

    /// The shares that the deposit would be worth if the asset of which less
    /// was brought, relative to the reserves, had been brought in proportion
    /// to the other.
    pub open spec fn balanced_share_of_deposit(&self, deposit0: u128, deposit1: u128) -> int {
        larger(
            deposit0 * self.total_share / (self.balance0 as int),
            deposit1 * self.total_share / (self.balance1 as int),
        )
    }
}

/// The least number of shares that a deposit worth `balanced` shares, had it
/// been in proportion, may be worth under the tolerance: `balanced * (1 -
/// tolerance)`.
pub open spec fn tolerated_share(balanced: int, tolerance: FixedFloat) -> Result<
    FixedFloat,
    ContractError,
> {
    if balanced >= INTEGER_LIMIT {
        Err(ContractError::Overflow)
    } else {
        match difference_of(FixedFloat { bits: ONE_BITS }, tolerance) {
            Err(e) => Err(e),
            Ok(kept) => product_of(FixedFloat { bits: (balanced * ONE_BITS) as i128 }, kept),
        }
    }
}

/// Whether the tolerance, where one is given, admits a deposit worth
/// `minted` shares that would be worth `balanced` shares in proportion:
/// `SlippageExceeded` where `minted` is below `balanced * (1 - tolerance)`.
pub open spec fn slippage_verdict(minted: int, balanced: int, tolerance: Option<FixedFloat>)
    -> Result<(), ContractError> {
    match tolerance {
        None => Ok(()),
        Some(t) => match tolerated_share(balanced, t) {
            Err(e) => Err(e),
            Ok(least) => if minted * ONE_BITS >= least.bits {
                Ok(())
            } else {
                Err(ContractError::SlippageExceeded)
            },
        },
    }
}

/// What `Reserves::provide` returns.
pub open spec fn spec_provide(
    reserves: Reserves,
    deposit0: u128,
    deposit1: u128,
    tolerance: Option<FixedFloat>,
) -> Result<Provision, ContractError> {
    let minted = reserves.share_of_deposit(deposit0, deposit1);
    let verdict = if reserves.total_share == 0 {
        Ok(())
    } else {
        slippage_verdict(
            minted,
            reserves.balanced_share_of_deposit(deposit0, deposit1),
            tolerance,
        )
    };
    if deposit0 == 0 || deposit1 == 0 {
        Err(ContractError::InvalidZeroAmount)
    } else if reserves.balance0 + deposit0 >= INTEGER_LIMIT || reserves.balance1 + deposit1
        >= INTEGER_LIMIT {
        Err(ContractError::Overflow)
    } else {
        match verdict {
            Err(e) => Err(e),
            Ok(_) => if reserves.total_share + minted >= INTEGER_LIMIT {
                Err(ContractError::Overflow)
            } else {
                Ok(
                    Provision {
                        minted: minted as u128,
                        reserves: Reserves {
                            balance0: (reserves.balance0 + deposit0) as u128,
                            balance1: (reserves.balance1 + deposit1) as u128,
                            total_share: (reserves.total_share + minted) as u128,
                        },
                    },
                )
            },
        }
    }
}

/// What `Reserves::withdraw` returns.
pub open spec fn spec_withdraw(reserves: Reserves, share: u128) -> Result<
    Withdrawal,
    ContractError,
> {
    if share > reserves.total_share {
        Err(ContractError::InsufficientShares)
    } else if reserves.total_share == 0 {
        Ok(Withdrawal { refund0: 0, refund1: 0, reserves })
    } else {
        let refund0 = reserves.balance0 * share / (reserves.total_share as int);
        let refund1 = reserves.balance1 * share / (reserves.total_share as int);
        Ok(
            Withdrawal {
                refund0: refund0 as u128,
                refund1: refund1 as u128,
                reserves: Reserves {
                    balance0: (reserves.balance0 - refund0) as u128,
                    balance1: (reserves.balance1 - refund1) as u128,
                    total_share: (reserves.total_share - share) as u128,
                },
            },
        )
    }
}

/// The square root of `n`, rounded down.
pub fn isqrt(n: u128) -> (root: u128)
    ensures
        is_integer_sqrt(n as int, root as int),
        root == integer_sqrt(n as int),
{
    let mut low: u128 = 0;
    let mut high: u128 = 0x1_0000_0000_0000_0000;
    while high - low > 1
        invariant
            low < high <= 0x1_0000_0000_0000_0000,
            low * low <= n < high * high,
        decreases high - low,
    {
        let middle: u128 = low + (high - low) / 2;
        assert(middle * middle < 0x1_0000_0000_0000_0000_0000_0000_0000_0000) by (nonlinear_arith)
            requires
                0 <= middle < 0x1_0000_0000_0000_0000,
        ;
        if middle * middle <= n {
            low = middle;
        } else {
            high = middle;
        }
    }
    proof {
        lemma_integer_sqrt_unique(n as int, low as int, integer_sqrt(n as int));
    }
    low
}

/// Whether the tolerance admits a deposit worth `minted` shares that would
/// be worth `balanced` shares in proportion.
pub fn check_slippage(minted: u128, balanced: u128, tolerance: Option<FixedFloat>) -> (r: Result<
    (),
    ContractError,
>)
    ensures
        r == slippage_verdict(minted as int, balanced as int, tolerance),
{
    match tolerance {
        None => Ok(()),
        Some(t) => {
            let whole = FixedFloat::from_num(balanced)?;
            let kept = FixedFloat::one().checked_sub(t)?;
            let least = whole.checked_mul(kept)?;
            if minted >= INTEGER_LIMIT {
                return Ok(());
            }
            let scaled: i128 = (minted as i128) * ONE_BITS;
            if scaled >= least.bits {
                Ok(())
            } else {
                Err(ContractError::SlippageExceeded)
            }
        },
    }
}

impl Reserves {
    /// The reserves of a pool that nobody has provided liquidity to.
    pub fn empty() -> (r: Reserves)
        ensures
            r == (Reserves { balance0: 0, balance1: 0, total_share: 0 }),
            r.wf(),
    {
        Reserves { balance0: 0, balance1: 0, total_share: 0 }
    }

    /// Whether the reserves are well formed.
    pub fn is_well_formed(&self) -> (r: bool)
        ensures
            r == self.wf(),
    {
        self.balance0 < INTEGER_LIMIT && self.balance1 < INTEGER_LIMIT && self.total_share
            < INTEGER_LIMIT && (self.total_share != 0 || (self.balance0 == 0 && self.balance1
            == 0)) && (self.total_share == 0 || (self.balance0 > 0 && self.balance1 > 0))
    }

    /// Takes a deposit of both assets and mints shares for it.
    ///
    /// Both amounts have to be positive. Where the pool has shares already
    /// and a tolerance is given, the deposit is refused if it is worth less
    /// than `1 - tolerance` of what it would be worth in proportion.
    pub fn provide(&self, deposit0: u128, deposit1: u128, tolerance: Option<FixedFloat>) -> (r:
        Result<Provision, ContractError>)
        requires
            self.wf(),
        ensures
            r == spec_provide(*self, deposit0, deposit1, tolerance),
            r matches Ok(p) ==> p.reserves.wf(),
    {
        if deposit0 == 0 || deposit1 == 0 {
            return Err(ContractError::InvalidZeroAmount);
        }
        if deposit0 >= INTEGER_LIMIT - self.balance0 || deposit1 >= INTEGER_LIMIT - self.balance1 {
            return Err(ContractError::Overflow);
        }
        assert(1 <= deposit0 * deposit1 < 0x4000_0000_0000_0000_0000_0000_0000_0000)
            by (nonlinear_arith)
            requires
                1 <= deposit0 < 0x8000_0000_0000_0000,
                1 <= deposit1 < 0x8000_0000_0000_0000,
        ;
        let minted: u128 = if self.total_share == 0 {
            let seed: u128 = isqrt(deposit0 * deposit1);
            assert(0 < seed < 0x8000_0000_0000_0000) by (nonlinear_arith)
                requires
                    seed * seed <= deposit0 * deposit1 < (seed + 1) * (seed + 1),
                    1 <= deposit0 * deposit1 < 0x4000_0000_0000_0000_0000_0000_0000_0000,
            ;
            seed
        } else {
            let total: u128 = self.total_share;
            assert(deposit0 * total < 0x4000_0000_0000_0000_0000_0000_0000_0000
                && deposit1 * total < 0x4000_0000_0000_0000_0000_0000_0000_0000)
                by (nonlinear_arith)
                requires
                    deposit0 < 0x8000_0000_0000_0000,
                    deposit1 < 0x8000_0000_0000_0000,
                    total < 0x8000_0000_0000_0000,
            ;
            let share0: u128 = deposit0 * total / self.balance0;
            let share1: u128 = deposit1 * total / self.balance1;
            if share0 <= share1 {
                check_slippage(share0, share1, tolerance)?;
                share0
            } else {
                check_slippage(share1, share0, tolerance)?;
                share1
            }
        };
        if minted >= INTEGER_LIMIT - self.total_share {
            return Err(ContractError::Overflow);
        }
        Ok(
            Provision {
                minted,
                reserves: Reserves {
                    balance0: self.balance0 + deposit0,
                    balance1: self.balance1 + deposit1,
                    total_share: self.total_share + minted,
                },
            },
        )
    }

    /// Burns `share` liquidity shares and returns the part of each reserve
    /// that they are of the share supply, rounded down.
    pub fn withdraw(&self, share: u128) -> (r: Result<Withdrawal, ContractError>)
        requires
            self.wf(),
        ensures
            r == spec_withdraw(*self, share),
            r matches Ok(w) ==> w.reserves.wf() && w.refund0 <= self.balance0 && w.refund1
                <= self.balance1,
    {
        if share > self.total_share {
            return Err(ContractError::InsufficientShares);
        }
        if self.total_share == 0 {
            return Ok(Withdrawal { refund0: 0, refund1: 0, reserves: *self });
        }
        let total: u128 = self.total_share;
        let balance0: u128 = self.balance0;
        let balance1: u128 = self.balance1;
        proof {
            lemma_part_of_reserve(balance0 as int, share as int, total as int);
            lemma_part_of_reserve(balance1 as int, share as int, total as int);
        }
        let refund0: u128 = balance0 * share / total;
        let refund1: u128 = balance1 * share / total;
        Ok(
            Withdrawal {
                refund0,
                refund1,
                reserves: Reserves {
                    balance0: balance0 - refund0,
                    balance1: balance1 - refund1,
                    total_share: total - share,
                },
            },
        )
    }
}

/// The part of a reserve that `share` of `total` shares stand for is the
/// whole reserve where all shares are meant, and less than a positive
/// reserve where fewer are.
pub proof fn lemma_part_of_reserve(balance: int, share: int, total: int)
    requires
        0 <= balance < INTEGER_LIMIT,
        0 <= share <= total < INTEGER_LIMIT,
        0 < total,
    ensures
        0 <= balance * share < 0x4000_0000_0000_0000_0000_0000_0000_0000,
        0 <= balance * share / total <= balance,
        share == total ==> balance * share / total == balance,
        share < total && balance > 0 ==> balance * share / total < balance,
{
    assert(0 <= balance * share <= balance * total < 0x4000_0000_0000_0000_0000_0000_0000_0000)
        by (nonlinear_arith)
        requires
            0 <= balance < 0x8000_0000_0000_0000,
            0 <= share <= total < 0x8000_0000_0000_0000,
    ;
    let q = balance * share / total;
    vstd::arithmetic::div_mod::lemma_fundamental_div_mod(balance * share, total);
    vstd::arithmetic::div_mod::lemma_mod_bound(balance * share, total);
    assert(0 <= q <= balance) by (nonlinear_arith)
        requires
            balance * share == total * q + (balance * share) % total,
            0 <= (balance * share) % total < total,
            0 <= balance * share <= balance * total,
            0 < total,
            0 <= balance,
    ;
    if share == total {
        assert(q == balance) by (nonlinear_arith)
            requires
                balance * total == total * q + (balance * share) % total,
                0 <= (balance * share) % total < total,
                0 < total,
        ;
    }
    if share < total && balance > 0 {
        assert(q < balance) by (nonlinear_arith)
            requires
                balance * share == total * q + (balance * share) % total,
                0 <= (balance * share) % total < total,
                0 <= share < total,
                balance > 0,
        ;
    }
}

/// Every number from zero on has a square root rounded down.
pub proof fn lemma_integer_sqrt_exists(n: int)
    requires
        0 <= n,
    ensures
        is_integer_sqrt(n, integer_sqrt(n)),
    decreases n,
{
    if n == 0 {
        assert(is_integer_sqrt(0, 0));
    } else {
        lemma_integer_sqrt_exists(n - 1);
        let below = integer_sqrt(n - 1);
        if (below + 1) * (below + 1) <= n {
            assert((below + 1) * (below + 1) < (below + 2) * (below + 2)) by (nonlinear_arith)
                requires
                    0 <= below,
            ;
            assert(is_integer_sqrt(n, below + 1));
        } else {
            assert(is_integer_sqrt(n, below));
        }
    }
}

/// A part of the reserves that is worth no more shares than a deposit
/// enlarged them by is no more than that deposit.
proof fn lemma_refund_within_deposit(balance: int, deposit: int, total: int, minted: int)
    requires
        0 < balance,
        0 <= deposit,
        0 < total,
        0 <= minted <= deposit * total / balance,
    ensures
        (balance + deposit) * minted / (total + minted) <= deposit,
{
    vstd::arithmetic::div_mod::lemma_fundamental_div_mod(deposit * total, balance);
    vstd::arithmetic::div_mod::lemma_mod_bound(deposit * total, balance);
    let worth = deposit * total / balance;
    assert(balance * minted <= deposit * total) by (nonlinear_arith)
        requires
            deposit * total == balance * worth + (deposit * total) % balance,
            0 <= (deposit * total) % balance,
            0 <= minted <= worth,
            0 < balance,
    ;
    let sum = total + minted;
    let back = (balance + deposit) * minted / sum;
    vstd::arithmetic::div_mod::lemma_fundamental_div_mod((balance + deposit) * minted, sum);
    vstd::arithmetic::div_mod::lemma_mod_bound((balance + deposit) * minted, sum);
    assert(back <= deposit) by (nonlinear_arith)
        requires
            (balance + deposit) * minted == sum * back + ((balance + deposit) * minted) % sum,
            0 <= ((balance + deposit) * minted) % sum < sum,
            balance * minted <= deposit * total,
            sum == total + minted,
            0 < sum,
            0 <= deposit,
    ;
}

/// A provider who at once burns the shares that a deposit was worth gets
/// back no more of either asset than was deposited.
pub proof fn lemma_provide_then_withdraw(
    reserves: Reserves,
    deposit0: u128,
    deposit1: u128,
    tolerance: Option<FixedFloat>,
)
    requires
        reserves.wf(),
    ensures
        spec_provide(reserves, deposit0, deposit1, tolerance) matches Ok(provision) ==> (
        spec_withdraw(provision.reserves, provision.minted) matches Ok(withdrawal)
            && withdrawal.refund0 <= deposit0 && withdrawal.refund1 <= deposit1),
{
    if let Ok(provision) = spec_provide(reserves, deposit0, deposit1, tolerance) {
        let minted = reserves.share_of_deposit(deposit0, deposit1);
        if reserves.total_share == 0 {
            assert(0 <= deposit0 * deposit1) by (nonlinear_arith);
            lemma_integer_sqrt_exists(deposit0 * deposit1);
            if minted > 0 {
                lemma_part_of_reserve(deposit0 as int, minted, minted);
                lemma_part_of_reserve(deposit1 as int, minted, minted);
            }
        } else {
            let total = reserves.total_share as int;
            let worth0 = deposit0 * total / (reserves.balance0 as int);
            let worth1 = deposit1 * total / (reserves.balance1 as int);
            assert(0 <= worth0 && 0 <= worth1) by (nonlinear_arith)
                requires
                    worth0 == deposit0 * total / (reserves.balance0 as int),
                    worth1 == deposit1 * total / (reserves.balance1 as int),
                    0 < total,
                    0 < reserves.balance0,
                    0 < reserves.balance1,
            ;
            lemma_refund_within_deposit(reserves.balance0 as int, deposit0 as int, total, minted);
            lemma_refund_within_deposit(reserves.balance1 as int, deposit1 as int, total, minted);
        }
    }
}

} // verus!
