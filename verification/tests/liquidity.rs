use terraswap_lbp::error::ContractError;
use terraswap_lbp::fixed_point::{FixedFloat, INTEGER_LIMIT, ONE_BITS};
use terraswap_lbp::liquidity::{check_slippage, isqrt, Provision, Reserves, Withdrawal};

fn percent(n: i128) -> FixedFloat {
    FixedFloat::from_bits(ONE_BITS * n / 100)
}

#[test]
fn integer_square_roots() {
    assert_eq!(isqrt(0), 0);
    assert_eq!(isqrt(1), 1);
    assert_eq!(isqrt(2), 1);
    assert_eq!(isqrt(3), 1);
    assert_eq!(isqrt(4), 2);
    assert_eq!(isqrt(99), 9);
    assert_eq!(isqrt(100), 10);
    assert_eq!(isqrt(40_000), 200);
    assert_eq!(isqrt(u128::MAX), u64::MAX as u128);
    assert_eq!(isqrt((u64::MAX as u128) * (u64::MAX as u128)), u64::MAX as u128);
    assert_eq!(isqrt((u64::MAX as u128) * (u64::MAX as u128) - 1), u64::MAX as u128 - 1);
}

#[test]
fn first_deposit_mints_the_geometric_mean() {
    let empty = Reserves::empty();
    assert_eq!(empty, Reserves { balance0: 0, balance1: 0, total_share: 0 });
    assert_eq!(
        empty.provide(100, 400, None),
        Ok(Provision {
            minted: 200,
            reserves: Reserves { balance0: 100, balance1: 400, total_share: 200 },
        })
    );
    // the mean of 2 and 3 is 2.449..., rounded down
    assert_eq!(empty.provide(2, 3, None).unwrap().minted, 2);
    // a tolerance does not bind the deposit that sets the ratio
    assert_eq!(empty.provide(1, 1_000_000, Some(FixedFloat::zero())).unwrap().minted, 1_000);
}

#[test]
fn later_deposits_mint_in_proportion() {
    let reserves = Reserves { balance0: 100, balance1: 400, total_share: 200 };
    assert_eq!(
        reserves.provide(10, 40, None),
        Ok(Provision {
            minted: 20,
            reserves: Reserves { balance0: 110, balance1: 440, total_share: 220 },
        })
    );
    // the smaller of the two parts counts: 10 / 100 against 80 / 400
    assert_eq!(reserves.provide(10, 80, None).unwrap().minted, 20);
    assert_eq!(reserves.provide(30, 40, None).unwrap().minted, 20);
    // 7 * 200 / 400 = 3.5, rounded down
    assert_eq!(reserves.provide(50, 7, None).unwrap().minted, 3);
    // a deposit too small for one share is taken all the same
    assert_eq!(
        reserves.provide(1, 1, None),
        Ok(Provision {
            minted: 0,
            reserves: Reserves { balance0: 101, balance1: 401, total_share: 200 },
        })
    );
}

#[test]
fn deposits_of_nothing_are_refused() {
    let reserves = Reserves { balance0: 100, balance1: 400, total_share: 200 };
    assert_eq!(reserves.provide(0, 40, None), Err(ContractError::InvalidZeroAmount));
    assert_eq!(reserves.provide(10, 0, None), Err(ContractError::InvalidZeroAmount));
    assert_eq!(reserves.provide(0, 0, None), Err(ContractError::InvalidZeroAmount));
    assert_eq!(Reserves::empty().provide(0, 40, None), Err(ContractError::InvalidZeroAmount));
    assert_eq!(Reserves::empty().provide(10, 0, None), Err(ContractError::InvalidZeroAmount));
}

#[test]
fn slippage_beyond_the_tolerance_is_refused() {
    let reserves = Reserves { balance0: 100, balance1: 400, total_share: 200 };
    // worth 20 shares, 40 in proportion: half is lost
    assert_eq!(reserves.provide(10, 80, Some(percent(50))).unwrap().minted, 20);
    assert_eq!(
        reserves.provide(10, 80, Some(percent(49))),
        Err(ContractError::SlippageExceeded)
    );
    assert_eq!(
        reserves.provide(10, 80, Some(FixedFloat::zero())),
        Err(ContractError::SlippageExceeded)
    );
    assert_eq!(reserves.provide(10, 40, Some(FixedFloat::zero())).unwrap().minted, 20);
    assert_eq!(reserves.provide(10, 80, Some(FixedFloat::one())).unwrap().minted, 20);

    assert_eq!(check_slippage(20, 40, None), Ok(()));
    assert_eq!(check_slippage(20, 40, Some(percent(50))), Ok(()));
    assert_eq!(check_slippage(19, 40, Some(percent(50))), Err(ContractError::SlippageExceeded));
    assert_eq!(check_slippage(75, 100, Some(percent(25))), Ok(()));
    assert_eq!(check_slippage(74, 100, Some(percent(25))), Err(ContractError::SlippageExceeded));
    // a hundredth is rounded down to a multiple of 2^-64, so that a little more than
    // ninety-nine of a hundred have to be left
    assert_eq!(check_slippage(99, 100, Some(percent(1))), Err(ContractError::SlippageExceeded));
    assert_eq!(
        check_slippage(99, 100, Some(FixedFloat::from_bits(ONE_BITS / 100 + 1))),
        Ok(())
    );
    assert_eq!(
        check_slippage(1, INTEGER_LIMIT, Some(percent(1))),
        Err(ContractError::Overflow)
    );
    assert_eq!(
        check_slippage(1, 2, Some(FixedFloat::from_bits(i128::MIN))),
        Err(ContractError::Overflow)
    );
}

#[test]
fn reserves_stay_below_the_limit() {
    let reserves = Reserves { balance0: 100, balance1: 400, total_share: 200 };
    assert_eq!(reserves.provide(INTEGER_LIMIT - 100, 40, None), Err(ContractError::Overflow));
    assert_eq!(reserves.provide(10, INTEGER_LIMIT - 400, None), Err(ContractError::Overflow));
    assert_eq!(reserves.provide(u128::MAX, u128::MAX, None), Err(ContractError::Overflow));
    assert_eq!(
        Reserves::empty().provide(INTEGER_LIMIT, 1, None),
        Err(ContractError::Overflow)
    );
    let largest = INTEGER_LIMIT - 1;
    assert_eq!(Reserves::empty().provide(largest, largest, None).unwrap().minted, largest);
    // the shares of a deposit can outgrow the supply's range
    let thin = Reserves { balance0: 1, balance1: 1, total_share: 1 << 62 };
    assert_eq!(thin.provide(2, 2, None), Err(ContractError::Overflow));
}

#[test]
fn withdrawal_returns_the_part_of_the_shares() {
    let reserves = Reserves { balance0: 110, balance1: 440, total_share: 220 };
    assert_eq!(
        reserves.withdraw(20),
        Ok(Withdrawal {
            refund0: 10,
            refund1: 40,
            reserves: Reserves { balance0: 100, balance1: 400, total_share: 200 },
        })
    );
    // 110 * 7 / 220 = 3.5 and 440 * 7 / 220 = 14
    assert_eq!(
        reserves.withdraw(7),
        Ok(Withdrawal {
            refund0: 3,
            refund1: 14,
            reserves: Reserves { balance0: 107, balance1: 426, total_share: 213 },
        })
    );
    assert_eq!(
        reserves.withdraw(0),
        Ok(Withdrawal { refund0: 0, refund1: 0, reserves })
    );
    assert_eq!(
        reserves.withdraw(220),
        Ok(Withdrawal { refund0: 110, refund1: 440, reserves: Reserves::empty() })
    );
}

#[test]
fn more_shares_than_exist_cannot_be_burned() {
    let reserves = Reserves { balance0: 110, balance1: 440, total_share: 220 };
    assert_eq!(reserves.withdraw(221), Err(ContractError::InsufficientShares));
    assert_eq!(reserves.withdraw(u128::MAX), Err(ContractError::InsufficientShares));
    assert_eq!(Reserves::empty().withdraw(1), Err(ContractError::InsufficientShares));
    assert_eq!(
        Reserves::empty().withdraw(0),
        Ok(Withdrawal { refund0: 0, refund1: 0, reserves: Reserves::empty() })
    );
}

#[test]
fn deposit_and_withdrawal_return_no_more_than_was_deposited() {
    let pools = [
        Reserves::empty(),
        Reserves { balance0: 100, balance1: 400, total_share: 200 },
        Reserves { balance0: 3, balance1: 1_000_003, total_share: 17 },
        Reserves { balance0: 999_983, balance1: 7, total_share: 1_000_000_007 },
    ];
    let deposits = [(1u128, 1u128), (10, 40), (7, 13), (1_000, 1), (1, 1_000), (123_456, 654_321)];
    for pool in pools {
        for (deposit0, deposit1) in deposits {
            let provision = pool.provide(deposit0, deposit1, None).unwrap();
            let withdrawal = provision.reserves.withdraw(provision.minted).unwrap();
            assert!(withdrawal.refund0 <= deposit0);
            assert!(withdrawal.refund1 <= deposit1);
        }
    }
}
