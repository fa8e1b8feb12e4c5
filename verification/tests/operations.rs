use terraswap_lbp::asset::{Asset, AssetInfo, WeightedAssetInfo};
use terraswap_lbp::contract::QueryMsg;
use terraswap_lbp::error::ContractError;
use terraswap_lbp::fixed_point::{FixedFloat, ONE_BITS};
use terraswap_lbp::operations::{
    asset_into_swap_msg, execute_swap_operation, Coin, OperationStep, QueryAnswers, RouterMessage,
    RouterQuery, SwapOperation,
};
use terraswap_lbp::pool::{LiquidityProvisionRequest, Pool, SwapRequest, TaxAdjustment};
use terraswap_lbp::querier::{query_pair_info, SmartQuery};

fn router() -> String {
    "router0000".to_string()
}

fn uusd() -> AssetInfo {
    AssetInfo::NativeToken { denom: "uusd".to_string() }
}

fn token() -> AssetInfo {
    AssetInfo::Token { contract_addr: "asset0000".to_string() }
}

fn answers(balance: Option<u128>, tax: Option<u128>, pair: Option<&str>) -> QueryAnswers {
    QueryAnswers { balance, tax, pair_contract: pair.map(String::from) }
}

fn native_swap() -> SwapOperation {
    SwapOperation::NativeSwap { offer_denom: "uusd".to_string(), ask_denom: "ukrw".to_string() }
}

fn pool_swap(offer: AssetInfo, ask: AssetInfo) -> SwapOperation {
    SwapOperation::TerraSwap { offer_asset_info: offer, ask_asset_info: ask }
}

#[test]
fn only_the_router_executes_its_operations() {
    for operation in [native_swap(), pool_swap(uusd(), token())] {
        for collected in [answers(None, None, None), answers(Some(5), Some(1), Some("pair0000"))] {
            assert_eq!(
                execute_swap_operation(
                    &router(),
                    &"addr0000".to_string(),
                    &operation,
                    &None,
                    &collected
                ),
                Err(ContractError::Unauthorized)
            );
        }
    }
}

#[test]
fn native_swap_keeps_the_return() {
    let step = |collected: QueryAnswers| {
        execute_swap_operation(&router(), &router(), &native_swap(), &None, &collected)
    };
    assert_eq!(
        step(answers(None, None, None)),
        Ok(OperationStep::Ask(RouterQuery::NativeBalance {
            account: "router0000".to_string(),
            denom: "uusd".to_string(),
        }))
    );
    // no tax is asked for where nothing is sent on
    assert_eq!(
        step(answers(Some(1_000), None, None)),
        Ok(OperationStep::Send(RouterMessage::NativeSwap {
            offer_coin: Coin { denom: "uusd".to_string(), amount: 1_000 },
            ask_denom: "ukrw".to_string(),
        }))
    );
    assert_eq!(
        step(answers(Some(1_000), Some(999), None)),
        Ok(OperationStep::Send(RouterMessage::NativeSwap {
            offer_coin: Coin { denom: "uusd".to_string(), amount: 1_000 },
            ask_denom: "ukrw".to_string(),
        }))
    );
}

#[test]
fn native_swap_sends_the_return_on_after_tax() {
    let to = Some("addr0001".to_string());
    let step = |collected: QueryAnswers| {
        execute_swap_operation(&router(), &router(), &native_swap(), &to, &collected)
    };
    assert_eq!(
        step(answers(None, None, None)),
        Ok(OperationStep::Ask(RouterQuery::NativeBalance {
            account: "router0000".to_string(),
            denom: "uusd".to_string(),
        }))
    );
    assert_eq!(
        step(answers(Some(1_000), None, None)),
        Ok(OperationStep::Ask(RouterQuery::Tax { amount: 1_000, denom: "uusd".to_string() }))
    );
    assert_eq!(
        step(answers(Some(1_000), Some(7), None)),
        Ok(OperationStep::Send(RouterMessage::NativeSwapSend {
            to: "addr0001".to_string(),
            offer_coin: Coin { denom: "uusd".to_string(), amount: 993 },
            ask_denom: "ukrw".to_string(),
        }))
    );
    assert_eq!(step(answers(Some(1_000), Some(1_001), None)), Err(ContractError::Overflow));
}

#[test]
fn pool_swap_of_a_native_coin() {
    let to = Some("addr0001".to_string());
    let step = |collected: QueryAnswers| {
        execute_swap_operation(&router(), &router(), &pool_swap(uusd(), token()), &to, &collected)
    };
    assert_eq!(
        step(answers(None, None, None)),
        Ok(OperationStep::Ask(RouterQuery::FactoryPair {
            offer_asset_info: uusd(),
            ask_asset_info: token(),
        }))
    );
    assert_eq!(
        step(answers(None, None, Some("pair0000"))),
        Ok(OperationStep::Ask(RouterQuery::NativeBalance {
            account: "router0000".to_string(),
            denom: "uusd".to_string(),
        }))
    );
    assert_eq!(
        step(answers(Some(1_000), None, Some("pair0000"))),
        Ok(OperationStep::Ask(RouterQuery::Tax { amount: 1_000, denom: "uusd".to_string() }))
    );
    assert_eq!(
        step(answers(Some(1_000), Some(7), Some("pair0000"))),
        Ok(OperationStep::Send(RouterMessage::PairSwap {
            pair_contract: "pair0000".to_string(),
            funds: Coin { denom: "uusd".to_string(), amount: 993 },
            request: SwapRequest {
                offer_asset: Asset { info: uusd(), amount: 993 },
                belief_price: None,
                max_spread: None,
                to: Some("addr0001".to_string()),
            },
        }))
    );
    assert_eq!(
        step(answers(Some(1_000), Some(1_001), Some("pair0000"))),
        Err(ContractError::Overflow)
    );
}

#[test]
fn pool_swap_of_a_token() {
    let step = |collected: QueryAnswers| {
        execute_swap_operation(&router(), &router(), &pool_swap(token(), uusd()), &None, &collected)
    };
    assert_eq!(
        step(answers(None, None, None)),
        Ok(OperationStep::Ask(RouterQuery::FactoryPair {
            offer_asset_info: token(),
            ask_asset_info: uusd(),
        }))
    );
    assert_eq!(
        step(answers(None, None, Some("pair0000"))),
        Ok(OperationStep::Ask(RouterQuery::TokenBalance {
            contract_addr: "asset0000".to_string(),
            account: "router0000".to_string(),
        }))
    );
    // tokens pay no tax: none is asked for, and one that is there does not count
    for tax in [None, Some(7), Some(u128::MAX)] {
        assert_eq!(
            step(answers(Some(1_000), tax, Some("pair0000"))),
            Ok(OperationStep::Send(RouterMessage::TokenSend {
                token_contract: "asset0000".to_string(),
                pair_contract: "pair0000".to_string(),
                amount: 1_000,
                request: SwapRequest {
                    offer_asset: Asset { info: token(), amount: 1_000 },
                    belief_price: None,
                    max_spread: None,
                    to: None,
                },
            }))
        );
    }
}

#[test]
fn asset_becomes_a_swap_message() {
    let spread = Some(FixedFloat::from_bits(ONE_BITS / 2));
    assert_eq!(
        asset_into_swap_msg(
            "pair0000".to_string(),
            Asset { info: uusd(), amount: 500 },
            spread,
            Some("addr0001".to_string()),
            20,
        ),
        Ok(RouterMessage::PairSwap {
            pair_contract: "pair0000".to_string(),
            funds: Coin { denom: "uusd".to_string(), amount: 480 },
            request: SwapRequest {
                offer_asset: Asset { info: uusd(), amount: 480 },
                belief_price: None,
                max_spread: spread,
                to: Some("addr0001".to_string()),
            },
        })
    );
    assert_eq!(
        asset_into_swap_msg(
            "pair0000".to_string(),
            Asset { info: uusd(), amount: 500 },
            None,
            None,
            500,
        ),
        Ok(RouterMessage::PairSwap {
            pair_contract: "pair0000".to_string(),
            funds: Coin { denom: "uusd".to_string(), amount: 0 },
            request: SwapRequest {
                offer_asset: Asset { info: uusd(), amount: 0 },
                belief_price: None,
                max_spread: None,
                to: None,
            },
        })
    );
    assert_eq!(
        asset_into_swap_msg(
            "pair0000".to_string(),
            Asset { info: uusd(), amount: 500 },
            None,
            None,
            501,
        ),
        Err(ContractError::Overflow)
    );
    assert_eq!(
        asset_into_swap_msg(
            "pair0000".to_string(),
            Asset { info: token(), amount: 500 },
            spread,
            None,
            501,
        ),
        Ok(RouterMessage::TokenSend {
            token_contract: "asset0000".to_string(),
            pair_contract: "pair0000".to_string(),
            amount: 500,
            request: SwapRequest {
                offer_asset: Asset { info: token(), amount: 500 },
                belief_price: None,
                max_spread: spread,
                to: None,
            },
        })
    );
}

#[test]
fn pair_info_is_asked_of_the_pool_contract() {
    assert_eq!(
        query_pair_info(&"pair0000".to_string()),
        SmartQuery { contract_addr: "pair0000".to_string(), msg: QueryMsg::Pair }
    );
}

#[test]
fn routed_swap_beyond_the_spread_is_refused_by_the_pool() {
    let mut pool = Pool::instantiate(
        [
            WeightedAssetInfo { info: uusd(), start_weight: 1, end_weight: 1 },
            WeightedAssetInfo { info: token(), start_weight: 1, end_weight: 1 },
        ],
        1_000,
        2_000,
        None,
        "liquidity0000".to_string(),
    )
    .unwrap();
    pool.post_initialize(&"liquidity0000".to_string()).unwrap();
    pool.provide_liquidity(
        &"addr0000".to_string(),
        &LiquidityProvisionRequest {
            assets: [Asset { info: uusd(), amount: 100 }, Asset { info: token(), amount: 100 }],
            slippage_tolerance: None,
        },
    )
    .unwrap();
    let before = pool.reserves;
    let no_tax = TaxAdjustment { offer_tax: 0, ask_tax: 0 };

    // ten of a hundred return nine, a spread of a tenth on the price of the pool
    let sixteenth = Some(FixedFloat::from_bits(ONE_BITS / 16));
    let message = asset_into_swap_msg(
        "pair0000".to_string(),
        Asset { info: token(), amount: 10 },
        sixteenth,
        None,
        0,
    )
    .unwrap();
    let request = match message {
        RouterMessage::TokenSend { request, .. } => request,
        _ => panic!("tokens are sent through their contract"),
    };
    assert_eq!(request.max_spread, sixteenth);
    assert_eq!(request.belief_price, None);
    assert_eq!(
        pool.swap(&router(), &request, 1_500, no_tax),
        Err(ContractError::MaxSpreadExceeded)
    );
    assert_eq!(pool.reserves, before);

    let eighth = Some(FixedFloat::from_bits(ONE_BITS / 8));
    let message = asset_into_swap_msg(
        "pair0000".to_string(),
        Asset { info: uusd(), amount: 10 },
        eighth,
        None,
        0,
    )
    .unwrap();
    let request = match message {
        RouterMessage::PairSwap { request, .. } => request,
        _ => panic!("coins go with the swap"),
    };
    assert_eq!(request.max_spread, eighth);
    assert_eq!(pool.swap(&router(), &request, 1_500, no_tax).unwrap().amounts.ask_amount, 9);
}
