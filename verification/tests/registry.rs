use terraswap_lbp::asset::AssetInfo;
use terraswap_lbp::error::ContractError;
use terraswap_lbp::registry::{
    asset_less_or_equal, bytes_less_or_equal, pair_key, PairKey, RegisteredPool, Registry,
};

fn token(name: &str) -> AssetInfo {
    AssetInfo::Token { contract_addr: name.to_string() }
}

fn coin(name: &str) -> AssetInfo {
    AssetInfo::NativeToken { denom: name.to_string() }
}

#[test]
fn register() {
    let mut registry = Registry::new();

    let asset_infos = [token("asset0000"), token("asset0001")];

    registry.register(&asset_infos, "pair0000".to_string()).unwrap();

    assert_eq!(registry.lookup_pool(&asset_infos), Some("pair0000".to_string()));
    assert_eq!(
        registry.lookup_pool(&[asset_infos[1].clone(), asset_infos[0].clone()]),
        Some("pair0000".to_string())
    );

    let res = registry
        .register(&[asset_infos[1].clone(), asset_infos[0].clone()], "pair0000".to_string())
        .unwrap_err();
    assert_eq!(res, ContractError::PairWasRegistered {});

    // Store one more item
    let asset_infos_2 = [token("asset0000"), token("asset0002")];

    registry.register(&asset_infos_2, "pair0001".to_string()).unwrap();

    assert_eq!(
        registry.pools,
        vec![
            RegisteredPool {
                key: PairKey { first: token("asset0000"), second: token("asset0001") },
                contract_addr: "pair0000".to_string(),
            },
            RegisteredPool {
                key: PairKey { first: token("asset0000"), second: token("asset0002") },
                contract_addr: "pair0001".to_string(),
            },
        ]
    );
    assert_eq!(registry.lookup_pool(&asset_infos_2), Some("pair0001".to_string()));
    assert_eq!(registry.lookup_pool(&[token("asset0001"), token("asset0002")]), None);
}

#[test]
fn second_pool_for_a_pair_is_refused_in_either_order() {
    let mut registry = Registry::new();
    registry.register(&[coin("uusd"), token("asset0000")], "pair0000".to_string()).unwrap();
    let before = registry.pools.len();
    assert_eq!(
        registry.register(&[coin("uusd"), token("asset0000")], "pair0001".to_string()),
        Err(ContractError::PairWasRegistered)
    );
    assert_eq!(
        registry.register(&[token("asset0000"), coin("uusd")], "pair0001".to_string()),
        Err(ContractError::PairWasRegistered)
    );
    assert_eq!(registry.pools.len(), before);
    assert_eq!(
        registry.lookup_pool(&[token("asset0000"), coin("uusd")]),
        Some("pair0000".to_string())
    );
    // a token of the coin's name is another asset
    assert_eq!(
        registry.register(&[token("asset0000"), token("uusd")], "pair0001".to_string()),
        Ok(())
    );
}

#[test]
fn key_holds_the_pair_in_a_fixed_order() {
    let expected = PairKey { first: token("asset0000"), second: token("asset0001") };
    assert_eq!(pair_key(&[token("asset0000"), token("asset0001")]), expected);
    assert_eq!(pair_key(&[token("asset0001"), token("asset0000")]), expected);
    // tokens come before coins
    let mixed = PairKey { first: token("zzz"), second: coin("aaa") };
    assert_eq!(pair_key(&[coin("aaa"), token("zzz")]), mixed);
    assert_eq!(pair_key(&[token("zzz"), coin("aaa")]), mixed);
    let same = PairKey { first: coin("uusd"), second: coin("uusd") };
    assert_eq!(pair_key(&[coin("uusd"), coin("uusd")]), same);
    assert!(expected.equal(&pair_key(&[token("asset0001"), token("asset0000")])));
    assert!(!expected.equal(&mixed));
}

#[test]
fn names_are_ordered_by_their_bytes() {
    assert!(bytes_less_or_equal(b"", b""));
    assert!(bytes_less_or_equal(b"", b"a"));
    assert!(!bytes_less_or_equal(b"a", b""));
    assert!(bytes_less_or_equal(b"abc", b"abc"));
    assert!(bytes_less_or_equal(b"abc", b"abd"));
    assert!(!bytes_less_or_equal(b"abd", b"abc"));
    assert!(bytes_less_or_equal(b"ab", b"abc"));
    assert!(!bytes_less_or_equal(b"abc", b"ab"));
    assert!(bytes_less_or_equal(b"abc", b"b"));
    assert!(bytes_less_or_equal(&[0x7f], &[0x80]));

    assert!(asset_less_or_equal(&token("b"), &coin("a")));
    assert!(!asset_less_or_equal(&coin("a"), &token("b")));
    assert!(asset_less_or_equal(&coin("ukrw"), &coin("uusd")));
    assert!(!asset_less_or_equal(&coin("uusd"), &coin("ukrw")));
    assert!(asset_less_or_equal(&coin("uusd"), &coin("uusd")));
}

#[test]
fn new_registry_knows_no_pool() {
    let registry = Registry::new();
    assert!(registry.pools.is_empty());
    assert_eq!(registry.lookup_pool(&[coin("uusd"), token("asset0000")]), None);
}
