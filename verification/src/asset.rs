//! The assets that a pool holds: what identifies one, an amount of one, and
//! one with the two weights between which its share of the pool drifts.

use vstd::prelude::*;

verus! {

/// What identifies a fungible asset: the address of a token contract, or the
/// denomination of a native coin.
#[derive(Debug, PartialEq, Eq)]
pub enum AssetInfo {
    Token { contract_addr: String },
    NativeToken { denom: String },
}

/// The identity of an asset as a value: two assets are the same where their
/// identities are equal.
pub enum AssetId {
    Token { contract_addr: Seq<char> },
    NativeToken { denom: Seq<char> },
}

impl View for AssetInfo {
    type V = AssetId;

    open spec fn view(&self) -> AssetId {
        match self {
            AssetInfo::Token { contract_addr } => AssetId::Token { contract_addr: contract_addr@ },
            AssetInfo::NativeToken { denom } => AssetId::NativeToken { denom: denom@ },
        }
    }
}

impl Clone for AssetInfo {
    fn clone(&self) -> (r: Self)
        ensures
            r == *self,
    {
        match self {
            AssetInfo::Token { contract_addr } => AssetInfo::Token {
                contract_addr: contract_addr.clone(),
            },
            AssetInfo::NativeToken { denom } => AssetInfo::NativeToken { denom: denom.clone() },
        }
    }
}

impl AssetInfo {
    /// Whether the two are the same asset.
    pub fn equal(&self, other: &AssetInfo) -> (r: bool)
        ensures
            r == (self@ == other@),
    {
        match self {
            AssetInfo::Token { contract_addr } => match other {
                AssetInfo::Token { contract_addr: other_addr } => *contract_addr == *other_addr,
                AssetInfo::NativeToken { .. } => false,
            },
            AssetInfo::NativeToken { denom } => match other {
                AssetInfo::Token { .. } => false,
                AssetInfo::NativeToken { denom: other_denom } => *denom == *other_denom,
            },
        }
    }

    /// Whether the asset is a native coin, on whose transfers tax is due.
    pub fn is_native_token(&self) -> (r: bool)
        ensures
            r == (self@ is NativeToken),
    {
        match self {
            AssetInfo::Token { .. } => false,
            AssetInfo::NativeToken { .. } => true,
        }
    }
}

/// An amount of an asset.
#[derive(Debug, PartialEq, Eq)]
pub struct Asset {
    pub info: AssetInfo,
    pub amount: u128,
}

impl Clone for Asset {
    fn clone(&self) -> (r: Self)
        ensures
            r == *self,
    {
        Asset { info: self.info.clone(), amount: self.amount }
    }
}

/// An asset of a pool with its weight at the start and at the end of the
/// pool's time window.
#[derive(Debug, PartialEq, Eq)]
pub struct WeightedAssetInfo {
    pub info: AssetInfo,
    pub start_weight: u128,
    pub end_weight: u128,
}

impl Clone for WeightedAssetInfo {
    fn clone(&self) -> (r: Self)
        ensures
            r == *self,
    {
        WeightedAssetInfo {
            info: self.info.clone(),
            start_weight: self.start_weight,
            end_weight: self.end_weight,
        }
    }
}

} // verus!
