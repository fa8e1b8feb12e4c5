//! The registry of pools: at most one pool for each unordered pair of
//! assets, found again whatever the order in which the pair is named.
//!
//! A pair is kept under its key: the two assets in a fixed order, tokens
//! before native coins and each kind by the bytes of its name.

use crate::asset::{AssetId, AssetInfo};
use crate::error::ContractError;
use vstd::prelude::*;
use vstd::utf8::{encode_utf8, encode_utf8_decode_utf8};

verus! {

/// Whether the byte string `a` comes before `b` or equals it, byte by byte.
pub open spec fn bytes_le(a: Seq<u8>, b: Seq<u8>) -> bool
    decreases a.len(),
{
    if a.len() == 0 {
        true
    } else if b.len() == 0 {
        false
    } else if a[0] != b[0] {
        a[0] < b[0]
    } else {
        bytes_le(a.drop_first(), b.drop_first())
    }
}

/// Whether the asset `a` comes before `b` or is the same: tokens come before
/// native coins, and two of a kind go by the bytes of their names.
pub open spec fn asset_le(a: AssetId, b: AssetId) -> bool {
    match a {
        AssetId::Token { contract_addr: x } => match b {
            AssetId::Token { contract_addr: y } => bytes_le(encode_utf8(x), encode_utf8(y)),
            AssetId::NativeToken { .. } => true,
        },
        AssetId::NativeToken { denom: x } => match b {
            AssetId::Token { .. } => false,
            AssetId::NativeToken { denom: y } => bytes_le(encode_utf8(x), encode_utf8(y)),
        },
    }
}

/// The key of a pair: its two assets, the one that comes first in front.
pub open spec fn spec_pair_key(a: AssetId, b: AssetId) -> (AssetId, AssetId) {
    if asset_le(a, b) {
        (a, b)
    } else {
        (b, a)
    }
}

/// Whether two pairs hold the same two assets, in either order.
pub open spec fn same_pair(a: AssetId, b: AssetId, c: AssetId, d: AssetId) -> bool {
    (a == c && b == d) || (a == d && b == c)
}

/// Of two byte strings one comes before the other or equals it.
pub proof fn lemma_bytes_le_total(a: Seq<u8>, b: Seq<u8>)
    ensures
        bytes_le(a, b) || bytes_le(b, a),
    decreases a.len(),
{
    if a.len() > 0 && b.len() > 0 && a[0] == b[0] {
        lemma_bytes_le_total(a.drop_first(), b.drop_first());
    }
}

/// Two byte strings of which each comes before the other or equals it are
/// equal.
pub proof fn lemma_bytes_le_antisymmetric(a: Seq<u8>, b: Seq<u8>)
    requires
        bytes_le(a, b),
        bytes_le(b, a),
    ensures
        a == b,
    decreases a.len(),
{
    if a.len() == 0 || b.len() == 0 {
        assert(a =~= b);
    } else {
        lemma_bytes_le_antisymmetric(a.drop_first(), b.drop_first());
        assert(a =~= seq![a[0]] + a.drop_first());
        assert(b =~= seq![b[0]] + b.drop_first());
    }
}

/// Of two assets one comes before the other or is the same, and two of
/// which each comes before the other are the same.
pub proof fn lemma_asset_le_total_order(a: AssetId, b: AssetId)
    ensures
        asset_le(a, b) || asset_le(b, a),
        asset_le(a, b) && asset_le(b, a) ==> a == b,
{
    match a {
        AssetId::Token { contract_addr: x } => match b {
            AssetId::Token { contract_addr: y } => {
                lemma_name_order(x, y);
            },
            AssetId::NativeToken { .. } => {},
        },
        AssetId::NativeToken { denom: x } => match b {
            AssetId::Token { .. } => {},
            AssetId::NativeToken { denom: y } => {
                lemma_name_order(x, y);
            },
        },
    }
}

/// The order of names by their bytes is total, and names with the same
/// bytes are the same.
proof fn lemma_name_order(x: Seq<char>, y: Seq<char>)
    ensures
        bytes_le(encode_utf8(x), encode_utf8(y)) || bytes_le(encode_utf8(y), encode_utf8(x)),
        bytes_le(encode_utf8(x), encode_utf8(y)) && bytes_le(encode_utf8(y), encode_utf8(x)) ==> x
            == y,
{
    lemma_bytes_le_total(encode_utf8(x), encode_utf8(y));
    if bytes_le(encode_utf8(x), encode_utf8(y)) && bytes_le(encode_utf8(y), encode_utf8(x)) {
        lemma_bytes_le_antisymmetric(encode_utf8(x), encode_utf8(y));
        encode_utf8_decode_utf8(x);
        encode_utf8_decode_utf8(y);
    }
}

/// The key of a pair does not depend on the order in which the pair is
/// named.
pub proof fn lemma_pair_key_symmetric(a: AssetId, b: AssetId)
    ensures
        spec_pair_key(a, b) == spec_pair_key(b, a),
{
    lemma_asset_le_total_order(a, b);
}

/// Two pairs have the same key exactly where they hold the same two assets.
pub proof fn lemma_pair_key_identifies(a: AssetId, b: AssetId, c: AssetId, d: AssetId)
    ensures
        spec_pair_key(a, b) == spec_pair_key(c, d) <==> same_pair(a, b, c, d),
{
    lemma_asset_le_total_order(a, b);
    lemma_asset_le_total_order(c, d);
}

/// Whether the byte string `a` comes before `b` or equals it.
pub fn bytes_less_or_equal(a: &[u8], b: &[u8]) -> (r: bool)
    ensures
        r == bytes_le(a@, b@),
{
    let mut i: usize = 0;
    assert(a@.skip(0) =~= a@ && b@.skip(0) =~= b@);
    while i < a.len() && i < b.len()
        invariant
            i <= a.len(),
            i <= b.len(),
            bytes_le(a@, b@) == bytes_le(a@.skip(i as int), b@.skip(i as int)),
        decreases a.len() - i,
    {
        proof {
            assert(a@.skip(i as int)[0] == a@[i as int]);
            assert(b@.skip(i as int)[0] == b@[i as int]);
            assert(a@.skip(i as int).drop_first() =~= a@.skip(i + 1));
            assert(b@.skip(i as int).drop_first() =~= b@.skip(i + 1));
        }
        if a[i] != b[i] {
            return a[i] < b[i];
        }
        i += 1;
    }
    i == a.len()
}

/// Whether the asset `a` comes before `b` or is the same.
pub fn asset_less_or_equal(a: &AssetInfo, b: &AssetInfo) -> (r: bool)
    ensures
        r == asset_le(a@, b@),
{
    match a {
        AssetInfo::Token { contract_addr: x } => match b {
            AssetInfo::Token { contract_addr: y } => bytes_less_or_equal(
                x.as_str().as_bytes(),
                y.as_str().as_bytes(),
            ),
            AssetInfo::NativeToken { .. } => true,
        },
        AssetInfo::NativeToken { denom: x } => match b {
            AssetInfo::Token { .. } => false,
            AssetInfo::NativeToken { denom: y } => bytes_less_or_equal(
                x.as_str().as_bytes(),
                y.as_str().as_bytes(),
            ),
        },
    }
}

/// The key of a pair of assets.
#[derive(Debug, PartialEq, Eq)]
pub struct PairKey {
    pub first: AssetInfo,
    pub second: AssetInfo,
}

impl View for PairKey {
    type V = (AssetId, AssetId);

    open spec fn view(&self) -> (AssetId, AssetId) {
        (self.first@, self.second@)
    }
}

impl PairKey {
    /// Whether the two keys are the same.
    pub fn equal(&self, other: &PairKey) -> (r: bool)
        ensures
            r == (self@ == other@),
    {
        self.first.equal(&other.first) && self.second.equal(&other.second)
    }
}

/// The key of the pair, whichever of its two assets is named first.
pub fn pair_key(asset_infos: &[AssetInfo; 2]) -> (key: PairKey)
    ensures
        key@ == spec_pair_key(asset_infos[0]@, asset_infos[1]@),
        key@ == spec_pair_key(asset_infos[1]@, asset_infos[0]@),
{
    proof {
        lemma_pair_key_symmetric(asset_infos[0]@, asset_infos[1]@);
    }
    if asset_less_or_equal(&asset_infos[0], &asset_infos[1]) {
        PairKey { first: asset_infos[0].clone(), second: asset_infos[1].clone() }
    } else {
        PairKey { first: asset_infos[1].clone(), second: asset_infos[0].clone() }
    }
}

/// A pool that the registry knows.
#[derive(Debug, PartialEq, Eq)]
pub struct RegisteredPool {
    pub key: PairKey,
    pub contract_addr: String,
}

/// The pools that were registered, in the order of their registration.
#[derive(Debug, PartialEq, Eq)]
pub struct Registry {
    pub pools: Vec<RegisteredPool>,
}

impl Registry {
    /// No two pools have the same key.
    pub open spec fn wf(&self) -> bool {
        forall|i: int, j: int|
            0 <= i < j < self.pools.len() ==> (#[trigger] self.pools[i]).key@ != (
            #[trigger] self.pools[j]).key@
    }

    /// Whether a pool is registered under the key.
    pub open spec fn contains(&self, key: (AssetId, AssetId)) -> bool {
        exists|i: int| 0 <= i < self.pools.len() && (#[trigger] self.pools[i]).key@ == key
    }

    /// Whether a pool is registered for the two assets, in either order.
    pub open spec fn registered(&self, a: AssetId, b: AssetId) -> bool {
        self.contains(spec_pair_key(a, b))
    }

    /// A registry that knows no pool.
    pub fn new() -> (r: Registry)
        ensures
            r.wf(),
            r.pools@.len() == 0,
    {
        Registry { pools: Vec::new() }
    }

    /// Whether the registry is well formed.
    pub fn is_well_formed(&self) -> (r: bool)
        ensures
            r == self.wf(),
    {
        let mut j: usize = 0;
        while j < self.pools.len()
            invariant
                j <= self.pools.len(),
                forall|a: int, b: int|
                    0 <= a < b < j ==> (#[trigger] self.pools[a]).key@ != (
                    #[trigger] self.pools[b]).key@,
            decreases self.pools.len() - j,
        {
            let mut i: usize = 0;
            while i < j
                invariant
                    i <= j < self.pools.len(),
                    forall|a: int| 0 <= a < i ==> (#[trigger] self.pools[a]).key@ != self.pools[j as int].key@,
                decreases j - i,
            {
                if self.pools[i].key.equal(&self.pools[j].key) {
                    assert(self.pools[i as int].key@ == self.pools[j as int].key@);
                    return false;
                }
                i += 1;
            }
            j += 1;
        }
        true
    }

    /// The address of the pool of the two assets, in whichever order they
    /// are named.
    pub fn lookup_pool(&self, asset_infos: &[AssetInfo; 2]) -> (r: Option<String>)
        requires
            self.wf(),
        ensures
            match r {
                Some(address) => exists|i: int|
                    0 <= i < self.pools.len() && (#[trigger] self.pools[i]).key@ == spec_pair_key(
                        asset_infos[0]@,
                        asset_infos[1]@,
                    ) && self.pools[i].contract_addr == address,
                None => !self.registered(asset_infos[0]@, asset_infos[1]@),
            },
    {
        let key = pair_key(asset_infos);
        let mut i: usize = 0;
        while i < self.pools.len()
            invariant
                i <= self.pools.len(),
                key@ == spec_pair_key(asset_infos[0]@, asset_infos[1]@),
                forall|k: int| 0 <= k < i ==> (#[trigger] self.pools[k]).key@ != key@,
            decreases self.pools.len() - i,
        {
            if self.pools[i].key.equal(&key) {
                let address = self.pools[i].contract_addr.clone();
                assert(self.pools[i as int].key@ == key@ && self.pools[i as int].contract_addr
                    == address);
                return Some(address);
            }
            i += 1;
        }
        None
    }

    /// Registers the pool at `contract_addr` for the two assets. A pair has
    /// one pool: where one is registered for the same two assets, in
    /// whichever order, the registration fails and the registry stays as it
    /// was.
    pub fn register(&mut self, asset_infos: &[AssetInfo; 2], contract_addr: String) -> (r: Result<
        (),
        ContractError,
    >)
        requires
            old(self).wf(),
        ensures
            final(self).wf(),
            match r {
                Ok(_) => {
                    &&& !old(self).registered(asset_infos[0]@, asset_infos[1]@)
                    &&& final(self).pools@.len() == old(self).pools@.len() + 1
                    &&& final(self).pools@.drop_last() == old(self).pools@
                    &&& final(self).pools@.last().key@ == spec_pair_key(
                        asset_infos[0]@,
                        asset_infos[1]@,
                    )
                    &&& final(self).pools@.last().contract_addr == contract_addr
                    &&& final(self).registered(asset_infos[0]@, asset_infos[1]@)
                    &&& final(self).registered(asset_infos[1]@, asset_infos[0]@)
                },
                Err(e) => {
                    &&& e == ContractError::PairWasRegistered
                    &&& old(self).registered(asset_infos[0]@, asset_infos[1]@)
                    &&& *final(self) == *old(self)
                },
            },
    {
        if self.lookup_pool(asset_infos).is_some() {
            return Err(ContractError::PairWasRegistered);
        }
        let key = pair_key(asset_infos);
        let ghost before = self.pools@;
        self.pools.push(RegisteredPool { key, contract_addr });
        proof {
            assert(self.pools@.drop_last() =~= before);
            assert(forall|i: int| 0 <= i < before.len() ==> self.pools@[i] == before[i]);
            assert(self.pools@[before.len() as int].key@ == spec_pair_key(
                asset_infos[0]@,
                asset_infos[1]@,
            ));
        }
        Ok(())
    }
}

} // verus!
