//! The registry's question to a pool contract.

use crate::contract::QueryMsg;
use vstd::prelude::*;

verus! {

/// A query addressed to a contract.
#[derive(Debug, PartialEq, Eq)]
pub struct SmartQuery {
    pub contract_addr: String,
    pub msg: QueryMsg,
}

/// The query that asks the pool at `pair_contract` for its configuration.
pub fn query_pair_info(pair_contract: &String) -> (query: SmartQuery)
    ensures
        query == (SmartQuery { contract_addr: *pair_contract, msg: QueryMsg::Pair }),
{
    SmartQuery { contract_addr: pair_contract.clone(), msg: QueryMsg::Pair }
}

} // verus!
