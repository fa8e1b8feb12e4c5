//! A two-asset liquidity bootstrapping pool: fixed-point pricing of a
//! weighted constant-product market whose weights drift linearly over a
//! configured time window, together with the pool's share accounting, the
//! router's message construction and the registry of known pools.

pub mod asset;
pub mod contract;
pub mod error;
pub mod fixed_point;
pub mod liquidity;
pub mod math;
pub mod operations;
pub mod pool;
pub mod querier;
pub mod registry;
pub mod swap;
pub mod tax;
pub mod weights;
