//! The failures that an operation of the pool, the router or the registry
//! can report to its caller.

use vstd::prelude::*;

verus! {

/// Every failure aborts the operation that reports it and leaves the state
/// it was called on unchanged.
#[derive(Clone, Copy, Debug, PartialEq, Eq, Structural)]
pub enum ContractError {
    /// The caller is not the party the operation is reserved for.
    Unauthorized,
    /// An asset named in the request is not one of the pool's two assets.
    AssetMismatch,
    /// The requested output is the whole reserve or more.
    InsufficientPoolBalance,
    /// More liquidity shares are to be burned than exist.
    InsufficientShares,
    /// The ask amount is below what belief price and maximal spread allow.
    MaxSpreadExceeded,
    /// The two deposits deviate from the pool's ratio by more than tolerated.
    SlippageExceeded,
    /// A number left the range that the fixed-point or integer type holds.
    Overflow,
    /// An operand is outside the domain of the arithmetic operation.
    DomainError,
    /// The liquidity-share token was bound before.
    AlreadyInitialized,
    /// The unordered asset pair has a registered pool already.
    PairWasRegistered,
    /// An amount or a weight that must be positive is zero.
    InvalidZeroAmount,
    /// The pool has no liquidity-share token yet.
    Uninitialized,
}

} // verus!
