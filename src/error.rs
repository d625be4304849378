use vstd::prelude::*;

verus! {

/// Every way an operation of the vault can fail. A failure is fatal to the
/// whole invocation: nothing of it is persisted.
#[derive(Debug, Clone, Copy, PartialEq, Eq, Structural)]
pub enum ContractError {
    /// A failure reported by the host (storage, queries, address handling).
    Std {},
    /// An addition, subtraction or multiplication left the native width.
    OverflowError {},
    /// A wide intermediate value did not fit back into the native width.
    ConversionOverflowError {},
    /// A valuation divided by a zero quantity.
    DivideByZeroError {},
    /// The sender lacks the permission or ownership the operation needs.
    Unauthorized {},
    /// The operation has nothing to work on.
    Insufficient {},
    /// The request itself is malformed (zero amount, wrong asset, no change).
    Invalidate {},
    /// A cooldown has not elapsed, or collateral is still locked.
    Locked {},
    /// Deposits are disabled.
    Paused {},
}

} // verus!
