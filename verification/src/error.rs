use vstd::prelude::*;

verus! {

/// Every way an escrow operation can be refused.
///
/// All checks run before any balance moves, so a caller that receives an
/// error observes a completely unchanged ledger and may simply retry.
#[derive(Clone, Copy, Debug, PartialEq, Eq, Structural)]
pub enum EscrowError {
    /// A transition was attempted on the wrong side of the deadline.
    InvalidTiming,
    /// The caller does not hold the role the operation demands: the
    /// depositor for a reclaim, the receiver at the given slot (or the
    /// administrator) for a release, or the owner of a token account
    /// that funds are drawn from or paid into.
    UnauthorizedCaller,
    /// The addressed record or token account is already closed or was
    /// never created.
    RecordNotFound,
    /// An escrow record for this depositor and asset is already live,
    /// or the token account identifier is already taken.
    RecordAlreadyExists,
    /// The depositor's source account holds less than the amount to lock.
    InsufficientFunds,
    /// A supplied token account is denominated in a different asset than
    /// the one the operation concerns.
    MintMismatch,
    /// A zero-value escrow has no economic meaning and is refused.
    InvalidAmount,
    /// The receiver list is empty or longer than `MAX_RECEIVERS`.
    InvalidReceiverCount,
    /// Crediting the destination would overflow its balance.
    BalanceOverflow,
}

} // verus!
