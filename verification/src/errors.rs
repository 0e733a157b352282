use vstd::prelude::*;

verus! {

/// Failures of the ledger's balance and transaction operations.
#[derive(Clone, Copy, Debug, PartialEq, Eq, Structural)]
pub enum TransactionError {
    /// The transaction id is already present in the account's log.
    DuplicateTx,
    /// The amount is zero or exceeds the available balance.
    InsufficientBalance,
    /// The account was never registered for the asset.
    BalanceDoesNotExist,
    /// The ledger is paused; no operation currently returns this.
    ContractPaused,
    /// No administrator's delegated allowance covers the requested amount.
    InsufficientLiquidityFund,
    /// The account's log holds no record with the requested id.
    TransactionNotFound,
    /// The account has no transaction log at all.
    TransactionIsEmpty,
}

/// Failures of the role registry and of admin-facing ledger operations.
#[derive(Clone, Copy, Debug, PartialEq, Eq, Structural)]
pub enum UserError {
    /// The principal does not hold the role the operation demands.
    NotAuthorized,
    /// The principal is already registered.
    AlreadyRegistered,
    /// The principal holds no balance entry for the asset.
    NotRegistered,
    /// The registry was built without an owner; unreachable here, since
    /// construction always fixes one.
    OwnerNotSet,
    /// The principal is already an administrator.
    AlreadyAdmin,
}

} // verus!
