use vstd::prelude::*;

verus! {

/// Why an operation of the engine was refused. A refused operation leaves every
/// contract record as it was before the call.
#[derive(Clone, Copy, Debug, PartialEq, Eq, Structural)]
pub enum Error {
    /// No contract has the requested id.
    NotFound,
    /// The operation needs the engine to be enabled by its administrator.
    NotEnabled,
    /// The caller is not the party that the operation requires.
    Unauthorized,
    /// The contract's status or kind does not permit the operation.
    InvalidState,
    /// A lease is claimed while its rent is paid within the grace window.
    NotInDefault,
    /// A claim is made before the contract's nominal term has elapsed.
    TermNotOver,
    /// Moving the collateral asset failed.
    CollateralTransferFailed,
    /// The ledger refused the payment, whatever reason it gave.
    PaymentTransferFailed,
    /// The payer's balance, read before the payment, does not cover it.
    InsufficientBalance,
    /// An amount or a timestamp left its integer range, a divisor was zero,
    /// or a timestamp lies before the start it is measured from.
    ArithmeticOverflow,
}

/// Why a ledger or registry refused a transfer.
#[derive(Clone, Copy, Debug, PartialEq, Eq, Structural)]
pub enum TransferError {
    /// The sender does not hold enough of the payment token.
    InsufficientBalance,
    /// The engine was not approved to move the asset or the tokens.
    NotApproved,
    /// Any other refusal.
    Rejected,
}

} // verus!
