use vstd::prelude::*;

verus! {

/// Every way a ledger operation can fail. Each failure is terminal for the
/// enclosing request: the caller is expected to abort without persisting any
/// partial mutation, which the operation contracts guarantee by leaving the
/// ledger unchanged on every `Err`.
#[derive(Clone, Copy, PartialEq, Eq, Structural, Debug)]
pub enum LedgerError {
    /// The operation referenced an account with no ledger record.
    AccountNotRegistered,
    /// A pre-inform amount was larger than the account's total deposit.
    AmountExceedsDeposit,
    /// A withdraw amount was larger than the account's pre-informed balance.
    InsufficientPreinformedAmount,
    /// A pre-inform was attempted inside the quiet period before an epoch
    /// boundary.
    EpochNotOpen,
    /// A deposit notification named an asset other than the configured
    /// principal asset.
    WrongAsset,
    /// An inbound notification payload failed to parse as a known action.
    WrongMessageFormat,
    /// A checked addition would exceed the 128-bit (or, for the epoch
    /// boundary, 64-bit) unsigned range.
    ArithmeticOverflow,
    /// A checked subtraction would go below zero.
    ArithmeticUnderflow,
    /// An action result of an unexpected shape was observed; indicates a
    /// programming error between components.
    WrongActionResult,
}

impl LedgerError {
    /// A human-readable message for the abort raised by this failure.
    pub fn message(&self) -> &'static str {
        match self {
            LedgerError::AccountNotRegistered => "E10: account not registered",
            LedgerError::AmountExceedsDeposit => "E13: amount exceeds deposit",
            LedgerError::InsufficientPreinformedAmount => "E12: not enough preinformed amount",
            LedgerError::EpochNotOpen => "E11: not the time for preinform",
            LedgerError::WrongAsset => "E14: wrong asset",
            LedgerError::WrongMessageFormat => "E28: illegal message format",
            LedgerError::ArithmeticOverflow => "E15: arithmetic overflow",
            LedgerError::ArithmeticUnderflow => "E16: arithmetic underflow",
            LedgerError::WrongActionResult => "E41: wrong action result",
        }
    }
}

} // verus!
