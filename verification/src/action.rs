use vstd::prelude::*;

use crate::errors::LedgerError;

verus! {

/// The payload of a deposit action. The declared amount is part of the
/// schema, but the dispatcher credits the notification's own amount, not
/// this field.
#[derive(Clone, Copy, PartialEq, Eq, Structural, Debug)]
pub struct DepositAction {
    pub amount: u128,
}

/// A typed action carried by a transfer notification. The schema is meant
/// to grow further variants; a payload that matches none of them fails
/// parsing explicitly.
#[derive(Clone, Copy, PartialEq, Eq, Structural, Debug)]
pub enum Action {
    Deposit(DepositAction),
}

/// What a handled action reports back: nothing, or an amount.
#[derive(Clone, Copy, PartialEq, Eq, Structural, Debug)]
pub enum ActionResult {
    Nothing,
    Amount(u128),
}

impl ActionResult {
    /// Extracts the amount of a result expected to carry one; a result of
    /// any other shape indicates a programming error between components and
    /// is fatal to the enclosing request.
    pub fn to_amount(self) -> (r: Result<u128, LedgerError>)
        ensures
            match r {
                Ok(v) => self == ActionResult::Amount(v),
                Err(e) => e == LedgerError::WrongActionResult && self == ActionResult::Nothing,
            },
    {
        match self {
            ActionResult::Amount(result) => Ok(result),
            ActionResult::Nothing => Err(LedgerError::WrongActionResult),
        }
    }
}

} // verus!
