use vstd::prelude::*;

use crate::action::{Action, DepositAction};
use crate::errors::LedgerError;
use crate::message::{parse_message, spec_parse_message};
use crate::{deposit_transition, same_config, Contract};

verus! {

/// Parses a notification payload into its typed action: the payload shapes
/// are discriminated at parse time, and a payload of no known shape yields
/// `None`.
pub fn parse_action(msg: &str) -> (r: Option<Action>)
    ensures
        ({
            let p = spec_parse_message(msg@);
            match r {
                Some(a) => match a {
                    Action::Deposit(d) => p == Some(d.amount),
                },
                None => p is None,
            }
        }),
{
    match parse_message(msg) {
        Some(amount) => Some(Action::Deposit(DepositAction { amount })),
        None => None,
    }
}

impl Contract {
    /// Handles an inbound transfer notification from the transfer service:
    /// parses the payload, and for a deposit action credits the
    /// notification's own amount (the payload's declared amount is unused).
    /// `Ok` carries the amount to refund to the service — zero, the full
    /// transfer is accepted. Any error must abort the enclosing request so
    /// that the already-completed inbound transfer is returned rather than
    /// silently dropped.
    pub fn ft_on_transfer(
        &mut self,
        sender_id: &String,
        token_in: &String,
        amount: u128,
        msg: &str,
    ) -> (r: Result<u128, LedgerError>)
        requires
            old(self).wf(),
        ensures
            final(self).wf(),
            same_config(*old(self), *final(self)),
            match r {
                Ok(refund) => {
                    let m = old(self).deposite_infos@;
                    &&& refund == 0
                    &&& spec_parse_message(msg@) is Some
                    &&& token_in@ == old(self).principal_token_id@
                    &&& (m.contains_key(sender_id@) ==> m[sender_id@].deposit_amount + amount
                        <= u128::MAX)
                    &&& final(self).deposite_infos@ =~= deposit_transition(
                        m,
                        sender_id@,
                        amount,
                        old(self).epoch_start,
                    )
                },
                Err(e) => {
                    let m = old(self).deposite_infos@;
                    &&& final(self).deposite_infos@ =~= m
                    &&& ((e == LedgerError::WrongMessageFormat && spec_parse_message(msg@) is None)
                        || (spec_parse_message(msg@) is Some && ((e == LedgerError::WrongAsset
                        && token_in@ != old(self).principal_token_id@) || (e
                        == LedgerError::ArithmeticOverflow && token_in@ == old(
                        self,
                    ).principal_token_id@ && m.contains_key(sender_id@)
                        && m[sender_id@].deposit_amount + amount > u128::MAX))))
                },
            },
    {
        match parse_action(msg) {
            None => Err(LedgerError::WrongMessageFormat),
            Some(action) => match action {
                Action::Deposit(_deposit_action) => {
                    match self.internal_deposit(sender_id, token_in, amount) {
                        Ok(_) => Ok(0),
                        Err(e) => Err(e),
                    }
                },
            },
        }
    }
}

} // verus!
