use vstd::prelude::*;

pub mod action;
pub mod epoch;
pub mod errors;
pub mod laws;
pub mod message;
pub mod store;
pub mod token_receiver;

use crate::epoch::{is_preinformable, spec_next_boundary, spec_preinformable};
use crate::errors::LedgerError;
use crate::store::LedgerStore;

verus! {

/// Per-account ledger record: how much of the principal asset the account
/// has deposited, how much of it the account has pre-informed (committed
/// for a future withdrawal), and when the last commitment was made.
#[derive(Clone, Copy, PartialEq, Eq, Structural, Debug)]
pub struct Info {
    pub deposit_amount: u128,
    pub preinformed_amount: u128,
    pub last_preinformed_time: u64,
}

/// The record created by an account's first deposit: the epoch origin
/// stands in for a pre-inform time that has not happened yet.
pub open spec fn fresh_info(amount: u128, epoch_start: u64) -> Info {
    Info { deposit_amount: amount, preinformed_amount: 0, last_preinformed_time: epoch_start }
}

/// The record after a further deposit of `amount`; meaningful only when the
/// sum stays within the 128-bit range.
pub open spec fn info_after_deposit(i: Info, amount: u128) -> Info
    recommends
        i.deposit_amount + amount <= u128::MAX,
{
    Info {
        deposit_amount: (i.deposit_amount + amount) as u128,
        preinformed_amount: i.preinformed_amount,
        last_preinformed_time: i.last_preinformed_time,
    }
}

/// The record after a pre-inform of `amount` at time `now`; meaningful only
/// when the sum stays within the 128-bit range.
pub open spec fn info_after_preinform(i: Info, amount: u128, now: u64) -> Info
    recommends
        i.preinformed_amount + amount <= u128::MAX,
{
    Info {
        deposit_amount: i.deposit_amount,
        preinformed_amount: (i.preinformed_amount + amount) as u128,
        last_preinformed_time: now,
    }
}

/// The record after a withdrawal of `amount` at time `now`; meaningful only
/// when `amount` is covered by both balances.
pub open spec fn info_after_withdraw(i: Info, amount: u128, now: u64) -> Info
    recommends
        amount <= i.deposit_amount,
        amount <= i.preinformed_amount,
{
    Info {
        deposit_amount: (i.deposit_amount - amount) as u128,
        preinformed_amount: (i.preinformed_amount - amount) as u128,
        last_preinformed_time: now,
    }
}

/// The ledger after a successful deposit of `amount` for account `k`: a
/// first deposit creates a fresh record, a later one grows the existing one.
pub open spec fn deposit_transition(
    m: Map<Seq<char>, Info>,
    k: Seq<char>,
    amount: u128,
    epoch_start: u64,
) -> Map<Seq<char>, Info> {
    if m.contains_key(k) {
        m.insert(k, info_after_deposit(m[k], amount))
    } else {
        m.insert(k, fresh_info(amount, epoch_start))
    }
}

/// An outbound transfer request, handed to the external transfer service by
/// the caller; the ledger itself only decides what to request.
pub struct TransferRequest {
    pub receiver_id: String,
    pub token_id: String,
    pub amount: u128,
}

/// An outbound transfer-with-message request for the relay operation.
pub struct TransferWithMessageRequest {
    pub receiver_id: String,
    pub token_id: String,
    pub amount: u128,
    pub msg: String,
}

/// The custodial ledger: immutable configuration fixed at construction, and
/// one `Info` record per registered account.
pub struct Contract {
    pub principal_token_id: String,
    pub target_token_id: String,
    pub epoch_duration: u64,
    pub epoch_start: u64,
    pub deposite_infos: LedgerStore,
}

/// The configuration fields never change after construction.
pub open spec fn same_config(a: Contract, b: Contract) -> bool {
    &&& a.principal_token_id == b.principal_token_id
    &&& a.target_token_id == b.target_token_id
    &&& a.epoch_duration == b.epoch_duration
    &&& a.epoch_start == b.epoch_start
}

impl Contract {
    /// Well-formed: the store keeps one record per account, and the epoch
    /// schedule has a strictly positive period.
    pub open spec fn wf(&self) -> bool {
        &&& self.deposite_infos.wf()
        &&& self.epoch_duration > 0
    }

    /// One-time constructor. A non-positive epoch duration is a
    /// configuration fault that the platform's init guard must reject
    /// before this code runs, so it is excluded here.
    pub fn new(
        principal_token_id: String,
        target_token_id: String,
        epoch_duration: u64,
        epoch_start: u64,
    ) -> (c: Contract)
        requires
            epoch_duration > 0,
        ensures
            c.wf(),
            c.principal_token_id == principal_token_id,
            c.target_token_id == target_token_id,
            c.epoch_duration == epoch_duration,
            c.epoch_start == epoch_start,
            c.deposite_infos@ =~= Map::<Seq<char>, Info>::empty(),
    {
        Contract {
            principal_token_id,
            target_token_id,
            epoch_duration,
            epoch_start,
            deposite_infos: LedgerStore::new(),
        }
    }

    /// Checks the epoch gate for time `now`: `Ok` exactly when a pre-inform
    /// is permitted now, `EpochNotOpen` when the quiet period has begun, and
    /// an arithmetic error when the boundary cannot be computed.
    pub fn assert_preinformable(&self, now: u64) -> (r: Result<(), LedgerError>)
        requires
            self.wf(),
        ensures
            match r {
                Ok(_) => self.epoch_start <= now && spec_next_boundary(
                    now,
                    self.epoch_start,
                    self.epoch_duration,
                ) <= u64::MAX && spec_preinformable(now, self.epoch_start, self.epoch_duration),
                Err(e) => (e == LedgerError::EpochNotOpen && self.epoch_start <= now
                    && spec_next_boundary(now, self.epoch_start, self.epoch_duration) <= u64::MAX
                    && !spec_preinformable(now, self.epoch_start, self.epoch_duration)) || (e
                    == LedgerError::ArithmeticUnderflow && now < self.epoch_start) || (e
                    == LedgerError::ArithmeticOverflow && self.epoch_start <= now
                    && spec_next_boundary(now, self.epoch_start, self.epoch_duration) > u64::MAX),
            },
    {
        match is_preinformable(now, self.epoch_start, self.epoch_duration) {
            Ok(true) => Ok(()),
            Ok(false) => Err(LedgerError::EpochNotOpen),
            Err(e) => Err(e),
        }
    }

    /// Declares `amount` of the caller's deposit eligible for withdrawal.
    /// Succeeds exactly when the epoch gate is open, the caller is
    /// registered, `amount` is at most the total deposit, and the new
    /// pre-informed balance fits; the single call's bound is the full
    /// deposit, not the un-pre-informed remainder.
    pub fn preinform(&mut self, sender_id: &String, now: u64, amount: u128) -> (r: Result<
        (),
        LedgerError,
    >)
        requires
            old(self).wf(),
        ensures
            final(self).wf(),
            same_config(*old(self), *final(self)),
            match r {
                Ok(_) => {
                    let m = old(self).deposite_infos@;
                    &&& old(self).epoch_start <= now
                    &&& spec_next_boundary(now, old(self).epoch_start, old(self).epoch_duration)
                        <= u64::MAX
                    &&& spec_preinformable(now, old(self).epoch_start, old(self).epoch_duration)
                    &&& m.contains_key(sender_id@)
                    &&& amount <= m[sender_id@].deposit_amount
                    &&& m[sender_id@].preinformed_amount + amount <= u128::MAX
                    &&& final(self).deposite_infos@ =~= m.insert(
                        sender_id@,
                        info_after_preinform(m[sender_id@], amount, now),
                    )
                },
                Err(e) => {
                    let m = old(self).deposite_infos@;
                    let start = old(self).epoch_start;
                    let dur = old(self).epoch_duration;
                    let open = start <= now && spec_next_boundary(now, start, dur) <= u64::MAX
                        && spec_preinformable(now, start, dur);
                    &&& final(self).deposite_infos@ =~= m
                    &&& ((e == LedgerError::EpochNotOpen && start <= now && spec_next_boundary(
                        now,
                        start,
                        dur,
                    ) <= u64::MAX && !spec_preinformable(now, start, dur)) || (e
                        == LedgerError::ArithmeticUnderflow && now < start) || (e
                        == LedgerError::ArithmeticOverflow && start <= now && spec_next_boundary(
                        now,
                        start,
                        dur,
                    ) > u64::MAX) || (e == LedgerError::AccountNotRegistered && open
                        && !m.contains_key(sender_id@)) || (e == LedgerError::AmountExceedsDeposit
                        && open && m.contains_key(sender_id@) && amount
                        > m[sender_id@].deposit_amount) || (e == LedgerError::ArithmeticOverflow
                        && open && m.contains_key(sender_id@) && amount
                        <= m[sender_id@].deposit_amount && m[sender_id@].preinformed_amount + amount
                        > u128::MAX))
                },
            },
    {
        match self.assert_preinformable(now) {
            Ok(_) => (),
            Err(e) => {
                return Err(e);
            },
        }
        let info = match self.deposite_infos.get(sender_id) {
            Some(info) => info,
            None => {
                return Err(LedgerError::AccountNotRegistered);
            },
        };
        if amount > info.deposit_amount {
            return Err(LedgerError::AmountExceedsDeposit);
        }
        let new_preinformed = match info.preinformed_amount.checked_add(amount) {
            Some(v) => v,
            None => {
                return Err(LedgerError::ArithmeticOverflow);
            },
        };
        let new_info = Info {
            deposit_amount: info.deposit_amount,
            preinformed_amount: new_preinformed,
            last_preinformed_time: now,
        };
        self.deposite_infos.put(sender_id, new_info);
        Ok(())
    }

    /// Releases `amount` of the caller's pre-informed balance: decrements
    /// both balances by exactly `amount` and hands back the transfer request
    /// that the caller must forward to the external transfer service. The
    /// mutation is not conditioned on the outcome of that transfer.
    pub fn withdraw(&mut self, sender_id: &String, token_id: &String, amount: u128, now: u64) -> (r:
        Result<TransferRequest, LedgerError>)
        requires
            old(self).wf(),
        ensures
            final(self).wf(),
            same_config(*old(self), *final(self)),
            match r {
                Ok(req) => {
                    let m = old(self).deposite_infos@;
                    &&& m.contains_key(sender_id@)
                    &&& amount <= m[sender_id@].preinformed_amount
                    &&& amount <= m[sender_id@].deposit_amount
                    &&& final(self).deposite_infos@ =~= m.insert(
                        sender_id@,
                        info_after_withdraw(m[sender_id@], amount, now),
                    )
                    &&& req.receiver_id@ == sender_id@
                    &&& req.token_id@ == token_id@
                    &&& req.amount == amount
                },
                Err(e) => {
                    let m = old(self).deposite_infos@;
                    &&& final(self).deposite_infos@ =~= m
                    &&& ((e == LedgerError::AccountNotRegistered && !m.contains_key(sender_id@))
                        || (e == LedgerError::InsufficientPreinformedAmount && m.contains_key(
                        sender_id@,
                    ) && amount > m[sender_id@].preinformed_amount) || (e
                        == LedgerError::ArithmeticUnderflow && m.contains_key(sender_id@) && amount
                        <= m[sender_id@].preinformed_amount && amount
                        > m[sender_id@].deposit_amount))
                },
            },
    {
        let info = match self.deposite_infos.get(sender_id) {
            Some(info) => info,
            None => {
                return Err(LedgerError::AccountNotRegistered);
            },
        };
        if amount > info.preinformed_amount {
            return Err(LedgerError::InsufficientPreinformedAmount);
        }
        if amount > info.deposit_amount {
            return Err(LedgerError::ArithmeticUnderflow);
        }
        let request = TransferRequest {
            receiver_id: sender_id.clone(),
            token_id: token_id.clone(),
            amount,
        };
        let new_info = Info {
            deposit_amount: info.deposit_amount - amount,
            preinformed_amount: info.preinformed_amount - amount,
            last_preinformed_time: now,
        };
        self.deposite_infos.put(sender_id, new_info);
        Ok(request)
    }

    /// Pure relay: forwards a transfer-with-message request to a third
    /// party. No ledger state is read or written and no balance is
    /// required; the caller forwards the request to the transfer service.
    pub fn trade(
        &self,
        receiver_id: &String,
        token_id: &String,
        amount: u128,
        msg: String,
    ) -> (r: TransferWithMessageRequest)
        ensures
            r.receiver_id@ == receiver_id@,
            r.token_id@ == token_id@,
            r.amount == amount,
            r.msg == msg,
    {
        TransferWithMessageRequest {
            receiver_id: receiver_id.clone(),
            token_id: token_id.clone(),
            amount,
            msg,
        }
    }

    /// Credits an inbound deposit that the transfer service has already
    /// completed. Succeeds exactly when the asset is the principal asset
    /// and the new total fits; on any error the ledger is untouched, and
    /// the enclosing request must abort so the credited transfer is
    /// returned.
    pub fn internal_deposit(&mut self, sender_id: &String, token_id: &String, amount: u128) -> (r:
        Result<(), LedgerError>)
        requires
            old(self).wf(),
        ensures
            final(self).wf(),
            same_config(*old(self), *final(self)),
            match r {
                Ok(_) => {
                    let m = old(self).deposite_infos@;
                    &&& token_id@ == old(self).principal_token_id@
                    &&& (m.contains_key(sender_id@) ==> m[sender_id@].deposit_amount + amount
                        <= u128::MAX)
                    &&& final(self).deposite_infos@ =~= deposit_transition(
                        m,
                        sender_id@,
                        amount,
                        old(self).epoch_start,
                    )
                },
                Err(e) => {
                    let m = old(self).deposite_infos@;
                    &&& final(self).deposite_infos@ =~= m
                    &&& ((e == LedgerError::WrongAsset && token_id@ != old(
                        self,
                    ).principal_token_id@) || (e == LedgerError::ArithmeticOverflow && token_id@
                        == old(self).principal_token_id@ && m.contains_key(sender_id@)
                        && m[sender_id@].deposit_amount + amount > u128::MAX))
                },
            },
    {
        if !token_id.eq(&self.principal_token_id) {
            return Err(LedgerError::WrongAsset);
        }
        match self.deposite_infos.get(sender_id) {
            Some(info) => {
                let new_deposit = match info.deposit_amount.checked_add(amount) {
                    Some(v) => v,
                    None => {
                        return Err(LedgerError::ArithmeticOverflow);
                    },
                };
                let new_info = Info {
                    deposit_amount: new_deposit,
                    preinformed_amount: info.preinformed_amount,
                    last_preinformed_time: info.last_preinformed_time,
                };
                self.deposite_infos.put(sender_id, new_info);
            },
            None => {
                let new_info = Info {
                    deposit_amount: amount,
                    preinformed_amount: 0,
                    last_preinformed_time: self.epoch_start,
                };
                self.deposite_infos.put(sender_id, new_info);
            },
        }
        Ok(())
    }

    /// Retrieves the record stored for `account_id`, or `None` when the
    /// account is not registered.
    pub fn internal_get_info(&self, account_id: &String) -> (r: Option<Info>)
        requires
            self.wf(),
        ensures
            r == if self.deposite_infos@.contains_key(account_id@) {
                Some(self.deposite_infos@[account_id@])
            } else {
                None::<Info>
            },
    {
        self.deposite_infos.get(account_id)
    }

    /// Retrieves the record of an account known to be registered.
    pub fn internal_unwrap_info(&self, account_id: &String) -> (r: Info)
        requires
            self.wf(),
            self.deposite_infos@.contains_key(account_id@),
        ensures
            r == self.deposite_infos@[account_id@],
    {
        self.deposite_infos.get(account_id).unwrap()
    }

    /// Stores `info` under `account_id`, overwriting any previous record.
    pub fn internal_save_info(&mut self, account_id: &String, info: Info)
        requires
            old(self).wf(),
        ensures
            final(self).wf(),
            same_config(*old(self), *final(self)),
            final(self).deposite_infos@ =~= old(self).deposite_infos@.insert(account_id@, info),
    {
        self.deposite_infos.put(account_id, info)
    }
}

} // verus!
