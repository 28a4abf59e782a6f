use vstd::prelude::*;

use crate::{
    deposit_transition, info_after_preinform, info_after_withdraw, Info,
};

verus! {

/// Ledger-wide bound: every stored record keeps its pre-informed balance
/// within its deposit.
pub open spec fn infos_bounded(m: Map<Seq<char>, Info>) -> bool {
    forall|k: Seq<char>| #[trigger]
        m.contains_key(k) ==> m[k].preinformed_amount <= m[k].deposit_amount
}

/// The deposit balance an account holds, zero when it is not registered.
pub open spec fn deposit_total(m: Map<Seq<char>, Info>, k: Seq<char>) -> int {
    if m.contains_key(k) {
        m[k].deposit_amount as int
    } else {
        0
    }
}

/// The total of a sequence of deposit amounts.
pub open spec fn sum_amounts(amounts: Seq<u128>) -> int
    decreases amounts.len(),
{
    if amounts.len() == 0 {
        0
    } else {
        amounts[0] + sum_amounts(amounts.drop_first())
    }
}

/// The ledger after a sequence of successful deposits for one account.
pub open spec fn apply_deposits(
    m: Map<Seq<char>, Info>,
    k: Seq<char>,
    epoch_start: u64,
    amounts: Seq<u128>,
) -> Map<Seq<char>, Info>
    decreases amounts.len(),
{
    if amounts.len() == 0 {
        m
    } else {
        apply_deposits(
            deposit_transition(m, k, amounts[0], epoch_start),
            k,
            epoch_start,
            amounts.drop_first(),
        )
    }
}

proof fn lemma_sum_amounts_nonneg(amounts: Seq<u128>)
    ensures
        sum_amounts(amounts) >= 0,
    decreases amounts.len(),
{
    if amounts.len() > 0 {
        lemma_sum_amounts_nonneg(amounts.drop_first());
    }
}

/// Deposits accumulate: after any sequence of deposits for one account
/// whose running total stays within the 128-bit range, the account's
/// deposit balance has grown by exactly the sum of the deposited amounts —
/// no loss, no double count. (A deposit that would overflow that range is
/// instead rejected without mutating the record: see the contract of
/// `Contract::internal_deposit`.)
pub proof fn lemma_deposits_accumulate(
    m: Map<Seq<char>, Info>,
    k: Seq<char>,
    epoch_start: u64,
    amounts: Seq<u128>,
)
    requires
        deposit_total(m, k) + sum_amounts(amounts) <= u128::MAX,
    ensures
        deposit_total(apply_deposits(m, k, epoch_start, amounts), k) == deposit_total(m, k)
            + sum_amounts(amounts),
    decreases amounts.len(),
{
    if amounts.len() > 0 {
        lemma_sum_amounts_nonneg(amounts.drop_first());
        let m1 = deposit_transition(m, k, amounts[0], epoch_start);
        assert(deposit_total(m1, k) == deposit_total(m, k) + amounts[0]);
        lemma_deposits_accumulate(m1, k, epoch_start, amounts.drop_first());
    }
}

/// A successful deposit preserves the ledger-wide bound: it grows only the
/// deposit side of one record, or creates a record with nothing
/// pre-informed.
pub proof fn lemma_deposit_preserves_bound(
    m: Map<Seq<char>, Info>,
    k: Seq<char>,
    amount: u128,
    epoch_start: u64,
)
    requires
        infos_bounded(m),
        deposit_total(m, k) + amount <= u128::MAX,
    ensures
        infos_bounded(deposit_transition(m, k, amount, epoch_start)),
{
}

/// A pre-inform preserves the ledger-wide bound whenever the new
/// pre-informed balance still lies within the deposit. The single call's
/// own check bounds the amount by the full deposit, not by the
/// un-pre-informed remainder, so repeated calls can leave this premise —
/// and then the bound — behind; the premise here marks exactly the calls
/// for which the bound survives.
pub proof fn lemma_preinform_preserves_bound(
    m: Map<Seq<char>, Info>,
    k: Seq<char>,
    amount: u128,
    now: u64,
)
    requires
        infos_bounded(m),
        m.contains_key(k),
        m[k].preinformed_amount + amount <= m[k].deposit_amount,
    ensures
        infos_bounded(m.insert(k, info_after_preinform(m[k], amount, now))),
{
}

/// A withdrawal preserves the ledger-wide bound: it decrements both sides
/// of one record by the same amount.
pub proof fn lemma_withdraw_preserves_bound(
    m: Map<Seq<char>, Info>,
    k: Seq<char>,
    amount: u128,
    now: u64,
)
    requires
        infos_bounded(m),
        m.contains_key(k),
        amount <= m[k].preinformed_amount,
        amount <= m[k].deposit_amount,
    ensures
        infos_bounded(m.insert(k, info_after_withdraw(m[k], amount, now))),
{
}

/// Round trip on a fresh account: depositing `d`, pre-informing `p ≤ d`
/// and withdrawing `w ≤ p` leaves a deposit of exactly `d − w` and a
/// pre-informed balance of exactly `p − w`.
pub proof fn lemma_round_trip(
    m: Map<Seq<char>, Info>,
    k: Seq<char>,
    epoch_start: u64,
    d: u128,
    p: u128,
    w: u128,
    t1: u64,
    t2: u64,
)
    requires
        !m.contains_key(k),
        p <= d,
        w <= p,
    ensures
        ({
            let m1 = deposit_transition(m, k, d, epoch_start);
            let m2 = m1.insert(k, info_after_preinform(m1[k], p, t1));
            let m3 = m2.insert(k, info_after_withdraw(m2[k], w, t2));
            &&& m3.contains_key(k)
            &&& m3[k].deposit_amount == d - w
            &&& m3[k].preinformed_amount == p - w
        }),
{
}

} // verus!
