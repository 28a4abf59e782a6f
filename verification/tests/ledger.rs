use epoch_ledger::errors::LedgerError;
use epoch_ledger::Contract;
use epoch_ledger::Info;

const WEEK: u64 = 604800;

fn fresh_contract() -> Contract {
    Contract::new(
        "principal.token".to_string(),
        "target.token".to_string(),
        WEEK,
        0,
    )
}

#[test]
fn new_contract_has_no_accounts() {
    let c = fresh_contract();
    assert!(c.internal_get_info(&"alice".to_string()).is_none());
}

#[test]
fn first_deposit_creates_record() {
    let mut c = fresh_contract();
    let alice = "alice".to_string();
    let principal = "principal.token".to_string();
    assert_eq!(c.internal_deposit(&alice, &principal, 100), Ok(()));
    let info = c.internal_unwrap_info(&alice);
    assert_eq!(info.deposit_amount, 100);
    assert_eq!(info.preinformed_amount, 0);
    assert_eq!(info.last_preinformed_time, 0);
}

#[test]
fn deposits_accumulate_to_their_sum() {
    let mut c = fresh_contract();
    let alice = "alice".to_string();
    let principal = "principal.token".to_string();
    assert_eq!(c.internal_deposit(&alice, &principal, 100), Ok(()));
    assert_eq!(c.internal_deposit(&alice, &principal, 250), Ok(()));
    assert_eq!(c.internal_deposit(&alice, &principal, 1), Ok(()));
    let info = c.internal_unwrap_info(&alice);
    assert_eq!(info.deposit_amount, 351);
}

#[test]
fn deposit_overflow_rejected_without_mutation() {
    let mut c = fresh_contract();
    let alice = "alice".to_string();
    let principal = "principal.token".to_string();
    assert_eq!(c.internal_deposit(&alice, &principal, u128::MAX), Ok(()));
    assert_eq!(
        c.internal_deposit(&alice, &principal, 1),
        Err(LedgerError::ArithmeticOverflow)
    );
    let info = c.internal_unwrap_info(&alice);
    assert_eq!(info.deposit_amount, u128::MAX);
    assert_eq!(info.preinformed_amount, 0);
}

#[test]
fn deposit_of_wrong_asset_rejected_without_record() {
    let mut c = fresh_contract();
    let alice = "alice".to_string();
    let other = "other.token".to_string();
    assert_eq!(
        c.internal_deposit(&alice, &other, 100),
        Err(LedgerError::WrongAsset)
    );
    assert!(c.internal_get_info(&alice).is_none());
}

#[test]
fn preinform_allowed_one_day_into_epoch() {
    // One day in: the next boundary is at 604800, so 518400 remains,
    // which is at least the three-day quiet buffer of 259200.
    let mut c = fresh_contract();
    let alice = "alice".to_string();
    let principal = "principal.token".to_string();
    assert_eq!(c.internal_deposit(&alice, &principal, 100), Ok(()));
    assert_eq!(c.preinform(&alice, 86400, 60), Ok(()));
    let info = c.internal_unwrap_info(&alice);
    assert_eq!(info.deposit_amount, 100);
    assert_eq!(info.preinformed_amount, 60);
    assert_eq!(info.last_preinformed_time, 86400);
}

#[test]
fn preinform_rejected_in_quiet_period() {
    // At 600000 only 4800 remains until the boundary at 604800.
    let mut c = fresh_contract();
    let alice = "alice".to_string();
    let principal = "principal.token".to_string();
    assert_eq!(c.internal_deposit(&alice, &principal, 100), Ok(()));
    assert_eq!(c.preinform(&alice, 600000, 60), Err(LedgerError::EpochNotOpen));
    let info = c.internal_unwrap_info(&alice);
    assert_eq!(info.preinformed_amount, 0);
}

#[test]
fn preinform_boundary_of_quiet_period() {
    // Exactly three days left: still allowed; one second less: rejected.
    let mut c = fresh_contract();
    let alice = "alice".to_string();
    let principal = "principal.token".to_string();
    assert_eq!(c.internal_deposit(&alice, &principal, 100), Ok(()));
    assert_eq!(c.assert_preinformable(WEEK - 259200), Ok(()));
    assert_eq!(
        c.assert_preinformable(WEEK - 259200 + 1),
        Err(LedgerError::EpochNotOpen)
    );
}

#[test]
fn preinform_unregistered_account_rejected() {
    let mut c = fresh_contract();
    assert_eq!(
        c.preinform(&"alice".to_string(), 86400, 1),
        Err(LedgerError::AccountNotRegistered)
    );
}

#[test]
fn preinform_beyond_deposit_rejected() {
    let mut c = fresh_contract();
    let alice = "alice".to_string();
    let principal = "principal.token".to_string();
    assert_eq!(c.internal_deposit(&alice, &principal, 100), Ok(()));
    assert_eq!(
        c.preinform(&alice, 86400, 101),
        Err(LedgerError::AmountExceedsDeposit)
    );
}

#[test]
fn preinform_before_epoch_origin_rejected() {
    let mut c = Contract::new(
        "principal.token".to_string(),
        "target.token".to_string(),
        WEEK,
        1000000,
    );
    let alice = "alice".to_string();
    let principal = "principal.token".to_string();
    assert_eq!(c.internal_deposit(&alice, &principal, 100), Ok(()));
    assert_eq!(
        c.preinform(&alice, 999999, 1),
        Err(LedgerError::ArithmeticUnderflow)
    );
}

#[test]
fn epoch_boundary_overflow_reported() {
    let c = Contract::new(
        "principal.token".to_string(),
        "target.token".to_string(),
        u64::MAX,
        0,
    );
    assert_eq!(
        c.assert_preinformable(u64::MAX),
        Err(LedgerError::ArithmeticOverflow)
    );
}

#[test]
fn withdraw_unregistered_account_rejected() {
    let mut c = fresh_contract();
    assert_eq!(
        c.withdraw(&"alice".to_string(), &"principal.token".to_string(), 1, 86400)
            .map(|_| ()),
        Err(LedgerError::AccountNotRegistered)
    );
}

#[test]
fn withdraw_beyond_preinformed_rejected() {
    let mut c = fresh_contract();
    let alice = "alice".to_string();
    let principal = "principal.token".to_string();
    assert_eq!(c.internal_deposit(&alice, &principal, 100), Ok(()));
    assert_eq!(c.preinform(&alice, 86400, 40), Ok(()));
    assert_eq!(
        c.withdraw(&alice, &principal, 41, 86500).map(|_| ()),
        Err(LedgerError::InsufficientPreinformedAmount)
    );
    let info = c.internal_unwrap_info(&alice);
    assert_eq!(info.deposit_amount, 100);
    assert_eq!(info.preinformed_amount, 40);
}

#[test]
fn round_trip_deposit_preinform_withdraw() {
    // Deposit 100, pre-inform 60, withdraw 50: balances end at 50 and 10.
    let mut c = fresh_contract();
    let alice = "alice".to_string();
    let principal = "principal.token".to_string();
    assert_eq!(c.internal_deposit(&alice, &principal, 100), Ok(()));
    assert_eq!(c.preinform(&alice, 86400, 60), Ok(()));
    let request = c.withdraw(&alice, &principal, 50, 86500).ok().unwrap();
    assert_eq!(request.receiver_id, "alice");
    assert_eq!(request.token_id, "principal.token");
    assert_eq!(request.amount, 50);
    let info = c.internal_unwrap_info(&alice);
    assert_eq!(info.deposit_amount, 50);
    assert_eq!(info.preinformed_amount, 10);
    assert_eq!(info.last_preinformed_time, 86500);
}

#[test]
fn trade_builds_request_and_touches_no_state() {
    let mut c = fresh_contract();
    let bob = "bob".to_string();
    let token = "any.token".to_string();
    let request = c.trade(&bob, &token, 7, "payload".to_string());
    assert_eq!(request.receiver_id, "bob");
    assert_eq!(request.token_id, "any.token");
    assert_eq!(request.amount, 7);
    assert_eq!(request.msg, "payload");
    assert!(c.internal_get_info(&bob).is_none());
}

#[test]
fn save_and_get_roundtrip() {
    let mut c = fresh_contract();
    let alice = "alice".to_string();
    let record = Info {
        deposit_amount: 5,
        preinformed_amount: 2,
        last_preinformed_time: 77,
    };
    c.internal_save_info(&alice, record);
    assert_eq!(c.internal_get_info(&alice), Some(record));
}

#[test]
fn error_messages_are_distinct() {
    assert_ne!(
        LedgerError::AccountNotRegistered.message(),
        LedgerError::EpochNotOpen.message()
    );
    assert_ne!(
        LedgerError::WrongAsset.message(),
        LedgerError::WrongMessageFormat.message()
    );
}

#[test]
fn preinformed_stays_within_deposit_across_operations() {
    // Deposit, a pre-inform within the un-pre-informed remainder, and a
    // withdrawal each keep the pre-informed balance within the deposit.
    let mut c = fresh_contract();
    let alice = "alice".to_string();
    let principal = "principal.token".to_string();
    assert_eq!(c.internal_deposit(&alice, &principal, 100), Ok(()));
    let info = c.internal_unwrap_info(&alice);
    assert!(info.preinformed_amount <= info.deposit_amount);
    assert_eq!(c.preinform(&alice, 86400, 70), Ok(()));
    let info = c.internal_unwrap_info(&alice);
    assert!(info.preinformed_amount <= info.deposit_amount);
    assert_eq!(c.withdraw(&alice, &principal, 70, 86500).map(|_| ()), Ok(()));
    let info = c.internal_unwrap_info(&alice);
    assert!(info.preinformed_amount <= info.deposit_amount);
}

#[test]
fn repeated_preinforms_can_exceed_deposit_but_withdraw_stays_safe() {
    // Each call is bounded by the full deposit, not by the un-pre-informed
    // remainder, so the aggregate can pass the deposit; the withdrawal's
    // checked subtraction then refuses any amount beyond the deposit.
    let mut c = fresh_contract();
    let alice = "alice".to_string();
    let principal = "principal.token".to_string();
    assert_eq!(c.internal_deposit(&alice, &principal, 10), Ok(()));
    assert_eq!(c.preinform(&alice, 86400, 10), Ok(()));
    assert_eq!(c.preinform(&alice, 86400, 10), Ok(()));
    let info = c.internal_unwrap_info(&alice);
    assert_eq!(info.preinformed_amount, 20);
    assert_eq!(info.deposit_amount, 10);
    assert_eq!(
        c.withdraw(&alice, &principal, 15, 86500).map(|_| ()),
        Err(LedgerError::ArithmeticUnderflow)
    );
    assert_eq!(c.withdraw(&alice, &principal, 10, 86500).map(|_| ()), Ok(()));
    let info = c.internal_unwrap_info(&alice);
    assert_eq!(info.deposit_amount, 0);
    assert_eq!(info.preinformed_amount, 10);
}
