use vstd::prelude::*;

use crate::errors::LedgerError;

verus! {

/// Length of the quiet period before each epoch boundary, expressed in the
/// same time unit as `epoch_duration`: three days, for a schedule counted in
/// seconds.
pub const QUIET_PERIOD: u64 = 86400 * 3;

/// The first epoch boundary strictly after `now`: boundaries lie at
/// `epoch_start + k * epoch_duration` for whole numbers `k`.
pub open spec fn spec_next_boundary(now: u64, epoch_start: u64, epoch_duration: u64) -> int
    recommends
        epoch_duration > 0,
        epoch_start <= now,
{
    epoch_start + ((now - epoch_start) / (epoch_duration as int) + 1) * epoch_duration
}

/// The epoch gate: a pre-inform is permitted only while at least
/// `QUIET_PERIOD` remains until the next epoch boundary.
pub open spec fn spec_preinformable(now: u64, epoch_start: u64, epoch_duration: u64) -> bool
    recommends
        epoch_duration > 0,
        epoch_start <= now,
{
    spec_next_boundary(now, epoch_start, epoch_duration) - now >= QUIET_PERIOD
}

proof fn lemma_next_boundary_gt_now(now: u64, epoch_start: u64, epoch_duration: u64)
    requires
        epoch_duration > 0,
        epoch_start <= now,
    ensures
        spec_next_boundary(now, epoch_start, epoch_duration) > now,
{
    let x = now - epoch_start;
    let d = epoch_duration as int;
    vstd::arithmetic::div_mod::lemma_fundamental_div_mod(x, d);
    vstd::arithmetic::div_mod::lemma_mod_bound(x, d);
    assert((x / d + 1) * d == d * (x / d) + d) by (nonlinear_arith);
}

/// Decides whether a pre-inform is currently permitted: computes the number
/// of whole epochs elapsed since `epoch_start`, derives the next epoch
/// boundary strictly after `now`, and answers whether at least
/// `QUIET_PERIOD` remains until that boundary. A clock before the epoch
/// origin or a boundary beyond the 64-bit range is a configuration fault and
/// is reported as an arithmetic error rather than silently wrapped.
pub fn is_preinformable(now: u64, epoch_start: u64, epoch_duration: u64) -> (r: Result<
    bool,
    LedgerError,
>)
    requires
        epoch_duration > 0,
    ensures
        match r {
            Ok(b) => epoch_start <= now && spec_next_boundary(now, epoch_start, epoch_duration)
                <= u64::MAX && b == spec_preinformable(now, epoch_start, epoch_duration),
            Err(e) => (e == LedgerError::ArithmeticUnderflow && now < epoch_start) || (e
                == LedgerError::ArithmeticOverflow && epoch_start <= now && spec_next_boundary(
                now,
                epoch_start,
                epoch_duration,
            ) > u64::MAX),
        },
{
    if now < epoch_start {
        return Err(LedgerError::ArithmeticUnderflow);
    }
    let elapsed_epochs = (now - epoch_start) / epoch_duration;
    let next_index = match elapsed_epochs.checked_add(1) {
        Some(v) => v,
        None => {
            proof {
                assert((elapsed_epochs + 1) * epoch_duration >= elapsed_epochs + 1)
                    by (nonlinear_arith)
                    requires epoch_duration >= 1, elapsed_epochs >= 0;
            }
            return Err(LedgerError::ArithmeticOverflow);
        },
    };
    let scaled = match next_index.checked_mul(epoch_duration) {
        Some(v) => v,
        None => {
            return Err(LedgerError::ArithmeticOverflow);
        },
    };
    let boundary = match scaled.checked_add(epoch_start) {
        Some(v) => v,
        None => {
            return Err(LedgerError::ArithmeticOverflow);
        },
    };
    proof {
        lemma_next_boundary_gt_now(now, epoch_start, epoch_duration);
    }
    let remaining = boundary - now;
    Ok(remaining >= QUIET_PERIOD)
}

} // verus!
