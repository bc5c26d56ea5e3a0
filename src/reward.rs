use vstd::prelude::*;

use crate::records::StakingError;

verus! {

/// The reward `amount * duration * reward_rate`, or `None` when the first
/// product or the whole product does not fit in 64 bits.
pub open spec fn reward_of(amount: int, duration: int, reward_rate: int) -> Option<int> {
    if amount * duration > u64::MAX {
        None
    } else if amount * duration * reward_rate > u64::MAX {
        None
    } else {
        Some(amount * duration * reward_rate)
    }
}

/// What the reward computation returns for the given factors.
pub open spec fn reward_result(amount: int, duration: int, reward_rate: int) -> Result<u64, StakingError> {
    match reward_of(amount, duration, reward_rate) {
        Some(r) => Ok(r as u64),
        None => Err(StakingError::CalculationOverflow),
    }
}

/// Computes `amount * duration * reward_rate` with a checked multiplication
/// at each step. The result depends on the three factors alone.
pub fn compute_reward(amount: u64, duration: u64, reward_rate: u64) -> (r: Result<u64, StakingError>)
    ensures
        r == reward_result(amount as int, duration as int, reward_rate as int),
        amount as int * duration as int * reward_rate as int > u64::MAX ==> r == Err::<u64, StakingError>(StakingError::CalculationOverflow),
{
    proof {
        if amount as int * duration as int <= u64::MAX {
            assert(amount as int * duration as int * reward_rate as int >= 0) by (nonlinear_arith);
        } else {
            assert(amount as int * duration as int * reward_rate as int > u64::MAX || reward_rate == 0) by (nonlinear_arith)
                requires amount as int * duration as int > u64::MAX;
        }
    }
    match amount.checked_mul(duration) {
        None => Err(StakingError::CalculationOverflow),
        Some(partial) => match partial.checked_mul(reward_rate) {
            None => Err(StakingError::CalculationOverflow),
            Some(reward) => Ok(reward),
        },
    }
}

/// Whether a lock window that started at `stake_time` and lasts
/// `lock_duration` seconds has ended at time `now`.
pub fn lock_ended(stake_time: i64, lock_duration: i64, now: i64) -> (r: bool)
    ensures
        r == (now >= stake_time + lock_duration),
{
    (now as i128) >= (stake_time as i128) + (lock_duration as i128)
}

} // verus!
