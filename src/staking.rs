use vstd::prelude::*;

use crate::address::Address;
use crate::records::{InitializePool, Payout, Pool, Stake, StakeAccount, StakingError, Unstake};
use crate::reward::{compute_reward, lock_ended, reward_result};

verus! {

/// The pool that creation stores, or why it is refused.
pub open spec fn pool_record(ctx: InitializePool, reward_rate: u64, lock_duration: i64) -> Result<Pool, StakingError> {
    if lock_duration < 0 {
        Err(StakingError::InvalidLockDuration)
    } else {
        Ok(Pool { reward_rate, lock_duration, pool_token_mint: ctx.mint, admin: ctx.admin })
    }
}

/// The outcome of staking `amount` at time `now` on `position`: the amount to
/// move from the user into the pool, and the position afterwards.
pub open spec fn stake_record(position: StakeAccount, user: Address, amount: u64, now: i64) -> (Result<u64, StakingError>, StakeAccount) {
    if position.amount + amount > u64::MAX {
        (Err(StakingError::Overflow), position)
    } else {
        (Ok(amount), StakeAccount { amount: (position.amount + amount) as u64, stake_time: now, user })
    }
}

/// The outcome of withdrawing `position` from `pool` at time `now` on behalf
/// of `user`: what is settled, and the position afterwards.
pub open spec fn unstake_record(pool: Pool, position: StakeAccount, user: Address, now: i64) -> (Result<Payout, StakingError>, StakeAccount) {
    if position.user@ != user@ {
        (Err(StakingError::Unauthorized), position)
    } else if position.amount == 0 {
        (Err(StakingError::NotFound), position)
    } else if now < position.stake_time + pool.lock_duration {
        (Err(StakingError::LockPeriodNotEnded), position)
    } else {
        match reward_result(position.amount as int, now - position.stake_time, pool.reward_rate as int) {
            Ok(reward) => (
                Ok(Payout { principal: position.amount, reward }),
                StakeAccount { amount: 0, ..position },
            ),
            Err(e) => (Err(e), position),
        }
    }
}

/// Creates the configuration of a new pool. A negative lock period is refused.
pub fn initialize_pool(ctx: &InitializePool, reward_rate: u64, lock_duration: i64) -> (r: Result<Pool, StakingError>)
    ensures
        r == pool_record(*ctx, reward_rate, lock_duration),
        r is Ok ==> r->Ok_0.wf(),
{
    if lock_duration < 0 {
        return Err(StakingError::InvalidLockDuration);
    }
    Ok(Pool { reward_rate, lock_duration, pool_token_mint: ctx.mint, admin: ctx.admin })
}

/// Adds `amount` to `position` and restarts its lock window at `now`.
///
/// On success returns the amount that must move from the user's token
/// account into the pool's, in the same transaction. Refused with `Overflow`
/// when the new principal would not fit in 64 bits; then nothing changes.
pub fn stake(ctx: &Stake, position: &mut StakeAccount, amount: u64, now: i64) -> (r: Result<u64, StakingError>)
    ensures
        (r, *final(position)) == stake_record(*old(position), ctx.user, amount, now),
{
    match position.amount.checked_add(amount) {
        None => Err(StakingError::Overflow),
        Some(total) => {
            position.amount = total;
            position.stake_time = now;
            position.user = ctx.user;
            Ok(amount)
        },
    }
}

/// Closes `position` once its lock window in `pool` has ended at `now`.
///
/// Refused, with nothing changed, when the caller does not own the position
/// (`Unauthorized`), when nothing is staked (`NotFound`), before
/// `stake_time + lock_duration` (`LockPeriodNotEnded`), and when the reward
/// does not fit in 64 bits (`CalculationOverflow`). On success the principal
/// is returned for transfer from the pool to the user, and the position's
/// amount drops to zero so that it cannot be withdrawn twice.
pub fn unstake(ctx: &Unstake, pool: &Pool, position: &mut StakeAccount, now: i64) -> (r: Result<Payout, StakingError>)
    requires
        pool.wf(),
    ensures
        (r, *final(position)) == unstake_record(*pool, *old(position), ctx.user, now),
{
    if !position.user.same(&ctx.user) {
        return Err(StakingError::Unauthorized);
    }
    if position.amount == 0 {
        return Err(StakingError::NotFound);
    }
    if !lock_ended(position.stake_time, pool.lock_duration, now) {
        return Err(StakingError::LockPeriodNotEnded);
    }
    let duration = ((now as i128) - (position.stake_time as i128)) as u64;
    match compute_reward(position.amount, duration, pool.reward_rate) {
        Err(e) => Err(e),
        Ok(reward) => {
            let principal = position.amount;
            position.amount = 0;
            Ok(Payout { principal, reward })
        },
    }
}

} // verus!
