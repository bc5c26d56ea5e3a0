use vstd::prelude::*;

use crate::address::Address;

verus! {

/// Configuration of a staking pool, fixed at creation.
#[derive(Clone, Copy, Debug)]
pub struct Pool {
    /// Reward units accrued per token unit and time unit.
    pub reward_rate: u64,
    /// Seconds a stake must remain before it can be withdrawn.
    pub lock_duration: i64,
    /// The fungible asset this pool accepts.
    pub pool_token_mint: Address,
    /// The identity that created the pool.
    pub admin: Address,
}

impl Pool {
    /// A pool's lock period is never negative.
    pub open spec fn wf(&self) -> bool {
        self.lock_duration >= 0
    }
}

/// One user's stake in one pool.
#[derive(Clone, Copy, Debug)]
pub struct StakeAccount {
    /// Staked principal, in the pool's token.
    pub amount: u64,
    /// UNIX time at which the current lock window started.
    pub stake_time: i64,
    /// The owner of the position.
    pub user: Address,
}

/// The identities that take part in creating a pool.
#[derive(Clone, Copy, Debug)]
pub struct InitializePool {
    /// The storage slot of the new pool.
    pub pool: Address,
    /// The token the pool accepts.
    pub mint: Address,
    /// The creator of the pool.
    pub admin: Address,
}

/// The identities that take part in a stake: the pool, and the
/// authenticated user who deposits.
#[derive(Clone, Copy, Debug)]
pub struct Stake {
    pub pool: Address,
    pub user: Address,
}

/// The identities that take part in an unstake: the pool, and the
/// authenticated user who withdraws.
#[derive(Clone, Copy, Debug)]
pub struct Unstake {
    pub pool: Address,
    pub user: Address,
}

/// What a successful unstake settles: the principal that moves from the pool
/// back to the user, and the reward accrued over the lock window.
///
/// The reward is reported, not paid: the pool holds no reward reserve, so
/// only the principal is transferred.
#[derive(Clone, Copy, Debug, PartialEq, Eq, Structural)]
pub struct Payout {
    pub principal: u64,
    pub reward: u64,
}

/// Why an operation was refused. A refused operation changes nothing.
#[derive(Clone, Copy, Debug, PartialEq, Eq, Structural)]
pub enum StakingError {
    /// The lock window of the position has not ended yet.
    LockPeriodNotEnded,
    /// The reward does not fit in 64 bits.
    CalculationOverflow,
    /// The staked amount would not fit in 64 bits.
    Overflow,
    /// There is no open position to withdraw.
    NotFound,
    /// The caller does not own the position.
    Unauthorized,
    /// The pool does not exist.
    PoolNotFound,
    /// The pool's slot already holds a pool.
    AlreadyInitialized,
    /// A pool cannot have a negative lock period.
    InvalidLockDuration,
}

} // verus!
