use vstd::prelude::*;

use crate::ledger::{initialize_pool_step, position_key, stake_step, unstake_step, LedgerView};
use crate::records::{InitializePool, Payout, Pool, Stake, StakingError, Unstake};
use crate::reward::reward_of;

verus! {

/// Creating a pool in a free slot succeeds, and reading the slot right after
/// gives back exactly the configuration that was passed in.
pub proof fn lemma_initialize_then_read(v: LedgerView, ctx: InitializePool, reward_rate: u64, lock_duration: i64)
    requires
        !v.pools.contains_key(ctx.pool@),
        lock_duration >= 0,
    ensures
        ({
            let (r, w) = initialize_pool_step(v, ctx, reward_rate, lock_duration);
            &&& r is Ok
            &&& w.pools.contains_key(ctx.pool@)
            &&& w.pools[ctx.pool@] == (Pool {
                reward_rate,
                lock_duration,
                pool_token_mint: ctx.mint,
                admin: ctx.admin,
            })
            &&& w.positions == v.positions
        }),
{
}

/// Once a pool has been created in a slot, a second creation in the same slot
/// is refused and leaves the first configuration in place.
pub proof fn lemma_initialize_twice(
    v: LedgerView,
    first: InitializePool,
    rate1: u64,
    lock1: i64,
    second: InitializePool,
    rate2: u64,
    lock2: i64,
)
    requires
        first.pool@ == second.pool@,
    ensures
        ({
            let (r1, w1) = initialize_pool_step(v, first, rate1, lock1);
            let (r2, w2) = initialize_pool_step(w1, second, rate2, lock2);
            r1 is Ok ==> r2 == Err::<(), StakingError>(StakingError::AlreadyInitialized) && w2 == w1
        }),
{
}

/// Two stakes by one user into one pool add up, and the lock window restarts
/// at the time of the second.
pub proof fn lemma_stake_twice(v: LedgerView, ctx: Stake, amount1: u64, time1: i64, amount2: u64, time2: i64)
    requires
        v.pools.contains_key(ctx.pool@),
        !v.positions.contains_key(position_key(ctx.pool, ctx.user)),
        amount1 > 0,
        amount2 > 0,
        amount1 + amount2 <= u64::MAX,
    ensures
        ({
            let key = position_key(ctx.pool, ctx.user);
            let (r1, w1) = stake_step(v, ctx, amount1, time1);
            let (r2, w2) = stake_step(w1, ctx, amount2, time2);
            &&& r1 == Ok::<u64, StakingError>(amount1)
            &&& r2 == Ok::<u64, StakingError>(amount2)
            &&& w2.positions.contains_key(key)
            &&& w2.positions[key].amount == amount1 + amount2
            &&& w2.positions[key].stake_time == time2
        }),
{
}

/// Before the lock window of an open position ends, unstaking is refused with
/// `LockPeriodNotEnded` and nothing changes, so no tokens move.
pub proof fn lemma_unstake_before_lock_end(v: LedgerView, ctx: Unstake, now: i64)
    requires
        v.wf(),
        v.pools.contains_key(ctx.pool@),
        v.positions.contains_key(position_key(ctx.pool, ctx.user)),
        v.positions[position_key(ctx.pool, ctx.user)].amount > 0,
        now < v.positions[position_key(ctx.pool, ctx.user)].stake_time + v.pools[ctx.pool@].lock_duration,
    ensures
        unstake_step(v, ctx, now) == (Err::<Payout, StakingError>(StakingError::LockPeriodNotEnded), v),
{
}

/// Once the lock window of an open position has ended, unstaking succeeds
/// whenever the reward fits in 64 bits: it pays back exactly the staked
/// principal, and a later unstake of the same position is refused with
/// `NotFound`, with nothing changed.
pub proof fn lemma_unstake_after_lock_end(v: LedgerView, ctx: Unstake, now: i64, later: i64)
    requires
        v.wf(),
        v.pools.contains_key(ctx.pool@),
        v.positions.contains_key(position_key(ctx.pool, ctx.user)),
        v.positions[position_key(ctx.pool, ctx.user)].amount > 0,
        now >= v.positions[position_key(ctx.pool, ctx.user)].stake_time + v.pools[ctx.pool@].lock_duration,
        reward_of(
            v.positions[position_key(ctx.pool, ctx.user)].amount as int,
            now - v.positions[position_key(ctx.pool, ctx.user)].stake_time,
            v.pools[ctx.pool@].reward_rate as int,
        ) is Some,
    ensures
        ({
            let key = position_key(ctx.pool, ctx.user);
            let (r, w) = unstake_step(v, ctx, now);
            &&& r is Ok
            &&& r->Ok_0.principal == v.positions[key].amount
            &&& r->Ok_0.reward == v.positions[key].amount * (now - v.positions[key].stake_time) * v.pools[ctx.pool@].reward_rate
            &&& w.pools == v.pools
            &&& unstake_step(w, ctx, later) == (Err::<Payout, StakingError>(StakingError::NotFound), w)
        }),
{
}

/// When the reward of an open position whose lock window has ended does not
/// fit in 64 bits, unstaking is refused with `CalculationOverflow` and nothing
/// changes, so no tokens move.
pub proof fn lemma_unstake_overflow(v: LedgerView, ctx: Unstake, now: i64)
    requires
        v.wf(),
        v.pools.contains_key(ctx.pool@),
        v.positions.contains_key(position_key(ctx.pool, ctx.user)),
        now >= v.positions[position_key(ctx.pool, ctx.user)].stake_time + v.pools[ctx.pool@].lock_duration,
        v.positions[position_key(ctx.pool, ctx.user)].amount as int
            * (now - v.positions[position_key(ctx.pool, ctx.user)].stake_time)
            * v.pools[ctx.pool@].reward_rate as int > u64::MAX,
    ensures
        unstake_step(v, ctx, now) == (Err::<Payout, StakingError>(StakingError::CalculationOverflow), v),
{
    let key = position_key(ctx.pool, ctx.user);
    let a = v.positions[key].amount as int;
    let d = now - v.positions[key].stake_time;
    let rate = v.pools[ctx.pool@].reward_rate as int;
    assert(a * d > u64::MAX || a * d * rate > u64::MAX) by (nonlinear_arith)
        requires
            a * d * rate > u64::MAX,
            0 <= a,
            0 <= d,
            0 <= rate,
    ;
    assert(a > 0) by (nonlinear_arith)
        requires
            a * d * rate > u64::MAX,
            0 <= a,
    ;
}

} // verus!
