use staking::address::Address;
use staking::ledger::Ledger;
use staking::records::{InitializePool, Payout, Pool, Stake, StakeAccount, StakingError, Unstake};
use staking::reward::{compute_reward, lock_ended};
use staking::staking::{initialize_pool, stake, unstake};

fn addr(b: u8) -> Address {
    Address::new([b; 32])
}

fn init_ctx() -> InitializePool {
    InitializePool { pool: addr(1), mint: addr(2), admin: addr(3) }
}

fn ledger_with_pool(reward_rate: u64, lock_duration: i64) -> Ledger {
    let mut ledger = Ledger::new();
    assert_eq!(ledger.initialize_pool(&init_ctx(), reward_rate, lock_duration), Ok(()));
    ledger
}

#[test]
fn initialize_then_read_returns_configuration() {
    let ledger = ledger_with_pool(7, 3600);
    let pool = ledger.pool(&addr(1)).expect("pool stored");
    assert_eq!(pool.reward_rate, 7);
    assert_eq!(pool.lock_duration, 3600);
    assert_eq!(pool.pool_token_mint.bytes, [2u8; 32]);
    assert_eq!(pool.admin.bytes, [3u8; 32]);
    assert!(ledger.pool(&addr(9)).is_none());
}

#[test]
fn zero_rate_and_zero_lock_are_valid() {
    let ledger = ledger_with_pool(0, 0);
    let pool = ledger.pool(&addr(1)).expect("pool stored");
    assert_eq!(pool.reward_rate, 0);
    assert_eq!(pool.lock_duration, 0);
}

#[test]
fn initialize_twice_is_refused() {
    let mut ledger = ledger_with_pool(1, 100);
    let again = InitializePool { pool: addr(1), mint: addr(5), admin: addr(6) };
    assert_eq!(ledger.initialize_pool(&again, 9, 9), Err(StakingError::AlreadyInitialized));
    let pool = ledger.pool(&addr(1)).unwrap();
    assert_eq!(pool.reward_rate, 1);
    assert_eq!(pool.lock_duration, 100);
    assert_eq!(pool.pool_token_mint.bytes, [2u8; 32]);
}

#[test]
fn negative_lock_duration_is_refused() {
    let mut ledger = Ledger::new();
    assert_eq!(ledger.initialize_pool(&init_ctx(), 1, -1), Err(StakingError::InvalidLockDuration));
    assert!(ledger.pool(&addr(1)).is_none());
    assert!(initialize_pool(&init_ctx(), 1, -5).is_err());
}

#[test]
fn stake_twice_adds_and_restarts_lock() {
    let mut ledger = ledger_with_pool(1, 100);
    let ctx = Stake { pool: addr(1), user: addr(4) };
    assert_eq!(ledger.stake(&ctx, 300, 1000), Ok(300));
    assert_eq!(ledger.stake(&ctx, 200, 1040), Ok(200));
    let position = ledger.position(&addr(1), &addr(4)).unwrap();
    assert_eq!(position.amount, 500);
    assert_eq!(position.stake_time, 1040);
    assert_eq!(position.user.bytes, [4u8; 32]);
}

#[test]
fn top_up_restarts_the_lock_window() {
    let mut ledger = ledger_with_pool(1, 100);
    let ctx = Stake { pool: addr(1), user: addr(4) };
    ledger.stake(&ctx, 10, 1000).unwrap();
    ledger.stake(&ctx, 10, 1090).unwrap();
    let out = Unstake { pool: addr(1), user: addr(4) };
    assert_eq!(ledger.unstake(&out, 1100), Err(StakingError::LockPeriodNotEnded));
    assert_eq!(ledger.unstake(&out, 1190), Ok(Payout { principal: 20, reward: 2000 }));
}

#[test]
fn stake_into_missing_pool_is_refused() {
    let mut ledger = Ledger::new();
    let ctx = Stake { pool: addr(1), user: addr(4) };
    assert_eq!(ledger.stake(&ctx, 10, 0), Err(StakingError::PoolNotFound));
    assert!(ledger.position(&addr(1), &addr(4)).is_none());
}

#[test]
fn stake_overflow_is_refused_and_changes_nothing() {
    let mut ledger = ledger_with_pool(1, 100);
    let ctx = Stake { pool: addr(1), user: addr(4) };
    ledger.stake(&ctx, u64::MAX - 5, 10).unwrap();
    assert_eq!(ledger.stake(&ctx, 6, 20), Err(StakingError::Overflow));
    let position = ledger.position(&addr(1), &addr(4)).unwrap();
    assert_eq!(position.amount, u64::MAX - 5);
    assert_eq!(position.stake_time, 10);
    assert_eq!(ledger.stake(&ctx, 5, 30), Ok(5));
    assert_eq!(ledger.position(&addr(1), &addr(4)).unwrap().amount, u64::MAX);
}

#[test]
fn scenario_rate_one_lock_hundred() {
    let mut ledger = ledger_with_pool(1, 100);
    let ctx = Stake { pool: addr(1), user: addr(4) };
    assert_eq!(ledger.stake(&ctx, 500, 1000), Ok(500));
    let out = Unstake { pool: addr(1), user: addr(4) };
    assert_eq!(ledger.unstake(&out, 1050), Err(StakingError::LockPeriodNotEnded));
    assert_eq!(ledger.position(&addr(1), &addr(4)).unwrap().amount, 500);
    assert_eq!(ledger.unstake(&out, 1100), Ok(Payout { principal: 500, reward: 50000 }));
}

#[test]
fn unstake_before_lock_end_changes_nothing() {
    let mut ledger = ledger_with_pool(3, 60);
    let ctx = Stake { pool: addr(1), user: addr(4) };
    ledger.stake(&ctx, 42, 500).unwrap();
    let out = Unstake { pool: addr(1), user: addr(4) };
    assert_eq!(ledger.unstake(&out, 559), Err(StakingError::LockPeriodNotEnded));
    assert_eq!(ledger.unstake(&out, -100), Err(StakingError::LockPeriodNotEnded));
    let position = ledger.position(&addr(1), &addr(4)).unwrap();
    assert_eq!(position.amount, 42);
    assert_eq!(position.stake_time, 500);
}

#[test]
fn unstake_exactly_at_lock_end_succeeds_once() {
    let mut ledger = ledger_with_pool(2, 60);
    let ctx = Stake { pool: addr(1), user: addr(4) };
    ledger.stake(&ctx, 10, 500).unwrap();
    let out = Unstake { pool: addr(1), user: addr(4) };
    assert_eq!(ledger.unstake(&out, 560), Ok(Payout { principal: 10, reward: 1200 }));
    assert_eq!(ledger.position(&addr(1), &addr(4)).unwrap().amount, 0);
    assert_eq!(ledger.unstake(&out, 10_000), Err(StakingError::NotFound));
}

#[test]
fn unstake_of_unknown_position_or_pool_is_refused() {
    let mut ledger = ledger_with_pool(2, 60);
    let out = Unstake { pool: addr(1), user: addr(4) };
    assert_eq!(ledger.unstake(&out, 0), Err(StakingError::NotFound));
    let elsewhere = Unstake { pool: addr(8), user: addr(4) };
    assert_eq!(ledger.unstake(&elsewhere, 0), Err(StakingError::PoolNotFound));
}

#[test]
fn unstake_reward_overflow_changes_nothing() {
    let mut ledger = ledger_with_pool(u64::MAX, 0);
    let ctx = Stake { pool: addr(1), user: addr(4) };
    ledger.stake(&ctx, 2, 0).unwrap();
    let out = Unstake { pool: addr(1), user: addr(4) };
    assert_eq!(ledger.unstake(&out, 1), Err(StakingError::CalculationOverflow));
    let position = ledger.position(&addr(1), &addr(4)).unwrap();
    assert_eq!(position.amount, 2);
    assert_eq!(position.stake_time, 0);
}

#[test]
fn positions_are_kept_apart_by_pool_and_user() {
    let mut ledger = ledger_with_pool(1, 10);
    let other = InitializePool { pool: addr(7), mint: addr(2), admin: addr(3) };
    ledger.initialize_pool(&other, 5, 20).unwrap();
    ledger.stake(&Stake { pool: addr(1), user: addr(4) }, 100, 0).unwrap();
    ledger.stake(&Stake { pool: addr(7), user: addr(4) }, 30, 0).unwrap();
    ledger.stake(&Stake { pool: addr(1), user: addr(5) }, 9, 0).unwrap();
    assert_eq!(ledger.position(&addr(1), &addr(4)).unwrap().amount, 100);
    assert_eq!(ledger.position(&addr(7), &addr(4)).unwrap().amount, 30);
    assert_eq!(ledger.position(&addr(1), &addr(5)).unwrap().amount, 9);
    assert!(ledger.position(&addr(7), &addr(5)).is_none());
    let out = Unstake { pool: addr(7), user: addr(4) };
    assert_eq!(ledger.unstake(&out, 20), Ok(Payout { principal: 30, reward: 3000 }));
    assert_eq!(ledger.position(&addr(1), &addr(4)).unwrap().amount, 100);
}

#[test]
fn reward_is_the_product_of_its_factors() {
    assert_eq!(compute_reward(500, 100, 1), Ok(50000));
    assert_eq!(compute_reward(3, 7, 11), Ok(231));
    assert_eq!(compute_reward(3, 7, 11), compute_reward(3, 7, 11));
    assert_eq!(compute_reward(0, 100, 5), Ok(0));
    assert_eq!(compute_reward(10, 10, 0), Ok(0));
    assert_eq!(compute_reward(u64::MAX, 1, 1), Ok(u64::MAX));
}

#[test]
fn reward_overflow_is_reported() {
    assert_eq!(compute_reward(u64::MAX, 2, 1), Err(StakingError::CalculationOverflow));
    assert_eq!(compute_reward(1 << 32, 1 << 31, 4), Err(StakingError::CalculationOverflow));
    assert_eq!(compute_reward(u64::MAX, 2, 0), Err(StakingError::CalculationOverflow));
}

#[test]
fn lock_end_is_inclusive_and_exact_at_extremes() {
    assert!(lock_ended(1000, 100, 1100));
    assert!(!lock_ended(1000, 100, 1099));
    assert!(!lock_ended(i64::MAX, i64::MAX, i64::MAX));
    assert!(lock_ended(i64::MIN, i64::MAX, -1));
    assert!(!lock_ended(i64::MIN, i64::MAX, -2));
}

#[test]
fn addresses_compare_by_bytes() {
    let mut bytes = [7u8; 32];
    assert!(addr(7).same(&Address::new(bytes)));
    bytes[31] = 8;
    assert!(!addr(7).same(&Address::new(bytes)));
}

#[test]
fn record_stake_sets_owner_and_time() {
    let ctx = Stake { pool: addr(1), user: addr(4) };
    let mut position = StakeAccount { amount: 5, stake_time: 1, user: addr(4) };
    assert_eq!(stake(&ctx, &mut position, 10, 77), Ok(10));
    assert_eq!(position.amount, 15);
    assert_eq!(position.stake_time, 77);
    assert_eq!(position.user.bytes, [4u8; 32]);
}

#[test]
fn record_unstake_checks_owner() {
    let pool = Pool { reward_rate: 1, lock_duration: 0, pool_token_mint: addr(2), admin: addr(3) };
    let mut position = StakeAccount { amount: 5, stake_time: 0, user: addr(4) };
    let intruder = Unstake { pool: addr(1), user: addr(6) };
    assert_eq!(unstake(&intruder, &pool, &mut position, 10), Err(StakingError::Unauthorized));
    assert_eq!(position.amount, 5);
    let owner = Unstake { pool: addr(1), user: addr(4) };
    assert_eq!(unstake(&owner, &pool, &mut position, 10), Ok(Payout { principal: 5, reward: 50 }));
    assert_eq!(position.amount, 0);
    assert_eq!(unstake(&owner, &pool, &mut position, 20), Err(StakingError::NotFound));
}
