use vstd::prelude::*;

use crate::address::Address;
use crate::records::{InitializePool, Payout, Pool, Stake, StakeAccount, StakingError, Unstake};
use crate::staking::{self, pool_record, stake_record, unstake_record};

verus! {

/// The key of a position: the identities of its pool and of its owner.
pub type PositionKey = (Seq<u8>, Seq<u8>);

/// The contents of a ledger: pools by their identity, positions by
/// (pool, owner).
pub struct LedgerView {
    pub pools: Map<Seq<u8>, Pool>,
    pub positions: Map<PositionKey, StakeAccount>,
}

impl LedgerView {
    /// Every pool has a non-negative lock period, and every position belongs
    /// to the user of its key.
    pub open spec fn wf(self) -> bool {
        &&& forall|k: Seq<u8>| #[trigger] self.pools.contains_key(k) ==> self.pools[k].wf()
        &&& forall|k: PositionKey| #[trigger] self.positions.contains_key(k) ==> self.positions[k].user@ == k.1
    }
}

/// The deterministic key of the position of `user` in `pool`.
pub open spec fn position_key(pool: Address, user: Address) -> PositionKey {
    (pool@, user@)
}

/// A position that has never been staked into.
pub open spec fn fresh_position(user: Address) -> StakeAccount {
    StakeAccount { amount: 0, stake_time: 0, user }
}

/// Creating a pool: refused when its slot is taken.
pub open spec fn initialize_pool_step(v: LedgerView, ctx: InitializePool, reward_rate: u64, lock_duration: i64) -> (Result<(), StakingError>, LedgerView) {
    if v.pools.contains_key(ctx.pool@) {
        (Err(StakingError::AlreadyInitialized), v)
    } else {
        match pool_record(ctx, reward_rate, lock_duration) {
            Ok(p) => (Ok(()), LedgerView { pools: v.pools.insert(ctx.pool@, p), ..v }),
            Err(e) => (Err(e), v),
        }
    }
}

/// Staking: the position of (pool, user) is created on first use.
pub open spec fn stake_step(v: LedgerView, ctx: Stake, amount: u64, now: i64) -> (Result<u64, StakingError>, LedgerView) {
    if !v.pools.contains_key(ctx.pool@) {
        (Err(StakingError::PoolNotFound), v)
    } else {
        let key = position_key(ctx.pool, ctx.user);
        let current = if v.positions.contains_key(key) { v.positions[key] } else { fresh_position(ctx.user) };
        let (r, next) = stake_record(current, ctx.user, amount, now);
        match r {
            Ok(_) => (r, LedgerView { positions: v.positions.insert(key, next), ..v }),
            Err(_) => (r, v),
        }
    }
}

/// Unstaking: the position of (pool, user) must exist.
pub open spec fn unstake_step(v: LedgerView, ctx: Unstake, now: i64) -> (Result<Payout, StakingError>, LedgerView) {
    let key = position_key(ctx.pool, ctx.user);
    if !v.pools.contains_key(ctx.pool@) {
        (Err(StakingError::PoolNotFound), v)
    } else if !v.positions.contains_key(key) {
        (Err(StakingError::NotFound), v)
    } else {
        let (r, next) = unstake_record(v.pools[ctx.pool@], v.positions[key], ctx.user, now);
        match r {
            Ok(_) => (r, LedgerView { positions: v.positions.insert(key, next), ..v }),
            Err(_) => (r, v),
        }
    }
}

/// Creating a pool keeps a ledger well formed.
pub proof fn lemma_initialize_pool_keeps_wf(v: LedgerView, ctx: InitializePool, reward_rate: u64, lock_duration: i64)
    requires
        v.wf(),
    ensures
        initialize_pool_step(v, ctx, reward_rate, lock_duration).1.wf(),
{
}

/// Staking keeps a ledger well formed.
pub proof fn lemma_stake_keeps_wf(v: LedgerView, ctx: Stake, amount: u64, now: i64)
    requires
        v.wf(),
    ensures
        stake_step(v, ctx, amount, now).1.wf(),
{
}

/// Unstaking keeps a ledger well formed.
pub proof fn lemma_unstake_keeps_wf(v: LedgerView, ctx: Unstake, now: i64)
    requires
        v.wf(),
    ensures
        unstake_step(v, ctx, now).1.wf(),
{
}

/// The map of pools that a list of entries describes: a later entry for a
/// key replaces an earlier one.
pub open spec fn pool_map(s: Seq<(Address, Pool)>) -> Map<Seq<u8>, Pool>
    decreases s.len(),
{
    if s.len() == 0 {
        Map::empty()
    } else {
        pool_map(s.drop_last()).insert(s.last().0@, s.last().1)
    }
}

/// The map of positions that a list of entries describes: a later entry for
/// a key replaces an earlier one.
pub open spec fn position_map(s: Seq<(Address, Address, StakeAccount)>) -> Map<PositionKey, StakeAccount>
    decreases s.len(),
{
    if s.len() == 0 {
        Map::empty()
    } else {
        position_map(s.drop_last()).insert((s.last().0@, s.last().1@), s.last().2)
    }
}

/// Replacing the last entry for a key replaces that key's value.
proof fn lemma_position_map_update(s: Seq<(Address, Address, StakeAccount)>, i: int, e: (Address, Address, StakeAccount))
    requires
        0 <= i < s.len(),
        e.0@ == s[i].0@,
        e.1@ == s[i].1@,
        forall|j: int| i < j < s.len() ==> (s[j].0@, s[j].1@) != (s[i].0@, s[i].1@),
    ensures
        position_map(s.update(i, e)) == position_map(s).insert((e.0@, e.1@), e.2),
    decreases s.len(),
{
    let t = s.update(i, e);
    if i == s.len() - 1 {
        assert(t.drop_last() =~= s.drop_last());
        assert(position_map(t) =~= position_map(s).insert((e.0@, e.1@), e.2));
    } else {
        assert(t.drop_last() =~= s.drop_last().update(i, e));
        lemma_position_map_update(s.drop_last(), i, e);
        assert(position_map(t) =~= position_map(s).insert((e.0@, e.1@), e.2));
    }
}

/// A keyed store of pools and positions.
pub struct Ledger {
    pools: Vec<(Address, Pool)>,
    positions: Vec<(Address, Address, StakeAccount)>,
}

impl View for Ledger {
    type V = LedgerView;

    closed spec fn view(&self) -> LedgerView {
        LedgerView { pools: pool_map(self.pools@), positions: position_map(self.positions@) }
    }
}

impl Ledger {
    /// An empty ledger.
    pub fn new() -> (r: Ledger)
        ensures
            r@.wf(),
            r@.pools == Map::<Seq<u8>, Pool>::empty(),
            r@.positions == Map::<PositionKey, StakeAccount>::empty(),
    {
        Ledger { pools: Vec::new(), positions: Vec::new() }
    }

    /// The pool stored under `key`, if any.
    pub fn pool(&self, key: &Address) -> (r: Option<Pool>)
        ensures
            r == (if self@.pools.contains_key(key@) { Some(self@.pools[key@]) } else { None::<Pool> }),
    {
        match self.find_pool(key) {
            Some(i) => Some(self.pools[i].1),
            None => None,
        }
    }

    /// The position of `user` in `pool`, if one was ever opened.
    pub fn position(&self, pool: &Address, user: &Address) -> (r: Option<StakeAccount>)
        ensures
            r == (if self@.positions.contains_key(position_key(*pool, *user)) {
                Some(self@.positions[position_key(*pool, *user)])
            } else {
                None::<StakeAccount>
            }),
    {
        match self.find_position(pool, user) {
            Some(i) => Some(self.positions[i].2),
            None => None,
        }
    }

    /// Creates a pool in the slot `ctx.pool`. Refused with
    /// `AlreadyInitialized` when that slot already holds a pool, and with
    /// `InvalidLockDuration` when `lock_duration` is negative.
    pub fn initialize_pool(&mut self, ctx: &InitializePool, reward_rate: u64, lock_duration: i64) -> (r: Result<(), StakingError>)
        requires
            old(self)@.wf(),
        ensures
            final(self)@.wf(),
            (r, final(self)@) == initialize_pool_step(old(self)@, *ctx, reward_rate, lock_duration),
    {
        proof {
            lemma_initialize_pool_keeps_wf(self@, *ctx, reward_rate, lock_duration);
        }
        if self.find_pool(&ctx.pool).is_some() {
            return Err(StakingError::AlreadyInitialized);
        }
        match staking::initialize_pool(ctx, reward_rate, lock_duration) {
            Err(e) => Err(e),
            Ok(p) => {
                let ghost before = self.pools@;
                self.pools.push((ctx.pool, p));
                assert(self.pools@.drop_last() =~= before);
                assert(self@.pools =~= old(self)@.pools.insert(ctx.pool@, p));
                Ok(())
            },
        }
    }

    /// Stakes `amount` into `ctx.pool` for `ctx.user` at time `now`, opening
    /// the position on first use.
    ///
    /// On success returns the amount that must move from the user's token
    /// account into the pool's in the same transaction. Refused, with nothing
    /// changed, when the pool does not exist (`PoolNotFound`) or the new
    /// principal would not fit in 64 bits (`Overflow`).
    pub fn stake(&mut self, ctx: &Stake, amount: u64, now: i64) -> (r: Result<u64, StakingError>)
        requires
            old(self)@.wf(),
        ensures
            final(self)@.wf(),
            (r, final(self)@) == stake_step(old(self)@, *ctx, amount, now),
    {
        proof {
            lemma_stake_keeps_wf(self@, *ctx, amount, now);
        }
        if self.find_pool(&ctx.pool).is_none() {
            return Err(StakingError::PoolNotFound);
        }
        let ghost key = position_key(ctx.pool, ctx.user);
        match self.find_position(&ctx.pool, &ctx.user) {
            Some(i) => {
                let mut position = self.positions[i].2;
                let r = staking::stake(ctx, &mut position, amount, now);
                if r.is_ok() {
                    let entry = (self.positions[i].0, self.positions[i].1, position);
                    proof {
                        lemma_position_map_update(self.positions@, i as int, entry);
                    }
                    self.positions.set(i, entry);
                    assert(self@.positions =~= old(self)@.positions.insert(key, position));
                }
                r
            },
            None => {
                let mut position = StakeAccount { amount: 0, stake_time: 0, user: ctx.user };
                let r = staking::stake(ctx, &mut position, amount, now);
                if r.is_ok() {
                    let ghost before = self.positions@;
                    self.positions.push((ctx.pool, ctx.user, position));
                    assert(self.positions@.drop_last() =~= before);
                    assert(self@.positions =~= old(self)@.positions.insert(key, position));
                }
                r
            },
        }
    }

    /// Withdraws the position of `ctx.user` in `ctx.pool` at time `now`.
    ///
    /// Refused, with nothing changed, when the pool does not exist
    /// (`PoolNotFound`), when the position was never opened or holds nothing
    /// (`NotFound`), before its lock window ends (`LockPeriodNotEnded`), and
    /// when the reward does not fit in 64 bits (`CalculationOverflow`). On
    /// success the principal is returned for transfer from the pool to the
    /// user, and the position is left with nothing staked.
    pub fn unstake(&mut self, ctx: &Unstake, now: i64) -> (r: Result<Payout, StakingError>)
        requires
            old(self)@.wf(),
        ensures
            final(self)@.wf(),
            (r, final(self)@) == unstake_step(old(self)@, *ctx, now),
    {
        proof {
            lemma_unstake_keeps_wf(self@, *ctx, now);
        }
        let pool = match self.find_pool(&ctx.pool) {
            None => {
                return Err(StakingError::PoolNotFound);
            },
            Some(j) => self.pools[j].1,
        };
        let ghost key = position_key(ctx.pool, ctx.user);
        match self.find_position(&ctx.pool, &ctx.user) {
            None => Err(StakingError::NotFound),
            Some(i) => {
                let mut position = self.positions[i].2;
                let r = staking::unstake(ctx, &pool, &mut position, now);
                if r.is_ok() {
                    let entry = (self.positions[i].0, self.positions[i].1, position);
                    proof {
                        lemma_position_map_update(self.positions@, i as int, entry);
                    }
                    self.positions.set(i, entry);
                    assert(self@.positions =~= old(self)@.positions.insert(key, position));
                }
                r
            },
        }
    }

    fn find_pool(&self, key: &Address) -> (r: Option<usize>)
        ensures
            match r {
                Some(i) => i < self.pools@.len() && pool_map(self.pools@).contains_key(key@)
                    && pool_map(self.pools@)[key@] == self.pools@[i as int].1,
                None => !pool_map(self.pools@).contains_key(key@),
            },
    {
        let mut found: Option<usize> = None;
        let mut i: usize = 0;
        while i < self.pools.len()
            invariant
                0 <= i <= self.pools@.len(),
                match found {
                    Some(j) => j < i && pool_map(self.pools@.take(i as int)).contains_key(key@)
                        && pool_map(self.pools@.take(i as int))[key@] == self.pools@[j as int].1,
                    None => !pool_map(self.pools@.take(i as int)).contains_key(key@),
                },
            decreases self.pools@.len() - i,
        {
            assert(self.pools@.take(i + 1).drop_last() =~= self.pools@.take(i as int));
            if self.pools[i].0.same(key) {
                found = Some(i);
            }
            i += 1;
        }
        assert(self.pools@.take(i as int) =~= self.pools@);
        found
    }

    fn find_position(&self, pool: &Address, user: &Address) -> (r: Option<usize>)
        ensures
            match r {
                Some(i) => i < self.positions@.len()
                    && position_map(self.positions@).contains_key((pool@, user@))
                    && position_map(self.positions@)[(pool@, user@)] == self.positions@[i as int].2
                    && self.positions@[i as int].0@ == pool@ && self.positions@[i as int].1@ == user@
                    && forall|j: int| i < j < self.positions@.len() ==>
                        (#[trigger] self.positions@[j].0@, self.positions@[j].1@) != (pool@, user@),
                None => !position_map(self.positions@).contains_key((pool@, user@)),
            },
    {
        let mut found: Option<usize> = None;
        let mut i: usize = 0;
        while i < self.positions.len()
            invariant
                0 <= i <= self.positions@.len(),
                match found {
                    Some(j) => j < i && position_map(self.positions@.take(i as int)).contains_key((pool@, user@))
                        && position_map(self.positions@.take(i as int))[(pool@, user@)] == self.positions@[j as int].2
                        && self.positions@[j as int].0@ == pool@ && self.positions@[j as int].1@ == user@
                        && forall|k: int| j < k < i ==>
                            (#[trigger] self.positions@[k].0@, self.positions@[k].1@) != (pool@, user@),
                    None => !position_map(self.positions@.take(i as int)).contains_key((pool@, user@)),
                },
            decreases self.positions@.len() - i,
        {
            assert(self.positions@.take(i + 1).drop_last() =~= self.positions@.take(i as int));
            if self.positions[i].0.same(pool) && self.positions[i].1.same(user) {
                found = Some(i);
            }
            i += 1;
        }
        assert(self.positions@.take(i as int) =~= self.positions@);
        found
    }
}

} // verus!
