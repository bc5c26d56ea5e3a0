//! Accounting core of a time-locked token staking ledger.
//!
//! Users stake fungible tokens into a pool; a position records the staked
//! principal and the start of its lock window. After the pool's lock period
//! the principal can be withdrawn, and the reward accrued over the window is
//! computed with checked arithmetic.

pub mod address;
pub mod records;
pub mod reward;
pub mod staking;
pub mod ledger;
pub mod laws;
