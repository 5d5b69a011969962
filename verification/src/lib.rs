//! Reward accounting and stake lifecycle of a shared staking pool.
use vstd::prelude::*;

pub mod account;
pub mod address;
pub mod beneficiary;
pub mod error;
pub mod fixed;
pub mod ledger;
pub mod pool;
pub mod processor;
pub mod split;
pub mod stake;
pub mod working;

pub use crate::split::split_stake;

verus! {

/// The minimum amount a staker may keep staked, unless nothing stays staked.
pub const MINIMUM_STAKE: u64 = 1_000;

/// The amount paid out as yield during the first emission period.
pub const BASE_REWARD: u128 = 900_000_000_000;

/// The length of one emission period, in seconds.
pub const SECONDS_PER_YEAR: u128 = 31_536_000;

/// The factor by which the reward per share is scaled.
pub const PRECISION: u128 = 1_000_000_000_000;

} // verus!
