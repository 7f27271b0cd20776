use vstd::prelude::*;

verus! {

/// Number of single-NFT slots in a user pool.
pub const STAKE_MAX_COUNT: usize = 100;

/// Number of ape/tiger pair slots in a user pair pool.
pub const PAIR_STAKE_MAX_COUNT: usize = 64;

/// Length of one reward period, in seconds.
pub const EPOCH: i64 = 86400;

/// Reward per epoch of an ape ranked below 13.
pub const SUPER_APE_REWARD: u64 = 50_000_000_000;

/// Reward per epoch of an ape ranked from 13 to 999.
pub const HIGH_APE_REWARD: u64 = 25_000_000_000;

/// Reward per epoch of an ape ranked 1000 or above.
pub const NORMAL_APE_REWARD: u64 = 10_000_000_000;

/// Reward per epoch of a tiger ranked below 5013.
pub const SUPER_TIGER_REWARD: u64 = 25_000_000_000;

/// Reward per epoch of a tiger ranked from 5013 to 5999.
pub const HIGH_TIGER_REWARD: u64 = 12_500_000_000;

/// Reward per epoch of a tiger ranked 6000 or above.
pub const NORMAL_TIGER_REWARD: u64 = 5_000_000_000;

/// Percentage applied to a pair whose ape and tiger carry the same id
/// (an unmatched pair earns 100 percent).
pub const MATCHING_FACTOR: u64 = 150;

} // verus!
