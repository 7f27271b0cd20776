use vstd::prelude::*;

use crate::constants::{
    EPOCH, HIGH_APE_REWARD, HIGH_TIGER_REWARD, MATCHING_FACTOR, NORMAL_APE_REWARD,
    NORMAL_TIGER_REWARD, SUPER_APE_REWARD, SUPER_TIGER_REWARD,
};

verus! {

/// Reward per epoch of an ape of the given rank.
pub open spec fn ape_reward_rate(rank: u64) -> u64 {
    if rank < 13 {
        SUPER_APE_REWARD
    } else if rank < 1000 {
        HIGH_APE_REWARD
    } else {
        NORMAL_APE_REWARD
    }
}

/// Reward per epoch of a tiger of the given rank.
pub open spec fn tiger_reward_rate(rank: u64) -> u64 {
    if rank < 5013 {
        SUPER_TIGER_REWARD
    } else if rank < 6000 {
        HIGH_TIGER_REWARD
    } else {
        NORMAL_TIGER_REWARD
    }
}

/// Reward per epoch of a staked NFT: the ape table when `is_ape` is 1,
/// the tiger table otherwise.
pub open spec fn nft_reward_rate(is_ape: u64, rank: u64) -> u64 {
    if is_ape == 1 {
        ape_reward_rate(rank)
    } else {
        tiger_reward_rate(rank)
    }
}

/// The time from which an item earns: the later of the pool's last claim
/// and the item's own last claim.
pub open spec fn reward_start(pool_last: i64, item_last: i64) -> i64 {
    if pool_last < item_last {
        item_last
    } else {
        pool_last
    }
}

/// Integer division rounded toward zero, for a positive divisor.
pub open spec fn trunc_div(a: int, b: int) -> int {
    if a >= 0 {
        a / b
    } else {
        -((-a) / b)
    }
}

/// The value that a signed 64-bit integer takes when it is read as unsigned.
pub open spec fn as_unsigned(q: int) -> int {
    if q >= 0 {
        q
    } else {
        q + 0x1_0000_0000_0000_0000
    }
}

/// The difference `now - start` fits in a signed 64-bit integer.
pub open spec fn time_span_fits(start: i64, now: i64) -> bool {
    i64::MIN <= now - start <= i64::MAX
}

/// Whole epochs from `start` to `now` (rounded toward zero), read as an
/// unsigned 64-bit number; a span of minus one epoch or less wraps around.
pub open spec fn elapsed_epochs(start: i64, now: i64) -> int {
    as_unsigned(trunc_div(now - start, EPOCH as int))
}

/// The epoch count is never negative where the time span fits.
pub proof fn lemma_elapsed_epochs_nonnegative(start: i64, now: i64)
    requires
        time_span_fits(start, now),
    ensures
        elapsed_epochs(start, now) >= 0,
{
}

/// The reward of one staked NFT that earns from `start` to `now`.
pub open spec fn nft_reward(start: i64, now: i64, is_ape: u64, rank: u64) -> int {
    elapsed_epochs(start, now) * nft_reward_rate(is_ape, rank)
}

/// The reward of one staked NFT can be computed in 64-bit arithmetic.
pub open spec fn nft_reward_fits(start: i64, now: i64, is_ape: u64, rank: u64) -> bool {
    time_span_fits(start, now) && nft_reward(start, now, is_ape, rank) <= u64::MAX
}

/// Percentage paid on a pair: the matching factor when the ape and the
/// tiger carry the same id, 100 otherwise.
pub open spec fn pair_factor(ape_id: u64, tiger_id: u64) -> u64 {
    if ape_id == tiger_id {
        MATCHING_FACTOR
    } else {
        100
    }
}

/// Epochs times the sum of both rates of a pair.
pub open spec fn pair_base_reward(start: i64, now: i64, ape_rank: u64, tiger_rank: u64) -> int {
    elapsed_epochs(start, now) * (ape_reward_rate(ape_rank) + tiger_reward_rate(tiger_rank))
}

/// The reward of one staked pair that earns from `start` to `now`.
pub open spec fn pair_reward(
    start: i64,
    now: i64,
    ape_rank: u64,
    tiger_rank: u64,
    ape_id: u64,
    tiger_id: u64,
) -> int {
    pair_base_reward(start, now, ape_rank, tiger_rank) * pair_factor(ape_id, tiger_id) / 100
}

/// The reward of one staked pair can be computed in 64-bit arithmetic,
/// every intermediate product included.
pub open spec fn pair_reward_fits(
    start: i64,
    now: i64,
    ape_rank: u64,
    tiger_rank: u64,
    ape_id: u64,
    tiger_id: u64,
) -> bool {
    &&& time_span_fits(start, now)
    &&& pair_base_reward(start, now, ape_rank, tiger_rank) <= u64::MAX
    &&& pair_base_reward(start, now, ape_rank, tiger_rank) * pair_factor(ape_id, tiger_id)
        <= u64::MAX
}

/// Reward per epoch of an ape of the given rank.
pub fn ape_reward_amount(rank: u64) -> (r: u64)
    ensures
        r == ape_reward_rate(rank),
{
    if rank < 13 {
        SUPER_APE_REWARD
    } else if rank < 1000 {
        HIGH_APE_REWARD
    } else {
        NORMAL_APE_REWARD
    }
}

/// Reward per epoch of a tiger of the given rank.
pub fn tiger_reward_amount(rank: u64) -> (r: u64)
    ensures
        r == tiger_reward_rate(rank),
{
    if rank < 5013 {
        SUPER_TIGER_REWARD
    } else if rank < 6000 {
        HIGH_TIGER_REWARD
    } else {
        NORMAL_TIGER_REWARD
    }
}

/// Reward per epoch of a staked NFT.
pub fn nft_reward_amount(is_ape: u64, rank: u64) -> (r: u64)
    ensures
        r == nft_reward_rate(is_ape, rank),
{
    if is_ape == 1 {
        ape_reward_amount(rank)
    } else {
        tiger_reward_amount(rank)
    }
}

/// The later of the pool's and the item's last claim.
pub fn reward_start_time(pool_last: i64, item_last: i64) -> (t: i64)
    ensures
        t == reward_start(pool_last, item_last),
{
    let mut last_reward_time = pool_last;
    if last_reward_time < item_last {
        last_reward_time = item_last;
    }
    last_reward_time
}

/// Whole epochs from `start` to `now`, as the unsigned reading of the
/// rounded-toward-zero quotient.
pub fn epochs_between(start: i64, now: i64) -> (e: u64)
    requires
        time_span_fits(start, now),
    ensures
        e == elapsed_epochs(start, now),
{
    let span: i64 = now - start;
    let q: i64 = span / EPOCH;
    assert(q == trunc_div(span as int, EPOCH as int));
    let e = q as u64;
    assert((q >= 0 ==> e == q) && (q < 0 ==> e == q + 0x1_0000_0000_0000_0000)) by (bit_vector)
        requires
            e == q as u64,
    ;
    e
}

/// The reward of one staked NFT that earns from `start` to `now`.
pub fn compute_nft_reward(start: i64, now: i64, is_ape: u64, rank: u64) -> (r: u64)
    requires
        nft_reward_fits(start, now, is_ape, rank),
    ensures
        r == nft_reward(start, now, is_ape, rank),
{
    let reward_amount = nft_reward_amount(is_ape, rank);
    epochs_between(start, now) * reward_amount
}

/// The reward of one staked NFT, or `None` where 64-bit arithmetic
/// cannot hold it.
pub fn checked_nft_reward(start: i64, now: i64, is_ape: u64, rank: u64) -> (r: Option<u64>)
    ensures
        r == (if nft_reward_fits(start, now, is_ape, rank) {
            Some(nft_reward(start, now, is_ape, rank) as u64)
        } else {
            None::<u64>
        }),
{
    match now.checked_sub(start) {
        None => None,
        Some(_) => {
            let e = epochs_between(start, now);
            e.checked_mul(nft_reward_amount(is_ape, rank))
        },
    }
}

/// The reward of one staked pair that earns from `start` to `now`.
pub fn compute_pair_reward(
    start: i64,
    now: i64,
    ape_rank: u64,
    tiger_rank: u64,
    ape_id: u64,
    tiger_id: u64,
) -> (r: u64)
    requires
        pair_reward_fits(start, now, ape_rank, tiger_rank, ape_id, tiger_id),
    ensures
        r == pair_reward(start, now, ape_rank, tiger_rank, ape_id, tiger_id),
{
    let mut factor: u64 = 100;
    if ape_id == tiger_id {
        factor = MATCHING_FACTOR;
    }
    let ape_reward_amount = ape_reward_amount(ape_rank);
    let tiger_reward_amount = tiger_reward_amount(tiger_rank);
    epochs_between(start, now) * (ape_reward_amount + tiger_reward_amount) * factor / 100
}

/// The reward of one staked pair, or `None` where 64-bit arithmetic cannot
/// hold it or one of its intermediate products.
pub fn checked_pair_reward(
    start: i64,
    now: i64,
    ape_rank: u64,
    tiger_rank: u64,
    ape_id: u64,
    tiger_id: u64,
) -> (r: Option<u64>)
    ensures
        r == (if pair_reward_fits(start, now, ape_rank, tiger_rank, ape_id, tiger_id) {
            Some(pair_reward(start, now, ape_rank, tiger_rank, ape_id, tiger_id) as u64)
        } else {
            None::<u64>
        }),
{
    if now.checked_sub(start).is_none() {
        return None;
    }
    let e = epochs_between(start, now);
    let rates = ape_reward_amount(ape_rank) + tiger_reward_amount(tiger_rank);
    let factor: u64 = if ape_id == tiger_id { MATCHING_FACTOR } else { 100 };
    match e.checked_mul(rates) {
        None => None,
        Some(base) => match base.checked_mul(factor) {
            None => None,
            Some(scaled) => Some(scaled / 100),
        },
    }
}

} // verus!
