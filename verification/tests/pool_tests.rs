use basc_staking::account::{PairStakedData, StakedData, UserPairPool, UserPool};
use basc_staking::constants::{
    EPOCH, HIGH_APE_REWARD, MATCHING_FACTOR, NORMAL_TIGER_REWARD, PAIR_STAKE_MAX_COUNT,
    STAKE_MAX_COUNT, SUPER_APE_REWARD, SUPER_TIGER_REWARD,
};
use basc_staking::error::StakingError;
use basc_staking::key::Pubkey;

fn key(b: u8) -> Pubkey {
    Pubkey::new_from_array([b; 32])
}

fn staked(pool: &UserPool) -> Vec<StakedData> {
    pool.staked_nfts[..pool.staked_count as usize].to_vec()
}

fn staked_pairs(pool: &UserPairPool) -> Vec<PairStakedData> {
    pool.staked_pairs[..pool.staked_pair_count as usize].to_vec()
}

#[test]
fn new_pools_are_empty() {
    let pool = UserPool::default();
    assert_eq!(pool.staked_count, 0);
    assert_eq!(pool.owner, Pubkey::zero());
    assert_eq!(pool.staked_nfts.len(), STAKE_MAX_COUNT);
    assert_eq!(pool.staked_nfts[5], StakedData::default());
    let pairs = UserPairPool::default();
    assert_eq!(pairs.staked_pair_count, 0);
    assert_eq!(pairs.staked_pairs.len(), PAIR_STAKE_MAX_COUNT);
    assert_eq!(pairs.remaining_rewards, 0);
}

#[test]
fn add_nft_fills_next_slot() {
    let mut pool = UserPool::default();
    pool.add_nft(key(1), 5, 1, 100);
    pool.add_nft(key(2), 6000, 0, 200);
    assert_eq!(pool.staked_count, 2);
    assert_eq!(
        pool.staked_nfts[1],
        StakedData { mint: key(2), last_claimed_time: 200, rank: 6000, is_ape: 0 }
    );
}

#[test]
fn remove_nft_moves_last_into_slot() {
    let mut pool = UserPool::default();
    pool.add_nft(key(1), 5, 1, 0);
    pool.add_nft(key(2), 500, 1, 0);
    pool.add_nft(key(3), 7000, 0, 0);
    let is_ape = pool.remove_nft(key(1), 2 * EPOCH).unwrap();
    assert_eq!(is_ape, 1);
    assert_eq!(pool.remaining_rewards, 2 * SUPER_APE_REWARD);
    assert_eq!(pool.staked_count, 2);
    assert_eq!(pool.staked_nfts[0].mint, key(3));
    assert_eq!(pool.staked_nfts[1].mint, key(2));
}

#[test]
fn remove_unknown_nft_fails() {
    let mut pool = UserPool::default();
    pool.add_nft(key(1), 5, 1, 0);
    let before = pool;
    assert_eq!(pool.remove_nft(key(9), 10), Err(StakingError::InvalidNFTAddress));
    assert_eq!(staked(&pool), staked(&before));
    assert_eq!(pool.remaining_rewards, before.remaining_rewards);
}

#[test]
fn remove_counts_from_pool_claim() {
    let mut pool = UserPool::default();
    pool.add_nft(key(1), 5, 1, 0);
    pool.last_reward_time = EPOCH;
    pool.remove_nft(key(1), 3 * EPOCH).unwrap();
    assert_eq!(pool.remaining_rewards, 2 * SUPER_APE_REWARD);
}

#[test]
fn claim_reward_sums_all_and_restarts() {
    let mut pool = UserPool::default();
    pool.add_nft(key(1), 5, 1, 0);
    pool.add_nft(key(2), 500, 1, EPOCH);
    pool.add_nft(key(3), 7000, 0, 0);
    pool.remaining_rewards = 17;
    let total = pool.claim_reward(3 * EPOCH).unwrap();
    assert_eq!(
        total,
        3 * SUPER_APE_REWARD + 2 * HIGH_APE_REWARD + 3 * NORMAL_TIGER_REWARD
    );
    assert_eq!(pool.last_reward_time, 3 * EPOCH);
    assert_eq!(pool.remaining_rewards, 0);
    assert_eq!(pool.claim_reward(3 * EPOCH), Ok(0));
}

#[test]
fn claim_nft_reward_restarts_one() {
    let mut pool = UserPool::default();
    pool.add_nft(key(1), 5, 1, 0);
    pool.add_nft(key(2), 5, 1, 0);
    assert_eq!(pool.claim_nft_reward(key(2), EPOCH), Ok(SUPER_APE_REWARD));
    assert_eq!(pool.staked_nfts[1].last_claimed_time, EPOCH);
    assert_eq!(pool.staked_nfts[0].last_claimed_time, 0);
    assert_eq!(pool.claim_nft_reward(key(2), EPOCH), Ok(0));
    assert_eq!(pool.claim_nft_reward(key(4), EPOCH), Err(StakingError::InvalidNFTAddress));
}

#[test]
fn find_nft_returns_first_slot() {
    let mut pool = UserPool::default();
    pool.add_nft(key(1), 5, 1, 0);
    pool.add_nft(key(2), 5, 0, 0);
    pool.add_nft(key(2), 6, 1, 0);
    assert_eq!(pool.find_nft(&key(2)), Some(1));
    assert_eq!(pool.find_nft(&key(7)), None);
    assert_eq!(pool.remove_nft(key(2), 0), Ok(0));
}

#[test]
fn fit_checks_follow_the_arithmetic() {
    let mut pool = UserPool::default();
    pool.add_nft(key(1), 5, 1, 2 * EPOCH);
    assert!(pool.claim_reward_fits(3 * EPOCH));
    assert!(pool.nft_reward_computable(&key(1), 3 * EPOCH));
    assert!(pool.nft_reward_computable(&key(8), 0));
    assert!(!pool.claim_reward_fits(0));
    assert!(!pool.nft_reward_computable(&key(1), 0));
}

#[test]
fn add_then_remove_restores_the_pool() {
    let mut pool = UserPool::default();
    pool.add_nft(key(1), 5, 1, 0);
    pool.add_nft(key(2), 500, 0, 0);
    let before = staked(&pool);
    pool.add_nft(key(3), 9, 1, 10);
    assert_eq!(pool.remove_nft(key(3), 10), Ok(1));
    assert_eq!(staked(&pool), before);
}

fn pair(ape: u8, tiger: u8, ape_id: u64, tiger_id: u64) -> PairStakedData {
    PairStakedData {
        ape_mint: key(ape),
        ape_rank: 5,
        ape_id,
        tiger_mint: key(tiger),
        tiger_rank: 5,
        tiger_id,
        last_claimed_time: 0,
    }
}

fn add(pool: &mut UserPairPool, p: PairStakedData) {
    pool.add_pair(
        p.ape_mint,
        p.ape_rank,
        p.ape_id,
        p.tiger_mint,
        p.tiger_rank,
        p.tiger_id,
        p.last_claimed_time,
    );
}

#[test]
fn add_pair_fills_next_slot() {
    let mut pool = UserPairPool::default();
    add(&mut pool, pair(1, 2, 3, 4));
    assert_eq!(pool.staked_pair_count, 1);
    assert_eq!(pool.staked_pairs[0], pair(1, 2, 3, 4));
}

#[test]
fn remove_pair_pays_matching_factor() {
    let mut pool = UserPairPool::default();
    add(&mut pool, pair(1, 2, 7, 7));
    add(&mut pool, pair(3, 4, 1, 2));
    let reward = pool.remove_pair(key(1), key(2), EPOCH).unwrap();
    assert_eq!(reward, (SUPER_APE_REWARD + SUPER_TIGER_REWARD) * MATCHING_FACTOR / 100);
    assert_eq!(pool.remaining_rewards, reward);
    assert_eq!(staked_pairs(&pool), vec![pair(3, 4, 1, 2)]);
}

#[test]
fn remove_pair_with_wrong_tiger_fails() {
    let mut pool = UserPairPool::default();
    add(&mut pool, pair(1, 2, 7, 7));
    assert_eq!(pool.remove_pair(key(1), key(9), EPOCH), Err(StakingError::InvalidNFTAddress));
    assert_eq!(pool.remove_pair(key(9), key(2), EPOCH), Err(StakingError::InvalidNFTAddress));
    assert_eq!(pool.staked_pair_count, 1);
}

#[test]
fn pair_claims() {
    let mut pool = UserPairPool::default();
    add(&mut pool, pair(1, 2, 7, 7));
    add(&mut pool, pair(3, 4, 1, 2));
    let unmatched = SUPER_APE_REWARD + SUPER_TIGER_REWARD;
    let matched = unmatched * MATCHING_FACTOR / 100;
    assert_eq!(pool.claim_pair_reward(key(3), key(4), EPOCH), Ok(unmatched));
    assert_eq!(pool.staked_pairs[1].last_claimed_time, EPOCH);
    assert_eq!(pool.claim_reward(EPOCH), Ok(matched));
    assert_eq!(pool.last_reward_time, EPOCH);
    assert_eq!(pool.claim_reward(EPOCH), Ok(0));
    assert!(pool.claim_reward_fits(EPOCH));
    assert!(pool.pair_reward_computable(&key(1), &key(2), 2 * EPOCH));
    assert!(!pool.pair_reward_computable(&key(1), &key(2), -EPOCH));
    assert!(pool.pair_reward_computable(&key(1), &key(5), -EPOCH));
}

#[test]
fn find_pair_by_ape() {
    let mut pool = UserPairPool::default();
    add(&mut pool, pair(1, 2, 7, 7));
    add(&mut pool, pair(3, 4, 1, 2));
    assert_eq!(pool.find_pair(&key(3)), Some(1));
    assert_eq!(pool.find_pair(&key(4)), None);
}

#[test]
fn add_then_remove_pair_restores_the_pool() {
    let mut pool = UserPairPool::default();
    add(&mut pool, pair(1, 2, 7, 7));
    let before = staked_pairs(&pool);
    add(&mut pool, pair(5, 6, 1, 1));
    pool.remove_pair(key(5), key(6), 0).unwrap();
    assert_eq!(staked_pairs(&pool), before);
}
