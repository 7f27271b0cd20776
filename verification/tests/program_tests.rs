use metaplex_token_metadata::state::{Data, Key, Metadata, MAX_METADATA_LEN};
use basc_staking::account::{GlobalPool, UserPairPool, UserPool};
use basc_staking::constants::{EPOCH, MATCHING_FACTOR, SUPER_APE_REWARD, SUPER_TIGER_REWARD};
use anchor_lang::prelude::borsh::BorshSerialize;
use basc_staking::error::{StakeError, StakingError};
use basc_staking::key::Pubkey;
use basc_staking::program::{
    claim_pair_reward, claim_reward, initialize, initialize_user_pair_pool,
    initialize_user_pool, stake_nft_to_pair_pool, stake_nft_to_pool, try_stake_nft_to_pair_pool,
    try_stake_nft_to_pool, user, user_pair,
    withdraw_nft_from_pair_pool, withdraw_nft_from_pool,
};

fn key(b: u8) -> Pubkey {
    Pubkey::new_from_array([b; 32])
}

const APE: u8 = 200;
const TIGER: u8 = 201;

fn pda(mint: &Pubkey) -> Pubkey {
    let program_id = metaplex_token_metadata::id();
    let mint_key = anchor_lang::prelude::Pubkey::new_from_array(mint.bytes);
    let (address, _) = anchor_lang::prelude::Pubkey::find_program_address(
        &[b"metadata", program_id.as_ref(), mint_key.as_ref()],
        &program_id,
    );
    Pubkey::new_from_array(address.to_bytes())
}

fn metadata_bytes(name: &str, creators: Option<Vec<(u8, bool)>>) -> Vec<u8> {
    let creators = creators.map(|cs| {
        cs.into_iter()
            .map(|(b, verified)| metaplex_token_metadata::state::Creator {
                address: anchor_lang::prelude::Pubkey::new_from_array([b; 32]),
                verified,
                share: 0,
            })
            .collect()
    });
    let md = Metadata {
        key: Key::MetadataV1,
        update_authority: anchor_lang::prelude::Pubkey::default(),
        mint: anchor_lang::prelude::Pubkey::default(),
        data: Data {
            name: name.to_string(),
            symbol: String::new(),
            uri: String::new(),
            seller_fee_basis_points: 0,
            creators,
        },
        primary_sale_happened: false,
        is_mutable: false,
        edition_nonce: None,
    };
    let mut bytes = md.try_to_vec().unwrap();
    bytes.resize(MAX_METADATA_LEN, 0);
    bytes
}

fn stake(global: &mut GlobalPool, pool: &mut UserPool, mint: u8, rank: u64, is_ape: u64, now: i64) {
    let collection = if is_ape == 1 { APE } else { TIGER };
    let data = metadata_bytes("NFT #1", Some(vec![(collection, true)]));
    let r = stake_nft_to_pool(
        global,
        pool,
        key(mint),
        &pda(&key(mint)),
        &data,
        rank,
        now,
        &key(APE),
        &key(TIGER),
    );
    assert_eq!(r, Ok(()));
}

fn stake_pair(
    global: &mut GlobalPool,
    pool: &mut UserPairPool,
    ape: u8,
    ape_rank: u64,
    ape_id: u32,
    tiger: u8,
    tiger_rank: u64,
    tiger_id: u32,
    now: i64,
) {
    let ape_data = metadata_bytes(&format!("Ape #{}", ape_id), Some(vec![(APE, true)]));
    let tiger_data = metadata_bytes(&format!("Tiger #{}", tiger_id), Some(vec![(TIGER, true)]));
    let r = stake_nft_to_pair_pool(
        global,
        pool,
        key(ape),
        &pda(&key(ape)),
        &ape_data,
        ape_rank,
        key(tiger),
        &pda(&key(tiger)),
        &tiger_data,
        tiger_rank,
        now,
        &key(APE),
        &key(TIGER),
    );
    assert_eq!(r, Ok(()));
}

#[test]
fn initialize_records_admin() {
    let mut global = GlobalPool::default();
    initialize(&mut global, key(4));
    assert_eq!(global.super_admin, key(4));
    assert_eq!(global.total_staked_ape_count, 0);
}

#[test]
fn owners_are_checked() {
    let mut pool = UserPool::default();
    initialize_user_pool(&mut pool, key(1));
    assert_eq!(user(&pool, &key(1)), Ok(()));
    assert_eq!(user(&pool, &key(2)), Err(StakingError::InvalidUserPool));
    let mut pairs = UserPairPool::default();
    initialize_user_pair_pool(&mut pairs, key(3));
    assert_eq!(user_pair(&pairs, &key(3)), Ok(()));
    assert_eq!(user_pair(&pairs, &key(1)), Err(StakingError::InvalidUserPool));
}

#[test]
fn stake_counts_by_kind() {
    let mut global = GlobalPool::default();
    let mut pool = UserPool::default();
    stake(&mut global, &mut pool, 1, 5, 1, 0);
    stake(&mut global, &mut pool, 2, 5, 0, 0);
    stake(&mut global, &mut pool, 3, 5, 0, 0);
    assert_eq!(global.total_staked_ape_count, 1);
    assert_eq!(global.total_staked_tiger_count, 2);
    assert_eq!(pool.staked_count, 3);
}

#[test]
fn withdraw_pays_and_uncounts() {
    let mut global = GlobalPool::default();
    let mut pool = UserPool::default();
    stake(&mut global, &mut pool, 1, 5, 1, 0);
    let reward = withdraw_nft_from_pool(&mut global, &mut pool, key(1), EPOCH, u64::MAX);
    assert_eq!(reward, Ok(SUPER_APE_REWARD));
    assert_eq!(pool.remaining_rewards, 0);
    assert_eq!(pool.staked_count, 0);
    assert_eq!(global.total_staked_ape_count, 0);
}

#[test]
fn withdraw_of_unknown_nft_fails() {
    let mut global = GlobalPool::default();
    let mut pool = UserPool::default();
    stake(&mut global, &mut pool, 1, 5, 1, 0);
    let reward = withdraw_nft_from_pool(&mut global, &mut pool, key(2), EPOCH, u64::MAX);
    assert_eq!(reward, Err(StakingError::InvalidNFTAddress));
    assert_eq!(global.total_staked_ape_count, 1);
    assert_eq!(pool.staked_count, 1);
}

#[test]
fn withdraw_needs_a_full_vault() {
    let mut global = GlobalPool::default();
    let mut pool = UserPool::default();
    stake(&mut global, &mut pool, 1, 5, 1, 0);
    let reward = withdraw_nft_from_pool(&mut global, &mut pool, key(1), EPOCH, 5);
    assert_eq!(reward, Err(StakingError::InsufficientRewardVault));
    assert_eq!(pool.remaining_rewards, SUPER_APE_REWARD);
}

#[test]
fn stake_then_withdraw_restores_totals() {
    let mut global = GlobalPool::default();
    global.total_staked_tiger_count = 9;
    let mut pool = UserPool::default();
    stake(&mut global, &mut pool, 1, 5, 0, 0);
    withdraw_nft_from_pool(&mut global, &mut pool, key(1), 0, 0).unwrap();
    assert_eq!(global.total_staked_tiger_count, 9);
    assert_eq!(global.total_staked_ape_count, 0);
}

#[test]
fn claim_rules() {
    let mut global = GlobalPool::default();
    let mut pool = UserPool::default();
    stake(&mut global, &mut pool, 1, 5, 1, 0);
    assert_eq!(claim_reward(&mut pool, None, 10, u64::MAX), Err(StakingError::InvalidWithdrawTime));
    assert_eq!(
        claim_reward(&mut pool, Some(key(1)), 2 * EPOCH, 1),
        Err(StakingError::InsufficientRewardVault)
    );
    assert_eq!(
        claim_reward(&mut pool, Some(key(2)), EPOCH, u64::MAX),
        Err(StakingError::InvalidNFTAddress)
    );
    let mut fresh = UserPool::default();
    stake(&mut global, &mut fresh, 1, 5, 1, 0);
    assert_eq!(claim_reward(&mut fresh, None, 2 * EPOCH, u64::MAX), Ok(2 * SUPER_APE_REWARD));
    assert_eq!(fresh.last_reward_time, 2 * EPOCH);
}

#[test]
fn pair_stake_withdraw_and_totals() {
    let mut global = GlobalPool::default();
    let mut pool = UserPairPool::default();
    stake_pair(&mut global, &mut pool, 1, 5, 42, 2, 5, 42, 0);
    assert_eq!(pool.staked_pairs[0].ape_id, 42);
    assert_eq!(global.total_staked_pair_count, 1);
    assert_eq!(global.total_staked_ape_count, 1);
    assert_eq!(global.total_staked_tiger_count, 1);
    assert_eq!(
        withdraw_nft_from_pair_pool(&mut global, &mut pool, key(1), key(3), EPOCH, u64::MAX),
        Err(StakingError::InvalidNFTAddress)
    );
    let reward =
        withdraw_nft_from_pair_pool(&mut global, &mut pool, key(1), key(2), EPOCH, u64::MAX);
    assert_eq!(reward, Ok((SUPER_APE_REWARD + SUPER_TIGER_REWARD) * MATCHING_FACTOR / 100));
    assert_eq!(global.total_staked_pair_count, 0);
    assert_eq!(global.total_staked_ape_count, 0);
    assert_eq!(global.total_staked_tiger_count, 0);
}

#[test]
fn pair_claim_rules() {
    let mut global = GlobalPool::default();
    let mut pool = UserPairPool::default();
    stake_pair(&mut global, &mut pool, 1, 5, 1, 2, 5, 2, 0);
    assert_eq!(
        claim_pair_reward(&mut pool, Some(key(1)), None, EPOCH, u64::MAX),
        Err(StakingError::InvalidNFTAddress)
    );
    assert_eq!(
        claim_pair_reward(&mut pool, None, Some(key(2)), EPOCH, u64::MAX),
        Err(StakingError::InvalidNFTAddress)
    );
    assert_eq!(
        claim_pair_reward(&mut pool, Some(key(1)), Some(key(2)), EPOCH, u64::MAX),
        Ok(SUPER_APE_REWARD + SUPER_TIGER_REWARD)
    );
    assert_eq!(
        claim_pair_reward(&mut pool, None, None, EPOCH, u64::MAX),
        Err(StakingError::InvalidWithdrawTime)
    );
    assert_eq!(
        claim_pair_reward(&mut pool, None, None, 2 * EPOCH, 3),
        Err(StakingError::InsufficientRewardVault)
    );
}

#[test]
fn refused_stake_changes_nothing() {
    let mut global = GlobalPool::default();
    let mut pool = UserPool::default();
    let data = metadata_bytes("NFT #1", Some(vec![(TIGER, false)]));
    let r = stake_nft_to_pool(
        &mut global,
        &mut pool,
        key(1),
        &pda(&key(1)),
        &data,
        5,
        0,
        &key(APE),
        &key(TIGER),
    );
    assert_eq!(r, Err(StakeError::Staking(StakingError::UnkownOrNotAllowedNFTCollection)));
    assert_eq!(pool.staked_count, 0);
    assert_eq!(global.total_staked_tiger_count, 0);
    let r = stake_nft_to_pool(
        &mut global,
        &mut pool,
        key(1),
        &key(2),
        &data,
        5,
        0,
        &key(APE),
        &key(TIGER),
    );
    assert_eq!(r, Err(StakeError::Staking(StakingError::InvaliedMetadata)));
}

#[test]
fn stake_fails_where_it_cannot_complete() {
    let mut global = GlobalPool::default();
    global.total_staked_ape_count = u64::MAX;
    let mut pool = UserPool::default();
    let data = metadata_bytes("NFT #1", Some(vec![(APE, true)]));
    let r = try_stake_nft_to_pool(
        &mut global,
        &mut pool,
        key(1),
        &pda(&key(1)),
        &data,
        5,
        0,
        &key(APE),
        &key(TIGER),
    );
    assert_eq!(r, None);
    assert_eq!(pool.staked_count, 0);
    let r = try_stake_nft_to_pool(
        &mut global,
        &mut pool,
        key(1),
        &pda(&key(1)),
        &[],
        5,
        0,
        &key(APE),
        &key(TIGER),
    );
    assert_eq!(r, None);
}

#[test]
fn pair_stake_reads_ids_from_names() {
    let mut global = GlobalPool::default();
    let mut pool = UserPairPool::default();
    let ape_data = metadata_bytes("BASC #77\0\0", Some(vec![(APE, true)]));
    let tiger_data = metadata_bytes("Tiger #78", Some(vec![(TIGER, true)]));
    let r = try_stake_nft_to_pair_pool(
        &mut global,
        &mut pool,
        key(1),
        &pda(&key(1)),
        &ape_data,
        5,
        key(2),
        &pda(&key(2)),
        &tiger_data,
        6,
        9,
        &key(APE),
        &key(TIGER),
    );
    assert_eq!(r, Some(Ok(())));
    assert_eq!(pool.staked_pairs[0].ape_id, 77);
    assert_eq!(pool.staked_pairs[0].tiger_id, 78);
    assert_eq!(pool.staked_pairs[0].last_claimed_time, 9);
    assert_eq!(global.total_staked_pair_count, 1);
}
