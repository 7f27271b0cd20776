use vstd::prelude::*;

use crate::account::{GlobalPool, PairStakedData, StakedData, UserPairPool, UserPool};
use crate::constants::{PAIR_STAKE_MAX_COUNT, STAKE_MAX_COUNT};
use crate::error::{StakeError, StakingError};
use crate::key::Pubkey;
use crate::metadata::{stake_nft_outcome, stake_pair_outcome, try_check_stake_nft, try_check_stake_pair};

verus! {

/// What a withdrawal pays out of a vault holding `vault_amount`: the
/// reward, unless the vault holds less.
pub open spec fn vault_payout(reward: int, vault_amount: u64) -> Result<u64, StakingError> {
    if vault_amount < reward {
        Err(StakingError::InsufficientRewardVault)
    } else {
        Ok(reward as u64)
    }
}

/// What a claim pays out of a vault holding `vault_amount`: a zero reward
/// is refused, and so is one that the vault cannot cover.
pub open spec fn claim_payout(reward: int, vault_amount: u64) -> Result<u64, StakingError> {
    if reward == 0 {
        Err(StakingError::InvalidWithdrawTime)
    } else {
        vault_payout(reward, vault_amount)
    }
}

/// The remaining reward that a withdrawal leaves in the pool: none once
/// paid, all of it where the vault could not pay.
pub open spec fn left_after_payout(reward: int, vault_amount: u64) -> int {
    if vault_amount < reward {
        reward
    } else {
        0
    }
}

/// The totals after one more NFT of the given kind is staked.
pub open spec fn with_nft_staked(g: GlobalPool, is_ape: u64) -> GlobalPool {
    if is_ape == 1 {
        GlobalPool { total_staked_ape_count: (g.total_staked_ape_count + 1) as u64, ..g }
    } else {
        GlobalPool { total_staked_tiger_count: (g.total_staked_tiger_count + 1) as u64, ..g }
    }
}

/// The totals after one NFT of the given kind is withdrawn.
pub open spec fn with_nft_withdrawn(g: GlobalPool, is_ape: u64) -> GlobalPool {
    if is_ape == 1 {
        GlobalPool { total_staked_ape_count: (g.total_staked_ape_count - 1) as u64, ..g }
    } else {
        GlobalPool { total_staked_tiger_count: (g.total_staked_tiger_count - 1) as u64, ..g }
    }
}

/// The totals after one more pair is staked.
pub open spec fn with_pair_staked(g: GlobalPool) -> GlobalPool {
    GlobalPool {
        total_staked_ape_count: (g.total_staked_ape_count + 1) as u64,
        total_staked_tiger_count: (g.total_staked_tiger_count + 1) as u64,
        total_staked_pair_count: (g.total_staked_pair_count + 1) as u64,
        ..g
    }
}

/// The totals after one pair is withdrawn.
pub open spec fn with_pair_withdrawn(g: GlobalPool) -> GlobalPool {
    GlobalPool {
        total_staked_ape_count: (g.total_staked_ape_count - 1) as u64,
        total_staked_tiger_count: (g.total_staked_tiger_count - 1) as u64,
        total_staked_pair_count: (g.total_staked_pair_count - 1) as u64,
        ..g
    }
}

/// The total of the given kind can count one more NFT.
pub open spec fn can_count_nft(g: GlobalPool, is_ape: u64) -> bool {
    if is_ape == 1 {
        g.total_staked_ape_count < u64::MAX
    } else {
        g.total_staked_tiger_count < u64::MAX
    }
}

/// The total of the given kind can count one NFT less.
pub open spec fn can_uncount_nft(g: GlobalPool, is_ape: u64) -> bool {
    if is_ape == 1 {
        g.total_staked_ape_count > 0
    } else {
        g.total_staked_tiger_count > 0
    }
}

/// Every total can count one more pair.
pub open spec fn can_count_pair(g: GlobalPool) -> bool {
    &&& g.total_staked_ape_count < u64::MAX
    &&& g.total_staked_tiger_count < u64::MAX
    &&& g.total_staked_pair_count < u64::MAX
}

/// Every total can count one pair less.
pub open spec fn can_uncount_pair(g: GlobalPool) -> bool {
    &&& g.total_staked_ape_count > 0
    &&& g.total_staked_tiger_count > 0
    &&& g.total_staked_pair_count > 0
}

/// Records the administrator of the program.
pub fn initialize(global: &mut GlobalPool, admin: Pubkey)
    ensures
        *final(global) == (GlobalPool { super_admin: admin, ..*old(global) }),
{
    global.super_admin = admin;
}

/// Records the owner of a new single-NFT pool.
pub fn initialize_user_pool(pool: &mut UserPool, owner: Pubkey)
    ensures
        *final(pool) == (UserPool { owner, ..*old(pool) }),
{
    pool.owner = owner;
}

/// Records the owner of a new pair pool.
pub fn initialize_user_pair_pool(pool: &mut UserPairPool, owner: Pubkey)
    ensures
        *final(pool) == (UserPairPool { owner, ..*old(pool) }),
{
    pool.owner = owner;
}

/// Admits only the owner of a single-NFT pool.
pub fn user(pool: &UserPool, owner: &Pubkey) -> (r: Result<(), StakingError>)
    ensures
        r == (if pool.owner == *owner {
            Ok(())
        } else {
            Err(StakingError::InvalidUserPool)
        }),
{
    if pool.owner.equals(owner) {
        Ok(())
    } else {
        Err(StakingError::InvalidUserPool)
    }
}

/// Admits only the owner of a pair pool.
pub fn user_pair(pool: &UserPairPool, owner: &Pubkey) -> (r: Result<(), StakingError>)
    ensures
        r == (if pool.owner == *owner {
            Ok(())
        } else {
            Err(StakingError::InvalidUserPool)
        }),
{
    if pool.owner.equals(owner) {
        Ok(())
    } else {
        Err(StakingError::InvalidUserPool)
    }
}

/// Stakes an NFT whose collection has been checked (`is_ape` is 1 for an
/// ape) at `timestamp`, and counts it in the totals.
fn record_nft_stake(
    global: &mut GlobalPool,
    pool: &mut UserPool,
    nft_mint: Pubkey,
    rank: u64,
    is_ape: u64,
    timestamp: i64,
)
    requires
        old(pool).wf(),
        old(pool).staked_count < STAKE_MAX_COUNT,
        can_count_nft(*old(global), is_ape),
    ensures
        final(pool).wf(),
        UserPool::is_added(*old(pool), *final(pool), nft_mint, rank, is_ape, timestamp),
        *final(global) == with_nft_staked(*old(global), is_ape),
{
    pool.add_nft(nft_mint, rank, is_ape, timestamp);
    if is_ape == 1 {
        global.total_staked_ape_count = global.total_staked_ape_count + 1;
    } else {
        global.total_staked_tiger_count = global.total_staked_tiger_count + 1;
    }
}

/// A stake whose checks came out as `outcome` runs to its end without a
/// panic: the checks themselves do not panic, and an accepted NFT finds a
/// free slot and room in its total.
pub open spec fn stake_nft_completes(
    pool: UserPool,
    global: GlobalPool,
    outcome: Option<Result<u64, StakeError>>,
) -> bool {
    match outcome {
        None => false,
        Some(Err(_)) => true,
        Some(Ok(is_ape)) => pool.staked_count < STAKE_MAX_COUNT && can_count_nft(global, is_ape),
    }
}

/// What a stake whose checks came out as `outcome` answers and changes:
/// a refused NFT changes nothing; an accepted one fills the next slot with
/// the kind that its creators decide, and is counted.
pub open spec fn stake_nft_effect(
    old_pool: UserPool,
    new_pool: UserPool,
    old_global: GlobalPool,
    new_global: GlobalPool,
    outcome: Option<Result<u64, StakeError>>,
    r: Result<(), StakeError>,
    nft_mint: Pubkey,
    rank: u64,
    timestamp: i64,
) -> bool {
    match outcome {
        Some(Ok(is_ape)) => {
            &&& r == Ok::<(), StakeError>(())
            &&& UserPool::is_added(old_pool, new_pool, nft_mint, rank, is_ape, timestamp)
            &&& new_global == with_nft_staked(old_global, is_ape)
        },
        Some(Err(e)) => {
            &&& r == Err::<(), StakeError>(e)
            &&& new_pool == old_pool
            &&& new_global == old_global
        },
        None => true,
    }
}

/// Stakes one NFT at `timestamp`, or `None` where the stake would panic
/// (then nothing changes). The NFT is accepted by its metadata address,
/// its metadata record and its creators, in that order; the first failing
/// check is answered with its error.
pub fn try_stake_nft_to_pool(
    global: &mut GlobalPool,
    pool: &mut UserPool,
    nft_mint: Pubkey,
    mint_metadata: &Pubkey,
    metadata_data: &[u8],
    rank: u64,
    timestamp: i64,
    ape_collection: &Pubkey,
    tiger_collection: &Pubkey,
) -> (r: Option<Result<(), StakeError>>)
    requires
        old(pool).wf(),
    ensures
        final(pool).wf(),
        r is None <==> !stake_nft_completes(
            *old(pool),
            *old(global),
            stake_nft_outcome(
                nft_mint@,
                mint_metadata@,
                metadata_data@,
                ape_collection@,
                tiger_collection@,
            ),
        ),
        r is None ==> *final(pool) == *old(pool) && *final(global) == *old(global),
        r matches Some(x) ==> stake_nft_effect(
            *old(pool),
            *final(pool),
            *old(global),
            *final(global),
            stake_nft_outcome(
                nft_mint@,
                mint_metadata@,
                metadata_data@,
                ape_collection@,
                tiger_collection@,
            ),
            x,
            nft_mint,
            rank,
            timestamp,
        ),
        forall|is_ape: u64|
            #[trigger] stake_nft_outcome(
                    nft_mint@,
                    mint_metadata@,
                    metadata_data@,
                    ape_collection@,
                    tiger_collection@,
                ) == Some(
                Ok::<u64, StakeError>(is_ape),
            ) && r is Some ==> {
                &&& r == Some(Ok::<(), StakeError>(()))
                &&& final(pool).staked_count == old(pool).staked_count + 1
                &&& final(pool).staked_nfts@[old(pool).staked_count as int] == (StakedData {
                    mint: nft_mint,
                    last_claimed_time: timestamp,
                    rank,
                    is_ape,
                })
            },
{
    let is_ape = match try_check_stake_nft(
        &nft_mint,
        mint_metadata,
        metadata_data,
        ape_collection,
        tiger_collection,
    ) {
        None => {
            return None;
        },
        Some(Err(e)) => {
            return Some(Err(e));
        },
        Some(Ok(is_ape)) => is_ape,
    };
    if pool.staked_count >= STAKE_MAX_COUNT as u64 {
        return None;
    }
    let full = if is_ape == 1 {
        global.total_staked_ape_count == u64::MAX
    } else {
        global.total_staked_tiger_count == u64::MAX
    };
    if full {
        return None;
    }
    record_nft_stake(global, pool, nft_mint, rank, is_ape, timestamp);
    Some(Ok(()))
}

/// Stakes one NFT at `timestamp`. The NFT is accepted by its metadata
/// address, its metadata record and its creators, in that order; the first
/// failing check is answered with its error and changes nothing. An
/// accepted NFT fills the next slot as an ape or a tiger, as its first
/// admitting creator decides, and is counted in the totals.
pub fn stake_nft_to_pool(
    global: &mut GlobalPool,
    pool: &mut UserPool,
    nft_mint: Pubkey,
    mint_metadata: &Pubkey,
    metadata_data: &[u8],
    rank: u64,
    timestamp: i64,
    ape_collection: &Pubkey,
    tiger_collection: &Pubkey,
) -> (r: Result<(), StakeError>)
    requires
        old(pool).wf(),
        stake_nft_completes(
            *old(pool),
            *old(global),
            stake_nft_outcome(
                nft_mint@,
                mint_metadata@,
                metadata_data@,
                ape_collection@,
                tiger_collection@,
            ),
        ),
    ensures
        final(pool).wf(),
        stake_nft_effect(
            *old(pool),
            *final(pool),
            *old(global),
            *final(global),
            stake_nft_outcome(
                nft_mint@,
                mint_metadata@,
                metadata_data@,
                ape_collection@,
                tiger_collection@,
            ),
            r,
            nft_mint,
            rank,
            timestamp,
        ),
        forall|is_ape: u64|
            #[trigger] stake_nft_outcome(
                    nft_mint@,
                    mint_metadata@,
                    metadata_data@,
                    ape_collection@,
                    tiger_collection@,
                ) == Some(
                Ok::<u64, StakeError>(is_ape),
            ) ==> {
                &&& r == Ok::<(), StakeError>(())
                &&& final(pool).staked_count == old(pool).staked_count + 1
                &&& final(pool).staked_nfts@[old(pool).staked_count as int] == (StakedData {
                    mint: nft_mint,
                    last_claimed_time: timestamp,
                    rank,
                    is_ape,
                })
            },
{
    match try_stake_nft_to_pool(
        global,
        pool,
        nft_mint,
        mint_metadata,
        metadata_data,
        rank,
        timestamp,
        ape_collection,
        tiger_collection,
    ) {
        Some(r) => r,
        None => {
            proof {
                assert(false);
            }
            Err(StakeError::MetadataUnreadable)
        },
    }
}

/// Withdraws a staked NFT at `timestamp`: uncounts it and returns the reward
/// it has earned, which the vault must cover.
pub fn withdraw_nft_from_pool(
    global: &mut GlobalPool,
    pool: &mut UserPool,
    nft_mint: Pubkey,
    timestamp: i64,
    vault_amount: u64,
) -> (r: Result<u64, StakingError>)
    requires
        old(pool).wf(),
        old(pool).nft_reward_fits_for(nft_mint, timestamp),
        forall|i: int|
            #[trigger] old(pool).first_at(nft_mint, i) ==> can_uncount_nft(
                *old(global),
                old(pool).staked_nfts@[i].is_ape,
            ),
    ensures
        final(pool).wf(),
        !old(pool).holds(nft_mint) ==> {
            &&& r == Err::<u64, StakingError>(StakingError::InvalidNFTAddress)
            &&& *final(pool) == *old(pool)
            &&& *final(global) == *old(global)
        },
        old(pool).holds(nft_mint) ==> exists|i: int|
            {
                &&& #[trigger] old(pool).first_at(nft_mint, i)
                &&& r == vault_payout(old(pool).item_reward(i, timestamp), vault_amount)
                &&& UserPool::is_removed(
                    *old(pool),
                    *final(pool),
                    i,
                    left_after_payout(old(pool).item_reward(i, timestamp), vault_amount),
                )
                &&& *final(global) == with_nft_withdrawn(
                    *old(global),
                    old(pool).staked_nfts@[i].is_ape,
                )
            },
{
    let is_ape = pool.remove_nft(nft_mint, timestamp)?;
    if is_ape == 1 {
        global.total_staked_ape_count = global.total_staked_ape_count - 1;
    } else {
        global.total_staked_tiger_count = global.total_staked_tiger_count - 1;
    }
    let reward = pool.remaining_rewards;
    if vault_amount < reward {
        return Err(StakingError::InsufficientRewardVault);
    }
    pool.remaining_rewards = 0;
    Ok(reward)
}

/// Claims at `timestamp` the reward of one staked NFT, or of all of them
/// where no address is given; the reward must be positive and covered by
/// the vault.
pub fn claim_reward(
    pool: &mut UserPool,
    nft_address: Option<Pubkey>,
    timestamp: i64,
    vault_amount: u64,
) -> (r: Result<u64, StakingError>)
    requires
        old(pool).wf(),
        match nft_address {
            Some(address) => old(pool).nft_reward_fits_for(address, timestamp),
            None => old(pool).claim_fits(timestamp),
        },
    ensures
        final(pool).wf(),
        match nft_address {
            None => {
                &&& r == claim_payout(
                    old(pool).rewards_sum(old(pool).staked_count as int, timestamp),
                    vault_amount,
                )
                &&& UserPool::is_claimed(*old(pool), *final(pool), timestamp)
            },
            Some(address) => {
                &&& !old(pool).holds(address) ==> {
                    &&& r == Err::<u64, StakingError>(StakingError::InvalidNFTAddress)
                    &&& *final(pool) == *old(pool)
                }
                &&& old(pool).holds(address) ==> exists|i: int|
                    {
                        &&& #[trigger] old(pool).first_at(address, i)
                        &&& r == claim_payout(old(pool).item_reward(i, timestamp), vault_amount)
                        &&& UserPool::is_nft_claimed(*old(pool), *final(pool), i, timestamp)
                    }
            },
        },
{
    let reward: u64 = match nft_address {
        Some(address) => pool.claim_nft_reward(address, timestamp)?,
        None => pool.claim_reward(timestamp)?,
    };
    if reward == 0 {
        return Err(StakingError::InvalidWithdrawTime);
    }
    if vault_amount < reward {
        return Err(StakingError::InsufficientRewardVault);
    }
    Ok(reward)
}

/// Stakes a checked ape/tiger pair with the given ids at `timestamp`, and
/// counts it in the totals.
fn record_pair_stake(
    global: &mut GlobalPool,
    pool: &mut UserPairPool,
    ape_mint: Pubkey,
    ape_rank: u64,
    ape_id: u32,
    tiger_mint: Pubkey,
    tiger_rank: u64,
    tiger_id: u32,
    timestamp: i64,
)
    requires
        old(pool).wf(),
        old(pool).staked_pair_count < PAIR_STAKE_MAX_COUNT,
        can_count_pair(*old(global)),
    ensures
        final(pool).wf(),
        UserPairPool::is_added(
            *old(pool),
            *final(pool),
            PairStakedData {
                ape_mint,
                ape_rank,
                ape_id: ape_id as u64,
                tiger_mint,
                tiger_rank,
                tiger_id: tiger_id as u64,
                last_claimed_time: timestamp,
            },
        ),
        *final(global) == with_pair_staked(*old(global)),
{
    pool.add_pair(
        ape_mint,
        ape_rank,
        ape_id as u64,
        tiger_mint,
        tiger_rank,
        tiger_id as u64,
        timestamp,
    );
    global.total_staked_ape_count = global.total_staked_ape_count + 1;
    global.total_staked_tiger_count = global.total_staked_tiger_count + 1;
    global.total_staked_pair_count = global.total_staked_pair_count + 1;
}

/// A pair stake whose checks came out as `outcome` runs to its end without
/// a panic: the checks do not panic, and an accepted pair finds a free slot
/// and room in every total.
pub open spec fn stake_pair_completes(
    pool: UserPairPool,
    global: GlobalPool,
    outcome: Option<Result<(u32, u32), StakeError>>,
) -> bool {
    match outcome {
        None => false,
        Some(Err(_)) => true,
        Some(Ok(_)) => pool.staked_pair_count < PAIR_STAKE_MAX_COUNT && can_count_pair(global),
    }
}

/// What a pair stake whose checks came out as `outcome` answers and
/// changes: a refused pair changes nothing; an accepted one fills the next
/// slot with the ids that the names carry, and is counted.
pub open spec fn stake_pair_effect(
    old_pool: UserPairPool,
    new_pool: UserPairPool,
    old_global: GlobalPool,
    new_global: GlobalPool,
    outcome: Option<Result<(u32, u32), StakeError>>,
    r: Result<(), StakeError>,
    ape_mint: Pubkey,
    ape_rank: u64,
    tiger_mint: Pubkey,
    tiger_rank: u64,
    timestamp: i64,
) -> bool {
    match outcome {
        Some(Ok((ape_id, tiger_id))) => {
            &&& r == Ok::<(), StakeError>(())
            &&& UserPairPool::is_added(
                old_pool,
                new_pool,
                PairStakedData {
                    ape_mint,
                    ape_rank,
                    ape_id: ape_id as u64,
                    tiger_mint,
                    tiger_rank,
                    tiger_id: tiger_id as u64,
                    last_claimed_time: timestamp,
                },
            )
            &&& new_global == with_pair_staked(old_global)
        },
        Some(Err(e)) => {
            &&& r == Err::<(), StakeError>(e)
            &&& new_pool == old_pool
            &&& new_global == old_global
        },
        None => true,
    }
}

/// Stakes an ape/tiger pair at `timestamp`, or `None` where the stake would
/// panic (then nothing changes).
pub fn try_stake_nft_to_pair_pool(
    global: &mut GlobalPool,
    pool: &mut UserPairPool,
    ape_mint: Pubkey,
    ape_metadata: &Pubkey,
    ape_data: &[u8],
    ape_rank: u64,
    tiger_mint: Pubkey,
    tiger_metadata: &Pubkey,
    tiger_data: &[u8],
    tiger_rank: u64,
    timestamp: i64,
    ape_collection: &Pubkey,
    tiger_collection: &Pubkey,
) -> (r: Option<Result<(), StakeError>>)
    requires
        old(pool).wf(),
    ensures
        final(pool).wf(),
        r is None <==> !stake_pair_completes(
            *old(pool),
            *old(global),
            stake_pair_outcome(
                ape_mint@,
                ape_metadata@,
                ape_data@,
                tiger_mint@,
                tiger_metadata@,
                tiger_data@,
                ape_collection@,
                tiger_collection@,
            ),
        ),
        r is None ==> *final(pool) == *old(pool) && *final(global) == *old(global),
        r matches Some(x) ==> stake_pair_effect(
            *old(pool),
            *final(pool),
            *old(global),
            *final(global),
            stake_pair_outcome(
                ape_mint@,
                ape_metadata@,
                ape_data@,
                tiger_mint@,
                tiger_metadata@,
                tiger_data@,
                ape_collection@,
                tiger_collection@,
            ),
            x,
            ape_mint,
            ape_rank,
            tiger_mint,
            tiger_rank,
            timestamp,
        ),
        forall|ape_id: u32, tiger_id: u32|
            #[trigger] stake_pair_outcome(
                    ape_mint@,
                    ape_metadata@,
                    ape_data@,
                    tiger_mint@,
                    tiger_metadata@,
                    tiger_data@,
                    ape_collection@,
                    tiger_collection@,
                ) == Some(
                Ok::<(u32, u32), StakeError>((ape_id, tiger_id)),
            ) && r is Some ==> {
                &&& r == Some(Ok::<(), StakeError>(()))
                &&& final(pool).staked_pair_count == old(pool).staked_pair_count + 1
                &&& final(pool).staked_pairs@[old(pool).staked_pair_count as int] == (PairStakedData {
                    ape_mint,
                    ape_rank,
                    ape_id: ape_id as u64,
                    tiger_mint,
                    tiger_rank,
                    tiger_id: tiger_id as u64,
                    last_claimed_time: timestamp,
                })
            },
{
    let (ape_id, tiger_id) = match try_check_stake_pair(
        &ape_mint,
        ape_metadata,
        ape_data,
        &tiger_mint,
        tiger_metadata,
        tiger_data,
        ape_collection,
        tiger_collection,
    ) {
        None => {
            return None;
        },
        Some(Err(e)) => {
            return Some(Err(e));
        },
        Some(Ok(ids)) => ids,
    };
    if pool.staked_pair_count >= PAIR_STAKE_MAX_COUNT as u64 {
        return None;
    }
    if global.total_staked_ape_count == u64::MAX || global.total_staked_tiger_count == u64::MAX
        || global.total_staked_pair_count == u64::MAX {
        return None;
    }
    record_pair_stake(
        global,
        pool,
        ape_mint,
        ape_rank,
        ape_id,
        tiger_mint,
        tiger_rank,
        tiger_id,
        timestamp,
    );
    Some(Ok(()))
}

/// Stakes an ape/tiger pair at `timestamp`. The pair is accepted by both
/// metadata addresses, then the ape's record and collection, then the
/// tiger's, in that order; the first failing check is answered with its
/// error and changes nothing. An accepted pair fills the next slot with the
/// ids that the two names carry, and is counted in the totals.
pub fn stake_nft_to_pair_pool(
    global: &mut GlobalPool,
    pool: &mut UserPairPool,
    ape_mint: Pubkey,
    ape_metadata: &Pubkey,
    ape_data: &[u8],
    ape_rank: u64,
    tiger_mint: Pubkey,
    tiger_metadata: &Pubkey,
    tiger_data: &[u8],
    tiger_rank: u64,
    timestamp: i64,
    ape_collection: &Pubkey,
    tiger_collection: &Pubkey,
) -> (r: Result<(), StakeError>)
    requires
        old(pool).wf(),
        stake_pair_completes(
            *old(pool),
            *old(global),
            stake_pair_outcome(
                ape_mint@,
                ape_metadata@,
                ape_data@,
                tiger_mint@,
                tiger_metadata@,
                tiger_data@,
                ape_collection@,
                tiger_collection@,
            ),
        ),
    ensures
        final(pool).wf(),
        stake_pair_effect(
            *old(pool),
            *final(pool),
            *old(global),
            *final(global),
            stake_pair_outcome(
                ape_mint@,
                ape_metadata@,
                ape_data@,
                tiger_mint@,
                tiger_metadata@,
                tiger_data@,
                ape_collection@,
                tiger_collection@,
            ),
            r,
            ape_mint,
            ape_rank,
            tiger_mint,
            tiger_rank,
            timestamp,
        ),
        forall|ape_id: u32, tiger_id: u32|
            #[trigger] stake_pair_outcome(
                    ape_mint@,
                    ape_metadata@,
                    ape_data@,
                    tiger_mint@,
                    tiger_metadata@,
                    tiger_data@,
                    ape_collection@,
                    tiger_collection@,
                ) == Some(
                Ok::<(u32, u32), StakeError>((ape_id, tiger_id)),
            ) ==> {
                &&& r == Ok::<(), StakeError>(())
                &&& final(pool).staked_pair_count == old(pool).staked_pair_count + 1
                &&& final(pool).staked_pairs@[old(pool).staked_pair_count as int] == (PairStakedData {
                    ape_mint,
                    ape_rank,
                    ape_id: ape_id as u64,
                    tiger_mint,
                    tiger_rank,
                    tiger_id: tiger_id as u64,
                    last_claimed_time: timestamp,
                })
            },
{
    match try_stake_nft_to_pair_pool(
        global,
        pool,
        ape_mint,
        ape_metadata,
        ape_data,
        ape_rank,
        tiger_mint,
        tiger_metadata,
        tiger_data,
        tiger_rank,
        timestamp,
        ape_collection,
        tiger_collection,
    ) {
        Some(r) => r,
        None => {
            proof {
                assert(false);
            }
            Err(StakeError::MetadataUnreadable)
        },
    }
}

/// Withdraws a staked pair at `timestamp`: uncounts it and returns the
/// reward it has earned, which the vault must cover.
pub fn withdraw_nft_from_pair_pool(
    global: &mut GlobalPool,
    pool: &mut UserPairPool,
    ape_mint: Pubkey,
    tiger_mint: Pubkey,
    timestamp: i64,
    vault_amount: u64,
) -> (r: Result<u64, StakingError>)
    requires
        old(pool).wf(),
        old(pool).pair_reward_fits_for(ape_mint, tiger_mint, timestamp),
        old(pool).holds_pair(ape_mint, tiger_mint) ==> can_uncount_pair(*old(global)),
    ensures
        final(pool).wf(),
        !old(pool).holds_pair(ape_mint, tiger_mint) ==> {
            &&& r == Err::<u64, StakingError>(StakingError::InvalidNFTAddress)
            &&& *final(pool) == *old(pool)
            &&& *final(global) == *old(global)
        },
        old(pool).holds_pair(ape_mint, tiger_mint) ==> exists|i: int|
            {
                &&& #[trigger] old(pool).pair_at(ape_mint, tiger_mint, i)
                &&& r == vault_payout(old(pool).item_reward(i, timestamp), vault_amount)
                &&& UserPairPool::is_removed(
                    *old(pool),
                    *final(pool),
                    i,
                    left_after_payout(old(pool).item_reward(i, timestamp), vault_amount),
                )
                &&& *final(global) == with_pair_withdrawn(*old(global))
            },
{
    pool.remove_pair(ape_mint, tiger_mint, timestamp)?;
    global.total_staked_ape_count = global.total_staked_ape_count - 1;
    global.total_staked_tiger_count = global.total_staked_tiger_count - 1;
    global.total_staked_pair_count = global.total_staked_pair_count - 1;
    let reward = pool.remaining_rewards;
    if vault_amount < reward {
        return Err(StakingError::InsufficientRewardVault);
    }
    pool.remaining_rewards = 0;
    Ok(reward)
}

/// Claims at `timestamp` the reward of one staked pair, given both its
/// addresses, or of all pairs, given neither; the reward must be positive
/// and covered by the vault.
pub fn claim_pair_reward(
    pool: &mut UserPairPool,
    ape_nft_address: Option<Pubkey>,
    tiger_nft_address: Option<Pubkey>,
    timestamp: i64,
    vault_amount: u64,
) -> (r: Result<u64, StakingError>)
    requires
        old(pool).wf(),
        match (ape_nft_address, tiger_nft_address) {
            (Some(ape), Some(tiger)) => old(pool).pair_reward_fits_for(ape, tiger, timestamp),
            (None, None) => old(pool).claim_fits(timestamp),
            _ => true,
        },
    ensures
        final(pool).wf(),
        match (ape_nft_address, tiger_nft_address) {
            (Some(ape), Some(tiger)) => {
                &&& !old(pool).holds_pair(ape, tiger) ==> {
                    &&& r == Err::<u64, StakingError>(StakingError::InvalidNFTAddress)
                    &&& *final(pool) == *old(pool)
                }
                &&& old(pool).holds_pair(ape, tiger) ==> exists|i: int|
                    {
                        &&& #[trigger] old(pool).pair_at(ape, tiger, i)
                        &&& r == claim_payout(old(pool).item_reward(i, timestamp), vault_amount)
                        &&& UserPairPool::is_pair_claimed(*old(pool), *final(pool), i, timestamp)
                    }
            },
            (None, None) => {
                &&& r == claim_payout(
                    old(pool).rewards_sum(old(pool).staked_pair_count as int, timestamp),
                    vault_amount,
                )
                &&& UserPairPool::is_claimed(*old(pool), *final(pool), timestamp)
            },
            _ => {
                &&& r == Err::<u64, StakingError>(StakingError::InvalidNFTAddress)
                &&& *final(pool) == *old(pool)
            },
        },
{
    let reward: u64;
    if let Some(ape_address) = ape_nft_address {
        if let Some(tiger_address) = tiger_nft_address {
            reward = pool.claim_pair_reward(ape_address, tiger_address, timestamp)?;
        } else {
            return Err(StakingError::InvalidNFTAddress);
        }
    } else {
        if let Some(_tiger_address) = tiger_nft_address {
            return Err(StakingError::InvalidNFTAddress);
        } else {
            reward = pool.claim_reward(timestamp)?;
        }
    }
    if reward == 0 {
        return Err(StakingError::InvalidWithdrawTime);
    }
    if vault_amount < reward {
        return Err(StakingError::InsufficientRewardVault);
    }
    Ok(reward)
}

} // verus!
