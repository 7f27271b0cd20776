use vstd::prelude::*;

use crate::constants::{PAIR_STAKE_MAX_COUNT, STAKE_MAX_COUNT};
use crate::error::StakingError;
use crate::key::Pubkey;
use crate::reward::{
    checked_nft_reward, checked_pair_reward, compute_nft_reward, compute_pair_reward, nft_reward,
    nft_reward_fits, pair_reward, pair_reward_fits, reward_start, reward_start_time,
};

verus! {

/// Program-wide staking totals and the administrator's address.
#[derive(Clone, Copy, Debug)]
pub struct GlobalPool {
    pub super_admin: Pubkey,
    pub total_staked_ape_count: u64,
    pub total_staked_tiger_count: u64,
    pub total_staked_pair_count: u64,
}

impl Default for GlobalPool {
    fn default() -> (g: Self)
        ensures
            g.super_admin.bytes@ == Seq::new(32, |i: int| 0u8),
            g.total_staked_ape_count == 0,
            g.total_staked_tiger_count == 0,
            g.total_staked_pair_count == 0,
    {
        GlobalPool {
            super_admin: Pubkey::zero(),
            total_staked_ape_count: 0,
            total_staked_tiger_count: 0,
            total_staked_pair_count: 0,
        }
    }
}

/// One NFT in a user pool.
#[derive(Clone, Copy, Debug, PartialEq, Eq)]
pub struct StakedData {
    pub mint: Pubkey,
    pub last_claimed_time: i64,
    pub rank: u64,
    pub is_ape: u64,
}

impl StakedData {
    /// An empty slot: zero address and zero fields.
    pub open spec fn is_blank(self) -> bool {
        &&& self.mint.bytes@ == Seq::new(32, |i: int| 0u8)
        &&& self.last_claimed_time == 0
        &&& self.rank == 0
        &&& self.is_ape == 0
    }
}

impl Default for StakedData {
    fn default() -> (d: Self)
        ensures
            d.is_blank(),
    {
        let d = StakedData { mint: Pubkey::zero(), last_claimed_time: 0, rank: 0, is_ape: 0 };
        assert(d.mint.bytes@ =~= Seq::new(32, |i: int| 0u8));
        d
    }
}

/// The single NFTs that one owner has staked.
///
/// The first `staked_count` slots of `staked_nfts` hold the staked NFTs;
/// the slots after them are unused.
#[derive(Clone, Copy, Debug)]
pub struct UserPool {
    pub owner: Pubkey,
    pub staked_count: u64,
    pub staked_nfts: [StakedData; STAKE_MAX_COUNT],
    pub last_reward_time: i64,
    pub remaining_rewards: u64,
}

impl Default for UserPool {
    fn default() -> (p: Self)
        ensures
            p.wf(),
            p.owner.bytes@ == Seq::new(32, |i: int| 0u8),
            p.staked_count == 0,
            forall|i: int| 0 <= i < STAKE_MAX_COUNT ==> (#[trigger] p.staked_nfts@[i]).is_blank(),
            p.last_reward_time == 0,
            p.remaining_rewards == 0,
    {
        broadcast use vstd::array::group_array_axioms;

        let blank = StakedData::default();
        let p = UserPool {
            owner: Pubkey::zero(),
            staked_count: 0,
            staked_nfts: [blank; STAKE_MAX_COUNT],
            last_reward_time: 0,
            remaining_rewards: 0,
        };
        assert(p.owner.bytes@ =~= Seq::new(32, |i: int| 0u8));
        p
    }
}

impl UserPool {
    /// The pool's count stays within its slots.
    pub open spec fn wf(self) -> bool {
        self.staked_count <= STAKE_MAX_COUNT
    }

    /// The staked NFTs, in slot order.
    pub open spec fn staked(self) -> Seq<StakedData> {
        self.staked_nfts@.take(self.staked_count as int)
    }

    /// Slot `i` is in use and holds `mint`.
    pub open spec fn holds_at(self, mint: Pubkey, i: int) -> bool {
        0 <= i < self.staked_count && self.staked_nfts@[i].mint == mint
    }

    /// Slot `i` is the first slot in use that holds `mint`.
    pub open spec fn first_at(self, mint: Pubkey, i: int) -> bool {
        &&& self.holds_at(mint, i)
        &&& forall|j: int| 0 <= j < i ==> self.staked_nfts@[j].mint != mint
    }

    /// Some slot in use holds `mint`.
    pub open spec fn holds(self, mint: Pubkey) -> bool {
        exists|i: int| self.holds_at(mint, i)
    }

    /// The time from which slot `i` earns.
    pub open spec fn item_start(self, i: int) -> i64 {
        reward_start(self.last_reward_time, self.staked_nfts@[i].last_claimed_time)
    }

    /// What slot `i` has earned at `now`.
    pub open spec fn item_reward(self, i: int, now: i64) -> int {
        nft_reward(
            self.item_start(i),
            now,
            self.staked_nfts@[i].is_ape,
            self.staked_nfts@[i].rank,
        )
    }

    /// What slot `i` has earned at `now` can be computed in 64-bit arithmetic.
    pub open spec fn item_reward_fits(self, i: int, now: i64) -> bool {
        nft_reward_fits(
            self.item_start(i),
            now,
            self.staked_nfts@[i].is_ape,
            self.staked_nfts@[i].rank,
        )
    }

    /// What the first `n` slots have earned at `now`, together.
    pub open spec fn rewards_sum(self, n: int, now: i64) -> int
        decreases n,
    {
        if n <= 0 {
            0
        } else {
            self.rewards_sum(n - 1, now) + self.item_reward(n - 1, now)
        }
    }

    /// A claim of all rewards at `now` can be computed in 64-bit arithmetic.
    pub open spec fn claim_fits(self, now: i64) -> bool {
        &&& forall|i: int| 0 <= i < self.staked_count ==> #[trigger] self.item_reward_fits(i, now)
        &&& self.rewards_sum(self.staked_count as int, now) <= u64::MAX
    }

    /// The reward of the first slot holding `mint`, if any, can be computed
    /// in 64-bit arithmetic.
    pub open spec fn nft_reward_fits_for(self, mint: Pubkey, now: i64) -> bool {
        forall|i: int| #[trigger] self.first_at(mint, i) ==> self.item_reward_fits(i, now)
    }

    /// `new` is `old` with one more slot in use, holding the given NFT.
    pub open spec fn is_added(
        old: UserPool,
        new: UserPool,
        mint: Pubkey,
        rank: u64,
        is_ape: u64,
        now: i64,
    ) -> bool {
        &&& new.owner == old.owner
        &&& new.last_reward_time == old.last_reward_time
        &&& new.remaining_rewards == old.remaining_rewards
        &&& new.staked_count == old.staked_count + 1
        &&& new.staked_nfts@ == old.staked_nfts@.update(
            old.staked_count as int,
            StakedData { mint, last_claimed_time: now, rank, is_ape },
        )
    }

    /// `new` is `old` after a claim of all rewards at `now`: every slot
    /// earns again from `now` and no reward remains.
    pub open spec fn is_claimed(old: UserPool, new: UserPool, now: i64) -> bool {
        &&& new.owner == old.owner
        &&& new.staked_count == old.staked_count
        &&& new.staked_nfts == old.staked_nfts
        &&& new.last_reward_time == now
        &&& new.remaining_rewards == 0
    }

    /// `new` is `old` after a claim of slot `i` at `now`: that slot earns
    /// again from `now`, nothing else changes.
    pub open spec fn is_nft_claimed(old: UserPool, new: UserPool, i: int, now: i64) -> bool {
        &&& new.owner == old.owner
        &&& new.staked_count == old.staked_count
        &&& new.last_reward_time == old.last_reward_time
        &&& new.remaining_rewards == old.remaining_rewards
        &&& new.staked_nfts@ == old.staked_nfts@.update(
            i,
            StakedData { last_claimed_time: now, ..old.staked_nfts@[i] },
        )
    }

    /// `new` is `old` with slot `i` given up: the last slot in use moves
    /// into it, and `reward` is kept as the remaining reward.
    pub open spec fn is_removed(old: UserPool, new: UserPool, i: int, reward: int) -> bool {
        &&& new.owner == old.owner
        &&& new.last_reward_time == old.last_reward_time
        &&& new.remaining_rewards == reward
        &&& new.staked_count == old.staked_count - 1
        &&& new.staked_nfts@ == old.staked_nfts@.update(
            i,
            old.staked_nfts@[old.staked_count - 1],
        )
    }

    /// Every reward counted in the sum is non-negative, so the sum grows
    /// with the number of slots counted.
    pub proof fn lemma_rewards_sum_monotone(self, a: int, b: int, now: i64)
        requires
            0 <= a <= b <= self.staked_count,
            forall|i: int| 0 <= i < self.staked_count ==> #[trigger] self.item_reward_fits(i, now),
        ensures
            self.rewards_sum(a, now) <= self.rewards_sum(b, now),
        decreases b - a,
    {
        if a < b {
            self.lemma_rewards_sum_monotone(a, b - 1, now);
            assert(self.item_reward_fits(b - 1, now));
            self.lemma_item_reward_nonnegative(b - 1, now);
        }
    }

    /// What a slot has earned is never negative, where it can be computed.
    pub proof fn lemma_item_reward_nonnegative(self, i: int, now: i64)
        requires
            self.item_reward_fits(i, now),
        ensures
            self.item_reward(i, now) >= 0,
    {
        let start = self.item_start(i);
        crate::reward::lemma_elapsed_epochs_nonnegative(start, now);
        let e = crate::reward::elapsed_epochs(start, now);
        let rate = crate::reward::nft_reward_rate(
            self.staked_nfts@[i].is_ape,
            self.staked_nfts@[i].rank,
        );
        assert(e * rate >= 0) by (nonlinear_arith)
            requires
                e >= 0,
                rate >= 0,
        ;
    }

    /// The first slot in use that holds `mint`.
    pub fn find_nft(&self, mint: &Pubkey) -> (r: Option<usize>)
        requires
            self.wf(),
        ensures
            match r {
                Some(i) => self.first_at(*mint, i as int),
                None => !self.holds(*mint),
            },
    {
        let mut i: u64 = 0;
        while i < self.staked_count
            invariant
                self.wf(),
                i <= self.staked_count,
                forall|j: int| 0 <= j < i ==> self.staked_nfts@[j].mint != *mint,
            decreases self.staked_count - i,
        {
            let idx = i as usize;
            if self.staked_nfts[idx].mint.equals(mint) {
                return Some(idx);
            }
            i = i + 1;
        }
        None
    }

    /// Stakes an NFT in the next free slot.
    pub fn add_nft(&mut self, nft_pubkey: Pubkey, rank: u64, is_ape: u64, now: i64)
        requires
            old(self).wf(),
            old(self).staked_count < STAKE_MAX_COUNT,
        ensures
            final(self).wf(),
            UserPool::is_added(*old(self), *final(self), nft_pubkey, rank, is_ape, now),
    {
        let idx = self.staked_count as usize;
        self.staked_nfts[idx] = StakedData {
            mint: nft_pubkey,
            last_claimed_time: now,
            rank,
            is_ape,
        };
        self.staked_count = self.staked_count + 1;
    }

    /// Unstakes an NFT: keeps what it has earned as the remaining reward,
    /// moves the last staked NFT into its slot, and returns its `is_ape`.
    pub fn remove_nft(&mut self, nft_pubkey: Pubkey, now: i64) -> (r: Result<u64, StakingError>)
        requires
            old(self).wf(),
            old(self).nft_reward_fits_for(nft_pubkey, now),
        ensures
            final(self).wf(),
            r is Ok <==> old(self).holds(nft_pubkey),
            match r {
                Err(e) => e == StakingError::InvalidNFTAddress && *final(self) == *old(self),
                Ok(is_ape) => exists|i: int|
                    {
                        &&& #[trigger] old(self).first_at(nft_pubkey, i)
                        &&& is_ape == old(self).staked_nfts@[i].is_ape
                        &&& UserPool::is_removed(
                            *old(self),
                            *final(self),
                            i,
                            old(self).item_reward(i, now),
                        )
                    },
            },
    {
        let index = match self.find_nft(&nft_pubkey) {
            Some(index) => index,
            None => {
                return Err(StakingError::InvalidNFTAddress);
            },
        };
        let item = self.staked_nfts[index];
        let is_ape: u64 = item.is_ape;
        let last_reward_time = reward_start_time(self.last_reward_time, item.last_claimed_time);
        let reward = compute_nft_reward(last_reward_time, now, item.is_ape, item.rank);
        self.remaining_rewards = reward;

        let last_idx: usize = (self.staked_count - 1) as usize;
        if index != last_idx {
            self.staked_nfts[index] = self.staked_nfts[last_idx];
        }
        self.staked_count = self.staked_count - 1;
        assert(self.staked_nfts@ =~= old(self).staked_nfts@.update(
            index as int,
            old(self).staked_nfts@[old(self).staked_count - 1],
        ));
        Ok(is_ape)
    }

    /// Claims what every staked NFT has earned: returns the total and
    /// restarts all earning at `now`.
    pub fn claim_reward(&mut self, now: i64) -> (r: Result<u64, StakingError>)
        requires
            old(self).wf(),
            old(self).claim_fits(now),
        ensures
            final(self).wf(),
            r is Ok,
            r matches Ok(total) ==> total == old(self).rewards_sum(old(self).staked_count as int, now),
            UserPool::is_claimed(*old(self), *final(self), now),
    {
        let mut total_reward: u64 = 0;
        let mut i: u64 = 0;
        while i < self.staked_count
            invariant
                self.wf(),
                self.claim_fits(now),
                i <= self.staked_count,
                total_reward == self.rewards_sum(i as int, now),
            decreases self.staked_count - i,
        {
            let index = i as usize;
            let item = self.staked_nfts[index];
            let last_reward_time = reward_start_time(self.last_reward_time, item.last_claimed_time);
            assert(self.item_reward_fits(i as int, now));
            let reward: u64 = compute_nft_reward(last_reward_time, now, item.is_ape, item.rank);
            proof {
                self.lemma_rewards_sum_monotone(i + 1, self.staked_count as int, now);
            }
            total_reward = total_reward + reward;
            i = i + 1;
        }
        self.last_reward_time = now;
        self.remaining_rewards = 0;
        Ok(total_reward)
    }

    /// Claims what one staked NFT has earned and restarts its earning at `now`.
    pub fn claim_nft_reward(&mut self, nft_pubkey: Pubkey, now: i64) -> (r: Result<
        u64,
        StakingError,
    >)
        requires
            old(self).wf(),
            old(self).nft_reward_fits_for(nft_pubkey, now),
        ensures
            final(self).wf(),
            r is Ok <==> old(self).holds(nft_pubkey),
            match r {
                Err(e) => e == StakingError::InvalidNFTAddress && *final(self) == *old(self),
                Ok(reward) => exists|i: int|
                    {
                        &&& #[trigger] old(self).first_at(nft_pubkey, i)
                        &&& reward == old(self).item_reward(i, now)
                        &&& UserPool::is_nft_claimed(*old(self), *final(self), i, now)
                    },
            },
    {
        let index = match self.find_nft(&nft_pubkey) {
            Some(index) => index,
            None => {
                return Err(StakingError::InvalidNFTAddress);
            },
        };
        let item = self.staked_nfts[index];
        let last_reward_time = reward_start_time(self.last_reward_time, item.last_claimed_time);
        let reward = compute_nft_reward(last_reward_time, now, item.is_ape, item.rank);
        self.staked_nfts[index] = StakedData { last_claimed_time: now, ..item };
        Ok(reward)
    }

    /// Whether a claim of all rewards at `now` can be computed in 64-bit
    /// arithmetic.
    pub fn claim_reward_fits(&self, now: i64) -> (r: bool)
        requires
            self.wf(),
        ensures
            r == self.claim_fits(now),
    {
        let mut total: u64 = 0;
        let mut i: u64 = 0;
        while i < self.staked_count
            invariant
                self.wf(),
                i <= self.staked_count,
                forall|j: int| 0 <= j < i ==> #[trigger] self.item_reward_fits(j, now),
                total == self.rewards_sum(i as int, now),
            decreases self.staked_count - i,
        {
            let item = self.staked_nfts[i as usize];
            let start = reward_start_time(self.last_reward_time, item.last_claimed_time);
            match checked_nft_reward(start, now, item.is_ape, item.rank) {
                None => {
                    assert(!self.item_reward_fits(i as int, now));
                    return false;
                },
                Some(reward) => {
                    match total.checked_add(reward) {
                        None => {
                            proof {
                                assert(self.rewards_sum(i + 1, now) > u64::MAX);
                                if self.claim_fits(now) {
                                    self.lemma_rewards_sum_monotone(
                                        i + 1,
                                        self.staked_count as int,
                                        now,
                                    );
                                }
                            }
                            return false;
                        },
                        Some(t) => {
                            total = t;
                        },
                    }
                },
            }
            i = i + 1;
        }
        true
    }

    /// Whether the reward of the first slot holding `mint`, if any, can be
    /// computed in 64-bit arithmetic at `now`.
    pub fn nft_reward_computable(&self, mint: &Pubkey, now: i64) -> (r: bool)
        requires
            self.wf(),
        ensures
            r == self.nft_reward_fits_for(*mint, now),
    {
        match self.find_nft(mint) {
            None => true,
            Some(index) => {
                let item = self.staked_nfts[index];
                let start = reward_start_time(self.last_reward_time, item.last_claimed_time);
                checked_nft_reward(start, now, item.is_ape, item.rank).is_some()
            },
        }
    }
}

/// One staked ape/tiger pair in a user pair pool.
#[derive(Clone, Copy, Debug, PartialEq, Eq)]
pub struct PairStakedData {
    pub ape_mint: Pubkey,
    pub ape_rank: u64,
    pub ape_id: u64,
    pub tiger_mint: Pubkey,
    pub tiger_rank: u64,
    pub tiger_id: u64,
    pub last_claimed_time: i64,
}

impl PairStakedData {
    /// An empty slot: zero addresses and zero fields.
    pub open spec fn is_blank(self) -> bool {
        &&& self.ape_mint.bytes@ == Seq::new(32, |i: int| 0u8)
        &&& self.ape_rank == 0
        &&& self.ape_id == 0
        &&& self.tiger_mint.bytes@ == Seq::new(32, |i: int| 0u8)
        &&& self.tiger_rank == 0
        &&& self.tiger_id == 0
        &&& self.last_claimed_time == 0
    }
}

impl Default for PairStakedData {
    fn default() -> (d: Self)
        ensures
            d.is_blank(),
    {
        let d = PairStakedData {
            ape_mint: Pubkey::zero(),
            ape_rank: 0,
            ape_id: 0,
            tiger_mint: Pubkey::zero(),
            tiger_rank: 0,
            tiger_id: 0,
            last_claimed_time: 0,
        };
        assert(d.ape_mint.bytes@ =~= Seq::new(32, |i: int| 0u8));
        assert(d.tiger_mint.bytes@ =~= Seq::new(32, |i: int| 0u8));
        d
    }
}

/// The ape/tiger pairs that one owner has staked.
///
/// The first `staked_pair_count` slots of `staked_pairs` hold the staked
/// pairs; the slots after them are unused.
#[derive(Clone, Copy, Debug)]
pub struct UserPairPool {
    pub owner: Pubkey,
    pub staked_pair_count: u64,
    pub staked_pairs: [PairStakedData; PAIR_STAKE_MAX_COUNT],
    pub last_reward_time: i64,
    pub remaining_rewards: u64,
}

impl Default for UserPairPool {
    fn default() -> (p: Self)
        ensures
            p.wf(),
            p.owner.bytes@ == Seq::new(32, |i: int| 0u8),
            p.staked_pair_count == 0,
            forall|i: int|
                0 <= i < PAIR_STAKE_MAX_COUNT ==> (#[trigger] p.staked_pairs@[i]).is_blank(),
            p.last_reward_time == 0,
            p.remaining_rewards == 0,
    {
        broadcast use vstd::array::group_array_axioms;

        let blank = PairStakedData::default();
        let p = UserPairPool {
            owner: Pubkey::zero(),
            staked_pair_count: 0,
            staked_pairs: [blank; PAIR_STAKE_MAX_COUNT],
            last_reward_time: 0,
            remaining_rewards: 0,
        };
        assert(p.owner.bytes@ =~= Seq::new(32, |i: int| 0u8));
        p
    }
}

impl UserPairPool {
    /// The pool's count stays within its slots.
    pub open spec fn wf(self) -> bool {
        self.staked_pair_count <= PAIR_STAKE_MAX_COUNT
    }

    /// The staked pairs, in slot order.
    pub open spec fn staked(self) -> Seq<PairStakedData> {
        self.staked_pairs@.take(self.staked_pair_count as int)
    }

    /// Slot `i` is in use and its ape is `ape`.
    pub open spec fn holds_ape_at(self, ape: Pubkey, i: int) -> bool {
        0 <= i < self.staked_pair_count && self.staked_pairs@[i].ape_mint == ape
    }

    /// Slot `i` is the first slot in use whose ape is `ape`.
    pub open spec fn first_ape_at(self, ape: Pubkey, i: int) -> bool {
        &&& self.holds_ape_at(ape, i)
        &&& forall|j: int| 0 <= j < i ==> self.staked_pairs@[j].ape_mint != ape
    }

    /// Some slot in use has `ape` as its ape.
    pub open spec fn holds_ape(self, ape: Pubkey) -> bool {
        exists|i: int| self.holds_ape_at(ape, i)
    }

    /// The first slot whose ape is `ape` is slot `i`, and its tiger is `tiger`.
    pub open spec fn pair_at(self, ape: Pubkey, tiger: Pubkey, i: int) -> bool {
        self.first_ape_at(ape, i) && self.staked_pairs@[i].tiger_mint == tiger
    }

    /// The first slot whose ape is `ape` exists and holds `tiger` too.
    pub open spec fn holds_pair(self, ape: Pubkey, tiger: Pubkey) -> bool {
        exists|i: int| self.pair_at(ape, tiger, i)
    }

    /// The time from which slot `i` earns.
    pub open spec fn item_start(self, i: int) -> i64 {
        reward_start(self.last_reward_time, self.staked_pairs@[i].last_claimed_time)
    }

    /// What slot `i` has earned at `now`.
    pub open spec fn item_reward(self, i: int, now: i64) -> int {
        let p = self.staked_pairs@[i];
        pair_reward(self.item_start(i), now, p.ape_rank, p.tiger_rank, p.ape_id, p.tiger_id)
    }

    /// What slot `i` has earned at `now` can be computed in 64-bit arithmetic.
    pub open spec fn item_reward_fits(self, i: int, now: i64) -> bool {
        let p = self.staked_pairs@[i];
        pair_reward_fits(self.item_start(i), now, p.ape_rank, p.tiger_rank, p.ape_id, p.tiger_id)
    }

    /// What the first `n` slots have earned at `now`, together.
    pub open spec fn rewards_sum(self, n: int, now: i64) -> int
        decreases n,
    {
        if n <= 0 {
            0
        } else {
            self.rewards_sum(n - 1, now) + self.item_reward(n - 1, now)
        }
    }

    /// A claim of all rewards at `now` can be computed in 64-bit arithmetic.
    pub open spec fn claim_fits(self, now: i64) -> bool {
        &&& forall|i: int|
            0 <= i < self.staked_pair_count ==> #[trigger] self.item_reward_fits(i, now)
        &&& self.rewards_sum(self.staked_pair_count as int, now) <= u64::MAX
    }

    /// The reward of the first slot whose ape is `ape`, if its tiger is
    /// `tiger`, can be computed in 64-bit arithmetic.
    pub open spec fn pair_reward_fits_for(self, ape: Pubkey, tiger: Pubkey, now: i64) -> bool {
        forall|i: int| #[trigger] self.pair_at(ape, tiger, i) ==> self.item_reward_fits(i, now)
    }

    /// `new` is `old` with one more slot in use, holding the given pair.
    pub open spec fn is_added(old: UserPairPool, new: UserPairPool, pair: PairStakedData) -> bool {
        &&& new.owner == old.owner
        &&& new.last_reward_time == old.last_reward_time
        &&& new.remaining_rewards == old.remaining_rewards
        &&& new.staked_pair_count == old.staked_pair_count + 1
        &&& new.staked_pairs@ == old.staked_pairs@.update(old.staked_pair_count as int, pair)
    }

    /// `new` is `old` after a claim of all rewards at `now`: every slot
    /// earns again from `now` and no reward remains.
    pub open spec fn is_claimed(old: UserPairPool, new: UserPairPool, now: i64) -> bool {
        &&& new.owner == old.owner
        &&& new.staked_pair_count == old.staked_pair_count
        &&& new.staked_pairs == old.staked_pairs
        &&& new.last_reward_time == now
        &&& new.remaining_rewards == 0
    }

    /// `new` is `old` after a claim of slot `i` at `now`: that slot earns
    /// again from `now`, nothing else changes.
    pub open spec fn is_pair_claimed(old: UserPairPool, new: UserPairPool, i: int, now: i64) -> bool {
        &&& new.owner == old.owner
        &&& new.staked_pair_count == old.staked_pair_count
        &&& new.last_reward_time == old.last_reward_time
        &&& new.remaining_rewards == old.remaining_rewards
        &&& new.staked_pairs@ == old.staked_pairs@.update(
            i,
            PairStakedData { last_claimed_time: now, ..old.staked_pairs@[i] },
        )
    }

    /// `new` is `old` with slot `i` given up: the last slot in use moves
    /// into it, and `reward` is kept as the remaining reward.
    pub open spec fn is_removed(old: UserPairPool, new: UserPairPool, i: int, reward: int) -> bool {
        &&& new.owner == old.owner
        &&& new.last_reward_time == old.last_reward_time
        &&& new.remaining_rewards == reward
        &&& new.staked_pair_count == old.staked_pair_count - 1
        &&& new.staked_pairs@ == old.staked_pairs@.update(
            i,
            old.staked_pairs@[old.staked_pair_count - 1],
        )
    }

    /// What a slot has earned is never negative, where it can be computed.
    pub proof fn lemma_item_reward_nonnegative(self, i: int, now: i64)
        requires
            self.item_reward_fits(i, now),
        ensures
            self.item_reward(i, now) >= 0,
    {
        let p = self.staked_pairs@[i];
        let start = self.item_start(i);
        crate::reward::lemma_elapsed_epochs_nonnegative(start, now);
        let e = crate::reward::elapsed_epochs(start, now);
        let rates = crate::reward::ape_reward_rate(p.ape_rank) + crate::reward::tiger_reward_rate(
            p.tiger_rank,
        );
        let factor = crate::reward::pair_factor(p.ape_id, p.tiger_id);
        assert((e * rates) * factor / 100 >= 0) by (nonlinear_arith)
            requires
                e >= 0,
                rates >= 0,
                factor >= 0,
        ;
    }

    /// Every reward counted in the sum is non-negative, so the sum grows
    /// with the number of slots counted.
    pub proof fn lemma_rewards_sum_monotone(self, a: int, b: int, now: i64)
        requires
            0 <= a <= b <= self.staked_pair_count,
            forall|i: int|
                0 <= i < self.staked_pair_count ==> #[trigger] self.item_reward_fits(i, now),
        ensures
            self.rewards_sum(a, now) <= self.rewards_sum(b, now),
        decreases b - a,
    {
        if a < b {
            self.lemma_rewards_sum_monotone(a, b - 1, now);
            assert(self.item_reward_fits(b - 1, now));
            self.lemma_item_reward_nonnegative(b - 1, now);
        }
    }

    /// The first slot in use whose ape is `ape`.
    pub fn find_pair(&self, ape: &Pubkey) -> (r: Option<usize>)
        requires
            self.wf(),
        ensures
            match r {
                Some(i) => self.first_ape_at(*ape, i as int),
                None => !self.holds_ape(*ape),
            },
    {
        let mut i: u64 = 0;
        while i < self.staked_pair_count
            invariant
                self.wf(),
                i <= self.staked_pair_count,
                forall|j: int| 0 <= j < i ==> self.staked_pairs@[j].ape_mint != *ape,
            decreases self.staked_pair_count - i,
        {
            let idx = i as usize;
            if self.staked_pairs[idx].ape_mint.equals(ape) {
                return Some(idx);
            }
            i = i + 1;
        }
        None
    }

    /// The first slot whose ape is `ape`, provided its tiger is `tiger`.
    fn find_matching_pair(&self, ape: &Pubkey, tiger: &Pubkey) -> (r: Option<usize>)
        requires
            self.wf(),
        ensures
            match r {
                Some(i) => self.pair_at(*ape, *tiger, i as int),
                None => !self.holds_pair(*ape, *tiger),
            },
    {
        match self.find_pair(ape) {
            None => None,
            Some(idx) => {
                if self.staked_pairs[idx].tiger_mint.equals(tiger) {
                    Some(idx)
                } else {
                    None
                }
            },
        }
    }

    /// Stakes an ape/tiger pair in the next free slot.
    pub fn add_pair(
        &mut self,
        ape_pubkey: Pubkey,
        ape_rank: u64,
        ape_id: u64,
        tiger_pubkey: Pubkey,
        tiger_rank: u64,
        tiger_id: u64,
        now: i64,
    )
        requires
            old(self).wf(),
            old(self).staked_pair_count < PAIR_STAKE_MAX_COUNT,
        ensures
            final(self).wf(),
            UserPairPool::is_added(
                *old(self),
                *final(self),
                PairStakedData {
                    ape_mint: ape_pubkey,
                    ape_rank,
                    ape_id,
                    tiger_mint: tiger_pubkey,
                    tiger_rank,
                    tiger_id,
                    last_claimed_time: now,
                },
            ),
    {
        let idx = self.staked_pair_count as usize;
        self.staked_pairs[idx] = PairStakedData {
            ape_mint: ape_pubkey,
            ape_rank,
            ape_id,
            tiger_mint: tiger_pubkey,
            tiger_rank,
            tiger_id,
            last_claimed_time: now,
        };
        self.staked_pair_count = self.staked_pair_count + 1;
    }

    /// Unstakes a pair: keeps what it has earned as the remaining reward,
    /// moves the last staked pair into its slot, and returns the reward.
    pub fn remove_pair(&mut self, ape_pubkey: Pubkey, tiger_pubkey: Pubkey, now: i64) -> (r:
        Result<u64, StakingError>)
        requires
            old(self).wf(),
            old(self).pair_reward_fits_for(ape_pubkey, tiger_pubkey, now),
        ensures
            final(self).wf(),
            r is Ok <==> old(self).holds_pair(ape_pubkey, tiger_pubkey),
            match r {
                Err(e) => e == StakingError::InvalidNFTAddress && *final(self) == *old(self),
                Ok(reward) => exists|i: int|
                    {
                        &&& #[trigger] old(self).pair_at(ape_pubkey, tiger_pubkey, i)
                        &&& reward == old(self).item_reward(i, now)
                        &&& UserPairPool::is_removed(*old(self), *final(self), i, reward as int)
                    },
            },
    {
        let index = match self.find_matching_pair(&ape_pubkey, &tiger_pubkey) {
            Some(index) => index,
            None => {
                return Err(StakingError::InvalidNFTAddress);
            },
        };
        let pair = self.staked_pairs[index];
        let last_reward_time = reward_start_time(self.last_reward_time, pair.last_claimed_time);
        let reward = compute_pair_reward(
            last_reward_time,
            now,
            pair.ape_rank,
            pair.tiger_rank,
            pair.ape_id,
            pair.tiger_id,
        );
        self.remaining_rewards = reward;

        let last_idx: usize = (self.staked_pair_count - 1) as usize;
        if index != last_idx {
            self.staked_pairs[index] = self.staked_pairs[last_idx];
        }
        self.staked_pair_count = self.staked_pair_count - 1;
        assert(self.staked_pairs@ =~= old(self).staked_pairs@.update(
            index as int,
            old(self).staked_pairs@[old(self).staked_pair_count - 1],
        ));
        Ok(reward)
    }

    /// Claims what every staked pair has earned: returns the total and
    /// restarts all earning at `now`.
    pub fn claim_reward(&mut self, now: i64) -> (r: Result<u64, StakingError>)
        requires
            old(self).wf(),
            old(self).claim_fits(now),
        ensures
            final(self).wf(),
            r is Ok,
            r matches Ok(total) ==> total == old(self).rewards_sum(old(self).staked_pair_count as int, now),
            UserPairPool::is_claimed(*old(self), *final(self), now),
    {
        let mut total_reward: u64 = 0;
        let mut i: u64 = 0;
        while i < self.staked_pair_count
            invariant
                self.wf(),
                self.claim_fits(now),
                i <= self.staked_pair_count,
                total_reward == self.rewards_sum(i as int, now),
            decreases self.staked_pair_count - i,
        {
            let index = i as usize;
            let pair = self.staked_pairs[index];
            let last_reward_time = reward_start_time(self.last_reward_time, pair.last_claimed_time);
            assert(self.item_reward_fits(i as int, now));
            let reward: u64 = compute_pair_reward(
                last_reward_time,
                now,
                pair.ape_rank,
                pair.tiger_rank,
                pair.ape_id,
                pair.tiger_id,
            );
            proof {
                self.lemma_rewards_sum_monotone(i + 1, self.staked_pair_count as int, now);
            }
            total_reward = total_reward + reward;
            i = i + 1;
        }
        self.last_reward_time = now;
        self.remaining_rewards = 0;
        Ok(total_reward)
    }

    /// Claims what one staked pair has earned and restarts its earning at `now`.
    pub fn claim_pair_reward(&mut self, ape_pubkey: Pubkey, tiger_pubkey: Pubkey, now: i64) -> (r:
        Result<u64, StakingError>)
        requires
            old(self).wf(),
            old(self).pair_reward_fits_for(ape_pubkey, tiger_pubkey, now),
        ensures
            final(self).wf(),
            r is Ok <==> old(self).holds_pair(ape_pubkey, tiger_pubkey),
            match r {
                Err(e) => e == StakingError::InvalidNFTAddress && *final(self) == *old(self),
                Ok(reward) => exists|i: int|
                    {
                        &&& #[trigger] old(self).pair_at(ape_pubkey, tiger_pubkey, i)
                        &&& reward == old(self).item_reward(i, now)
                        &&& UserPairPool::is_pair_claimed(*old(self), *final(self), i, now)
                    },
            },
    {
        let index = match self.find_matching_pair(&ape_pubkey, &tiger_pubkey) {
            Some(index) => index,
            None => {
                return Err(StakingError::InvalidNFTAddress);
            },
        };
        let pair = self.staked_pairs[index];
        let last_reward_time = reward_start_time(self.last_reward_time, pair.last_claimed_time);
        let reward = compute_pair_reward(
            last_reward_time,
            now,
            pair.ape_rank,
            pair.tiger_rank,
            pair.ape_id,
            pair.tiger_id,
        );
        self.staked_pairs[index] = PairStakedData { last_claimed_time: now, ..pair };
        Ok(reward)
    }

    /// Whether a claim of all rewards at `now` can be computed in 64-bit
    /// arithmetic.
    pub fn claim_reward_fits(&self, now: i64) -> (r: bool)
        requires
            self.wf(),
        ensures
            r == self.claim_fits(now),
    {
        let mut total: u64 = 0;
        let mut i: u64 = 0;
        while i < self.staked_pair_count
            invariant
                self.wf(),
                i <= self.staked_pair_count,
                forall|j: int| 0 <= j < i ==> #[trigger] self.item_reward_fits(j, now),
                total == self.rewards_sum(i as int, now),
            decreases self.staked_pair_count - i,
        {
            let p = self.staked_pairs[i as usize];
            let start = reward_start_time(self.last_reward_time, p.last_claimed_time);
            match checked_pair_reward(
                start,
                now,
                p.ape_rank,
                p.tiger_rank,
                p.ape_id,
                p.tiger_id,
            ) {
                None => {
                    assert(!self.item_reward_fits(i as int, now));
                    return false;
                },
                Some(reward) => {
                    match total.checked_add(reward) {
                        None => {
                            proof {
                                assert(self.rewards_sum(i + 1, now) > u64::MAX);
                                if self.claim_fits(now) {
                                    self.lemma_rewards_sum_monotone(
                                        i + 1,
                                        self.staked_pair_count as int,
                                        now,
                                    );
                                }
                            }
                            return false;
                        },
                        Some(t) => {
                            total = t;
                        },
                    }
                },
            }
            i = i + 1;
        }
        true
    }

    /// Whether the reward of the first slot whose ape is `ape`, if its tiger
    /// is `tiger`, can be computed in 64-bit arithmetic at `now`.
    pub fn pair_reward_computable(&self, ape: &Pubkey, tiger: &Pubkey, now: i64) -> (r: bool)
        requires
            self.wf(),
        ensures
            r == self.pair_reward_fits_for(*ape, *tiger, now),
    {
        match self.find_matching_pair(ape, tiger) {
            None => true,
            Some(index) => {
                let p = self.staked_pairs[index];
                let start = reward_start_time(self.last_reward_time, p.last_claimed_time);
                checked_pair_reward(
                    start,
                    now,
                    p.ape_rank,
                    p.tiger_rank,
                    p.ape_id,
                    p.tiger_id,
                ).is_some()
            },
        }
    }
}

} // verus!
