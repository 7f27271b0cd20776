use vstd::prelude::*;

use crate::account::{GlobalPool, PairStakedData, StakedData, UserPairPool, UserPool};
use crate::constants::{
    EPOCH, HIGH_APE_REWARD, HIGH_TIGER_REWARD, MATCHING_FACTOR, NORMAL_APE_REWARD,
    NORMAL_TIGER_REWARD, PAIR_STAKE_MAX_COUNT, STAKE_MAX_COUNT, SUPER_APE_REWARD,
    SUPER_TIGER_REWARD,
};
use crate::error::{StakeError, StakingError};
use crate::key::Pubkey;
use crate::metadata::{
    collection_outcome, metadata_pda, parsed_metadata, stake_decision, stake_nft_outcome,
    stake_pair_outcome,
};
use crate::name::{
    decimal_digit_value, decimal_prefix, decimal_value, id_digit_chars, is_decimal_digit, name_id,
};
use crate::program::{
    claim_payout, left_after_payout, stake_nft_effect, stake_pair_effect, vault_payout,
    can_count_nft, can_count_pair, can_uncount_nft, can_uncount_pair, with_nft_staked, with_nft_withdrawn, with_pair_staked,
    with_pair_withdrawn,
};
use crate::reward::{
    ape_reward_rate, reward_start, tiger_reward_rate, elapsed_epochs, nft_reward, nft_reward_rate, pair_base_reward, pair_factor, pair_reward,
    pair_reward_fits,
    time_span_fits, trunc_div,
};

verus! {

/// Staking an NFT appends it to the staked NFTs and changes nothing else
/// among them.
pub proof fn law_add_appends(
    p: UserPool,
    q: UserPool,
    mint: Pubkey,
    rank: u64,
    is_ape: u64,
    now: i64,
)
    requires
        p.wf(),
        p.staked_count < STAKE_MAX_COUNT,
        UserPool::is_added(p, q, mint, rank, is_ape, now),
    ensures
        q.wf(),
        q.staked() == p.staked().push(
            StakedData { mint, last_claimed_time: now, rank, is_ape },
        ),
{
    assert(q.staked() =~= p.staked().push(
        StakedData { mint, last_claimed_time: now, rank, is_ape },
    ));
}

/// Staking an NFT that the pool does not hold and then withdrawing it
/// finds the slot just filled, and gives back exactly the staked NFTs that
/// the pool held before.
pub proof fn law_add_then_remove_restores(
    p: UserPool,
    q: UserPool,
    r: UserPool,
    mint: Pubkey,
    rank: u64,
    is_ape: u64,
    staked_at: i64,
    reward: int,
)
    requires
        p.wf(),
        p.staked_count < STAKE_MAX_COUNT,
        !p.holds(mint),
        UserPool::is_added(p, q, mint, rank, is_ape, staked_at),
        UserPool::is_removed(q, r, p.staked_count as int, reward),
    ensures
        q.first_at(mint, p.staked_count as int),
        q.staked_nfts@[p.staked_count as int].is_ape == is_ape,
        r.wf(),
        r.staked_count == p.staked_count,
        r.staked() == p.staked(),
        r.owner == p.owner,
        r.last_reward_time == p.last_reward_time,
{
    let n = p.staked_count as int;
    assert forall|j: int| 0 <= j < n implies q.staked_nfts@[j].mint != mint by {
        if q.staked_nfts@[j].mint == mint {
            assert(p.holds_at(mint, j));
        }
    }
    assert(r.staked() =~= p.staked());
}

/// Withdrawing the NFT of slot `i` keeps every other staked NFT: the staked
/// NFTs afterwards are those before, less one copy of the withdrawn one.
pub proof fn law_remove_keeps_others(q: UserPool, r: UserPool, i: int, reward: int)
    requires
        q.wf(),
        0 <= i < q.staked_count,
        UserPool::is_removed(q, r, i, reward),
    ensures
        r.wf(),
        r.staked().to_multiset() == q.staked().to_multiset().remove(q.staked_nfts@[i]),
{
    assert(r.staked() =~= q.staked().update(i, q.staked().last()).drop_last());
    lemma_swap_remove_multiset(q.staked(), r.staked(), i);
}

/// Removing element `i` of `s` by moving the last element into its place
/// loses exactly one copy of `s[i]`.
proof fn lemma_swap_remove_multiset<A>(s: Seq<A>, t: Seq<A>, i: int)
    requires
        0 <= i < s.len(),
        t == s.update(i, s.last()).drop_last(),
    ensures
        t.to_multiset() == s.to_multiset().remove(s[i]),
{
    broadcast use vstd::seq_lib::group_to_multiset_ensures;
    broadcast use vstd::multiset::group_multiset_axioms;

    let last = s.last();
    let u = s.update(i, last);
    vstd::seq_lib::to_multiset_update(s, i, last);
    assert(u =~= t.push(last));
    vstd::seq_lib::to_multiset_build(t, last);
    assert(s.contains(s[i]));
    vstd::seq_lib::to_multiset_contains(s, s[i]);
    assert(u.to_multiset() == t.to_multiset().insert(last));
    assert(u.to_multiset() == s.to_multiset().insert(last).remove(s[i]));
    assert forall|x: A| #[trigger] t.to_multiset().count(x) == s.to_multiset().remove(s[i]).count(
        x,
    ) by {
        assert(u.to_multiset().count(x) == t.to_multiset().count(x) + if x == last {
            1int
        } else {
            0int
        });
    }
    assert(t.to_multiset() =~= s.to_multiset().remove(s[i]));
}

/// Staking a pair appends it to the staked pairs and changes nothing else
/// among them.
pub proof fn law_add_pair_appends(p: UserPairPool, q: UserPairPool, pair: PairStakedData)
    requires
        p.wf(),
        p.staked_pair_count < PAIR_STAKE_MAX_COUNT,
        UserPairPool::is_added(p, q, pair),
    ensures
        q.wf(),
        q.staked() == p.staked().push(pair),
{
    assert(q.staked() =~= p.staked().push(pair));
}

/// Staking a pair whose ape the pool does not hold and then withdrawing it
/// finds the slot just filled, and gives back exactly the staked pairs that
/// the pool held before.
pub proof fn law_add_then_remove_pair_restores(
    p: UserPairPool,
    q: UserPairPool,
    r: UserPairPool,
    pair: PairStakedData,
    reward: int,
)
    requires
        p.wf(),
        p.staked_pair_count < PAIR_STAKE_MAX_COUNT,
        !p.holds_ape(pair.ape_mint),
        UserPairPool::is_added(p, q, pair),
        UserPairPool::is_removed(q, r, p.staked_pair_count as int, reward),
    ensures
        q.pair_at(pair.ape_mint, pair.tiger_mint, p.staked_pair_count as int),
        r.wf(),
        r.staked_pair_count == p.staked_pair_count,
        r.staked() == p.staked(),
        r.owner == p.owner,
        r.last_reward_time == p.last_reward_time,
{
    let n = p.staked_pair_count as int;
    assert forall|j: int| 0 <= j < n implies q.staked_pairs@[j].ape_mint != pair.ape_mint by {
        if q.staked_pairs@[j].ape_mint == pair.ape_mint {
            assert(p.holds_ape_at(pair.ape_mint, j));
        }
    }
    assert(r.staked() =~= p.staked());
}

/// Withdrawing the pair of slot `i` keeps every other staked pair: the
/// staked pairs afterwards are those before, less one copy of the withdrawn
/// one.
pub proof fn law_remove_pair_keeps_others(q: UserPairPool, r: UserPairPool, i: int, reward: int)
    requires
        q.wf(),
        0 <= i < q.staked_pair_count,
        UserPairPool::is_removed(q, r, i, reward),
    ensures
        r.wf(),
        r.staked().to_multiset() == q.staked().to_multiset().remove(q.staked_pairs@[i]),
{
    assert(r.staked() =~= q.staked().update(i, q.staked().last()).drop_last());
    lemma_swap_remove_multiset(q.staked(), r.staked(), i);
}

/// No reward accrues to a staked NFT over no time.
pub proof fn law_no_time_no_reward(now: i64, is_ape: u64, rank: u64)
    ensures
        nft_reward(now, now, is_ape, rank) == 0,
{
    assert(trunc_div(0, EPOCH as int) == 0);
    assert(elapsed_epochs(now, now) == 0);
}

/// No reward accrues to a staked pair over no time.
pub proof fn law_no_time_no_pair_reward(
    now: i64,
    ape_rank: u64,
    tiger_rank: u64,
    ape_id: u64,
    tiger_id: u64,
)
    ensures
        pair_reward(now, now, ape_rank, tiger_rank, ape_id, tiger_id) == 0,
        pair_reward_fits(now, now, ape_rank, tiger_rank, ape_id, tiger_id),
{
    assert(trunc_div(0, EPOCH as int) == 0);
    assert(elapsed_epochs(now, now) == 0);
    assert(pair_base_reward(now, now, ape_rank, tiger_rank) == 0);
}

/// Right after a claim of all rewards at `now`, nothing more is owed at
/// `now`, provided no staked NFT was last claimed after `now`.
pub proof fn law_claim_twice_pays_nothing(p: UserPool, q: UserPool, now: i64)
    requires
        p.wf(),
        UserPool::is_claimed(p, q, now),
        forall|i: int| 0 <= i < p.staked_count ==> #[trigger] p.staked_nfts@[i].last_claimed_time
            <= now,
    ensures
        q.wf(),
        q.claim_fits(now),
        q.rewards_sum(q.staked_count as int, now) == 0,
{
    assert forall|i: int|
        #![trigger q.item_reward(i, now)]
        #![trigger q.item_reward_fits(i, now)]
        0 <= i < q.staked_count implies q.item_reward(i, now) == 0 && q.item_reward_fits(
            i,
            now,
        ) by {
        assert(p.staked_nfts@[i].last_claimed_time <= now);
        assert(q.item_start(i) == now);
        law_no_time_no_reward(now, q.staked_nfts@[i].is_ape, q.staked_nfts@[i].rank);
    }
    lemma_user_pool_sum_zero(q, q.staked_count as int, now);
}

proof fn lemma_user_pool_sum_zero(q: UserPool, n: int, now: i64)
    requires
        0 <= n <= q.staked_count,
        forall|i: int| 0 <= i < q.staked_count ==> #[trigger] q.item_reward(i, now) == 0,
    ensures
        q.rewards_sum(n, now) == 0,
    decreases n,
{
    if n > 0 {
        lemma_user_pool_sum_zero(q, n - 1, now);
        assert(q.item_reward(n - 1, now) == 0);
    }
}

/// Right after a claim of all pair rewards at `now`, nothing more is owed
/// at `now`, provided no staked pair was last claimed after `now`.
pub proof fn law_claim_pairs_twice_pays_nothing(p: UserPairPool, q: UserPairPool, now: i64)
    requires
        p.wf(),
        UserPairPool::is_claimed(p, q, now),
        forall|i: int|
            0 <= i < p.staked_pair_count ==> #[trigger] p.staked_pairs@[i].last_claimed_time
                <= now,
    ensures
        q.wf(),
        q.claim_fits(now),
        q.rewards_sum(q.staked_pair_count as int, now) == 0,
{
    assert forall|i: int|
        #![trigger q.item_reward(i, now)]
        #![trigger q.item_reward_fits(i, now)]
        0 <= i < q.staked_pair_count implies q.item_reward(i, now) == 0 && q.item_reward_fits(
            i,
            now,
        ) by {
        assert(p.staked_pairs@[i].last_claimed_time <= now);
        assert(q.item_start(i) == now);
        let pr = q.staked_pairs@[i];
        law_no_time_no_pair_reward(now, pr.ape_rank, pr.tiger_rank, pr.ape_id, pr.tiger_id);
    }
    lemma_pair_pool_sum_zero(q, q.staked_pair_count as int, now);
}

proof fn lemma_pair_pool_sum_zero(q: UserPairPool, n: int, now: i64)
    requires
        0 <= n <= q.staked_pair_count,
        forall|i: int| 0 <= i < q.staked_pair_count ==> #[trigger] q.item_reward(i, now) == 0,
    ensures
        q.rewards_sum(n, now) == 0,
    decreases n,
{
    if n > 0 {
        lemma_pair_pool_sum_zero(q, n - 1, now);
        assert(q.item_reward(n - 1, now) == 0);
    }
}

/// Right after a claim of one NFT at `now`, that NFT owes nothing more at
/// `now`, provided the pool's last claim is not after `now`.
pub proof fn law_nft_claim_twice_pays_nothing(p: UserPool, q: UserPool, i: int, now: i64)
    requires
        p.wf(),
        0 <= i < p.staked_count,
        p.last_reward_time <= now,
        UserPool::is_nft_claimed(p, q, i, now),
    ensures
        q.wf(),
        q.first_at(p.staked_nfts@[i].mint, i) == p.first_at(p.staked_nfts@[i].mint, i),
        q.item_reward_fits(i, now),
        q.item_reward(i, now) == 0,
{
    assert(q.item_start(i) == now);
    law_no_time_no_reward(now, q.staked_nfts@[i].is_ape, q.staked_nfts@[i].rank);
    assert forall|j: int| 0 <= j < i implies q.staked_nfts@[j] == p.staked_nfts@[j] by {}
}

/// Right after a claim of one pair at `now`, that pair owes nothing more
/// at `now`, provided the pool's last claim is not after `now`.
pub proof fn law_pair_claim_twice_pays_nothing(p: UserPairPool, q: UserPairPool, i: int, now: i64)
    requires
        p.wf(),
        0 <= i < p.staked_pair_count,
        p.last_reward_time <= now,
        UserPairPool::is_pair_claimed(p, q, i, now),
    ensures
        q.wf(),
        q.item_reward_fits(i, now),
        q.item_reward(i, now) == 0,
{
    assert(q.item_start(i) == now);
    let pr = q.staked_pairs@[i];
    law_no_time_no_pair_reward(now, pr.ape_rank, pr.tiger_rank, pr.ape_id, pr.tiger_id);
}

/// Staking an NFT and withdrawing it again leaves the totals as they were.
pub proof fn law_nft_totals_restored(g: GlobalPool, is_ape: u64)
    requires
        can_count_nft(g, is_ape),
    ensures
        with_nft_withdrawn(with_nft_staked(g, is_ape), is_ape) == g,
{
}

/// Staking a pair and withdrawing it again leaves the totals as they were.
pub proof fn law_pair_totals_restored(g: GlobalPool)
    requires
        can_count_pair(g),
    ensures
        with_pair_withdrawn(with_pair_staked(g)) == g,
{
}

/// The epochs counted from `start` never decrease as time goes on, from
/// `start` onwards.
proof fn lemma_epochs_grow(start: i64, t1: i64, t2: i64)
    requires
        start <= t1 <= t2,
        time_span_fits(start, t2),
    ensures
        0 <= elapsed_epochs(start, t1) <= elapsed_epochs(start, t2),
{
    vstd::arithmetic::div_mod::lemma_div_is_ordered(t1 - start, t2 - start, EPOCH as int);
    vstd::arithmetic::div_mod::lemma_div_pos_is_pos(t1 - start, EPOCH as int);
}

/// The reward of a staked NFT never decreases as time goes on, from the
/// time it earns from onwards.
pub proof fn law_nft_reward_grows(start: i64, t1: i64, t2: i64, is_ape: u64, rank: u64)
    requires
        start <= t1 <= t2,
        time_span_fits(start, t2),
    ensures
        0 <= nft_reward(start, t1, is_ape, rank) <= nft_reward(start, t2, is_ape, rank),
{
    lemma_epochs_grow(start, t1, t2);
    let rate = nft_reward_rate(is_ape, rank) as int;
    vstd::arithmetic::mul::lemma_mul_inequality(
        elapsed_epochs(start, t1),
        elapsed_epochs(start, t2),
        rate,
    );
    vstd::arithmetic::mul::lemma_mul_nonnegative(elapsed_epochs(start, t1), rate);
}

/// The reward of a staked pair never decreases as time goes on, from the
/// time it earns from onwards.
pub proof fn law_pair_reward_grows(
    start: i64,
    t1: i64,
    t2: i64,
    ape_rank: u64,
    tiger_rank: u64,
    ape_id: u64,
    tiger_id: u64,
)
    requires
        start <= t1 <= t2,
        time_span_fits(start, t2),
    ensures
        0 <= pair_reward(start, t1, ape_rank, tiger_rank, ape_id, tiger_id) <= pair_reward(
            start,
            t2,
            ape_rank,
            tiger_rank,
            ape_id,
            tiger_id,
        ),
{
    lemma_epochs_grow(start, t1, t2);
    let rates = crate::reward::ape_reward_rate(ape_rank) + crate::reward::tiger_reward_rate(
        tiger_rank,
    );
    let factor = pair_factor(ape_id, tiger_id) as int;
    let e1 = elapsed_epochs(start, t1);
    let e2 = elapsed_epochs(start, t2);
    vstd::arithmetic::mul::lemma_mul_inequality(e1, e2, rates);
    vstd::arithmetic::mul::lemma_mul_nonnegative(e1, rates);
    vstd::arithmetic::mul::lemma_mul_inequality(e1 * rates, e2 * rates, factor);
    vstd::arithmetic::mul::lemma_mul_nonnegative(e1 * rates, factor);
    vstd::arithmetic::div_mod::lemma_div_is_ordered(
        e1 * rates * factor,
        e2 * rates * factor,
        100,
    );
    vstd::arithmetic::div_mod::lemma_div_pos_is_pos(e1 * rates * factor, 100);
}

/// The sum of `f` over the elements of `s`.
pub open spec fn seq_sum<A>(s: Seq<A>, f: spec_fn(A) -> int) -> int
    decreases s.len(),
{
    if s.len() == 0 {
        0
    } else {
        seq_sum(s.drop_last(), f) + f(s.last())
    }
}

proof fn lemma_sum_push<A>(s: Seq<A>, x: A, f: spec_fn(A) -> int)
    ensures
        seq_sum(s.push(x), f) == seq_sum(s, f) + f(x),
{
    assert(s.push(x).drop_last() =~= s);
}

proof fn lemma_sum_update<A>(s: Seq<A>, i: int, v: A, f: spec_fn(A) -> int)
    requires
        0 <= i < s.len(),
    ensures
        seq_sum(s.update(i, v), f) == seq_sum(s, f) - f(s[i]) + f(v),
    decreases s.len(),
{
    let u = s.update(i, v);
    if i == s.len() - 1 {
        assert(u.drop_last() =~= s.drop_last());
    } else {
        assert(u.drop_last() =~= s.drop_last().update(i, v));
        lemma_sum_update(s.drop_last(), i, v, f);
    }
}

proof fn lemma_sum_swap_remove<A>(s: Seq<A>, i: int, f: spec_fn(A) -> int)
    requires
        0 <= i < s.len(),
    ensures
        seq_sum(s.update(i, s.last()).drop_last(), f) == seq_sum(s, f) - f(s[i]),
{
    lemma_sum_update(s, i, s.last(), f);
}

proof fn lemma_sum_ge_term<A>(s: Seq<A>, i: int, f: spec_fn(A) -> int)
    requires
        0 <= i < s.len(),
        forall|x: A| #[trigger] f(x) >= 0,
    ensures
        seq_sum(s, f) >= f(s[i]),
    decreases s.len(),
{
    lemma_sum_nonneg(s.drop_last(), f);
    if i < s.len() - 1 {
        lemma_sum_ge_term(s.drop_last(), i, f);
    }
}

proof fn lemma_sum_nonneg<A>(s: Seq<A>, f: spec_fn(A) -> int)
    requires
        forall|x: A| #[trigger] f(x) >= 0,
    ensures
        seq_sum(s, f) >= 0,
    decreases s.len(),
{
    if s.len() > 0 {
        lemma_sum_nonneg(s.drop_last(), f);
    }
}

/// 1 for a staked ape, 0 otherwise.
pub open spec fn ape_mark(d: StakedData) -> int {
    if d.is_ape == 1 {
        1
    } else {
        0
    }
}

/// 1 for a staked tiger, 0 otherwise.
pub open spec fn tiger_mark(d: StakedData) -> int {
    if d.is_ape == 1 {
        0
    } else {
        1
    }
}

/// Single NFTs of the ape collection staked in a pool.
pub open spec fn pool_apes(p: UserPool) -> int {
    seq_sum(p.staked(), |d: StakedData| ape_mark(d))
}

/// Single NFTs of the tiger collection staked in a pool.
pub open spec fn pool_tigers(p: UserPool) -> int {
    seq_sum(p.staked(), |d: StakedData| tiger_mark(d))
}

/// Pairs staked in a pair pool.
pub open spec fn pool_pairs(p: UserPairPool) -> int {
    p.staked_pair_count as int
}

/// The totals count exactly what all pools hold: every staked ape and
/// tiger, single or in a pair, and every pair.
pub open spec fn totals_match(g: GlobalPool, pools: Seq<UserPool>, pair_pools: Seq<UserPairPool>) -> bool {
    let pairs = seq_sum(pair_pools, |p: UserPairPool| pool_pairs(p));
    &&& g.total_staked_ape_count == seq_sum(pools, |p: UserPool| pool_apes(p)) + pairs
    &&& g.total_staked_tiger_count == seq_sum(pools, |p: UserPool| pool_tigers(p)) + pairs
    &&& g.total_staked_pair_count == pairs
}

/// Fresh totals match pools that hold nothing.
pub proof fn law_totals_start_matched(g: GlobalPool, pools: Seq<UserPool>, pair_pools: Seq<UserPairPool>)
    requires
        g.total_staked_ape_count == 0,
        g.total_staked_tiger_count == 0,
        g.total_staked_pair_count == 0,
        forall|k: int| 0 <= k < pools.len() ==> (#[trigger] pools[k]).staked_count == 0,
        forall|k: int| 0 <= k < pair_pools.len() ==> (#[trigger] pair_pools[k]).staked_pair_count == 0,
    ensures
        totals_match(g, pools, pair_pools),
{
    lemma_sum_zero(pools, |p: UserPool| pool_apes(p));
    lemma_sum_zero(pools, |p: UserPool| pool_tigers(p));
    lemma_pair_sum_zero(pair_pools);
}

proof fn lemma_sum_zero(pools: Seq<UserPool>, f: spec_fn(UserPool) -> int)
    requires
        forall|k: int| 0 <= k < pools.len() ==> (#[trigger] pools[k]).staked_count == 0,
        forall|p: UserPool| p.staked_count == 0 ==> #[trigger] f(p) == 0,
    ensures
        seq_sum(pools, f) == 0,
    decreases pools.len(),
{
    if pools.len() > 0 {
        assert(pools.last() == pools[pools.len() - 1]);
        lemma_sum_zero(pools.drop_last(), f);
    }
}

proof fn lemma_pair_sum_zero(pools: Seq<UserPairPool>)
    requires
        forall|k: int| 0 <= k < pools.len() ==> (#[trigger] pools[k]).staked_pair_count == 0,
    ensures
        seq_sum(pools, |p: UserPairPool| pool_pairs(p)) == 0,
    decreases pools.len(),
{
    if pools.len() > 0 {
        assert(pools.last() == pools[pools.len() - 1]);
        lemma_pair_sum_zero(pools.drop_last());
    }
}

/// Staking a single NFT in pool `k` keeps the totals matched.
pub proof fn law_totals_after_nft_stake(
    g: GlobalPool,
    pools: Seq<UserPool>,
    pair_pools: Seq<UserPairPool>,
    k: int,
    q: UserPool,
    mint: Pubkey,
    rank: u64,
    is_ape: u64,
    now: i64,
)
    requires
        totals_match(g, pools, pair_pools),
        0 <= k < pools.len(),
        pools[k].wf(),
        pools[k].staked_count < STAKE_MAX_COUNT,
        can_count_nft(g, is_ape),
        UserPool::is_added(pools[k], q, mint, rank, is_ape, now),
    ensures
        totals_match(with_nft_staked(g, is_ape), pools.update(k, q), pair_pools),
{
    let x = StakedData { mint, last_claimed_time: now, rank, is_ape };
    law_add_appends(pools[k], q, mint, rank, is_ape, now);
    lemma_sum_push(pools[k].staked(), x, |d: StakedData| ape_mark(d));
    lemma_sum_push(pools[k].staked(), x, |d: StakedData| tiger_mark(d));
    lemma_sum_update(pools, k, q, |p: UserPool| pool_apes(p));
    lemma_sum_update(pools, k, q, |p: UserPool| pool_tigers(p));
}

/// Withdrawing the single NFT of slot `i` of pool `k` finds its total
/// positive, and keeps the totals matched.
pub proof fn law_totals_after_nft_withdraw(
    g: GlobalPool,
    pools: Seq<UserPool>,
    pair_pools: Seq<UserPairPool>,
    k: int,
    i: int,
    q: UserPool,
    reward: int,
)
    requires
        totals_match(g, pools, pair_pools),
        0 <= k < pools.len(),
        pools[k].wf(),
        0 <= i < pools[k].staked_count,
        UserPool::is_removed(pools[k], q, i, reward),
    ensures
        can_uncount_nft(g, pools[k].staked_nfts@[i].is_ape),
        totals_match(
            with_nft_withdrawn(g, pools[k].staked_nfts@[i].is_ape),
            pools.update(k, q),
            pair_pools,
        ),
{
    let p = pools[k];
    let s = p.staked();
    let fa = |d: StakedData| ape_mark(d);
    let ft = |d: StakedData| tiger_mark(d);
    let pa = |p: UserPool| pool_apes(p);
    let pt = |p: UserPool| pool_tigers(p);
    let pp = |p: UserPairPool| pool_pairs(p);
    assert(q.staked() =~= s.update(i, s.last()).drop_last());
    lemma_sum_swap_remove(s, i, fa);
    lemma_sum_swap_remove(s, i, ft);
    lemma_sum_ge_term(s, i, fa);
    lemma_sum_ge_term(s, i, ft);
    assert forall|x: UserPool| #[trigger] pa(x) >= 0 by {
        lemma_sum_nonneg(x.staked(), fa);
    }
    assert forall|x: UserPool| #[trigger] pt(x) >= 0 by {
        lemma_sum_nonneg(x.staked(), ft);
    }
    lemma_sum_ge_term(pools, k, pa);
    lemma_sum_ge_term(pools, k, pt);
    lemma_sum_nonneg(pair_pools, pp);
    lemma_sum_update(pools, k, q, pa);
    lemma_sum_update(pools, k, q, pt);
}

/// Staking a pair in pair pool `k` keeps the totals matched.
pub proof fn law_totals_after_pair_stake(
    g: GlobalPool,
    pools: Seq<UserPool>,
    pair_pools: Seq<UserPairPool>,
    k: int,
    q: UserPairPool,
    pair: PairStakedData,
)
    requires
        totals_match(g, pools, pair_pools),
        0 <= k < pair_pools.len(),
        pair_pools[k].wf(),
        pair_pools[k].staked_pair_count < PAIR_STAKE_MAX_COUNT,
        can_count_pair(g),
        UserPairPool::is_added(pair_pools[k], q, pair),
    ensures
        totals_match(with_pair_staked(g), pools, pair_pools.update(k, q)),
{
    lemma_sum_update(pair_pools, k, q, |p: UserPairPool| pool_pairs(p));
}

/// Withdrawing a pair from pair pool `k` finds every total positive, and
/// keeps the totals matched.
pub proof fn law_totals_after_pair_withdraw(
    g: GlobalPool,
    pools: Seq<UserPool>,
    pair_pools: Seq<UserPairPool>,
    k: int,
    i: int,
    q: UserPairPool,
    reward: int,
)
    requires
        totals_match(g, pools, pair_pools),
        0 <= k < pair_pools.len(),
        pair_pools[k].wf(),
        0 <= i < pair_pools[k].staked_pair_count,
        UserPairPool::is_removed(pair_pools[k], q, i, reward),
    ensures
        can_uncount_pair(g),
        totals_match(with_pair_withdrawn(g), pools, pair_pools.update(k, q)),
{
    let pp = |p: UserPairPool| pool_pairs(p);
    let pa = |p: UserPool| pool_apes(p);
    let pt = |p: UserPool| pool_tigers(p);
    assert forall|x: UserPool| #[trigger] pa(x) >= 0 by {
        lemma_sum_nonneg(x.staked(), |d: StakedData| ape_mark(d));
    }
    assert forall|x: UserPool| #[trigger] pt(x) >= 0 by {
        lemma_sum_nonneg(x.staked(), |d: StakedData| tiger_mark(d));
    }
    lemma_sum_nonneg(pools, pa);
    lemma_sum_nonneg(pools, pt);
    lemma_sum_ge_term(pair_pools, k, pp);
    lemma_sum_update(pair_pools, k, q, pp);
}

/// Claims leave the staked slots as they are, so they keep the totals
/// matched.
pub proof fn law_totals_after_claim(
    g: GlobalPool,
    pools: Seq<UserPool>,
    pair_pools: Seq<UserPairPool>,
    k: int,
    q: UserPool,
)
    requires
        totals_match(g, pools, pair_pools),
        0 <= k < pools.len(),
        q.staked_count == pools[k].staked_count,
        q.staked_nfts == pools[k].staked_nfts,
    ensures
        totals_match(g, pools.update(k, q), pair_pools),
{
    assert(q.staked() == pools[k].staked());
    lemma_sum_update(pools, k, q, |p: UserPool| pool_apes(p));
    lemma_sum_update(pools, k, q, |p: UserPool| pool_tigers(p));
}

/// Whole periods of two spans together are at least those of each span
/// counted apart.
proof fn lemma_floor_superadditive(a: int, b: int, d: int)
    requires
        a >= 0,
        b >= 0,
        d > 0,
    ensures
        a / d + b / d <= (a + b) / d,
{
    vstd::arithmetic::div_mod::lemma_fundamental_div_mod(a, d);
    vstd::arithmetic::div_mod::lemma_fundamental_div_mod(b, d);
    vstd::arithmetic::div_mod::lemma_mod_pos_bound(a, d);
    vstd::arithmetic::div_mod::lemma_mod_pos_bound(b, d);
    vstd::arithmetic::div_mod::lemma_div_pos_is_pos(a, d);
    vstd::arithmetic::div_mod::lemma_div_pos_is_pos(b, d);
    let q = a / d + b / d;
    vstd::arithmetic::mul::lemma_mul_is_distributive_add(d, a / d, b / d);
    assert(d * q <= a + b);
    vstd::arithmetic::div_mod::lemma_div_is_ordered(d * q, a + b, d);
    vstd::arithmetic::div_mod::lemma_div_multiples_vanish(q, d);
}

/// Epochs from `start` to `t1` and from `t1` to `t2` are at most those
/// from `start` to `t2`.
proof fn lemma_epochs_split(start: i64, t1: i64, t2: i64)
    requires
        start <= t1 <= t2,
        time_span_fits(start, t2),
    ensures
        elapsed_epochs(start, t1) >= 0,
        elapsed_epochs(t1, t2) >= 0,
        elapsed_epochs(start, t1) + elapsed_epochs(t1, t2) <= elapsed_epochs(start, t2),
{
    lemma_floor_superadditive(t1 - start, t2 - t1, EPOCH as int);
    vstd::arithmetic::div_mod::lemma_div_pos_is_pos(t1 - start, EPOCH as int);
    vstd::arithmetic::div_mod::lemma_div_pos_is_pos(t2 - t1, EPOCH as int);
    vstd::arithmetic::div_mod::lemma_div_pos_is_pos(t2 - start, EPOCH as int);
}

/// Claiming a staked NFT at `t1` and again at `t2` never pays more than
/// one claim at `t2`.
pub proof fn law_split_claim_pays_no_more(start: i64, t1: i64, t2: i64, is_ape: u64, rank: u64)
    requires
        start <= t1 <= t2,
        time_span_fits(start, t2),
    ensures
        nft_reward(start, t1, is_ape, rank) + nft_reward(t1, t2, is_ape, rank) <= nft_reward(
            start,
            t2,
            is_ape,
            rank,
        ),
{
    lemma_epochs_split(start, t1, t2);
    let r = nft_reward_rate(is_ape, rank) as int;
    let e1 = elapsed_epochs(start, t1);
    let e2 = elapsed_epochs(t1, t2);
    let e = elapsed_epochs(start, t2);
    vstd::arithmetic::mul::lemma_mul_is_distributive_add_other_way(r, e1, e2);
    vstd::arithmetic::mul::lemma_mul_inequality(e1 + e2, e, r);
}

/// Claiming a staked pair at `t1` and again at `t2` never pays more than
/// one claim at `t2`.
pub proof fn law_split_pair_claim_pays_no_more(
    start: i64,
    t1: i64,
    t2: i64,
    ape_rank: u64,
    tiger_rank: u64,
    ape_id: u64,
    tiger_id: u64,
)
    requires
        start <= t1 <= t2,
        time_span_fits(start, t2),
    ensures
        pair_reward(start, t1, ape_rank, tiger_rank, ape_id, tiger_id) + pair_reward(
            t1,
            t2,
            ape_rank,
            tiger_rank,
            ape_id,
            tiger_id,
        ) <= pair_reward(start, t2, ape_rank, tiger_rank, ape_id, tiger_id),
{
    lemma_epochs_split(start, t1, t2);
    let rates = (crate::reward::ape_reward_rate(ape_rank) + crate::reward::tiger_reward_rate(
        tiger_rank,
    )) as int;
    let f = pair_factor(ape_id, tiger_id) as int;
    let e1 = elapsed_epochs(start, t1);
    let e2 = elapsed_epochs(t1, t2);
    let e = elapsed_epochs(start, t2);
    vstd::arithmetic::mul::lemma_mul_nonnegative(e1, rates);
    vstd::arithmetic::mul::lemma_mul_nonnegative(e2, rates);
    vstd::arithmetic::mul::lemma_mul_nonnegative(e1 * rates, f);
    vstd::arithmetic::mul::lemma_mul_nonnegative(e2 * rates, f);
    lemma_floor_superadditive(e1 * rates * f, e2 * rates * f, 100);
    vstd::arithmetic::mul::lemma_mul_is_distributive_add_other_way(rates, e1, e2);
    vstd::arithmetic::mul::lemma_mul_is_distributive_add_other_way(f, e1 * rates, e2 * rates);
    vstd::arithmetic::mul::lemma_mul_inequality(e1 + e2, e, rates);
    vstd::arithmetic::mul::lemma_mul_inequality((e1 + e2) * rates, e * rates, f);
    vstd::arithmetic::div_mod::lemma_div_is_ordered(
        e1 * rates * f + e2 * rates * f,
        e * rates * f,
        100,
    );
}

/// Claiming all rewards of a pool at `t1` and again at `t2` never pays
/// more than one claim at `t2`, provided nothing in the pool was last
/// claimed after `t1`.
pub proof fn law_split_pool_claim_pays_no_more(p: UserPool, q: UserPool, t1: i64, t2: i64)
    requires
        p.wf(),
        UserPool::is_claimed(p, q, t1),
        t1 <= t2,
        p.last_reward_time <= t1,
        forall|i: int| 0 <= i < p.staked_count ==> #[trigger] p.staked_nfts@[i].last_claimed_time
            <= t1,
        forall|i: int| 0 <= i < p.staked_count ==> time_span_fits(#[trigger] p.item_start(i), t2),
    ensures
        p.rewards_sum(p.staked_count as int, t1) + q.rewards_sum(q.staked_count as int, t2)
            <= p.rewards_sum(p.staked_count as int, t2),
{
    lemma_split_pool_sum(p, q, t1, t2, p.staked_count as int);
}

proof fn lemma_split_pool_sum(p: UserPool, q: UserPool, t1: i64, t2: i64, n: int)
    requires
        p.wf(),
        UserPool::is_claimed(p, q, t1),
        t1 <= t2,
        p.last_reward_time <= t1,
        forall|i: int| 0 <= i < p.staked_count ==> #[trigger] p.staked_nfts@[i].last_claimed_time
            <= t1,
        forall|i: int| 0 <= i < p.staked_count ==> time_span_fits(#[trigger] p.item_start(i), t2),
        0 <= n <= p.staked_count,
    ensures
        p.rewards_sum(n, t1) + q.rewards_sum(n, t2) <= p.rewards_sum(n, t2),
    decreases n,
{
    if n > 0 {
        let i = n - 1;
        lemma_split_pool_sum(p, q, t1, t2, i);
        assert(p.staked_nfts@[i].last_claimed_time <= t1);
        assert(time_span_fits(p.item_start(i), t2));
        assert(q.item_start(i) == t1);
        law_split_claim_pays_no_more(
            p.item_start(i),
            t1,
            t2,
            p.staked_nfts@[i].is_ape,
            p.staked_nfts@[i].rank,
        );
    }
}

/// An ape is paid from the ape table at every rank: the super rate below
/// rank 13, the high rate from 13 to 999, the normal rate from 1000 on.
pub proof fn law_ape_rates(rank: u64)
    ensures
        nft_reward_rate(1, rank) == ape_reward_rate(rank),
        rank < 13 ==> ape_reward_rate(rank) == SUPER_APE_REWARD,
        13 <= rank < 1000 ==> ape_reward_rate(rank) == HIGH_APE_REWARD,
        rank >= 1000 ==> ape_reward_rate(rank) == NORMAL_APE_REWARD,
{
}

/// Anything that is not marked as an ape is paid from the tiger table at
/// every rank: the super rate below rank 5013, the high rate from 5013 to
/// 5999, the normal rate from 6000 on.
pub proof fn law_tiger_rates(is_ape: u64, rank: u64)
    requires
        is_ape != 1,
    ensures
        nft_reward_rate(is_ape, rank) == tiger_reward_rate(rank),
        rank < 5013 ==> tiger_reward_rate(rank) == SUPER_TIGER_REWARD,
        5013 <= rank < 6000 ==> tiger_reward_rate(rank) == HIGH_TIGER_REWARD,
        rank >= 6000 ==> tiger_reward_rate(rank) == NORMAL_TIGER_REWARD,
{
}

/// An NFT earns from the later of the pool's and its own last claim.
pub proof fn law_reward_start_is_later_claim(pool_last: i64, item_last: i64)
    ensures
        reward_start(pool_last, item_last) >= pool_last,
        reward_start(pool_last, item_last) >= item_last,
        reward_start(pool_last, item_last) == pool_last || reward_start(pool_last, item_last)
            == item_last,
{
}

/// From `start` onwards, the epoch count is the number of whole epochs
/// that have passed; less than one epoch before `start` counts none.
pub proof fn law_epochs_are_whole_periods(start: i64, now: i64)
    requires
        time_span_fits(start, now),
    ensures
        now >= start ==> elapsed_epochs(start, now) * EPOCH <= now - start < (elapsed_epochs(
            start,
            now,
        ) + 1) * EPOCH,
        start - EPOCH < now < start ==> elapsed_epochs(start, now) == 0,
{
    if now >= start {
        vstd::arithmetic::div_mod::lemma_fundamental_div_mod(now - start, EPOCH as int);
        vstd::arithmetic::div_mod::lemma_mod_pos_bound(now - start, EPOCH as int);
    } else if start - EPOCH < now {
        assert((start - now) / (EPOCH as int) == 0);
    }
}

/// One staked NFT earns its table's rate once per whole epoch.
pub proof fn law_nft_reward_per_epoch(start: i64, now: i64, is_ape: u64, rank: u64)
    ensures
        nft_reward(start, now, is_ape, rank) == elapsed_epochs(start, now) * (if is_ape == 1 {
            ape_reward_rate(rank)
        } else {
            tiger_reward_rate(rank)
        }),
{
}

/// The pair percentage is the matching factor exactly when the ape and the
/// tiger carry the same id, and 100 otherwise; an unmatched pair earns the
/// sum of both rates per epoch, a matched one that sum scaled by the
/// matching factor.
pub proof fn law_pair_factor(
    start: i64,
    now: i64,
    ape_rank: u64,
    tiger_rank: u64,
    ape_id: u64,
    tiger_id: u64,
)
    requires
        time_span_fits(start, now),
    ensures
        ape_id == tiger_id ==> pair_factor(ape_id, tiger_id) == MATCHING_FACTOR,
        ape_id != tiger_id ==> pair_factor(ape_id, tiger_id) == 100,
        ape_id != tiger_id ==> pair_reward(start, now, ape_rank, tiger_rank, ape_id, tiger_id)
            == elapsed_epochs(start, now) * (ape_reward_rate(ape_rank) + tiger_reward_rate(
            tiger_rank,
        )),
        ape_id == tiger_id ==> pair_reward(start, now, ape_rank, tiger_rank, ape_id, tiger_id)
            == elapsed_epochs(start, now) * (ape_reward_rate(ape_rank) + tiger_reward_rate(
            tiger_rank,
        )) * MATCHING_FACTOR / 100,
{
    let b = pair_base_reward(start, now, ape_rank, tiger_rank);
    if ape_id != tiger_id {
        assert(b * 100 / 100 == b) by {
            vstd::arithmetic::div_mod::lemma_div_multiples_vanish(b, 100);
            vstd::arithmetic::mul::lemma_mul_is_commutative(b, 100);
        }
    }
}

/// A withdrawal pays the accrued reward whenever the vault covers it, and
/// is refused only where it does not; the remaining reward is cleared
/// exactly when it is paid.
pub proof fn law_vault_payout(reward: int, vault_amount: u64)
    requires
        0 <= reward <= u64::MAX,
    ensures
        reward <= vault_amount ==> vault_payout(reward, vault_amount) == Ok::<u64, StakingError>(
            reward as u64,
        ),
        reward > vault_amount ==> vault_payout(reward, vault_amount) == Err::<u64, StakingError>(
            StakingError::InsufficientRewardVault,
        ),
        reward <= vault_amount ==> left_after_payout(reward, vault_amount) == 0,
        reward > vault_amount ==> left_after_payout(reward, vault_amount) == reward,
{
}

/// A claim pays any positive reward that the vault covers; only a zero
/// reward is refused as too early, and only an uncovered one as
/// unaffordable.
pub proof fn law_claim_payout(reward: int, vault_amount: u64)
    requires
        0 <= reward <= u64::MAX,
    ensures
        0 < reward <= vault_amount ==> claim_payout(reward, vault_amount) == Ok::<u64, StakingError>(
            reward as u64,
        ),
        reward == 0 ==> claim_payout(reward, vault_amount) == Err::<u64, StakingError>(
            StakingError::InvalidWithdrawTime,
        ),
        0 < reward && reward > vault_amount ==> claim_payout(reward, vault_amount) == Err::<
            u64,
            StakingError,
        >(StakingError::InsufficientRewardVault),
{
}

/// An accepted single-NFT stake fills slot `staked_count` with exactly the
/// given mint, rank and stake time, and the kind that the checks decided;
/// it takes one slot more and leaves every other slot as it was.
pub proof fn law_nft_stake_stores_arguments(
    old_pool: UserPool,
    new_pool: UserPool,
    old_global: GlobalPool,
    new_global: GlobalPool,
    is_ape: u64,
    r: Result<(), StakeError>,
    nft_mint: Pubkey,
    rank: u64,
    timestamp: i64,
)
    requires
        old_pool.wf(),
        old_pool.staked_count < STAKE_MAX_COUNT,
        can_count_nft(old_global, is_ape),
        stake_nft_effect(
            old_pool,
            new_pool,
            old_global,
            new_global,
            Some(Ok(is_ape)),
            r,
            nft_mint,
            rank,
            timestamp,
        ),
    ensures
        r == Ok::<(), StakeError>(()),
        new_pool.staked_count == old_pool.staked_count + 1,
        new_pool.staked_nfts@[old_pool.staked_count as int] == (StakedData {
            mint: nft_mint,
            last_claimed_time: timestamp,
            rank,
            is_ape,
        }),
        forall|j: int|
            0 <= j < STAKE_MAX_COUNT && j != old_pool.staked_count ==> new_pool.staked_nfts@[j]
                == old_pool.staked_nfts@[j],
        new_pool.owner == old_pool.owner,
        new_pool.last_reward_time == old_pool.last_reward_time,
        new_pool.remaining_rewards == old_pool.remaining_rewards,
        is_ape == 1 ==> new_global.total_staked_ape_count == old_global.total_staked_ape_count + 1
            && new_global.total_staked_tiger_count == old_global.total_staked_tiger_count,
        is_ape != 1 ==> new_global.total_staked_tiger_count == old_global.total_staked_tiger_count
            + 1 && new_global.total_staked_ape_count == old_global.total_staked_ape_count,
        new_global.total_staked_pair_count == old_global.total_staked_pair_count,
{
    broadcast use vstd::array::group_array_axioms;

}

/// An accepted pair stake fills slot `staked_pair_count` with exactly the
/// given mints, ranks and stake time, and the ids that the checks read from
/// the names; it takes one slot more and leaves every other slot as it was.
pub proof fn law_pair_stake_stores_arguments(
    old_pool: UserPairPool,
    new_pool: UserPairPool,
    old_global: GlobalPool,
    new_global: GlobalPool,
    ape_id: u32,
    tiger_id: u32,
    r: Result<(), StakeError>,
    ape_mint: Pubkey,
    ape_rank: u64,
    tiger_mint: Pubkey,
    tiger_rank: u64,
    timestamp: i64,
)
    requires
        old_pool.wf(),
        old_pool.staked_pair_count < PAIR_STAKE_MAX_COUNT,
        can_count_pair(old_global),
        stake_pair_effect(
            old_pool,
            new_pool,
            old_global,
            new_global,
            Some(Ok((ape_id, tiger_id))),
            r,
            ape_mint,
            ape_rank,
            tiger_mint,
            tiger_rank,
            timestamp,
        ),
    ensures
        r == Ok::<(), StakeError>(()),
        new_pool.staked_pair_count == old_pool.staked_pair_count + 1,
        new_pool.staked_pairs@[old_pool.staked_pair_count as int].ape_mint == ape_mint,
        new_pool.staked_pairs@[old_pool.staked_pair_count as int].ape_rank == ape_rank,
        new_pool.staked_pairs@[old_pool.staked_pair_count as int].ape_id == ape_id,
        new_pool.staked_pairs@[old_pool.staked_pair_count as int].tiger_mint == tiger_mint,
        new_pool.staked_pairs@[old_pool.staked_pair_count as int].tiger_rank == tiger_rank,
        new_pool.staked_pairs@[old_pool.staked_pair_count as int].tiger_id == tiger_id,
        new_pool.staked_pairs@[old_pool.staked_pair_count as int].last_claimed_time == timestamp,
        forall|j: int|
            0 <= j < PAIR_STAKE_MAX_COUNT && j != old_pool.staked_pair_count
                ==> new_pool.staked_pairs@[j] == old_pool.staked_pairs@[j],
        new_global.total_staked_ape_count == old_global.total_staked_ape_count + 1,
        new_global.total_staked_tiger_count == old_global.total_staked_tiger_count + 1,
        new_global.total_staked_pair_count == old_global.total_staked_pair_count + 1,
{
    broadcast use vstd::array::group_array_axioms;

}

/// More than one epoch before `start`, the epoch count wraps around: it
/// is 2^64 less the whole epochs between `now` and `start`.
pub proof fn law_epochs_before_start_wrap(start: i64, now: i64)
    requires
        time_span_fits(start, now),
        now <= start - EPOCH,
    ensures
        elapsed_epochs(start, now) == 0x1_0000_0000_0000_0000 - (start - now) / (EPOCH as int),
{
    vstd::arithmetic::div_mod::lemma_div_is_ordered(EPOCH as int, start - now, EPOCH as int);
}

/// A slot of a pool earns from the later of the pool's last claim and its
/// own last claim.
pub proof fn law_item_start(p: UserPool, q: UserPairPool, i: int)
    ensures
        p.item_start(i) >= p.last_reward_time,
        p.item_start(i) >= p.staked_nfts@[i].last_claimed_time,
        p.item_start(i) == p.last_reward_time || p.item_start(i)
            == p.staked_nfts@[i].last_claimed_time,
        q.item_start(i) >= q.last_reward_time,
        q.item_start(i) >= q.staked_pairs@[i].last_claimed_time,
        q.item_start(i) == q.last_reward_time || q.item_start(i)
            == q.staked_pairs@[i].last_claimed_time,
{
}

/// The total owed by a pool grows, slot by slot, by what each slot has
/// earned; an empty prefix owes nothing.
pub proof fn law_rewards_sum_adds_slots(p: UserPool, q: UserPairPool, n: int, now: i64)
    requires
        n >= 0,
    ensures
        p.rewards_sum(0, now) == 0,
        p.rewards_sum(n + 1, now) == p.rewards_sum(n, now) + p.item_reward(n, now),
        p.item_reward(n, now) == nft_reward(
            p.item_start(n),
            now,
            p.staked_nfts@[n].is_ape,
            p.staked_nfts@[n].rank,
        ),
        q.rewards_sum(0, now) == 0,
        q.rewards_sum(n + 1, now) == q.rewards_sum(n, now) + q.item_reward(n, now),
        q.item_reward(n, now) == pair_reward(
            q.item_start(n),
            now,
            q.staked_pairs@[n].ape_rank,
            q.staked_pairs@[n].tiger_rank,
            q.staked_pairs@[n].ape_id,
            q.staked_pairs@[n].tiger_id,
        ),
{
}

/// A claim of all rewards restarts every slot at `now`, clears the
/// remaining reward and keeps the staked slots.
pub proof fn law_claim_restarts_pool(p: UserPool, q: UserPool, now: i64)
    requires
        UserPool::is_claimed(p, q, now),
    ensures
        q.last_reward_time == now,
        q.remaining_rewards == 0,
        q.staked() == p.staked(),
        q.owner == p.owner,
{
}

/// A claim of one slot restarts that slot at `now` and changes nothing else.
pub proof fn law_nft_claim_restarts_slot(p: UserPool, q: UserPool, i: int, now: i64)
    requires
        p.wf(),
        0 <= i < p.staked_count,
        UserPool::is_nft_claimed(p, q, i, now),
    ensures
        q.staked_nfts@[i].last_claimed_time == now,
        q.staked_nfts@[i].mint == p.staked_nfts@[i].mint,
        q.staked_nfts@[i].rank == p.staked_nfts@[i].rank,
        q.staked_nfts@[i].is_ape == p.staked_nfts@[i].is_ape,
        forall|j: int| 0 <= j < STAKE_MAX_COUNT && j != i ==> q.staked_nfts@[j] == p.staked_nfts@[j],
        q.staked_count == p.staked_count,
        q.last_reward_time == p.last_reward_time,
        q.remaining_rewards == p.remaining_rewards,
{
    broadcast use vstd::array::group_array_axioms;

}

/// A claim of one pair restarts that pair at `now` and changes nothing else.
pub proof fn law_pair_claim_restarts_slot(p: UserPairPool, q: UserPairPool, i: int, now: i64)
    requires
        p.wf(),
        0 <= i < p.staked_pair_count,
        UserPairPool::is_pair_claimed(p, q, i, now),
    ensures
        q.staked_pairs@[i].last_claimed_time == now,
        q.staked_pairs@[i].ape_mint == p.staked_pairs@[i].ape_mint,
        q.staked_pairs@[i].tiger_mint == p.staked_pairs@[i].tiger_mint,
        q.staked_pairs@[i].ape_rank == p.staked_pairs@[i].ape_rank,
        q.staked_pairs@[i].tiger_rank == p.staked_pairs@[i].tiger_rank,
        q.staked_pairs@[i].ape_id == p.staked_pairs@[i].ape_id,
        q.staked_pairs@[i].tiger_id == p.staked_pairs@[i].tiger_id,
        forall|j: int|
            0 <= j < PAIR_STAKE_MAX_COUNT && j != i ==> q.staked_pairs@[j] == p.staked_pairs@[j],
        q.staked_pair_count == p.staked_pair_count,
        q.last_reward_time == p.last_reward_time,
        q.remaining_rewards == p.remaining_rewards,
{
    broadcast use vstd::array::group_array_axioms;

}

/// A withdrawal keeps what the withdrawn slot earned as the remaining
/// reward and takes one slot less.
pub proof fn law_remove_keeps_reward(p: UserPool, q: UserPool, i: int, reward: int)
    requires
        UserPool::is_removed(p, q, i, reward),
    ensures
        q.remaining_rewards == reward,
        q.staked_count == p.staked_count - 1,
        q.last_reward_time == p.last_reward_time,
        q.owner == p.owner,
{
}

/// The first creator that admits an NFT decides its kind: an ape where
/// that creator is the ape collection, a tiger otherwise; with no admitting
/// creator the NFT is refused, and so it is where no creator is verified.
pub proof fn law_stake_decision(
    cs: Seq<(Seq<u8>, bool)>,
    ape: Seq<u8>,
    tiger: Seq<u8>,
    k: int,
)
    ensures
        (0 <= k < cs.len() && cs[k].1 && cs[k].0 == ape && forall|j: int|
            0 <= j < k ==> !((cs[j].0 == ape || cs[j].0 == tiger) && cs[j].1)) ==> stake_decision(
            cs,
            ape,
            tiger,
        ) == Ok::<u64, StakingError>(1),
        (0 <= k < cs.len() && cs[k].1 && cs[k].0 == tiger && cs[k].0 != ape && forall|j: int|
            0 <= j < k ==> !((cs[j].0 == ape || cs[j].0 == tiger) && cs[j].1)) ==> stake_decision(
            cs,
            ape,
            tiger,
        ) == Ok::<u64, StakingError>(0),
        (forall|j: int| 0 <= j < cs.len() ==> !(#[trigger] cs[j]).1) ==> stake_decision(
            cs,
            ape,
            tiger,
        ) == Err::<u64, StakingError>(StakingError::UnkownOrNotAllowedNFTCollection),
        (forall|j: int| 0 <= j < cs.len() ==> (#[trigger] cs[j]).0 != ape && cs[j].0 != tiger)
            ==> stake_decision(cs, ape, tiger) == Err::<u64, StakingError>(
            StakingError::UnkownOrNotAllowedNFTCollection,
        ),
{
    if 0 <= k < cs.len() && cs[k].1 && (cs[k].0 == ape || cs[k].0 == tiger) && forall|j: int|
        0 <= j < k ==> !((cs[j].0 == ape || cs[j].0 == tiger) && cs[j].1) {
        assert(crate::metadata::first_admitting(cs, ape, tiger, k));
        let m = choose|m: int| crate::metadata::first_admitting(cs, ape, tiger, m);
        if m < k {
            assert(crate::metadata::admits_stake(cs[m], ape, tiger));
            assert(!((cs[m].0 == ape || cs[m].0 == tiger) && cs[m].1));
        } else if m > k {
            assert(!crate::metadata::admits_stake(cs[k], ape, tiger));
        }
        assert(m == k);
    }
}

/// A pair member is accepted exactly when a verified creator is its
/// collection; no creators, or none verified, refuse it.
pub proof fn law_collection_outcome(cs: Seq<(Seq<u8>, bool)>, collection: Seq<u8>, k: int)
    ensures
        collection_outcome(None, collection) == Err::<(), StakingError>(
            StakingError::MetadataCreatorParseError,
        ),
        (0 <= k < cs.len() && cs[k].0 == collection && cs[k].1) ==> collection_outcome(
            Some(cs),
            collection,
        ) == Ok::<(), StakingError>(()),
        (forall|j: int| 0 <= j < cs.len() ==> !(#[trigger] cs[j]).1) ==> collection_outcome(
            Some(cs),
            collection,
        ) == Err::<(), StakingError>(StakingError::UnkownOrNotAllowedNFTCollection),
{
    if 0 <= k < cs.len() && cs[k].0 == collection && cs[k].1 {
        assert(crate::metadata::lists_verified(cs, collection));
    }
}

/// The checks before a single stake come in order: a metadata account that
/// is not the derived address is refused whatever it holds; at the right
/// address, bytes that are not a metadata record are refused as
/// unreadable, and a record without creators as unparsable.
pub proof fn law_stake_check_order(
    mint: Seq<u8>,
    key: Seq<u8>,
    data: Seq<u8>,
    ape: Seq<u8>,
    tiger: Seq<u8>,
    name: Seq<char>,
    creators: Option<Seq<(Seq<u8>, bool)>>,
)
    ensures
        metadata_pda(mint) is Some && metadata_pda(mint)->0 != key ==> stake_nft_outcome(
            mint,
            key,
            data,
            ape,
            tiger,
        ) == Some(Err::<u64, StakeError>(StakeError::Staking(StakingError::InvaliedMetadata))),
        metadata_pda(mint) == Some(key) && data.len() > 0 && parsed_metadata(data) is None
            ==> stake_nft_outcome(mint, key, data, ape, tiger) == Some(
            Err::<u64, StakeError>(StakeError::MetadataUnreadable),
        ),
        metadata_pda(mint) == Some(key) && data.len() > 0 && parsed_metadata(data) == Some(
            (name, creators),
        ) ==> stake_nft_outcome(mint, key, data, ape, tiger) == Some(
            match creators {
                None => Err::<u64, StakeError>(
                    StakeError::Staking(StakingError::MetadataCreatorParseError),
                ),
                Some(cs) => match stake_decision(cs, ape, tiger) {
                    Ok(k) => Ok::<u64, StakeError>(k),
                    Err(e) => Err::<u64, StakeError>(StakeError::Staking(e)),
                },
            },
        ),
{
}

/// Digits are the characters `'0'` to `'9'`, worth 0 to 9; each further
/// digit multiplies the value read so far by ten and adds its own worth,
/// and any other character makes the number unreadable.
pub proof fn law_decimal_reading(s: Seq<char>, c: char)
    ensures
        is_decimal_digit(c) <==> '0' <= c <= '9',
        is_decimal_digit(c) ==> decimal_digit_value(c) == (c as u32) - ('0' as u32),
        decimal_prefix(s.push(c), s.len() + 1int) == (match decimal_prefix(s, s.len() as int) {
            Some(v) => if '0' <= c <= '9' {
                Some(v * 10 + ((c as u32) - ('0' as u32)))
            } else {
                None
            },
            None => None,
        }),
        decimal_value(Seq::<char>::empty()) == Some(0u32),
{
    lemma_decimal_prefix_same(s, s.push(c), s.len() as int);
}

proof fn lemma_decimal_prefix_same(s: Seq<char>, t: Seq<char>, n: int)
    requires
        0 <= n <= s.len(),
        n <= t.len(),
        forall|j: int| 0 <= j < n ==> s[j] == t[j],
    ensures
        decimal_prefix(s, n) == decimal_prefix(t, n),
    decreases n,
{
    if n > 0 {
        lemma_decimal_prefix_same(s, t, n - 1);
    }
}

/// The checks before a pair stake come in order: a wrong ape metadata
/// address is refused first, then a wrong tiger one; then the ape's record
/// and collection, then the tiger's. An accepted pair carries the ids that
/// the two names write after their `#`.
pub proof fn law_pair_check_order(
    ape_mint: Seq<u8>,
    ape_key: Seq<u8>,
    ape_data: Seq<u8>,
    tiger_mint: Seq<u8>,
    tiger_key: Seq<u8>,
    tiger_data: Seq<u8>,
    ape: Seq<u8>,
    tiger: Seq<u8>,
    ape_name: Seq<char>,
    ape_creators: Option<Seq<(Seq<u8>, bool)>>,
    tiger_name: Seq<char>,
    tiger_creators: Option<Seq<(Seq<u8>, bool)>>,
)
    ensures
        metadata_pda(ape_mint) is Some && metadata_pda(ape_mint)->0 != ape_key
            ==> stake_pair_outcome(
            ape_mint,
            ape_key,
            ape_data,
            tiger_mint,
            tiger_key,
            tiger_data,
            ape,
            tiger,
        ) == Some(
            Err::<(u32, u32), StakeError>(StakeError::Staking(StakingError::InvaliedMetadata)),
        ),
        metadata_pda(ape_mint) == Some(ape_key) && metadata_pda(tiger_mint) is Some
            && metadata_pda(tiger_mint)->0 != tiger_key ==> stake_pair_outcome(
            ape_mint,
            ape_key,
            ape_data,
            tiger_mint,
            tiger_key,
            tiger_data,
            ape,
            tiger,
        ) == Some(
            Err::<(u32, u32), StakeError>(StakeError::Staking(StakingError::InvaliedMetadata)),
        ),
        metadata_pda(ape_mint) == Some(ape_key) && metadata_pda(tiger_mint) == Some(tiger_key)
            && ape_data.len() > 0 && parsed_metadata(ape_data) == Some((ape_name, ape_creators))
            && collection_outcome(ape_creators, ape) is Err ==> stake_pair_outcome(
            ape_mint,
            ape_key,
            ape_data,
            tiger_mint,
            tiger_key,
            tiger_data,
            ape,
            tiger,
        ) == Some(
            Err::<(u32, u32), StakeError>(
                StakeError::Staking(collection_outcome(ape_creators, ape)->Err_0),
            ),
        ),
        metadata_pda(ape_mint) == Some(ape_key) && metadata_pda(tiger_mint) == Some(tiger_key)
            && ape_data.len() > 0 && parsed_metadata(ape_data) == Some((ape_name, ape_creators))
            && collection_outcome(ape_creators, ape) is Ok && tiger_data.len() > 0
            && parsed_metadata(tiger_data) == Some((tiger_name, tiger_creators))
            && collection_outcome(tiger_creators, tiger) is Err ==> stake_pair_outcome(
            ape_mint,
            ape_key,
            ape_data,
            tiger_mint,
            tiger_key,
            tiger_data,
            ape,
            tiger,
        ) == Some(
            Err::<(u32, u32), StakeError>(
                StakeError::Staking(collection_outcome(tiger_creators, tiger)->Err_0),
            ),
        ),
        metadata_pda(ape_mint) == Some(ape_key) && metadata_pda(tiger_mint) == Some(tiger_key)
            && ape_data.len() > 0 && parsed_metadata(ape_data) == Some((ape_name, ape_creators))
            && collection_outcome(ape_creators, ape) is Ok && tiger_data.len() > 0
            && parsed_metadata(tiger_data) == Some((tiger_name, tiger_creators))
            && collection_outcome(tiger_creators, tiger) is Ok && name_id(ape_name) is Some
            && name_id(tiger_name) is Some ==> stake_pair_outcome(
            ape_mint,
            ape_key,
            ape_data,
            tiger_mint,
            tiger_key,
            tiger_data,
            ape,
            tiger,
        ) == Some(
            Ok::<(u32, u32), StakeError>(
                (
                    decimal_value(id_digit_chars(ape_name))->0,
                    decimal_value(id_digit_chars(tiger_name))->0,
                ),
            ),
        ),
{
}

} // verus!
