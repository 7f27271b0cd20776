use basc_staking::constants::{
    EPOCH, HIGH_APE_REWARD, HIGH_TIGER_REWARD, MATCHING_FACTOR, NORMAL_APE_REWARD,
    NORMAL_TIGER_REWARD, SUPER_APE_REWARD, SUPER_TIGER_REWARD,
};
use basc_staking::reward::{
    ape_reward_amount, checked_nft_reward, checked_pair_reward, compute_nft_reward,
    compute_pair_reward, epochs_between, nft_reward_amount, reward_start_time,
    tiger_reward_amount,
};

#[test]
fn ape_tiers_follow_rank() {
    assert_eq!(ape_reward_amount(0), SUPER_APE_REWARD);
    assert_eq!(ape_reward_amount(12), SUPER_APE_REWARD);
    assert_eq!(ape_reward_amount(13), HIGH_APE_REWARD);
    assert_eq!(ape_reward_amount(999), HIGH_APE_REWARD);
    assert_eq!(ape_reward_amount(1000), NORMAL_APE_REWARD);
    assert_eq!(ape_reward_amount(u64::MAX), NORMAL_APE_REWARD);
}

#[test]
fn tiger_tiers_follow_rank() {
    assert_eq!(tiger_reward_amount(5012), SUPER_TIGER_REWARD);
    assert_eq!(tiger_reward_amount(5013), HIGH_TIGER_REWARD);
    assert_eq!(tiger_reward_amount(5999), HIGH_TIGER_REWARD);
    assert_eq!(tiger_reward_amount(6000), NORMAL_TIGER_REWARD);
}

#[test]
fn kind_selects_table() {
    assert_eq!(nft_reward_amount(1, 5), SUPER_APE_REWARD);
    assert_eq!(nft_reward_amount(0, 5), SUPER_TIGER_REWARD);
    assert_eq!(nft_reward_amount(2, 5), SUPER_TIGER_REWARD);
}

#[test]
fn start_is_the_later_claim() {
    assert_eq!(reward_start_time(10, 20), 20);
    assert_eq!(reward_start_time(30, 20), 30);
}

#[test]
fn epochs_round_toward_zero() {
    assert_eq!(epochs_between(0, 0), 0);
    assert_eq!(epochs_between(0, EPOCH - 1), 0);
    assert_eq!(epochs_between(0, EPOCH), 1);
    assert_eq!(epochs_between(100, 100 + 3 * EPOCH + 5), 3);
    assert_eq!(epochs_between(EPOCH - 1, 0), 0);
}

#[test]
fn epochs_before_start_wrap_around() {
    // a span of minus two epochs is read as an unsigned number
    assert_eq!(epochs_between(2 * EPOCH, 0), u64::MAX - 1);
}

#[test]
fn nft_reward_is_epochs_times_rate() {
    assert_eq!(compute_nft_reward(0, 3 * EPOCH, 1, 500), 3 * HIGH_APE_REWARD);
    assert_eq!(compute_nft_reward(0, 2 * EPOCH + 10, 0, 7000), 2 * NORMAL_TIGER_REWARD);
    assert_eq!(compute_nft_reward(50, 40, 1, 1), 0);
}

#[test]
fn checked_nft_reward_refuses_overflow() {
    assert_eq!(checked_nft_reward(0, EPOCH, 1, 1), Some(SUPER_APE_REWARD));
    assert_eq!(checked_nft_reward(2 * EPOCH, 0, 1, 1), None);
    assert_eq!(checked_nft_reward(i64::MIN, i64::MAX, 1, 1), None);
}

#[test]
fn pair_reward_uses_factor() {
    let base = 2 * (SUPER_APE_REWARD + SUPER_TIGER_REWARD);
    assert_eq!(compute_pair_reward(0, 2 * EPOCH, 1, 1, 7, 8), base);
    assert_eq!(compute_pair_reward(0, 2 * EPOCH, 1, 1, 7, 7), base * MATCHING_FACTOR / 100);
    assert_eq!(
        compute_pair_reward(0, EPOCH, 2000, 6500, 1, 2),
        NORMAL_APE_REWARD + NORMAL_TIGER_REWARD
    );
}

#[test]
fn checked_pair_reward_refuses_overflow() {
    assert_eq!(
        checked_pair_reward(0, EPOCH, 2000, 6500, 1, 2),
        Some(NORMAL_APE_REWARD + NORMAL_TIGER_REWARD)
    );
    assert_eq!(checked_pair_reward(2 * EPOCH, 0, 1, 1, 1, 1), None);
}

#[test]
fn rewards_grow_with_time() {
    let mut last = 0;
    for t in [0, EPOCH / 2, EPOCH, 3 * EPOCH, 10 * EPOCH + 7] {
        let r = compute_nft_reward(0, t, 1, 20);
        assert!(r >= last);
        last = r;
    }
    assert_eq!(compute_nft_reward(5, 5, 0, 1), 0);
    assert_eq!(compute_pair_reward(5, 5, 1, 1, 3, 3), 0);
}
