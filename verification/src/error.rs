use vstd::prelude::*;

verus! {

/// The errors that the staking instructions report.
#[derive(Clone, Copy, Debug, PartialEq, Eq, Structural)]
pub enum StakingError {
    /// Uninitialized account
    Uninitialized,
    /// Invalid Super Owner
    InvalidSuperOwner,
    /// Invalid User Pool Owner
    InvalidUserPool,
    /// Invalid NFT Address
    InvalidNFTAddress,
    /// Invalid Withdraw Time
    InvalidWithdrawTime,
    /// Insufficient Reward Token Balance
    InsufficientRewardVault,
    /// Invalid Metadata Address
    InvaliedMetadata,
    /// Can't Parse The NFT's Creators
    MetadataCreatorParseError,
    /// Unknown Collection Or The Collection Is Not Allowed
    UnkownOrNotAllowedNFTCollection,
}

/// Why the checks before a stake refuse an NFT: one of the staking errors,
/// or a metadata account whose bytes are not a metadata record.
#[derive(Clone, Copy, Debug, PartialEq, Eq, Structural)]
pub enum StakeError {
    Staking(StakingError),
    MetadataUnreadable,
}

} // verus!
