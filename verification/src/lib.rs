//! Staking of ape and tiger NFTs: per-user staking pools, reward accounting
//! over epochs, and the checks that each staking instruction makes.

pub mod constants;
pub mod error;
pub mod key;
pub mod reward;
pub mod account;
pub mod metadata;
pub mod name;
pub mod program;
pub mod laws;
