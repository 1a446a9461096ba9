//! Accounting core for an NFT staking scheme: deposited items accrue one
//! reward unit per completed vesting period, and a registry of staking
//! records is kept consistent with per-account and global counters.

pub mod error;
pub mod execute;
pub mod math;
pub mod msg;
pub mod query;
pub mod responses;
pub mod state;
pub mod vesting;
