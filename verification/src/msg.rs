use vstd::prelude::*;
use crate::state::{AddrId, Token};

verus! {

/// Initialization options of the staking core.
pub struct InstantiateMsg {
    pub manager_addr: AddrId,
    /// Collections whose items may be deposited.
    pub allowed_cw721_addrs: Vec<AddrId>,
    /// Length of one vesting period in seconds; must be positive.
    pub vesting_period_seconds: u32,
    /// Reward units owed per item per completed period.
    pub vesting_period_rewards: u128,
    /// Completed periods required before an item can be withdrawn.
    pub min_vesting_periods: u32,
    pub rewards_token: Token,
}

/// The inner command carried by an item-transfer notification, decoded at
/// the boundary. Exactly one command exists today; extend by adding
/// variants.
#[derive(Clone, Copy, Debug, PartialEq, Eq, Structural)]
pub enum Cw721ReceiveInnerMsg {
    Stake {},
}

/// A command for the staking core. For `ReceiveNft` the operation's sender
/// is the notifying collection; for the others it is the acting account.
#[derive(Debug)]
pub enum ExecuteMsg {
    ReceiveNft { staker_addr: AddrId, token_id: String, inner: Cw721ReceiveInnerMsg },
    Unstake { cw721_addr: AddrId, token_id: String },
    Claim {},
}

/// A read-only query for the staking core.
#[derive(Clone, Copy, Debug, PartialEq, Eq, Structural)]
pub enum QueryMsg {
    Account { address: AddrId },
    Config {},
    Metadata {},
}

/// Carried by a migration; empty today.
#[derive(Clone, Copy, Debug, PartialEq, Eq, Structural)]
pub struct MigrateMsg {}

} // verus!
