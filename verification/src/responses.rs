use vstd::prelude::*;
use crate::state::AddrId;

verus! {

/// Account summary; a placeholder in the current scope.
#[derive(Clone, Copy, Debug, PartialEq, Eq, Structural)]
pub struct AccountResponse {}

/// Configuration summary; a placeholder in the current scope.
#[derive(Clone, Copy, Debug, PartialEq, Eq, Structural)]
pub struct ConfigResponse {}

/// Static metadata; a placeholder in the current scope.
#[derive(Clone, Copy, Debug, PartialEq, Eq, Structural)]
pub struct MetadataResponse {}

/// Instruction to the payout boundary: send `amount` reward units to
/// `recipient`. Issued only after the ledger already records the payout.
#[derive(Clone, Copy, Debug, PartialEq, Eq, Structural)]
pub struct Transfer {
    pub recipient: AddrId,
    pub amount: u128,
}

/// Instruction to the item-transfer boundary: return the withdrawn item to
/// `recipient`.
#[derive(Debug)]
pub struct NftReturn {
    pub cw721_addr: AddrId,
    pub token_id: String,
    pub recipient: AddrId,
}

/// The effects an operation asks the environment to carry out once it has
/// committed.
#[derive(Debug)]
pub struct ExecResponse {
    pub reward_transfer: Option<Transfer>,
    pub nft_return: Option<NftReturn>,
}

} // verus!
