use vstd::prelude::*;

verus! {

/// The failure taxonomy of the staking core. Every operation either applies
/// all of its effects or fails with one of these and changes nothing.
#[derive(Clone, Copy, Debug, PartialEq, Eq, Structural)]
pub enum ContractError {
    /// The collection is not allow-listed, staking is disabled, or the
    /// caller is not the owner of the record it acts on.
    Unauthorized,
    /// No staking or account record exists for the given key.
    NotFound,
    /// A deposit named an item that already has an active staking record.
    AlreadyStaked,
    /// A withdrawal was attempted before the minimum number of vested
    /// periods was reached.
    VestingTooShort,
    /// A checked addition or multiplication exceeded its integer range.
    ArithmeticOverflow,
    /// A checked subtraction went below zero.
    ArithmeticUnderflow,
    /// An inner command payload could not be decoded. Reported only by the
    /// decoding boundary around this library, never by the core itself.
    MalformedInput,
}

} // verus!
