use vstd::prelude::*;
use crate::error::ContractError;

verus! {

/// Checked addition on 32-bit counters: the exact sum, or
/// `ArithmeticOverflow` instead of wrapping.
pub fn add_u32(a: u32, b: u32) -> (r: Result<u32, ContractError>)
    ensures
        a + b <= u32::MAX ==> r == Ok::<u32, ContractError>((a + b) as u32),
        a + b > u32::MAX ==> r == Err::<u32, ContractError>(ContractError::ArithmeticOverflow),
{
    match a.checked_add(b) {
        Some(v) => Ok(v),
        None => Err(ContractError::ArithmeticOverflow),
    }
}

/// Checked subtraction on 32-bit counters: the exact difference, or
/// `ArithmeticUnderflow` instead of going below zero.
pub fn sub_u32(a: u32, b: u32) -> (r: Result<u32, ContractError>)
    ensures
        a >= b ==> r == Ok::<u32, ContractError>((a - b) as u32),
        a < b ==> r == Err::<u32, ContractError>(ContractError::ArithmeticUnderflow),
{
    match a.checked_sub(b) {
        Some(v) => Ok(v),
        None => Err(ContractError::ArithmeticUnderflow),
    }
}

/// Checked addition on wide reward amounts.
pub fn add_u128(a: u128, b: u128) -> (r: Result<u128, ContractError>)
    ensures
        a + b <= u128::MAX ==> r == Ok::<u128, ContractError>((a + b) as u128),
        a + b > u128::MAX ==> r == Err::<u128, ContractError>(ContractError::ArithmeticOverflow),
{
    match a.checked_add(b) {
        Some(v) => Ok(v),
        None => Err(ContractError::ArithmeticOverflow),
    }
}

/// Checked multiplication on wide reward amounts.
pub fn mul_u128(a: u128, b: u128) -> (r: Result<u128, ContractError>)
    ensures
        a * b <= u128::MAX ==> r == Ok::<u128, ContractError>((a * b) as u128),
        a * b > u128::MAX ==> r == Err::<u128, ContractError>(ContractError::ArithmeticOverflow),
{
    match a.checked_mul(b) {
        Some(v) => Ok(v),
        None => Err(ContractError::ArithmeticOverflow),
    }
}

} // verus!
