use vstd::prelude::*;
use crate::types::ContractError;

verus! {

/// Fixed-point ratios (close factor, prices, health) are carried as atomics
/// with eighteen fractional decimal places, the scale cosmwasm's `Decimal`
/// uses.
pub const DECIMAL_ONE: u128 = 1_000_000_000_000_000_000;

/// What `value * numerator / denominator` yields over the unbounded integers,
/// rounded down.
pub open spec fn ratio_floor(value: u128, numerator: u128, denominator: u128) -> int {
    (value * numerator) / (denominator as int)
}

/// The full outcome of a floored multiply-ratio on 128-bit amounts: a zero
/// denominator and a quotient beyond `u128::MAX` are the two errors.
pub open spec fn mul_ratio_spec(value: u128, numerator: u128, denominator: u128) -> Result<
    u128,
    ContractError,
> {
    if denominator == 0 {
        Err(ContractError::DivideByZero)
    } else if ratio_floor(value, numerator, denominator) > u128::MAX {
        Err(ContractError::Overflow)
    } else {
        Ok(ratio_floor(value, numerator, denominator) as u128)
    }
}

/// Relies on cosmwasm_std::Uint128::checked_multiply_ratio: the product is
/// taken in 256 bits, divided rounding down, and handed back if it fits in
/// 128 bits; a zero denominator and an overflowing quotient are the two
/// errors.
#[verifier::external_body]
pub fn mul_ratio_floor(value: u128, numerator: u128, denominator: u128) -> (r: Result<
    u128,
    ContractError,
>)
    ensures
        r == mul_ratio_spec(value, numerator, denominator),
{
    match cosmwasm_std::Uint128::new(value).checked_multiply_ratio(numerator, denominator) {
        Ok(v) => Ok(v.u128()),
        Err(cosmwasm_std::CheckedMultiplyRatioError::DivideByZero) => Err(
            ContractError::DivideByZero,
        ),
        Err(cosmwasm_std::CheckedMultiplyRatioError::Overflow) => Err(ContractError::Overflow),
    }
}

/// Checked addition on amounts; overflow is a fatal arithmetic error.
pub fn checked_add(a: u128, b: u128) -> (r: Result<u128, ContractError>)
    ensures
        a + b <= u128::MAX ==> r == Ok::<u128, ContractError>((a + b) as u128),
        a + b > u128::MAX ==> r == Err::<u128, ContractError>(ContractError::Overflow),
{
    if a <= u128::MAX - b {
        Ok(a + b)
    } else {
        Err(ContractError::Overflow)
    }
}

} // verus!
