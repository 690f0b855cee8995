//! Ratios of 128-bit amounts, and 18-digit fixed-point decimals built on them.

use crate::error::ContractError;
use cosmwasm_std::CheckedMultiplyRatioError;
use cosmwasm_std::Uint128;

use vstd::prelude::*;

verus! {

/// The number of atomic units in the decimal 1.0.
pub const DECIMAL_FRACTIONAL: u128 = 1_000_000_000_000_000_000u128;

/// Why a ratio has no value.
#[derive(Clone, Copy, Debug, PartialEq, Eq, Structural)]
pub enum RatioError {
    DivideByZero,
    Overflow,
}

/// `value * numerator / denominator`, rounded down: the exact quotient of the
/// full product, as long as the denominator is not zero and the quotient fits
/// in 128 bits.
pub open spec fn ratio(value: u128, numerator: u128, denominator: u128) -> Result<u128, RatioError> {
    if denominator == 0 {
        Err(RatioError::DivideByZero)
    } else if (value * numerator) / (denominator as int) > u128::MAX {
        Err(RatioError::Overflow)
    } else {
        Ok(((value * numerator) / (denominator as int)) as u128)
    }
}

/// Calls `cosmwasm_std::Uint128::checked_multiply_ratio`, which multiplies in
/// 256 bits, divides, and reports a zero denominator or a quotient beyond 128
/// bits. The contract claims that its answer is [`ratio`].
#[verifier::external_body]
pub(crate) fn checked_multiply_ratio(value: u128, numerator: u128, denominator: u128) -> (r: Result<u128, RatioError>)
    ensures
        r == ratio(value, numerator, denominator),
{
    match Uint128::new(value).checked_multiply_ratio(numerator, denominator) {
        Ok(quotient) => Ok(quotient.u128()),
        Err(CheckedMultiplyRatioError::DivideByZero) => Err(RatioError::DivideByZero),
        Err(CheckedMultiplyRatioError::Overflow) => Err(RatioError::Overflow),
    }
}

/// `value * numerator / denominator`, rounded down.
pub fn multiply_ratio(value: u128, numerator: u128, denominator: u128) -> (r: Result<u128, RatioError>)
    ensures
        r == ratio(value, numerator, denominator),
{
    checked_multiply_ratio(value, numerator, denominator)
}

/// Turns the failure of a ratio into the failure of the operation.
pub open spec fn spec_ratio_error(e: RatioError) -> ContractError {
    match e {
        RatioError::DivideByZero => ContractError::DivideByZero,
        RatioError::Overflow => ContractError::Overflow,
    }
}

/// `value * numerator / denominator`, rounded down, with the failures of the
/// library.
pub open spec fn spec_scale(value: u128, numerator: u128, denominator: u128) -> Result<u128, ContractError> {
    match ratio(value, numerator, denominator) {
        Ok(v) => Ok(v),
        Err(e) => Err(spec_ratio_error(e)),
    }
}

/// `value * numerator / denominator`, rounded down.
pub fn scale(value: u128, numerator: u128, denominator: u128) -> (r: Result<u128, ContractError>)
    ensures
        r == spec_scale(value, numerator, denominator),
{
    match checked_multiply_ratio(value, numerator, denominator) {
        Ok(v) => Ok(v),
        Err(RatioError::DivideByZero) => Err(ContractError::DivideByZero),
        Err(RatioError::Overflow) => Err(ContractError::Overflow),
    }
}

/// Turns the failure of a ratio into the failure of the operation.
pub fn ratio_error(e: RatioError) -> (r: ContractError)
    ensures
        r == spec_ratio_error(e),
{
    match e {
        RatioError::DivideByZero => ContractError::DivideByZero,
        RatioError::Overflow => ContractError::Overflow,
    }
}

/// An unsigned fixed-point number with 18 fractional digits: `atomics` counts
/// units of 10^-18, so the value is `atomics / 10^18`.
#[derive(Clone, Copy, Debug, PartialEq, Eq, Structural)]
pub struct Decimal {
    pub atomics: u128,
}

impl Decimal {
    /// The quotient `numerator / denominator` as a decimal, rounded down to
    /// 18 digits.
    pub open spec fn spec_from_ratio(numerator: u128, denominator: u128) -> Result<Decimal, RatioError> {
        match ratio(numerator, DECIMAL_FRACTIONAL, denominator) {
            Ok(atomics) => Ok(Decimal { atomics }),
            Err(e) => Err(e),
        }
    }

    /// `amount` times this decimal, rounded down to a whole amount.
    pub open spec fn spec_mul_floor(self, amount: u128) -> Result<u128, RatioError> {
        ratio(amount, self.atomics, DECIMAL_FRACTIONAL)
    }

    pub fn zero() -> (r: Decimal)
        ensures
            r.atomics == 0,
    {
        Decimal { atomics: 0 }
    }

    pub fn one() -> (r: Decimal)
        ensures
            r.atomics == DECIMAL_FRACTIONAL,
    {
        Decimal { atomics: DECIMAL_FRACTIONAL }
    }

    /// The decimal with the given number of atomic units.
    pub fn raw(atomics: u128) -> (r: Decimal)
        ensures
            r.atomics == atomics,
    {
        Decimal { atomics }
    }

    /// `x` hundredths.
    pub fn percent(x: u64) -> (r: Decimal)
        ensures
            r.atomics == x * 10_000_000_000_000_000,
    {
        let x_wide: u128 = x as u128;
        Decimal { atomics: x_wide * 10_000_000_000_000_000u128 }
    }

    pub fn is_zero(&self) -> (r: bool)
        ensures
            r == (self.atomics == 0),
    {
        self.atomics == 0
    }

    pub fn from_ratio(numerator: u128, denominator: u128) -> (r: Result<Decimal, RatioError>)
        ensures
            r == Decimal::spec_from_ratio(numerator, denominator),
    {
        match checked_multiply_ratio(numerator, DECIMAL_FRACTIONAL, denominator) {
            Ok(atomics) => Ok(Decimal { atomics }),
            Err(e) => Err(e),
        }
    }

    /// The sum, or `None` where it does not fit.
    pub fn checked_add(self, other: Decimal) -> (r: Option<Decimal>)
        ensures
            r == (if self.atomics + other.atomics > u128::MAX {
                None
            } else {
                Some(Decimal { atomics: (self.atomics + other.atomics) as u128 })
            }),
    {
        match self.atomics.checked_add(other.atomics) {
            Some(atomics) => Some(Decimal { atomics }),
            None => None,
        }
    }

    /// The difference, or `None` where `other` is the larger.
    pub fn checked_sub(self, other: Decimal) -> (r: Option<Decimal>)
        ensures
            r == (if self.atomics < other.atomics {
                None
            } else {
                Some(Decimal { atomics: (self.atomics - other.atomics) as u128 })
            }),
    {
        match self.atomics.checked_sub(other.atomics) {
            Some(atomics) => Some(Decimal { atomics }),
            None => None,
        }
    }

    /// `amount` times this decimal, rounded down; `Overflow` where the
    /// product does not fit.
    pub fn mul_floor(self, amount: u128) -> (r: Result<u128, RatioError>)
        ensures
            r == self.spec_mul_floor(amount),
            r != Err::<u128, RatioError>(RatioError::DivideByZero),
    {
        checked_multiply_ratio(amount, self.atomics, DECIMAL_FRACTIONAL)
    }
}

/// A ratio with a denominator other than zero is the floor of the exact
/// quotient: it is the one integer `q` with
/// `q * denominator <= value * numerator < (q + 1) * denominator`.
pub proof fn lemma_ratio_is_floor(value: u128, numerator: u128, denominator: u128)
    requires
        denominator != 0,
        ratio(value, numerator, denominator) is Ok,
    ensures
        ratio(value, numerator, denominator)->Ok_0 * denominator <= value * numerator,
        value * numerator < (ratio(value, numerator, denominator)->Ok_0 + 1) * denominator,
{
    let p: int = value * numerator;
    let d: int = denominator as int;
    assert(0 <= p) by (nonlinear_arith)
        requires
            p == value * numerator,
    ;
    vstd::arithmetic::div_mod::lemma_fundamental_div_mod(p, d);
    vstd::arithmetic::div_mod::lemma_mod_bound(p, d);
    assert((p / d) * d == d * (p / d)) by (nonlinear_arith);
    assert((p / d + 1) * d == d * (p / d) + d) by (nonlinear_arith);
}

} // verus!
