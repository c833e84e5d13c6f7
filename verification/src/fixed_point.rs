//! Decimal arithmetic on a fixed scale.
//!
//! A fixed-point number is held as its count of 10^-18 units, a ratio as its
//! count of millionths. The products are computed by `sp_runtime`, which
//! carries them out in 256 bits; this module states what they are.
use sp_runtime::traits::CheckedMul;
use sp_runtime::{FixedPointNumber, FixedU128, Permill};
use vstd::arithmetic::div_mod::lemma_div_multiples_vanish_quotient;
use vstd::prelude::*;

verus! {

/// One whole unit on the fixed-point scale.
pub const DECIMAL: u128 = 1_000_000_000_000_000_000;

/// The number of parts that make a ratio of one.
pub const RATIO_ACCURACY: u32 = 1_000_000;

/// What one part of a ratio is on the fixed-point scale.
pub const DECIMAL_PER_PART: u128 = 1_000_000_000_000;

/// The product of two fixed-point numbers, rounded toward zero.
pub open spec fn mul_fixed(a: int, b: int) -> int {
    a * b / (DECIMAL as int)
}

/// The share `parts / RATIO_ACCURACY` of `x`, rounded toward zero.
pub open spec fn mul_ratio(parts: int, x: int) -> int {
    x * parts / (RATIO_ACCURACY as int)
}

/// `v` as a 128-bit value, where it is one.
pub open spec fn checked(v: int) -> Option<u128> {
    if 0 <= v <= u128::MAX {
        Some(v as u128)
    } else {
        None
    }
}

/// Multiplies two fixed-point numbers with `FixedU128::checked_mul`.
///
/// Assumed of `sp_runtime`, not proved: the product is the exact product
/// divided by the scale and rounded toward zero, and the call yields `None`
/// exactly when that quotient does not fit in 128 bits.
#[verifier::external_body]
pub(crate) fn fixed_checked_mul(a: u128, b: u128) -> (product: Option<u128>)
    ensures
        product == checked(mul_fixed(a as int, b as int)),
{
    match FixedU128::from_inner(a).checked_mul(&FixedU128::from_inner(b)) {
        Some(product) => Some(product.into_inner()),
        None => None,
    }
}

/// Multiplies an integer by a fixed-point number with
/// `FixedPointNumber::checked_mul_int`.
///
/// Assumed of `sp_runtime`, not proved: the result is the exact product
/// divided by the scale and rounded toward zero, and the call yields `None`
/// exactly when that quotient does not fit in 128 bits.
#[verifier::external_body]
pub(crate) fn fixed_checked_mul_int(rate: u128, n: u128) -> (product: Option<u128>)
    ensures
        product == checked(mul_fixed(rate as int, n as int)),
{
    FixedU128::from_inner(rate).checked_mul_int(n)
}

/// Takes a share of `x` with `Permill::mul_floor`.
///
/// Assumed of `sp_runtime`, not proved: the result is `x` times the ratio,
/// rounded toward zero. A count of parts above one million would be read as
/// one million by `Permill::from_parts`, so it is left out.
#[verifier::external_body]
pub(crate) fn permill_mul_floor(parts: u32, x: u128) -> (share: u128)
    requires
        parts <= RATIO_ACCURACY,
    ensures
        share == mul_ratio(parts as int, x as int),
{
    Permill::from_parts(parts).mul_floor(x)
}

/// Converts a ratio to a fixed-point number with `FixedU128::from`.
///
/// Assumed of `sp_runtime`, not proved: the conversion rescales the count of
/// millionths to the fixed-point scale, which is exact.
#[verifier::external_body]
pub(crate) fn permill_into_fixed(parts: u32) -> (fixed: u128)
    requires
        parts <= RATIO_ACCURACY,
    ensures
        fixed == parts * DECIMAL_PER_PART,
{
    FixedU128::from(Permill::from_parts(parts)).into_inner()
}

/// A share between zero and one, in millionths.
#[derive(Clone, Copy, Debug)]
pub struct Ratio {
    parts: u32,
}

impl View for Ratio {
    type V = nat;

    closed spec fn view(&self) -> nat {
        self.parts as nat
    }
}

impl Ratio {
    #[verifier::type_invariant]
    spec fn within_one(self) -> bool {
        self.parts <= RATIO_ACCURACY
    }

    /// The ratio of `parts` millionths; more than a million parts count as one.
    pub fn from_parts(parts: u32) -> (ratio: Ratio)
        ensures
            ratio@ == (if parts <= RATIO_ACCURACY { parts } else { RATIO_ACCURACY }),
    {
        if parts <= RATIO_ACCURACY {
            Ratio { parts }
        } else {
            Ratio { parts: RATIO_ACCURACY }
        }
    }

    /// The number of millionths.
    pub fn deconstruct(&self) -> (parts: u32)
        ensures
            parts == self@,
            parts <= RATIO_ACCURACY,
    {
        proof {
            use_type_invariant(self);
        }
        self.parts
    }

    /// This share of `x`, rounded toward zero.
    pub fn mul_floor(&self, x: u128) -> (share: u128)
        ensures
            share == mul_ratio(self@ as int, x as int),
            share <= x,
    {
        proof {
            use_type_invariant(self);
            lemma_mul_ratio_bounded(self.parts as int, x as int);
        }
        permill_mul_floor(self.parts, x)
    }

    /// The ratio as a fixed-point number.
    pub fn into_fixed(&self) -> (fixed: u128)
        ensures
            fixed == self@ * DECIMAL_PER_PART,
            fixed <= DECIMAL,
    {
        proof {
            use_type_invariant(self);
            assert(self.parts * DECIMAL_PER_PART <= RATIO_ACCURACY * DECIMAL_PER_PART)
                by (nonlinear_arith)
                requires
                    self.parts <= RATIO_ACCURACY,
            ;
        }
        permill_into_fixed(self.parts)
    }
}

/// A share of at most one of a quantity is at most the quantity.
pub proof fn lemma_mul_ratio_bounded(parts: int, x: int)
    requires
        0 <= parts <= RATIO_ACCURACY,
        0 <= x,
    ensures
        0 <= mul_ratio(parts, x) <= x,
{
    assert(0 <= x * parts <= x * 1_000_000) by (nonlinear_arith)
        requires
            0 <= parts <= 1_000_000,
            0 <= x,
    ;
    assert(0 <= (x * parts) / 1_000_000 <= x) by (nonlinear_arith)
        requires
            0 <= x * parts <= x * 1_000_000,
    ;
}

/// Multiplying by a ratio on the fixed-point scale takes that share.
pub proof fn lemma_mul_fixed_by_ratio(parts: int, x: int)
    requires
        0 <= parts,
        0 <= x,
    ensures
        mul_fixed(x, parts * DECIMAL_PER_PART) == mul_ratio(parts, x),
{
    assert(x * (parts * 1_000_000_000_000) == 1_000_000_000_000 * (x * parts))
        by (nonlinear_arith);
    assert(0 <= x * parts) by (nonlinear_arith)
        requires
            0 <= parts,
            0 <= x,
    ;
    lemma_div_multiples_vanish_quotient(1_000_000_000_000, x * parts, 1_000_000);
}

} // verus!
