//! Fixed point arithmetic of the delivery fee factor.
//!
//! A factor is carried as the inner value of an `sp_runtime::FixedU128`: the
//! real number `inner / FIXED_DIV`. Every operation is performed by
//! `sp_runtime` itself; the wrappers below state what its source computes.

use sp_runtime::traits::Saturating;
use sp_runtime::{FixedPointNumber, FixedU128};
use vstd::prelude::*;

verus! {

/// The accuracy of `FixedU128`: the inner value of the number one.
pub const FIXED_DIV: u128 = 1_000_000_000_000_000_000;

/// `a * b / FIXED_DIV`, rounded down, saturated at `u128::MAX`.
pub open spec fn spec_fixed_saturating_mul(a: u128, b: u128) -> u128 {
    if (a * b) / (FIXED_DIV as int) > u128::MAX {
        u128::MAX
    } else {
        ((a * b) / (FIXED_DIV as int)) as u128
    }
}

/// `a + b`, saturated at `u128::MAX`.
pub open spec fn spec_fixed_saturating_add(a: u128, b: u128) -> u128 {
    if a + b > u128::MAX {
        u128::MAX
    } else {
        (a + b) as u128
    }
}

/// `a * FIXED_DIV / b`, rounded down.
pub open spec fn spec_fixed_div(a: u128, b: u128) -> int
    recommends
        b != 0,
{
    (a * FIXED_DIV) / (b as int)
}

/// `DIV * n / d` rounded to the nearest integer, ties rounded down.
pub open spec fn spec_fixed_from_rational(n: u128, d: u128) -> int
    recommends
        d != 0,
{
    let q = (FIXED_DIV * n) / (d as int);
    let r = (FIXED_DIV * n) % (d as int);
    if r > d / 2 {
        q + 1
    } else {
        q
    }
}

/// The integer `n` multiplied by the factor `f`: `f * n / FIXED_DIV`,
/// rounded down and saturated at `u128::MAX`.
pub open spec fn spec_fixed_saturating_mul_int(f: u128, n: u128) -> u128 {
    spec_fixed_saturating_mul(f, n)
}

/// `FixedU128::saturating_mul` (through `Saturating`): the product of two
/// factors, rounded down to the accuracy of `FixedU128` and saturated at the
/// largest value.
#[verifier::external_body]
pub(crate) fn fixed_saturating_mul(a: u128, b: u128) -> (r: u128)
    ensures
        r == spec_fixed_saturating_mul(a, b),
{
    FixedU128::from_inner(a).saturating_mul(FixedU128::from_inner(b)).into_inner()
}

/// `FixedU128::saturating_add` (through `Saturating`): the sum of the inner
/// values, saturated at the largest value.
#[verifier::external_body]
pub(crate) fn fixed_saturating_add(a: u128, b: u128) -> (r: u128)
    ensures
        r == spec_fixed_saturating_add(a, b),
{
    FixedU128::from_inner(a).saturating_add(FixedU128::from_inner(b)).into_inner()
}

/// `FixedU128 / FixedU128` (`ops::Div`): the quotient rounded down. It panics
/// on a zero divisor and on a quotient above the largest value, which
/// `requires` leaves out.
#[verifier::external_body]
pub(crate) fn fixed_div(a: u128, b: u128) -> (r: u128)
    requires
        b != 0,
        spec_fixed_div(a, b) <= u128::MAX,
    ensures
        r == spec_fixed_div(a, b),
{
    (FixedU128::from_inner(a) / FixedU128::from_inner(b)).into_inner()
}

/// `FixedU128::from_u32`: the integer `n` as a factor. It cannot overflow for
/// a `u32`.
#[verifier::external_body]
pub(crate) fn fixed_from_u32(n: u32) -> (r: u128)
    ensures
        r == n * FIXED_DIV,
{
    FixedU128::from_u32(n).into_inner()
}

/// `FixedU128::from_rational`: the factor `n / d`, rounded to the nearest
/// representable value, ties rounded down. It panics on `d == 0` and when the
/// result does not fit, which `requires` leaves out.
#[verifier::external_body]
pub(crate) fn fixed_from_rational(n: u128, d: u128) -> (r: u128)
    requires
        d != 0,
        spec_fixed_from_rational(n, d) <= u128::MAX,
    ensures
        r == spec_fixed_from_rational(n, d),
{
    FixedU128::from_rational(n, d).into_inner()
}

/// `FixedPointNumber::saturating_mul_int` for `u128`: the integer `n` scaled
/// by the factor `f`, rounded down and saturated at `u128::MAX`.
#[verifier::external_body]
pub(crate) fn fixed_saturating_mul_int(f: u128, n: u128) -> (r: u128)
    ensures
        r == spec_fixed_saturating_mul_int(f, n),
{
    FixedU128::from_inner(f).saturating_mul_int(n)
}

} // verus!
