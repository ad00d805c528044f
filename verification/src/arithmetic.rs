//! Conversions between fixed-point numbers and balances.
use vstd::prelude::*;
use crate::fixed::{spec_saturate_i128, Fixed, UFixed};

verus! {

/// A `UFixed` as a `Fixed`, saturating at `i128::MAX`. Lossy for values above it.
pub fn fixed_i128_from_fixed_u128(f: UFixed) -> (r: Fixed)
    ensures
        r.inner == spec_saturate_i128(f.inner as int),
{
    if f.inner > i128::MAX as u128 {
        Fixed::from_inner(i128::MAX)
    } else {
        Fixed::from_inner(f.inner as i128)
    }
}

/// `f` times `signum`, saturating at the bounds.
pub fn fixed_i128_mul_signum(f: Fixed, signum: i128) -> (r: Fixed)
    ensures
        r.inner == spec_saturate_i128(f.inner * signum),
{
    match f.inner.checked_mul(signum) {
        Some(v) => Fixed::from_inner(v),
        None => {
            proof {
                let a = f.inner as int;
                let b = signum as int;
                if (a < 0) == (b < 0) {
                    assert(a * b >= 0) by (nonlinear_arith)
                        requires
                            (a < 0) == (b < 0),
                    ;
                } else {
                    assert(a * b <= 0) by (nonlinear_arith)
                        requires
                            (a < 0) != (b < 0),
                    ;
                }
            }
            if (f.inner < 0) == (signum < 0) {
                Fixed::from_inner(i128::MAX)
            } else {
                Fixed::from_inner(i128::MIN)
            }
        },
    }
}

/// A balance as a fixed-point amount with the same inner value, saturating at `i128::MAX`.
pub fn fixed_i128_from_u128(u: u128) -> (r: Fixed)
    ensures
        r.inner == spec_saturate_i128(u as int),
{
    if u > i128::MAX as u128 {
        Fixed::from_inner(i128::MAX)
    } else {
        Fixed::from_inner(u as i128)
    }
}

/// The balance of a fixed-point amount with the same inner value; zero if negative.
pub open spec fn spec_u128_from_fixed(f: Fixed) -> u128 {
    if f.inner < 0 {
        0
    } else {
        f.inner as u128
    }
}

/// A fixed-point amount as a balance with the same inner value; zero if negative.
pub fn u128_from_fixed_i128(f: Fixed) -> (r: u128)
    ensures
        r == spec_u128_from_fixed(f),
{
    if f.is_negative() {
        return 0u128;
    }
    f.inner as u128
}

/// Converting a balance that fits in an `i128` to a fixed-point amount and back gives the
/// balance.
pub proof fn lemma_balance_fixed_round_trip(u: u128)
    requires
        u <= i128::MAX,
    ensures
        spec_u128_from_fixed(Fixed { inner: spec_saturate_i128(u as int) }) == u,
{
}

} // verus!
