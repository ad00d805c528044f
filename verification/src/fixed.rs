//! Fixed-point numbers with 18 decimal places, and parts-per-million ratios.
//!
//! `Fixed` is a signed number stored as `inner / 10^18`, `UFixed` (alias `Price`) is its
//! unsigned counterpart, and `Permill` is a ratio stored as `parts / 10^6`.
//! Multiplication and division go through `sp_arithmetic`; additions, subtractions and
//! comparisons act on the inner integers.
use vstd::prelude::*;
use sp_arithmetic::traits::{CheckedDiv, CheckedMul, Saturating};
use sp_arithmetic::FixedPointNumber;

verus! {

/// The scale of `Fixed` and `UFixed`: one unit is `10^18` inner parts.
pub const ACCURACY: u128 = 1_000_000_000_000_000_000u128;

/// The scale of `Permill`: one whole is `10^6` parts.
pub const PERMILL_ACCURACY: u32 = 1_000_000u32;

/// `2^127`, the magnitude of `i128::MIN`.
pub open spec fn two_pow_127() -> nat {
    0x8000_0000_0000_0000_0000_0000_0000_0000nat
}

/// Absolute value of an integer, as a natural number.
pub open spec fn abs_nat(x: int) -> nat {
    if x < 0 {
        (-x) as nat
    } else {
        x as nat
    }
}

/// The value `a * b / c` as `sp_arithmetic`'s `multiply_by_rational` computes it (a zero `c`
/// counts as one): exact when `c` divides `a` or `b`, the floor when the product fits in
/// `u128` or `c` fits in 32 bits, and otherwise rounded to the nearest with halves rounded
/// down. The caller reports an error where the value exceeds `u128::MAX`.
pub open spec fn mul_div(a: nat, b: nat, c: nat) -> nat {
    let c1: nat = if c == 0 { 1 } else { c };
    let p: nat = a * b;
    if a == 0 || b == 0 {
        0
    } else if p <= u128::MAX || a % c1 == 0 || b % c1 == 0 || c1 < 0x1_0000_0000 {
        p / c1
    } else if p % c1 > c1 / 2 {
        p / c1 + 1
    } else {
        p / c1
    }
}

/// Signs a magnitude the way `sp_arithmetic` turns a 129-bit intermediate into an `i128`:
/// `None` where it does not fit.
pub open spec fn signed_from_magnitude(v: nat, negative: bool) -> Option<i128> {
    if negative {
        if v <= two_pow_127() {
            Some((-(v as int)) as i128)
        } else {
            None
        }
    } else {
        if v <= i128::MAX {
            Some(v as i128)
        } else {
            None
        }
    }
}

/// Inner value of the product of two signed fixed-point numbers.
pub open spec fn spec_fixed_mul(a: i128, b: i128) -> Option<i128> {
    let v = mul_div(abs_nat(a as int), abs_nat(b as int), ACCURACY as nat);
    if v > u128::MAX {
        None
    } else {
        signed_from_magnitude(v, (a < 0) != (b < 0))
    }
}

/// Inner value of the quotient of two signed fixed-point numbers.
pub open spec fn spec_fixed_div(a: i128, b: i128) -> Option<i128> {
    if b == 0 {
        None
    } else {
        let v = mul_div(abs_nat(a as int), ACCURACY as nat, abs_nat(b as int));
        if v > u128::MAX {
            None
        } else {
            signed_from_magnitude(v, (a < 0) != (b < 0))
        }
    }
}

/// Inner value of the saturating product of two signed fixed-point numbers.
pub open spec fn spec_fixed_saturating_mul(a: i128, b: i128) -> i128 {
    match spec_fixed_mul(a, b) {
        Some(v) => v,
        None => if (a < 0) != (b < 0) {
            i128::MIN
        } else {
            i128::MAX
        },
    }
}

/// Inner value of the quotient of two unsigned fixed-point numbers.
pub open spec fn spec_ufixed_div(a: u128, b: u128) -> Option<u128> {
    if b == 0 {
        None
    } else {
        let v = mul_div(a as nat, ACCURACY as nat, b as nat);
        if v > u128::MAX {
            None
        } else {
            Some(v as u128)
        }
    }
}

/// An unsigned fixed-point number times an integer, as an integer.
pub open spec fn spec_ufixed_mul_int(a: u128, n: u128) -> Option<u128> {
    let v = mul_div(a as nat, n as nat, ACCURACY as nat);
    if v > u128::MAX {
        None
    } else {
        Some(v as u128)
    }
}

/// Inner value of the unsigned fixed-point number `n / d`.
pub open spec fn spec_ufixed_from_rational(n: u128, d: u128) -> Option<u128> {
    if d == 0 {
        None
    } else {
        let v = mul_div(n as nat, ACCURACY as nat, d as nat);
        if v > u128::MAX {
            None
        } else {
            Some(v as u128)
        }
    }
}

/// `parts / 10^6` of `x`, rounded to the nearest with halves rounded down.
pub open spec fn spec_permill_mul(parts: nat, x: nat) -> nat {
    let m: nat = 1_000_000;
    let rem: nat = (x % m) * parts;
    (x / m) * parts + rem / m + (if rem % m > m / 2 { 1nat } else { 0nat })
}

/// Multiplying by a fixed-point number between zero and one never overflows, and the
/// magnitude does not grow.
pub proof fn lemma_mul_at_most_one(a: i128, b: i128)
    requires
        0 <= b <= ACCURACY,
    ensures
        spec_fixed_mul(a, b) is Some,
        abs_nat(spec_fixed_mul(a, b)->0 as int) <= abs_nat(a as int),
{
    let x = abs_nat(a as int);
    let y = b as nat;
    let c: nat = ACCURACY as nat;
    let p: nat = x * y;
    assert(p <= x * c) by (nonlinear_arith)
        requires
            y <= c,
            p == x * y,
    ;
    assert(p / c <= x) by (nonlinear_arith)
        requires
            p <= x * c,
            c > 0,
    ;
    if y < c && x > 0 {
        assert(p < x * c) by (nonlinear_arith)
            requires
                y < c,
                x > 0,
                p == x * y,
        ;
        assert(p / c < x) by (nonlinear_arith)
            requires
                p < x * c,
                c > 0,
        ;
    }
    if y == c {
        assert(y % c == 0) by (nonlinear_arith)
            requires
                y == c,
                c > 0,
        ;
        assert(p / c == x) by (nonlinear_arith)
            requires
                p == x * y,
                y == c,
                c > 0,
        ;
    }
    let v = mul_div(x, y, c);
    assert(v <= x);
    assert(x <= two_pow_127());
}

/// Dividing by a whole number from two to a hundred never overflows.
pub proof fn lemma_div_by_whole(a: i128, v: int)
    requires
        2 <= v <= 100,
    ensures
        spec_fixed_div(a, (v * ACCURACY) as i128) is Some,
{
    let x = abs_nat(a as int);
    let k: nat = ACCURACY as nat;
    let c: nat = (v * k) as nat;
    let p: nat = x * k;
    assert(c > 0) by (nonlinear_arith)
        requires
            v >= 2,
            k > 0,
            c == v * k,
    ;
    assert(abs_nat(((v * ACCURACY) as i128) as int) == c);
    let q = p / c;
    assert(q * c <= p) by (nonlinear_arith)
        requires
            c > 0,
            q == p / c,
    ;
    assert(q * v <= x) by (nonlinear_arith)
        requires
            q * c <= p,
            c == v * k,
            p == x * k,
            k > 0,
    ;
    assert(2 * q <= x) by (nonlinear_arith)
        requires
            q * v <= x,
            v >= 2,
            q >= 0,
    ;
    if p > u128::MAX {
        assert(x >= 2) by (nonlinear_arith)
            requires
                p == x * k,
                p > u128::MAX,
                k == 1_000_000_000_000_000_000,
        ;
    }
    let d = mul_div(x, k, c);
    assert(d <= x);
    assert(x <= two_pow_127());
}

/// `FixedI128::checked_mul` of `sp_arithmetic`, on inner values: the magnitudes are
/// multiplied by `multiply_by_rational(|a|, |b|, 10^18)` and the sign is restored; `None`
/// where the result does not fit in an `i128`.
#[verifier::external_body]
fn fixed_i128_checked_mul(a: i128, b: i128) -> (r: Option<i128>)
    ensures
        r == spec_fixed_mul(a, b),
{
    sp_arithmetic::FixedI128::from_inner(a).checked_mul(&sp_arithmetic::FixedI128::from_inner(b)).map(
        |x| x.into_inner(),
    )
}

/// `FixedI128::checked_div` of `sp_arithmetic`, on inner values: `None` for a zero divisor,
/// else `multiply_by_rational(|a|, 10^18, |b|)` with the sign restored, `None` where it does
/// not fit in an `i128`.
#[verifier::external_body]
fn fixed_i128_checked_div(a: i128, b: i128) -> (r: Option<i128>)
    ensures
        r == spec_fixed_div(a, b),
{
    sp_arithmetic::FixedI128::from_inner(a).checked_div(&sp_arithmetic::FixedI128::from_inner(b)).map(
        |x| x.into_inner(),
    )
}

/// `FixedI128::saturating_mul` of `sp_arithmetic`, on inner values: `checked_mul`, or the
/// bound with the sign of the product where that fails.
#[verifier::external_body]
fn fixed_i128_saturating_mul(a: i128, b: i128) -> (r: i128)
    ensures
        r == spec_fixed_saturating_mul(a, b),
{
    sp_arithmetic::FixedI128::from_inner(a).saturating_mul(sp_arithmetic::FixedI128::from_inner(b)).into_inner()
}

/// `FixedU128::checked_div` of `sp_arithmetic`, on inner values: `None` for a zero divisor,
/// else `multiply_by_rational(a, 10^18, b)`, `None` where it exceeds `u128::MAX`.
#[verifier::external_body]
fn fixed_u128_checked_div(a: u128, b: u128) -> (r: Option<u128>)
    ensures
        r == spec_ufixed_div(a, b),
{
    sp_arithmetic::FixedU128::from_inner(a).checked_div(&sp_arithmetic::FixedU128::from_inner(b)).map(
        |x| x.into_inner(),
    )
}

/// `FixedU128::checked_mul_int` of `sp_arithmetic` for a `u128`:
/// `multiply_by_rational(a, n, 10^18)`, `None` where it exceeds `u128::MAX`.
#[verifier::external_body]
fn fixed_u128_checked_mul_int(a: u128, n: u128) -> (r: Option<u128>)
    ensures
        r == spec_ufixed_mul_int(a, n),
{
    sp_arithmetic::FixedU128::from_inner(a).checked_mul_int(n)
}

/// `FixedU128::checked_from_rational` of `sp_arithmetic` for two `u128`: `None` for a zero
/// denominator, else `multiply_by_rational(n, 10^18, d)`, `None` where it exceeds
/// `u128::MAX`.
#[verifier::external_body]
fn fixed_u128_checked_from_rational(n: u128, d: u128) -> (r: Option<u128>)
    ensures
        r == spec_ufixed_from_rational(n, d),
{
    sp_arithmetic::FixedU128::checked_from_rational(n, d).map(|x: sp_arithmetic::FixedU128| x.into_inner())
}

/// `Permill * u128` of `sp_arithmetic`: `(x / 10^6) * parts` plus the share of the
/// remainder, rounded to the nearest with halves rounded down.
#[verifier::external_body]
fn permill_mul_u128(parts: u32, x: u128) -> (r: u128)
    requires
        parts <= 1_000_000,
    ensures
        r == spec_permill_mul(parts as nat, x as nat),
{
    sp_arithmetic::Permill::from_parts(parts) * x
}

/// A signed fixed-point number `inner / 10^18`.
#[derive(Clone, Copy, Debug, PartialEq, Eq, Structural)]
pub struct Fixed {
    pub inner: i128,
}

/// An unsigned fixed-point number `inner / 10^18`.
#[derive(Clone, Copy, Debug, PartialEq, Eq, Structural)]
pub struct UFixed {
    pub inner: u128,
}

/// Prices are unsigned fixed-point numbers.
pub type Price = UFixed;

/// A ratio `parts / 10^6`, never above one.
#[derive(Clone, Copy, Debug, PartialEq, Eq, Structural)]
pub struct Permill {
    pub(crate) parts: u32,
}

impl Fixed {
    pub fn from_inner(inner: i128) -> (r: Fixed)
        ensures
            r.inner == inner,
    {
        Fixed { inner }
    }

    pub fn into_inner(self) -> (r: i128)
        ensures
            r == self.inner,
    {
        self.inner
    }

    pub fn zero() -> (r: Fixed)
        ensures
            r.inner == 0,
    {
        Fixed { inner: 0 }
    }

    pub fn one() -> (r: Fixed)
        ensures
            r.inner == ACCURACY,
    {
        Fixed { inner: 1_000_000_000_000_000_000i128 }
    }

    pub fn max_value() -> (r: Fixed)
        ensures
            r.inner == i128::MAX,
    {
        Fixed { inner: i128::MAX }
    }

    pub fn min_value() -> (r: Fixed)
        ensures
            r.inner == i128::MIN,
    {
        Fixed { inner: i128::MIN }
    }

    pub fn is_positive(&self) -> (r: bool)
        ensures
            r == (self.inner > 0),
    {
        self.inner > 0
    }

    pub fn is_negative(&self) -> (r: bool)
        ensures
            r == (self.inner < 0),
    {
        self.inner < 0
    }

    pub fn is_zero(&self) -> (r: bool)
        ensures
            r == (self.inner == 0),
    {
        self.inner == 0
    }

    pub fn checked_add(&self, other: &Fixed) -> (r: Option<Fixed>)
        ensures
            r is Some <==> i128::MIN <= self.inner + other.inner <= i128::MAX,
            r is Some ==> r->0.inner == self.inner + other.inner,
    {
        match self.inner.checked_add(other.inner) {
            Some(v) => Some(Fixed { inner: v }),
            None => None,
        }
    }

    pub fn checked_sub(&self, other: &Fixed) -> (r: Option<Fixed>)
        ensures
            r is Some <==> i128::MIN <= self.inner - other.inner <= i128::MAX,
            r is Some ==> r->0.inner == self.inner - other.inner,
    {
        match self.inner.checked_sub(other.inner) {
            Some(v) => Some(Fixed { inner: v }),
            None => None,
        }
    }

    pub fn saturating_add(&self, other: &Fixed) -> (r: Fixed)
        ensures
            r.inner == spec_saturate_i128(self.inner + other.inner),
    {
        match self.inner.checked_add(other.inner) {
            Some(v) => Fixed { inner: v },
            None => if other.inner > 0 {
                Fixed { inner: i128::MAX }
            } else {
                Fixed { inner: i128::MIN }
            },
        }
    }

    pub fn saturating_sub(&self, other: &Fixed) -> (r: Fixed)
        ensures
            r.inner == spec_saturate_i128(self.inner - other.inner),
    {
        match self.inner.checked_sub(other.inner) {
            Some(v) => Fixed { inner: v },
            None => if other.inner < 0 {
                Fixed { inner: i128::MAX }
            } else {
                Fixed { inner: i128::MIN }
            },
        }
    }

    /// Absolute value; `i128::MIN` saturates to `i128::MAX`.
    pub fn saturating_abs(&self) -> (r: Fixed)
        ensures
            r.inner == spec_saturate_i128(abs_nat(self.inner as int) as int),
    {
        if self.inner >= 0 {
            *self
        } else if self.inner == i128::MIN {
            Fixed { inner: i128::MAX }
        } else {
            Fixed { inner: -self.inner }
        }
    }

    pub fn checked_mul(&self, other: &Fixed) -> (r: Option<Fixed>)
        ensures
            r is Some <==> spec_fixed_mul(self.inner, other.inner) is Some,
            r is Some ==> r->0.inner == spec_fixed_mul(self.inner, other.inner)->0,
    {
        match fixed_i128_checked_mul(self.inner, other.inner) {
            Some(v) => Some(Fixed { inner: v }),
            None => None,
        }
    }

    pub fn checked_div(&self, other: &Fixed) -> (r: Option<Fixed>)
        ensures
            r is Some <==> spec_fixed_div(self.inner, other.inner) is Some,
            r is Some ==> r->0.inner == spec_fixed_div(self.inner, other.inner)->0,
    {
        match fixed_i128_checked_div(self.inner, other.inner) {
            Some(v) => Some(Fixed { inner: v }),
            None => None,
        }
    }

    pub fn saturating_mul(&self, other: &Fixed) -> (r: Fixed)
        ensures
            r.inner == spec_fixed_saturating_mul(self.inner, other.inner),
    {
        Fixed { inner: fixed_i128_saturating_mul(self.inner, other.inner) }
    }

    /// `n` as a fixed-point number, saturating at the bounds.
    pub fn saturating_from_integer(n: i128) -> (r: Fixed)
        ensures
            r.inner == spec_saturate_i128(n * ACCURACY),
    {
        match n.checked_mul(1_000_000_000_000_000_000i128) {
            Some(v) => Fixed { inner: v },
            None => if n < 0 {
                Fixed { inner: i128::MIN }
            } else {
                Fixed { inner: i128::MAX }
            },
        }
    }

    /// The fixed-point number equal to a `Permill` ratio.
    pub fn from_permill(p: Permill) -> (r: Fixed)
        ensures
            r.inner == p.spec_parts() * 1_000_000_000_000,
            0 <= r.inner <= ACCURACY,
    {
        proof {
            use_type_invariant(&p);
        }
        Fixed { inner: (p.parts as i128) * 1_000_000_000_000i128 }
    }
}

/// Clamps an integer into the range of `i128`.
pub open spec fn spec_saturate_i128(x: int) -> i128 {
    if x > i128::MAX {
        i128::MAX
    } else if x < i128::MIN {
        i128::MIN
    } else {
        x as i128
    }
}

/// Clamps an integer into the range of `u128`.
pub open spec fn spec_saturate_u128(x: int) -> u128 {
    if x > u128::MAX {
        u128::MAX
    } else if x < 0 {
        0
    } else {
        x as u128
    }
}

impl UFixed {
    pub fn from_inner(inner: u128) -> (r: UFixed)
        ensures
            r.inner == inner,
    {
        UFixed { inner }
    }

    pub fn into_inner(self) -> (r: u128)
        ensures
            r == self.inner,
    {
        self.inner
    }

    pub fn zero() -> (r: UFixed)
        ensures
            r.inner == 0,
    {
        UFixed { inner: 0 }
    }

    pub fn one() -> (r: UFixed)
        ensures
            r.inner == ACCURACY,
    {
        UFixed { inner: ACCURACY }
    }

    pub fn is_zero(&self) -> (r: bool)
        ensures
            r == (self.inner == 0),
    {
        self.inner == 0
    }

    pub fn checked_add(&self, other: &UFixed) -> (r: Option<UFixed>)
        ensures
            r is Some <==> self.inner + other.inner <= u128::MAX,
            r is Some ==> r->0.inner == self.inner + other.inner,
    {
        match self.inner.checked_add(other.inner) {
            Some(v) => Some(UFixed { inner: v }),
            None => None,
        }
    }

    pub fn checked_sub(&self, other: &UFixed) -> (r: Option<UFixed>)
        ensures
            r is Some <==> other.inner <= self.inner,
            r is Some ==> r->0.inner == self.inner - other.inner,
    {
        match self.inner.checked_sub(other.inner) {
            Some(v) => Some(UFixed { inner: v }),
            None => None,
        }
    }

    pub fn saturating_add(&self, other: &UFixed) -> (r: UFixed)
        ensures
            r.inner == spec_saturate_u128(self.inner + other.inner),
    {
        UFixed { inner: self.inner.saturating_add(other.inner) }
    }

    pub fn saturating_sub(&self, other: &UFixed) -> (r: UFixed)
        ensures
            r.inner == spec_saturate_u128(self.inner - other.inner),
    {
        UFixed { inner: self.inner.saturating_sub(other.inner) }
    }

    pub fn checked_div(&self, other: &UFixed) -> (r: Option<UFixed>)
        ensures
            r is Some <==> spec_ufixed_div(self.inner, other.inner) is Some,
            r is Some ==> r->0.inner == spec_ufixed_div(self.inner, other.inner)->0,
    {
        match fixed_u128_checked_div(self.inner, other.inner) {
            Some(v) => Some(UFixed { inner: v }),
            None => None,
        }
    }

    /// `self * n` for an integer `n`.
    pub fn checked_mul_int(&self, n: u128) -> (r: Option<u128>)
        ensures
            r == spec_ufixed_mul_int(self.inner, n),
    {
        fixed_u128_checked_mul_int(self.inner, n)
    }

    /// The fixed-point number `n / d`.
    pub fn checked_from_rational(n: u128, d: u128) -> (r: Option<UFixed>)
        ensures
            r is Some <==> spec_ufixed_from_rational(n, d) is Some,
            r is Some ==> r->0.inner == spec_ufixed_from_rational(n, d)->0,
    {
        match fixed_u128_checked_from_rational(n, d) {
            Some(v) => Some(UFixed { inner: v }),
            None => None,
        }
    }

    /// The fixed-point number equal to a `Permill` ratio.
    pub fn from_permill(p: Permill) -> (r: UFixed)
        ensures
            r.inner == p.spec_parts() * 1_000_000_000_000,
    {
        proof {
            use_type_invariant(&p);
        }
        UFixed { inner: (p.parts as u128) * 1_000_000_000_000u128 }
    }
}

impl Permill {
    #[verifier::type_invariant]
    spec fn permill_wf(self) -> bool {
        self.parts <= 1_000_000
    }

    /// The number of parts per million.
    pub closed spec fn spec_parts(self) -> u32 {
        self.parts
    }

    /// `parts / 10^6`, capped at one.
    pub fn from_parts(parts: u32) -> (r: Permill)
        ensures
            r.spec_parts() == if parts <= 1_000_000 { parts } else { 1_000_000 },
    {
        if parts <= PERMILL_ACCURACY {
            Permill { parts }
        } else {
            Permill { parts: PERMILL_ACCURACY }
        }
    }

    /// `x / 100`, capped at one.
    pub fn from_percent(x: u32) -> (r: Permill)
        ensures
            r.spec_parts() == (if x <= 100 { x } else { 100 }) * 10_000,
    {
        if x <= 100 {
            Permill { parts: x * 10_000 }
        } else {
            Permill { parts: PERMILL_ACCURACY }
        }
    }

    /// The zero ratio.
    pub closed spec fn spec_zero() -> Permill {
        Permill { parts: 0 }
    }

    pub fn zero() -> (r: Permill)
        ensures
            r.spec_parts() == 0,
            r == Permill::spec_zero(),
    {
        Permill { parts: 0 }
    }

    pub fn one() -> (r: Permill)
        ensures
            r.spec_parts() == 1_000_000,
    {
        Permill { parts: PERMILL_ACCURACY }
    }

    pub fn deconstruct(&self) -> (r: u32)
        ensures
            r == self.spec_parts(),
            r <= 1_000_000,
    {
        proof {
            use_type_invariant(self);
        }
        self.parts
    }

    pub fn is_zero(&self) -> (r: bool)
        ensures
            r == (self.spec_parts() == 0),
    {
        self.parts == 0
    }

    /// `self * x`, rounded to the nearest with halves rounded down.
    pub fn mul_u128(&self, x: u128) -> (r: u128)
        ensures
            r == spec_permill_mul(self.spec_parts() as nat, x as nat),
    {
        proof {
            use_type_invariant(self);
        }
        permill_mul_u128(self.parts, x)
    }

    /// The larger of two ratios.
    pub fn max(&self, other: &Permill) -> (r: Permill)
        ensures
            r == if self.spec_parts() >= other.spec_parts() { *self } else { *other },
    {
        if self.parts >= other.parts {
            *self
        } else {
            *other
        }
    }
}

} // verus!
