//! Fixed-point numbers: a scalar whose arithmetic is exact integer
//! arithmetic on a raw value, rounded toward zero and saturating at the
//! bounds of the raw value.

use crate::scalar::Scalar;
use vstd::prelude::*;

verus! {

/// The raw value of one: two to the power of 32.
pub const SCALE: i64 = 0x1_0000_0000;

/// A number with 31 whole bits, 32 fraction bits and a sign: the raw value
/// divided by [`SCALE`].
#[derive(Clone, Copy, Debug, PartialEq, Eq, Structural)]
pub struct Fixed {
    pub raw: i64,
}

/// The `i64` nearest to `x`.
pub open spec fn clamp(x: int) -> i64 {
    if x < i64::MIN {
        i64::MIN
    } else if x > i64::MAX {
        i64::MAX
    } else {
        x as i64
    }
}

/// The distance of `x` from zero.
pub open spec fn magnitude(x: int) -> nat {
    if x < 0 {
        (-x) as nat
    } else {
        x as nat
    }
}

/// The number of the given magnitude and sign.
pub open spec fn signed(m: nat, negative: bool) -> int {
    if negative {
        -(m as int)
    } else {
        m as int
    }
}

/// The raw value of a product: the exact product, rounded toward zero to a
/// multiple of the unit, then clamped.
pub open spec fn mul_raw(a: int, b: int) -> i64 {
    clamp(signed((magnitude(a) * magnitude(b) / (SCALE as nat)) as nat, (a < 0) != (b < 0)))
}

/// The raw value of a quotient: the exact quotient, rounded toward zero to a
/// multiple of the unit, then clamped. A quotient by zero is the bound on the
/// side of the dividend, or zero for the dividend zero.
pub open spec fn div_raw(a: int, b: int) -> i64 {
    if b == 0 {
        if a > 0 {
            i64::MAX
        } else if a < 0 {
            i64::MIN
        } else {
            0
        }
    } else {
        clamp(signed((magnitude(a) * (SCALE as nat) / magnitude(b)) as nat, (a < 0) != (b < 0)))
    }
}

/// The squares of `base`, `k` times over: `base` to the power of two to the
/// power of `k`.
pub open spec fn squared_over(base: Fixed, k: nat) -> Fixed
    decreases k,
{
    if k == 0 {
        base
    } else {
        let h = squared_over(base, (k - 1) as nat);
        h.mul_spec(h)
    }
}

/// The `i64` nearest to `x`.
fn saturate(x: i128) -> (r: i64)
    ensures
        r == clamp(x as int),
{
    if x < -0x8000_0000_0000_0000 {
        -0x8000_0000_0000_0000
    } else if x > 0x7fff_ffff_ffff_ffff {
        0x7fff_ffff_ffff_ffff
    } else {
        x as i64
    }
}

/// The distance of `x` from zero.
fn magnitude_of(x: i64) -> (r: u128)
    ensures
        r == magnitude(x as int),
        r <= 0x8000_0000_0000_0000,
{
    if x < 0 {
        (-(x as i128)) as u128
    } else {
        x as u128
    }
}

/// The `i64` nearest to the number of magnitude `m` and the given sign.
fn with_sign(m: u128, negative: bool) -> (r: i64)
    ensures
        r == clamp(signed(m as nat, negative)),
{
    if negative {
        if m >= 0x8000_0000_0000_0000 {
            -0x8000_0000_0000_0000
        } else {
            -(m as i64)
        }
    } else {
        if m > 0x7fff_ffff_ffff_ffff {
            0x7fff_ffff_ffff_ffff
        } else {
            m as i64
        }
    }
}

impl Fixed {
    /// The whole number `n`.
    pub fn from_int(n: i32) -> (r: Fixed)
        ensures
            r.raw == n * SCALE,
    {
        Fixed { raw: (n as i64) * SCALE }
    }
}

impl Scalar for Fixed {
    open spec fn zero_spec() -> Self {
        Fixed { raw: 0 }
    }

    open spec fn one_spec() -> Self {
        Fixed { raw: SCALE }
    }

    open spec fn from_usize_spec(n: usize) -> Self {
        Fixed { raw: clamp(n * SCALE) }
    }

    open spec fn add_spec(self, rhs: Self) -> Self {
        Fixed { raw: clamp(self.raw + rhs.raw) }
    }

    open spec fn sub_spec(self, rhs: Self) -> Self {
        Fixed { raw: clamp(self.raw - rhs.raw) }
    }

    open spec fn mul_spec(self, rhs: Self) -> Self {
        Fixed { raw: mul_raw(self.raw as int, rhs.raw as int) }
    }

    open spec fn div_spec(self, rhs: Self) -> Self {
        Fixed { raw: div_raw(self.raw as int, rhs.raw as int) }
    }

    open spec fn neg_spec(self) -> Self {
        Fixed { raw: clamp(-self.raw) }
    }

    open spec fn abs_spec(self) -> Self {
        Fixed { raw: clamp(magnitude(self.raw as int) as int) }
    }

    open spec fn floor_spec(self) -> Self {
        Fixed { raw: (self.raw - self.raw % SCALE) as i64 }
    }

    /// An approximation of the exponential function: `1 + x / 4096` to the
    /// power of 4096, or zero where that base is not positive.
    open spec fn exp_spec(self) -> Self {
        let base = Self::one_spec().add_spec(self.div_spec(Self::from_usize_spec(4096)));
        if base.raw <= 0 {
            Self::zero_spec()
        } else {
            squared_over(base, 12)
        }
    }

    open spec fn lt_spec(self, rhs: Self) -> bool {
        self.raw < rhs.raw
    }

    fn zero() -> (r: Self) {
        Fixed { raw: 0 }
    }

    fn one() -> (r: Self) {
        Fixed { raw: SCALE }
    }

    fn from_usize(n: usize) -> (r: Self) {
        Fixed { raw: saturate((n as i128) * (SCALE as i128)) }
    }

    fn add(self, rhs: Self) -> (r: Self) {
        Fixed { raw: saturate((self.raw as i128) + (rhs.raw as i128)) }
    }

    fn sub(self, rhs: Self) -> (r: Self) {
        Fixed { raw: saturate((self.raw as i128) - (rhs.raw as i128)) }
    }

    fn mul(self, rhs: Self) -> (r: Self) {
        let a = magnitude_of(self.raw);
        let b = magnitude_of(rhs.raw);
        assert(a * b <= 0x8000_0000_0000_0000 * 0x8000_0000_0000_0000) by (nonlinear_arith)
            requires
                a <= 0x8000_0000_0000_0000,
                b <= 0x8000_0000_0000_0000,
        ;
        let product = a * b;
        Fixed { raw: with_sign(product / (SCALE as u128), (self.raw < 0) != (rhs.raw < 0)) }
    }

    fn div(self, rhs: Self) -> (r: Self) {
        if rhs.raw == 0 {
            if self.raw > 0 {
                Fixed { raw: i64::MAX }
            } else if self.raw < 0 {
                Fixed { raw: i64::MIN }
            } else {
                Fixed { raw: 0 }
            }
        } else {
            let a = magnitude_of(self.raw);
            let b = magnitude_of(rhs.raw);
            assert(a * SCALE <= 0x8000_0000_0000_0000 * 0x1_0000_0000) by (nonlinear_arith)
                requires
                    a <= 0x8000_0000_0000_0000,
                    SCALE == 0x1_0000_0000,
            ;
            let scaled = a * (SCALE as u128);
            Fixed { raw: with_sign(scaled / b, (self.raw < 0) != (rhs.raw < 0)) }
        }
    }

    fn neg(self) -> (r: Self) {
        Fixed { raw: saturate(-(self.raw as i128)) }
    }

    fn abs(self) -> (r: Self) {
        Fixed { raw: with_sign(magnitude_of(self.raw), false) }
    }

    fn floor(self) -> (r: Self) {
        let part = self.raw % SCALE;
        if part == 0 {
            Fixed { raw: self.raw }
        } else if self.raw >= 0 {
            Fixed { raw: self.raw - part }
        } else {
            Fixed { raw: self.raw - part - SCALE }
        }
    }

    fn exp(self) -> (r: Self) {
        let base = Self::one().add(self.div(Self::from_usize(4096)));
        if base.raw <= 0 {
            Self::zero()
        } else {
            let mut power = base;
            let mut k: usize = 0;
            while k < 12
                invariant
                    k <= 12,
                    power == squared_over(base, k as nat),
                decreases 12 - k,
            {
                power = power.mul(power);
                k = k + 1;
            }
            power
        }
    }

    fn lt(self, rhs: Self) -> (r: bool) {
        self.raw < rhs.raw
    }
}

} // verus!
