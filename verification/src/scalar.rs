//! Fixed-point numbers for geometry.
//!
//! A [`Scalar`] stores a signed quantity in steps of `1 / SCALE`. All of
//! its arithmetic is total: results that leave the representable range
//! stick to the nearest end of it, and division rounds toward zero.
use vstd::prelude::*;

verus! {

/// Number of raw steps that make up one whole unit.
pub const SCALE: i64 = 65536;

/// The representable value nearest to `v`.
pub open spec fn saturate(v: int) -> i64 {
    if v > i64::MAX {
        i64::MAX
    } else if v < i64::MIN {
        i64::MIN
    } else {
        v as i64
    }
}

/// Integer quotient rounded toward zero; `0` when `d` is zero.
pub open spec fn quotient(n: int, d: int) -> int {
    if d == 0 {
        0
    } else if n >= 0 && d > 0 {
        n / d
    } else if n >= 0 {
        -(n / (-d))
    } else if d > 0 {
        -((-n) / d)
    } else {
        (-n) / (-d)
    }
}

/// What a division by zero yields: the end of the range on the side of
/// the dividend, or zero for a zero dividend.
pub open spec fn unbounded(n: int) -> i64 {
    if n > 0 {
        i64::MAX
    } else if n < 0 {
        i64::MIN
    } else {
        0
    }
}

/// A signed fixed-point number with sixteen fractional bits.
#[derive(Clone, Copy, Debug, PartialEq, Eq, Hash, Structural)]
pub struct Scalar {
    pub raw: i64,
}

fn narrow(v: i128) -> (r: i64)
    ensures
        r == saturate(v as int),
{
    if v > i64::MAX as i128 {
        i64::MAX
    } else if v < i64::MIN as i128 {
        i64::MIN
    } else {
        v as i64
    }
}

fn divide(n: i128, d: i128) -> (r: i128)
    requires
        d != 0,
        -0x4000_0000_0000_0000_0000_0000_0000_0000 <= n <= 0x4000_0000_0000_0000_0000_0000_0000_0000,
        -0x4000_0000_0000_0000_0000_0000_0000_0000 <= d <= 0x4000_0000_0000_0000_0000_0000_0000_0000,
    ensures
        r == quotient(n as int, d as int),
{
    let nn: u128 = if n < 0 {
        (-n) as u128
    } else {
        n as u128
    };
    let dd: u128 = if d < 0 {
        (-d) as u128
    } else {
        d as u128
    };
    let q: u128 = nn / dd;
    assert(q <= nn) by (nonlinear_arith)
        requires
            q == nn / dd,
            dd >= 1,
    ;
    if (n < 0) != (d < 0) {
        -(q as i128)
    } else {
        q as i128
    }
}

impl Scalar {
    pub open spec fn spec_plus(self, rhs: Scalar) -> Scalar {
        Scalar { raw: saturate(self.raw + rhs.raw) }
    }

    pub open spec fn spec_minus(self, rhs: Scalar) -> Scalar {
        Scalar { raw: saturate(self.raw - rhs.raw) }
    }

    pub open spec fn spec_times(self, rhs: Scalar) -> Scalar {
        Scalar { raw: saturate(quotient(self.raw * rhs.raw, SCALE as int)) }
    }

    pub open spec fn spec_over(self, rhs: Scalar) -> Scalar {
        if rhs.raw == 0 {
            Scalar { raw: unbounded(self.raw as int) }
        } else {
            Scalar { raw: saturate(quotient(self.raw * SCALE, rhs.raw as int)) }
        }
    }

    pub open spec fn spec_scaled(self, n: i64) -> Scalar {
        Scalar { raw: saturate(self.raw * n) }
    }

    pub open spec fn spec_shared(self, n: i64) -> Scalar {
        if n == 0 {
            Scalar { raw: unbounded(self.raw as int) }
        } else {
            Scalar { raw: saturate(quotient(self.raw as int, n as int)) }
        }
    }

    pub open spec fn spec_magnitude(self) -> Scalar {
        if self.raw < 0 {
            Scalar { raw: saturate(-self.raw) }
        } else {
            self
        }
    }

    pub open spec fn spec_least(self, rhs: Scalar) -> Scalar {
        if rhs.raw < self.raw {
            rhs
        } else {
            self
        }
    }

    pub open spec fn spec_most(self, rhs: Scalar) -> Scalar {
        if rhs.raw > self.raw {
            rhs
        } else {
            self
        }
    }

    /// `self` held between `lo` and `hi`; `lo` wins where the two cross.
    pub open spec fn spec_within(self, lo: Scalar, hi: Scalar) -> Scalar {
        if self.raw < lo.raw {
            lo
        } else if self.raw > hi.raw {
            hi.spec_most(lo)
        } else {
            self
        }
    }

    pub open spec fn spec_whole(n: i32) -> Scalar {
        Scalar { raw: (n * SCALE) as i64 }
    }

    pub open spec fn spec_units(n: u32) -> Scalar {
        Scalar { raw: (n * SCALE) as i64 }
    }

    pub open spec fn spec_count(n: usize) -> i64 {
        if n > i64::MAX {
            i64::MAX
        } else {
            n as i64
        }
    }

    /// The number whose raw representation is `raw`.
    pub fn from_raw(raw: i64) -> (r: Scalar)
        ensures
            r.raw == raw,
    {
        Scalar { raw }
    }

    /// The whole number `n`.
    #[verifier::when_used_as_spec(spec_whole)]
    pub fn whole(n: i32) -> (r: Scalar)
        ensures
            r == Scalar::spec_whole(n),
            r.raw == n * SCALE,
    {
        Scalar { raw: (n as i64) * SCALE }
    }

    /// The whole number `n`.
    #[verifier::when_used_as_spec(spec_units)]
    pub fn units(n: u32) -> (r: Scalar)
        ensures
            r == Scalar::spec_units(n),
            r.raw == n * SCALE,
    {
        Scalar { raw: (n as i64) * SCALE }
    }

    /// A count as a signed integer, held to the largest one.
    #[verifier::when_used_as_spec(spec_count)]
    pub fn count(n: usize) -> (r: i64)
        ensures
            r == Scalar::spec_count(n),
    {
        let wide: u64 = n as u64;
        if wide > 0x7fff_ffff_ffff_ffffu64 {
            i64::MAX
        } else {
            wide as i64
        }
    }

    pub fn zero() -> (r: Scalar)
        ensures
            r.raw == 0,
    {
        Scalar { raw: 0 }
    }

    /// Saturating sum.
    #[verifier::when_used_as_spec(spec_plus)]
    pub fn plus(self, rhs: Scalar) -> (r: Scalar)
        ensures
            r == self.spec_plus(rhs),
    {
        Scalar { raw: narrow(self.raw as i128 + rhs.raw as i128) }
    }

    /// Saturating difference.
    #[verifier::when_used_as_spec(spec_minus)]
    pub fn minus(self, rhs: Scalar) -> (r: Scalar)
        ensures
            r == self.spec_minus(rhs),
    {
        Scalar { raw: narrow(self.raw as i128 - rhs.raw as i128) }
    }

    /// Saturating product of two fixed-point numbers, rounded toward zero.
    #[verifier::when_used_as_spec(spec_times)]
    pub fn times(self, rhs: Scalar) -> (r: Scalar)
        ensures
            r == self.spec_times(rhs),
    {
        let a: i128 = self.raw as i128;
        let b: i128 = rhs.raw as i128;
        proof {
            lemma_product_bound(a as int, b as int);
        }
        let p: i128 = a * b;
        Scalar { raw: narrow(divide(p, SCALE as i128)) }
    }

    /// Saturating quotient of two fixed-point numbers, rounded toward
    /// zero. Dividing by zero gives the end of the range on the side of
    /// `self`, and zero when `self` is zero.
    #[verifier::when_used_as_spec(spec_over)]
    pub fn over(self, rhs: Scalar) -> (r: Scalar)
        ensures
            r == self.spec_over(rhs),
    {
        if rhs.raw == 0 {
            if self.raw > 0 {
                Scalar { raw: i64::MAX }
            } else if self.raw < 0 {
                Scalar { raw: i64::MIN }
            } else {
                Scalar { raw: 0 }
            }
        } else {
            let n: i128 = (self.raw as i128) * 65536i128;
            Scalar { raw: narrow(divide(n, rhs.raw as i128)) }
        }
    }

    /// Saturating product with a whole number.
    #[verifier::when_used_as_spec(spec_scaled)]
    pub fn scaled(self, n: i64) -> (r: Scalar)
        ensures
            r == self.spec_scaled(n),
    {
        let a: i128 = self.raw as i128;
        let b: i128 = n as i128;
        proof {
            lemma_product_bound(a as int, b as int);
        }
        Scalar { raw: narrow(a * b) }
    }

    /// Quotient by a whole number, rounded toward zero; by zero as in
    /// [`Scalar::over`].
    #[verifier::when_used_as_spec(spec_shared)]
    pub fn shared(self, n: i64) -> (r: Scalar)
        ensures
            r == self.spec_shared(n),
    {
        if n == 0 {
            if self.raw > 0 {
                Scalar { raw: i64::MAX }
            } else if self.raw < 0 {
                Scalar { raw: i64::MIN }
            } else {
                Scalar { raw: 0 }
            }
        } else {
            Scalar { raw: narrow(divide(self.raw as i128, n as i128)) }
        }
    }

    /// Absolute value, saturating at the largest number.
    #[verifier::when_used_as_spec(spec_magnitude)]
    pub fn magnitude(self) -> (r: Scalar)
        ensures
            r == self.spec_magnitude(),
    {
        if self.raw < 0 {
            Scalar { raw: narrow(-(self.raw as i128)) }
        } else {
            self
        }
    }

    /// The smaller of two numbers.
    #[verifier::when_used_as_spec(spec_least)]
    pub fn least(self, rhs: Scalar) -> (r: Scalar)
        ensures
            r == self.spec_least(rhs),
    {
        if rhs.raw < self.raw {
            rhs
        } else {
            self
        }
    }

    /// The larger of two numbers.
    #[verifier::when_used_as_spec(spec_most)]
    pub fn most(self, rhs: Scalar) -> (r: Scalar)
        ensures
            r == self.spec_most(rhs),
    {
        if rhs.raw > self.raw {
            rhs
        } else {
            self
        }
    }

    /// `self` held between `lo` and `hi`.
    #[verifier::when_used_as_spec(spec_within)]
    pub fn within(self, lo: Scalar, hi: Scalar) -> (r: Scalar)
        ensures
            r == self.spec_within(lo, hi),
    {
        if self.raw < lo.raw {
            lo
        } else if self.raw > hi.raw {
            hi.most(lo)
        } else {
            self
        }
    }
}

impl Default for Scalar {
    fn default() -> (r: Scalar)
        ensures
            r.raw == 0,
    {
        Scalar { raw: 0 }
    }
}

/// The product of two 64-bit quantities fits in 128 bits with room to
/// spare.
pub proof fn lemma_product_bound(a: int, b: int)
    requires
        -0x8000_0000_0000_0000 <= a <= 0x8000_0000_0000_0000,
        -0x8000_0000_0000_0000 <= b <= 0x8000_0000_0000_0000,
    ensures
        -0x4000_0000_0000_0000_0000_0000_0000_0000 <= a * b
            <= 0x4000_0000_0000_0000_0000_0000_0000_0000,
{
    assert(-0x4000_0000_0000_0000_0000_0000_0000_0000 <= a * b
        <= 0x4000_0000_0000_0000_0000_0000_0000_0000) by (nonlinear_arith)
        requires
            -0x8000_0000_0000_0000 <= a <= 0x8000_0000_0000_0000,
            -0x8000_0000_0000_0000 <= b <= 0x8000_0000_0000_0000,
    ;
}

} // verus!
