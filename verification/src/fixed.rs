//! A scalar with exact, machine-independent arithmetic.
//!
//! [`Fixed`] is a signed binary fixed-point number with 32 fractional bits. Its
//! operations are defined on the integers: a result that does not fit is
//! clamped to the nearest bound, a quotient or product that is not a multiple
//! of the unit is rounded toward zero, and a square root is rounded down.

use crate::scalar::Scalar;
use vstd::prelude::*;

verus! {

/// The number of raw units in one: 2 to the power 32.
pub const SCALE: i64 = 4294967296;

/// A fixed-point number; its value is `raw / SCALE`.
#[derive(Clone, Copy, Debug, PartialEq, Eq, Structural)]
pub struct Fixed {
    pub raw: i64,
}

/// `x`, or the bound of `i64` nearest to it where it does not fit.
pub open spec fn saturated(x: int) -> i64 {
    if x < i64::MIN {
        i64::MIN
    } else if x > i64::MAX {
        i64::MAX
    } else {
        x as i64
    }
}

/// The absolute value of `x`.
pub open spec fn magnitude(x: int) -> int {
    if x < 0 {
        -x
    } else {
        x
    }
}

/// The quotient `n / d`, rounded toward zero.
pub open spec fn toward_zero(n: int, d: int) -> int
    recommends
        d != 0,
{
    let q = magnitude(n) / magnitude(d);
    if (n < 0) != (d < 0) {
        -q
    } else {
        q
    }
}

/// Whether `r` is the square root of `n`, rounded down.
pub open spec fn is_floor_root(n: int, r: int) -> bool {
    0 <= r && r * r <= n < (r + 1) * (r + 1)
}

/// The square root of `n`, rounded down.
pub open spec fn floor_root(n: int) -> int
    recommends
        n >= 0,
{
    choose|r: int| is_floor_root(n, r)
}

/// Only one number is the rounded-down square root of `n`.
pub proof fn floor_root_is_unique(n: int, r: int)
    requires
        is_floor_root(n, r),
    ensures
        floor_root(n) == r,
{
    let c = floor_root(n);
    assert(is_floor_root(n, c));
    assert(c == r) by (nonlinear_arith)
        requires
            0 <= r,
            r * r <= n,
            n < (r + 1) * (r + 1),
            0 <= c,
            c * c <= n,
            n < (c + 1) * (c + 1),
    {
        if c < r {
            assert((c + 1) * (c + 1) <= r * r);
        } else if r < c {
            assert((r + 1) * (r + 1) <= c * c);
        }
    }
}

/// The absolute value of `x` as an unsigned number.
fn size(x: i64) -> (m: u64)
    ensures
        m == magnitude(x as int),
{
    if x == i64::MIN {
        9223372036854775808u64
    } else if x < 0 {
        (-x) as u64
    } else {
        x as u64
    }
}

/// The number of the given sign and size, clamped to `i64`.
fn clamp(negative: bool, size: u128) -> (r: i64)
    ensures
        r == saturated(
            if negative {
                -(size as int)
            } else {
                size as int
            },
        ),
{
    if negative {
        if size >= 9223372036854775808u128 {
            i64::MIN
        } else {
            -(size as i64)
        }
    } else {
        if size > 9223372036854775807u128 {
            i64::MAX
        } else {
            size as i64
        }
    }
}

/// `wide`, clamped to `i64`.
fn narrow(wide: i128) -> (r: i64)
    ensures
        r == saturated(wide as int),
{
    if wide < -9223372036854775808i128 {
        i64::MIN
    } else if wide > 9223372036854775807i128 {
        i64::MAX
    } else {
        wide as i64
    }
}

/// The square root of `n`, rounded down, by bisection.
fn integer_root(n: u128) -> (r: u64)
    requires
        n < 0x1_0000_0000_0000_0000_0000_0000u128,
    ensures
        r == floor_root(n as int),
        r < 0x1_0000_0000_0000u64,
{
    let mut lo: u64 = 0;
    let mut hi: u64 = 0x1_0000_0000_0000u64;
    assert(0x1_0000_0000_0000int * 0x1_0000_0000_0000int == 0x1_0000_0000_0000_0000_0000_0000int)
        by (nonlinear_arith);
    while hi - lo > 1
        invariant
            lo < hi <= 0x1_0000_0000_0000u64,
            lo * lo <= n < hi * hi,
        decreases hi - lo,
    {
        let mid: u64 = lo + (hi - lo) / 2;
        assert(mid * mid < 0x1_0000_0000_0000_0000_0000_0000int) by (nonlinear_arith)
            requires
                0 <= mid < 0x1_0000_0000_0000int,
        ;
        let sq: u128 = (mid as u128) * (mid as u128);
        if sq <= n {
            lo = mid;
        } else {
            hi = mid;
        }
    }
    proof {
        assert(hi == lo + 1);
        floor_root_is_unique(n as int, lo as int);
    }
    lo
}

impl Fixed {
    /// The fixed-point number of the given raw units.
    pub fn from_raw(raw: i64) -> (out: Self)
        ensures
            out.raw == raw,
    {
        Fixed { raw }
    }

    /// The raw units of this number.
    pub fn raw(&self) -> (out: i64)
        ensures
            out == self.raw,
    {
        self.raw
    }
}

impl Scalar for Fixed {
    open spec fn of_int(n: i32) -> Self {
        Fixed { raw: (n * SCALE) as i64 }
    }

    open spec fn sum(self, rhs: Self) -> Self {
        Fixed { raw: saturated(self.raw + rhs.raw) }
    }

    open spec fn difference(self, rhs: Self) -> Self {
        Fixed { raw: saturated(self.raw - rhs.raw) }
    }

    open spec fn product(self, rhs: Self) -> Self {
        Fixed { raw: saturated(toward_zero(self.raw * rhs.raw, SCALE as int)) }
    }

    open spec fn quotient(self, rhs: Self) -> Self {
        if rhs.raw == 0 {
            Fixed {
                raw: if self.raw > 0 {
                    i64::MAX
                } else if self.raw < 0 {
                    i64::MIN
                } else {
                    0
                },
            }
        } else {
            Fixed { raw: saturated(toward_zero(self.raw * SCALE, rhs.raw as int)) }
        }
    }

    open spec fn negation(self) -> Self {
        Fixed { raw: saturated(-self.raw) }
    }

    open spec fn square_root(self) -> Self {
        if self.raw <= 0 {
            Fixed { raw: 0 }
        } else {
            Fixed { raw: floor_root(self.raw * SCALE) as i64 }
        }
    }

    open spec fn below(self, rhs: Self) -> bool {
        self.raw < rhs.raw
    }

    open spec fn at_most(self, rhs: Self) -> bool {
        self.raw <= rhs.raw
    }

    fn from_int(n: i32) -> (out: Self) {
        let wide: i64 = n as i64;
        Fixed { raw: wide * SCALE }
    }

    fn plus(self, rhs: Self) -> (out: Self) {
        let wide: i128 = self.raw as i128 + rhs.raw as i128;
        Fixed { raw: narrow(wide) }
    }

    fn minus(self, rhs: Self) -> (out: Self) {
        let wide: i128 = self.raw as i128 - rhs.raw as i128;
        Fixed { raw: narrow(wide) }
    }

    fn times(self, rhs: Self) -> (out: Self) {
        let a: u64 = size(self.raw);
        let b: u64 = size(rhs.raw);
        proof {
            let x = self.raw as int;
            let y = rhs.raw as int;
            assert(magnitude(x) * magnitude(y) == magnitude(x * y) && (x * y < 0 ==> (x < 0) != (y
                < 0)) && (x * y > 0 ==> (x < 0) == (y < 0))) by (nonlinear_arith);
            assert(magnitude(x) * magnitude(y) <= 0x8000_0000_0000_0000int
                * 0x8000_0000_0000_0000int) by (nonlinear_arith)
                requires
                    0 <= magnitude(x) <= 0x8000_0000_0000_0000int,
                    0 <= magnitude(y) <= 0x8000_0000_0000_0000int,
            ;
        }
        let wide: u128 = (a as u128) * (b as u128);
        let units: u128 = wide / 4294967296u128;
        Fixed { raw: clamp((self.raw < 0) != (rhs.raw < 0), units) }
    }

    fn over(self, rhs: Self) -> (out: Self) {
        if rhs.raw == 0 {
            if self.raw > 0 {
                Fixed { raw: i64::MAX }
            } else if self.raw < 0 {
                Fixed { raw: i64::MIN }
            } else {
                Fixed { raw: 0 }
            }
        } else {
            let a: u64 = size(self.raw);
            let b: u64 = size(rhs.raw);
            let wide: u128 = (a as u128) * 4294967296u128;
            let units: u128 = wide / (b as u128);
            Fixed { raw: clamp((self.raw < 0) != (rhs.raw < 0), units) }
        }
    }

    fn negated(self) -> (out: Self) {
        if self.raw == i64::MIN {
            Fixed { raw: i64::MAX }
        } else {
            Fixed { raw: -self.raw }
        }
    }

    fn root(self) -> (out: Self) {
        if self.raw <= 0 {
            Fixed { raw: 0 }
        } else {
            let wide: u128 = (self.raw as u128) * 4294967296u128;
            let r: u64 = integer_root(wide);
            Fixed { raw: r as i64 }
        }
    }

    fn lt(self, rhs: Self) -> (out: bool) {
        self.raw < rhs.raw
    }

    fn le(self, rhs: Self) -> (out: bool) {
        self.raw <= rhs.raw
    }
}

/// Zero is to fixed-point arithmetic what it is to that of numbers.
pub proof fn fixed_is_sound_at_zero()
    ensures
        crate::scalar::sound_at_zero::<Fixed>(),
{
    let zero = crate::scalar::zero::<Fixed>();
    assert(zero.raw == 0);
    assert forall|x: Fixed| #[trigger] x.product(zero) == zero by {
        assert(x.raw * 0 == 0);
    }
    assert forall|x: Fixed| #[trigger] zero.product(x) == zero by {
        assert(0 * x.raw == 0);
    }
    assert forall|x: Fixed| #[trigger] zero.quotient(x) == zero by {
        if x.raw != 0 {
            assert(0 * SCALE == 0);
            assert(0int / magnitude(x.raw as int) == 0);
        }
    }
}

} // verus!
