//! Fixed-point decimal amounts with six fractional digits.
//!
//! Prices, unit counts, exchange rates and percentages are all held as an
//! integer count of millionths. Every operation is exact on that integer
//! model: products and quotients round toward zero, and a result that does
//! not fit is reported as absent rather than wrapped.
use vstd::math::abs;
use vstd::prelude::*;

verus! {

/// Number of raw units in one whole unit.
pub const SCALE: i64 = 1_000_000;

/// Raw value of one hundred, the factor that turns a ratio into a percentage.
pub const HUNDRED_RAW: i64 = 100_000_000;

/// A decimal number held as an integer count of millionths.
#[derive(Clone, Copy, Debug, PartialEq, Eq, Structural)]
pub struct Fixed {
    pub raw: i64,
}

/// Integer division that rounds toward zero, as machine division does.
pub open spec fn trunc_div(a: int, b: int) -> int
    recommends
        b != 0,
{
    if a >= 0 && b > 0 {
        a / b
    } else if a < 0 && b < 0 {
        (-a) / (-b)
    } else if a < 0 {
        -((-a) / b)
    } else {
        -(a / (-b))
    }
}

/// The amount with raw value `v`, if `v` fits the representation.
pub open spec fn narrow(v: int) -> Option<Fixed> {
    if i64::MIN <= v <= i64::MAX {
        Some(Fixed { raw: v as i64 })
    } else {
        None
    }
}

/// A quotient rounded toward zero is no larger in magnitude than the dividend,
/// and multiplying it back misses the dividend by less than the divisor.
pub proof fn lemma_trunc_div_bounds(a: int, b: int)
    requires
        b != 0,
    ensures
        a >= 0 ==> 0 <= trunc_div(a, b) * b <= a,
        a <= 0 ==> a <= trunc_div(a, b) * b <= 0,
        b > 0 ==> a - b < trunc_div(a, b) * b < a + b,
        b < 0 ==> a + b < trunc_div(a, b) * b < a - b,
        -abs(a) <= trunc_div(a, b) <= abs(a),
{
    let (pa, pb) = (abs(a), abs(b));
    let q = pa / pb;
    assert(0 <= q * pb <= pa && pa - pb < q * pb && q <= pa) by (nonlinear_arith)
        requires
            pa >= 0,
            pb > 0,
            q == pa / pb,
    ;
    if a >= 0 && b > 0 {
    } else if a < 0 && b < 0 {
        assert(q * b == -(q * pb)) by (nonlinear_arith)
            requires
                b == -pb,
        ;
    } else if a < 0 {
        assert((-q) * b == -(q * pb)) by (nonlinear_arith)
            requires
                b == pb,
        ;
    } else {
        assert((-q) * b == q * pb) by (nonlinear_arith)
            requires
                b == -pb,
        ;
    }
}

/// Dividing an exact multiple gives the other factor back.
pub proof fn lemma_trunc_div_exact(q: int, b: int)
    requires
        b != 0,
    ensures
        trunc_div(q * b, b) == q,
{
    let (pq, pb) = (abs(q), abs(b));
    assert((pq * pb) / pb == pq) by (nonlinear_arith)
        requires
            pb > 0,
            pq >= 0,
    ;
    assert(pq * pb >= 0) by (nonlinear_arith)
        requires
            pb > 0,
            pq >= 0,
    ;
    if q >= 0 && b > 0 {
    } else if q < 0 && b < 0 {
        assert(q * b == pq * pb) by (nonlinear_arith)
            requires
                q == -pq,
                b == -pb,
        ;
    } else if q < 0 {
        assert(q * b == -(pq * pb)) by (nonlinear_arith)
            requires
                q == -pq,
                b == pb,
        ;
    } else {
        assert(q * b == -(pq * pb)) by (nonlinear_arith)
            requires
                q == pq,
                b == -pb,
        ;
    }
}

/// The product of two 64-bit values fits in 128 bits with room to spare.
pub proof fn lemma_product_bound(a: int, b: int)
    requires
        i64::MIN <= a <= i64::MAX,
        i64::MIN <= b <= i64::MAX,
    ensures
        -0x4000_0000_0000_0000_0000_0000_0000_0000 <= a * b
            <= 0x4000_0000_0000_0000_0000_0000_0000_0000,
{
    assert(-0x4000_0000_0000_0000_0000_0000_0000_0000 <= a * b
        <= 0x4000_0000_0000_0000_0000_0000_0000_0000) by (nonlinear_arith)
        requires
            -0x8000_0000_0000_0000 <= a <= 0x7fff_ffff_ffff_ffff,
            -0x8000_0000_0000_0000 <= b <= 0x7fff_ffff_ffff_ffff,
    ;
}

/// Divides two wide integers, rounding toward zero.
pub fn div_toward_zero(a: i128, b: i128) -> (q: i128)
    requires
        b != 0,
        a > i128::MIN,
        b > i128::MIN,
    ensures
        q == trunc_div(a as int, b as int),
{
    proof {
        lemma_trunc_div_bounds(a as int, b as int);
    }
    if a >= 0 && b > 0 {
        a / b
    } else if a < 0 && b < 0 {
        (-a) / (-b)
    } else if a < 0 {
        -((-a) / b)
    } else {
        -(a / (-b))
    }
}

/// Integer division by a positive divisor that rounds to the nearest
/// integer, a half away from zero.
pub open spec fn round_div(a: int, b: int) -> int
    recommends
        b > 0,
{
    trunc_div(
        2 * a + if a >= 0 {
            b
        } else {
            -b
        },
        2 * b,
    )
}

/// A quotient rounded to the nearest integer, multiplied back, misses the
/// dividend by no more than half the divisor.
pub proof fn lemma_round_div_nearest(a: int, b: int)
    requires
        b > 0,
    ensures
        -b <= 2 * (round_div(a, b) * b - a) <= b,
{
    let x = 2 * a + if a >= 0 {
        b
    } else {
        -b
    };
    let q = trunc_div(x, 2 * b);
    lemma_trunc_div_bounds(x, 2 * b);
    assert(q * (2 * b) == 2 * (q * b)) by (nonlinear_arith);
}

/// Rounding an exact multiple gives the other factor back.
pub proof fn lemma_round_div_exact(q: int, b: int)
    requires
        b > 0,
    ensures
        round_div(q * b, b) == q,
{
    lemma_round_div_nearest(q * b, b);
    let r = round_div(q * b, b);
    assert(r == q) by (nonlinear_arith)
        requires
            b > 0,
            -b <= 2 * (r * b - q * b) <= b,
    ;
}

/// Divides a wide integer by a positive one, rounding to the nearest
/// integer, a half away from zero.
pub fn div_to_nearest(a: i128, b: i128) -> (q: i128)
    requires
        -0x2000_0000_0000_0000_0000_0000_0000_0000 < a < 0x2000_0000_0000_0000_0000_0000_0000_0000,
        0 < b < 0x2000_0000_0000_0000_0000_0000_0000_0000,
    ensures
        q == round_div(a as int, b as int),
{
    let shifted: i128 = if a >= 0 {
        2 * a + b
    } else {
        2 * a - b
    };
    div_toward_zero(shifted, 2 * b)
}

/// Narrows a wide raw value to an amount, if it fits.
pub fn narrow_i128(v: i128) -> (r: Option<Fixed>)
    ensures
        r == narrow(v as int),
{
    if v < i64::MIN as i128 || v > i64::MAX as i128 {
        None
    } else {
        Some(Fixed { raw: v as i64 })
    }
}

impl Fixed {
    /// The amount with the given raw value.
    pub fn from_raw(raw: i64) -> (r: Fixed)
        ensures
            r.raw == raw,
    {
        Fixed { raw }
    }

    /// Zero.
    pub fn zero() -> (r: Fixed)
        ensures
            r.raw == 0,
    {
        Fixed { raw: 0 }
    }

    /// The whole number `n`, if it fits.
    pub fn from_int(n: i64) -> (r: Option<Fixed>)
        ensures
            r == narrow(n * SCALE),
    {
        proof {
            lemma_product_bound(n as int, SCALE as int);
        }
        let wide: i128 = (n as i128) * (SCALE as i128);
        narrow_i128(wide)
    }

    /// Whether the amount is strictly greater than zero.
    pub fn is_positive(&self) -> (b: bool)
        ensures
            b == (self.raw > 0),
    {
        self.raw > 0
    }

    /// One hundredth of the amount, rounded toward zero.
    pub fn hundredth(self) -> (r: Fixed)
        ensures
            r.raw == trunc_div(self.raw as int, 100),
    {
        proof {
            lemma_trunc_div_bounds(self.raw as int, 100);
        }
        let q = div_toward_zero(self.raw as i128, 100);
        Fixed { raw: q as i64 }
    }

    /// Sum of two amounts; absent when it does not fit.
    pub fn checked_add(self, other: Fixed) -> (r: Option<Fixed>)
        ensures
            r == narrow(self.raw + other.raw),
    {
        narrow_i128(self.raw as i128 + other.raw as i128)
    }

    /// Difference of two amounts; absent when it does not fit.
    pub fn checked_sub(self, other: Fixed) -> (r: Option<Fixed>)
        ensures
            r == narrow(self.raw - other.raw),
    {
        narrow_i128(self.raw as i128 - other.raw as i128)
    }

    /// Product of two amounts, rounded toward zero; absent when it does not fit.
    pub fn checked_mul(self, other: Fixed) -> (r: Option<Fixed>)
        ensures
            r == narrow(trunc_div(self.raw * other.raw, SCALE as int)),
    {
        proof {
            lemma_product_bound(self.raw as int, other.raw as int);
        }
        let wide: i128 = (self.raw as i128) * (other.raw as i128);
        narrow_i128(div_toward_zero(wide, SCALE as i128))
    }

    /// Quotient of two amounts, rounded toward zero; absent when the divisor
    /// is zero or the quotient does not fit.
    pub fn checked_div(self, other: Fixed) -> (r: Option<Fixed>)
        ensures
            r == if other.raw == 0 {
                None
            } else {
                narrow(trunc_div(self.raw * SCALE, other.raw as int))
            },
    {
        if other.raw == 0 {
            return None;
        }
        proof {
            lemma_product_bound(self.raw as int, SCALE as int);
        }
        let wide: i128 = (self.raw as i128) * (SCALE as i128);
        narrow_i128(div_toward_zero(wide, other.raw as i128))
    }

    /// This amount as a percentage of `whole`, rounded toward zero; absent
    /// when `whole` is zero or the percentage does not fit.
    pub fn percent_of(self, whole: Fixed) -> (r: Option<Fixed>)
        ensures
            r == if whole.raw == 0 {
                None
            } else {
                narrow(trunc_div(self.raw * HUNDRED_RAW, whole.raw as int))
            },
    {
        if whole.raw == 0 {
            return None;
        }
        proof {
            lemma_product_bound(self.raw as int, HUNDRED_RAW as int);
        }
        let wide: i128 = (self.raw as i128) * (HUNDRED_RAW as i128);
        narrow_i128(div_toward_zero(wide, whole.raw as i128))
    }
}

/// Largest integer whose square does not exceed `x`.
pub open spec fn is_floor_sqrt(x: int, r: int) -> bool {
    r >= 0 && r * r <= x && x < (r + 1) * (r + 1)
}

/// Integer square root: the largest `r` with `r * r <= x`.
pub fn isqrt(x: u128) -> (r: u64)
    requires
        x < 0x4000_0000_0000_0000_0000_0000_0000_0000,
    ensures
        is_floor_sqrt(x as int, r as int),
{
    let mut lo: u128 = 0;
    let mut hi: u128 = 0x8000_0000_0000_0000;
    assert(hi * hi > x) by (nonlinear_arith)
        requires
            hi == 0x8000_0000_0000_0000,
            x < 0x4000_0000_0000_0000_0000_0000_0000_0000,
    ;
    while hi - lo > 1
        invariant
            lo < hi <= 0x8000_0000_0000_0000,
            lo * lo <= x,
            x < hi * hi,
        decreases hi - lo,
    {
        let mid: u128 = lo + (hi - lo) / 2;
        assert(mid * mid < 0x4000_0000_0000_0000_0000_0000_0000_0000) by (nonlinear_arith)
            requires
                0 <= mid < 0x8000_0000_0000_0000,
        ;
        if mid * mid <= x {
            lo = mid;
        } else {
            hi = mid;
        }
    }
    lo as u64
}

} // verus!
