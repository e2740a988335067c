//! The bridge to 96-bit decimal arithmetic, for the powers and roots that
//! integer arithmetic cannot take.
//!
//! A decimal is handed across as its mantissa and scale. What the decimal
//! library computes is named, not restated; turning a result back into a
//! fixed-point amount is done here, rounding to the nearest millionth.
use crate::fixed::{div_to_nearest, narrow, narrow_i128, round_div, Fixed, HUNDRED_RAW, SCALE};
use rust_decimal::{Decimal, MathematicalOps};
use vstd::prelude::*;

verus! {

/// Bound on the magnitude of a decimal's mantissa: two to the power 96.
pub const MANTISSA_LIMIT: i128 = 0x1_0000_0000_0000_0000_0000_0000;

/// Longest span, in years, that a growth rate is taken over.
pub const MAX_CAGR_YEARS: i64 = 10;

/// Largest scale of a decimal.
pub const MAX_SCALE: u32 = 28;

/// Ten to the power 28.
pub const TEN_POW_MAX: i128 = 10_000_000_000_000_000_000_000_000_000;

/// A decimal number: `mantissa` divided by ten to the power `scale`.
#[derive(Clone, Copy, Debug, PartialEq, Eq, Structural)]
pub struct DecimalParts {
    pub mantissa: i128,
    pub scale: u32,
}

impl DecimalParts {
    /// Whether the parts are those of a representable decimal.
    pub open spec fn valid(self) -> bool {
        -MANTISSA_LIMIT < self.mantissa < MANTISSA_LIMIT && self.scale <= MAX_SCALE
    }

    /// The parts as a pair of mathematical integers.
    pub open spec fn pair(self) -> (int, nat) {
        (self.mantissa as int, self.scale as nat)
    }
}

/// The pair of an optional decimal.
pub open spec fn opt_pair(r: Option<DecimalParts>) -> Option<(int, nat)> {
    match r {
        Some(d) => Some(d.pair()),
        None => None,
    }
}

/// Ten to the power `s`.
pub open spec fn pow10(s: nat) -> int
    decreases s,
{
    if s == 0 {
        1
    } else {
        10 * pow10((s - 1) as nat)
    }
}

/// The compound annual growth rate that the finance library computes from
/// a beginning balance, an ending balance and a number of years, each given
/// in millionths: mantissa and scale of the resulting decimal.
pub uninterp spec fn cagr_rate_of(begin_raw: int, end_raw: int, years_raw: int) -> (int, nat);

/// The quotient that the decimal library computes for two decimals, absent
/// when it reports division by zero or overflow.
pub uninterp spec fn decimal_quotient(a: (int, nat), b: (int, nat)) -> Option<(int, nat)>;

/// The power that the decimal library computes for a base and an exponent,
/// absent when it reports overflow.
pub uninterp spec fn decimal_power(base: (int, nat), exponent: (int, nat)) -> Option<(int, nat)>;

/// Calls `rust_finprim::rate::cagr` on three decimals with six fractional
/// digits. The result depends on the arguments alone and is a decimal, so
/// its mantissa is below two to the power 96 in magnitude and its scale at
/// most 28. The balances must be positive and the span between one and
/// ten years: there the quotient of the balances lies between 1e-19 and
/// 1e19 and its root no further from one, so no step of the computation
/// overflows.
#[verifier::external_body]
pub(crate) fn cagr_call(begin: Fixed, end: Fixed, years: Fixed) -> (r: DecimalParts)
    requires
        begin.raw > 0,
        end.raw > 0,
        SCALE <= years.raw <= MAX_CAGR_YEARS * SCALE,
    ensures
        r.pair() == cagr_rate_of(begin.raw as int, end.raw as int, years.raw as int),
        r.valid(),
{
    let rate = rust_finprim::rate::cagr(
        Decimal::new(begin.raw, 6),
        Decimal::new(end.raw, 6),
        Decimal::new(years.raw, 6),
    );
    DecimalParts { mantissa: rate.mantissa(), scale: rate.scale() }
}

/// Calls `Decimal::checked_div`. The result depends on the arguments alone;
/// it is absent on division by zero or overflow, and otherwise a decimal.
#[verifier::external_body]
pub(crate) fn decimal_div(a: DecimalParts, b: DecimalParts) -> (r: Option<DecimalParts>)
    requires
        a.valid(),
        b.valid(),
    ensures
        opt_pair(r) == decimal_quotient(a.pair(), b.pair()),
        r matches Some(q) ==> q.valid(),
{
    let x = Decimal::from_i128_with_scale(a.mantissa, a.scale);
    let y = Decimal::from_i128_with_scale(b.mantissa, b.scale);
    match x.checked_div(y) {
        Some(q) => Some(DecimalParts { mantissa: q.mantissa(), scale: q.scale() }),
        None => None,
    }
}

/// Calls `MathematicalOps::checked_powd`. The result depends on the
/// arguments alone; it is absent on overflow, and otherwise a decimal.
#[verifier::external_body]
pub(crate) fn decimal_powd(base: DecimalParts, exponent: DecimalParts) -> (r: Option<
    DecimalParts,
>)
    requires
        base.valid(),
        exponent.valid(),
    ensures
        opt_pair(r) == decimal_power(base.pair(), exponent.pair()),
        r matches Some(p) ==> p.valid(),
{
    let x = Decimal::from_i128_with_scale(base.mantissa, base.scale);
    let y = Decimal::from_i128_with_scale(exponent.mantissa, exponent.scale);
    match x.checked_powd(y) {
        Some(p) => Some(DecimalParts { mantissa: p.mantissa(), scale: p.scale() }),
        None => None,
    }
}

/// Powers of ten grow with the exponent, and the largest one used is the
/// constant `TEN_POW_MAX`.
pub proof fn lemma_pow10_bounds(s: nat)
    requires
        s <= 28,
    ensures
        1 <= pow10(s) <= TEN_POW_MAX,
        pow10(28) == TEN_POW_MAX,
{
    assert(pow10(28) == TEN_POW_MAX) by {
        reveal_with_fuel(pow10, 30);
    }
    lemma_pow10_monotonic(s, 28);
}

/// A larger exponent gives a larger power of ten.
pub proof fn lemma_pow10_monotonic(a: nat, b: nat)
    requires
        a <= b,
    ensures
        1 <= pow10(a) <= pow10(b),
    decreases b,
{
    if a == 0 {
        if b > 0 {
            lemma_pow10_monotonic(0, (b - 1) as nat);
        }
    } else {
        lemma_pow10_monotonic((a - 1) as nat, (b - 1) as nat);
    }
}

/// Ten to the power `s`.
pub fn ten_to(s: u32) -> (r: i128)
    requires
        s <= MAX_SCALE,
    ensures
        r == pow10(s as nat),
        1 <= r <= TEN_POW_MAX,
{
    let mut r: i128 = 1;
    let mut i: u32 = 0;
    while i < s
        invariant
            i <= s <= MAX_SCALE,
            r == pow10(i as nat),
        decreases s - i,
    {
        proof {
            lemma_pow10_bounds(i as nat);
            lemma_pow10_bounds((i + 1) as nat);
        }
        r = r * 10;
        i += 1;
    }
    proof {
        lemma_pow10_bounds(s as nat);
    }
    r
}

/// The raw value of a decimal rate taken as a percentage: the rate times
/// one hundred, rounded to the nearest millionth.
pub open spec fn rate_percent_raw(d: (int, nat)) -> int {
    round_div(d.0 * HUNDRED_RAW, pow10(d.1))
}

/// The raw value of a decimal growth factor taken as a percentage gain:
/// the factor less one, times one hundred, rounded to the nearest
/// millionth.
pub open spec fn growth_percent_raw(d: (int, nat)) -> int {
    round_div((d.0 - pow10(d.1)) * HUNDRED_RAW, pow10(d.1))
}

/// A decimal rate as a percentage; absent when it does not fit.
pub fn rate_to_percent(rate: DecimalParts) -> (r: Option<Fixed>)
    requires
        rate.valid(),
    ensures
        r == narrow(rate_percent_raw(rate.pair())),
{
    let unit = ten_to(rate.scale);
    assert(-0x0800_0000_0000_0000_0000_0000_0000_0000 < rate.mantissa * HUNDRED_RAW
        < 0x0800_0000_0000_0000_0000_0000_0000_0000) by (nonlinear_arith)
        requires
            -MANTISSA_LIMIT < rate.mantissa < MANTISSA_LIMIT,
            HUNDRED_RAW == 100_000_000,
            MANTISSA_LIMIT == 0x1_0000_0000_0000_0000_0000_0000,
    ;
    narrow_i128(div_to_nearest(rate.mantissa * (HUNDRED_RAW as i128), unit))
}

/// A decimal growth factor as a percentage gain; absent when it does not
/// fit.
pub fn growth_to_percent(growth: DecimalParts) -> (r: Option<Fixed>)
    requires
        growth.valid(),
    ensures
        r == narrow(growth_percent_raw(growth.pair())),
{
    let unit = ten_to(growth.scale);
    let gain: i128 = growth.mantissa - unit;
    assert(-0x1000_0000_0000_0000_0000_0000_0000_0000 < gain * HUNDRED_RAW
        < 0x1000_0000_0000_0000_0000_0000_0000_0000) by (nonlinear_arith)
        requires
            -2 * MANTISSA_LIMIT < gain < 2 * MANTISSA_LIMIT,
            HUNDRED_RAW == 100_000_000,
            MANTISSA_LIMIT == 0x1_0000_0000_0000_0000_0000_0000,
    ;
    narrow_i128(div_to_nearest(gain * (HUNDRED_RAW as i128), unit))
}

/// The decimal with six fractional digits that equals a fixed-point amount.
pub fn fixed_parts(x: Fixed) -> (d: DecimalParts)
    ensures
        d.valid(),
        d.mantissa == x.raw,
        d.scale == 6,
{
    DecimalParts { mantissa: x.raw as i128, scale: 6 }
}

/// The decimal that equals a whole number.
pub fn whole_parts(n: u32) -> (d: DecimalParts)
    ensures
        d.valid(),
        d.mantissa == n,
        d.scale == 0,
{
    DecimalParts { mantissa: n as i128, scale: 0 }
}

} // verus!
