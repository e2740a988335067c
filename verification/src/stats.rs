//! Summary statistics of a sample of returns: mean, extremes, population
//! standard deviation, and the share of the sample in each of five bands.
use crate::fixed::{
    div_toward_zero, is_floor_sqrt, isqrt, lemma_trunc_div_bounds, trunc_div, Fixed, HUNDRED_RAW,
    SCALE,
};
use vstd::prelude::*;

verus! {

/// Number of bands of the distribution.
pub const BUCKET_COUNT: usize = 5;

/// Bound below which a variance has a representable square root: two to
/// the power 126.
pub const VARIANCE_LIMIT: i128 = 0x4000_0000_0000_0000_0000_0000_0000_0000;

/// The statistics of the rolling returns of one period, in percent.
#[derive(Clone, Copy, Debug)]
pub struct RollingReturnStats {
    pub average: Fixed,
    pub min: Fixed,
    pub max: Fixed,
    pub std_dev: Fixed,
    /// Share of the returns, in percent, that are below 0, from 0 to below
    /// 5, from 5 to below 10, from 10 to below 20, and 20 or more.
    pub distribution: [Fixed; 5],
}

/// Sum of the raw values of a sample.
pub open spec fn raw_sum(rs: Seq<Fixed>) -> int
    decreases rs.len(),
{
    if rs.len() == 0 {
        0
    } else {
        raw_sum(rs.drop_last()) + rs.last().raw
    }
}

/// The mean of a sample, rounded toward zero.
pub open spec fn mean_raw(rs: Seq<Fixed>) -> int {
    trunc_div(raw_sum(rs), rs.len() as int)
}

/// Sum of the squared distances of a sample from `center`.
pub open spec fn sq_dev_sum(rs: Seq<Fixed>, center: int) -> int
    decreases rs.len(),
{
    if rs.len() == 0 {
        0
    } else {
        sq_dev_sum(rs.drop_last(), center) + (rs.last().raw - center) * (rs.last().raw - center)
    }
}

/// The population variance of a sample about its mean, rounded down.
pub open spec fn variance_raw(rs: Seq<Fixed>) -> int {
    sq_dev_sum(rs, mean_raw(rs)) / (rs.len() as int)
}

/// Whether `m` is the least value of the sample.
pub open spec fn is_min(rs: Seq<Fixed>, m: Fixed) -> bool {
    rs.contains(m) && forall|i: int| 0 <= i < rs.len() ==> m.raw <= (#[trigger] rs[i]).raw
}

/// Whether `m` is the greatest value of the sample.
pub open spec fn is_max(rs: Seq<Fixed>, m: Fixed) -> bool {
    rs.contains(m) && forall|i: int| 0 <= i < rs.len() ==> m.raw >= (#[trigger] rs[i]).raw
}

/// The band a return falls in: below 0, below 5, below 10, below 20
/// percent, or above.
pub open spec fn bucket_of(r: Fixed) -> int {
    if r.raw < 0 {
        0
    } else if r.raw < 5 * SCALE {
        1
    } else if r.raw < 10 * SCALE {
        2
    } else if r.raw < 20 * SCALE {
        3
    } else {
        4
    }
}

/// Number of returns of the sample that fall in band `b`.
pub open spec fn bucket_count(rs: Seq<Fixed>, b: int) -> int
    decreases rs.len(),
{
    if rs.len() == 0 {
        0
    } else {
        bucket_count(rs.drop_last(), b) + if bucket_of(rs.last()) == b {
            1int
        } else {
            0int
        }
    }
}

/// The share of the sample in band `b`, in percent, rounded down.
pub open spec fn bucket_percent_raw(rs: Seq<Fixed>, b: int) -> int {
    bucket_count(rs, b) * HUNDRED_RAW / (rs.len() as int)
}

/// Whether the standard deviation of the sample can be taken: the squared
/// distances sum up within the accumulator, and the variance has a
/// representable root.
pub open spec fn deviation_fits(rs: Seq<Fixed>) -> bool {
    sq_dev_sum(rs, mean_raw(rs)) <= i128::MAX && variance_raw(rs) < VARIANCE_LIMIT
}

/// Whether `s` holds the statistics of the non-empty sample `rs`.
pub open spec fn stats_match(rs: Seq<Fixed>, s: RollingReturnStats) -> bool {
    &&& s.average.raw == mean_raw(rs)
    &&& is_min(rs, s.min)
    &&& is_max(rs, s.max)
    &&& is_floor_sqrt(variance_raw(rs), s.std_dev.raw as int)
    &&& forall|b: int|
        0 <= b < 5 ==> (#[trigger] s.distribution[b]).raw == bucket_percent_raw(rs, b)
}

/// The sum of a sample lies within its length times the range of one value.
pub proof fn lemma_raw_sum_bound(rs: Seq<Fixed>)
    ensures
        rs.len() * i64::MIN <= raw_sum(rs) <= rs.len() * i64::MAX,
    decreases rs.len(),
{
    if rs.len() > 0 {
        lemma_raw_sum_bound(rs.drop_last());
    }
}

/// The mean of a non-empty sample is a representable value.
pub proof fn lemma_mean_in_range(rs: Seq<Fixed>)
    requires
        rs.len() > 0,
    ensures
        i64::MIN <= mean_raw(rs) <= i64::MAX,
{
    lemma_raw_sum_bound(rs);
    let n = rs.len() as int;
    let s = raw_sum(rs);
    let q = trunc_div(s, n);
    lemma_trunc_div_bounds(s, n);
    assert(i64::MIN <= q <= i64::MAX) by (nonlinear_arith)
        requires
            n > 0,
            n * i64::MIN <= s <= n * i64::MAX,
            s - n < q * n < s + n,
    ;
}

/// The sum of a sample lies between its size times a lower bound and its
/// size times an upper bound of its values.
proof fn lemma_raw_sum_between(rs: Seq<Fixed>, lo: int, hi: int)
    requires
        forall|i: int| 0 <= i < rs.len() ==> lo <= (#[trigger] rs[i]).raw <= hi,
    ensures
        rs.len() * lo <= raw_sum(rs) <= rs.len() * hi,
    decreases rs.len(),
{
    if rs.len() > 0 {
        let rest = rs.drop_last();
        assert forall|i: int| 0 <= i < rest.len() implies lo <= (#[trigger] rest[i]).raw <= hi by {
            assert(rest[i] == rs[i]);
        }
        lemma_raw_sum_between(rest, lo, hi);
        assert(lo <= rs[rs.len() - 1].raw <= hi);
        assert((rest.len() + 1) * lo == rest.len() * lo + lo) by (nonlinear_arith);
        assert((rest.len() + 1) * hi == rest.len() * hi + hi) by (nonlinear_arith);
    }
}

/// The average of a non-empty sample lies between its least and its
/// greatest value.
pub proof fn lemma_average_between_extremes(rs: Seq<Fixed>, s: RollingReturnStats)
    requires
        rs.len() > 0,
        stats_match(rs, s),
    ensures
        s.min.raw <= s.average.raw <= s.max.raw,
{
    let lo = s.min.raw as int;
    let hi = s.max.raw as int;
    let n = rs.len() as int;
    let sum = raw_sum(rs);
    lemma_raw_sum_between(rs, lo, hi);
    let q = trunc_div(sum, n);
    lemma_trunc_div_bounds(sum, n);
    assert(lo <= q <= hi) by (nonlinear_arith)
        requires
            n > 0,
            n * lo <= sum <= n * hi,
            sum - n < q * n < sum + n,
            sum >= 0 ==> 0 <= q * n <= sum,
            sum <= 0 ==> sum <= q * n <= 0,
    ;
}

/// Squared distances are not negative, so their sum grows along the sample.
pub proof fn lemma_sq_dev_sum_grows(rs: Seq<Fixed>, center: int, k: int)
    requires
        0 <= k <= rs.len(),
    ensures
        0 <= sq_dev_sum(rs.subrange(0, k), center) <= sq_dev_sum(rs, center),
    decreases rs.len() - k,
{
    lemma_sq_dev_sum_nonneg(rs.subrange(0, k), center);
    if k < rs.len() {
        let next = rs.subrange(0, k + 1);
        assert(next.drop_last() =~= rs.subrange(0, k));
        let d = next.last().raw - center;
        assert(d * d >= 0) by (nonlinear_arith);
        lemma_sq_dev_sum_grows(rs, center, k + 1);
    } else {
        assert(rs.subrange(0, k) =~= rs);
    }
}

/// A sum of squared distances is not negative.
pub proof fn lemma_sq_dev_sum_nonneg(rs: Seq<Fixed>, center: int)
    ensures
        0 <= sq_dev_sum(rs, center),
    decreases rs.len(),
{
    if rs.len() > 0 {
        lemma_sq_dev_sum_nonneg(rs.drop_last(), center);
        let d = rs.last().raw - center;
        assert(d * d >= 0) by (nonlinear_arith);
    }
}

/// Every return falls in exactly one band, so the five counts add up to the
/// size of the sample.
pub proof fn lemma_bucket_counts_total(rs: Seq<Fixed>)
    ensures
        bucket_count(rs, 0) + bucket_count(rs, 1) + bucket_count(rs, 2) + bucket_count(rs, 3)
            + bucket_count(rs, 4) == rs.len(),
        forall|b: int| 0 <= #[trigger] bucket_count(rs, b) <= rs.len(),
    decreases rs.len(),
{
    if rs.len() > 0 {
        lemma_bucket_counts_total(rs.drop_last());
        assert forall|b: int| 0 <= #[trigger] bucket_count(rs, b) <= rs.len() by {
            assert(0 <= bucket_count(rs.drop_last(), b) <= rs.drop_last().len());
        }
    }
}

/// The five shares of a non-empty distribution add up to one hundred
/// percent, less what rounding each share down can lose: fewer than five
/// millionths of a percent.
pub proof fn lemma_bucket_percents_total(rs: Seq<Fixed>)
    requires
        rs.len() > 0,
    ensures
        HUNDRED_RAW - 5 < bucket_percent_raw(rs, 0) + bucket_percent_raw(rs, 1)
            + bucket_percent_raw(rs, 2) + bucket_percent_raw(rs, 3) + bucket_percent_raw(rs, 4)
            <= HUNDRED_RAW,
{
    lemma_bucket_counts_total(rs);
    let n = rs.len() as int;
    let c0 = bucket_count(rs, 0);
    let c1 = bucket_count(rs, 1);
    let c2 = bucket_count(rs, 2);
    let c3 = bucket_count(rs, 3);
    let c4 = bucket_count(rs, 4);
    let h = HUNDRED_RAW as int;
    lemma_share(c0, n, h);
    lemma_share(c1, n, h);
    lemma_share(c2, n, h);
    lemma_share(c3, n, h);
    lemma_share(c4, n, h);
    let total = (c0 * h) / n + (c1 * h) / n + (c2 * h) / n + (c3 * h) / n + (c4 * h) / n;
    assert(c0 * h + c1 * h + c2 * h + c3 * h + c4 * h == n * h) by (nonlinear_arith)
        requires
            c0 + c1 + c2 + c3 + c4 == n,
    ;
    assert(h - 5 < total <= h) by (nonlinear_arith)
        requires
            n > 0,
            c0 * h + c1 * h + c2 * h + c3 * h + c4 * h == n * h,
            total == (c0 * h) / n + (c1 * h) / n + (c2 * h) / n + (c3 * h) / n + (c4 * h) / n,
            c0 * h - n < ((c0 * h) / n) * n <= c0 * h,
            c1 * h - n < ((c1 * h) / n) * n <= c1 * h,
            c2 * h - n < ((c2 * h) / n) * n <= c2 * h,
            c3 * h - n < ((c3 * h) / n) * n <= c3 * h,
            c4 * h - n < ((c4 * h) / n) * n <= c4 * h,
    ;
}

/// Bucket totals: the five shares of the distribution in the statistics of
/// any non-empty sample add up to one hundred percent, less fewer than five
/// millionths of a percent lost to rounding.
pub proof fn lemma_distribution_sums_to_hundred(rs: Seq<Fixed>, s: RollingReturnStats)
    requires
        rs.len() > 0,
        stats_match(rs, s),
    ensures
        HUNDRED_RAW - 5 < s.distribution[0].raw + s.distribution[1].raw + s.distribution[2].raw
            + s.distribution[3].raw + s.distribution[4].raw <= HUNDRED_RAW,
{
    lemma_bucket_percents_total(rs);
    assert(s.distribution[0].raw == bucket_percent_raw(rs, 0));
    assert(s.distribution[1].raw == bucket_percent_raw(rs, 1));
    assert(s.distribution[2].raw == bucket_percent_raw(rs, 2));
    assert(s.distribution[3].raw == bucket_percent_raw(rs, 3));
    assert(s.distribution[4].raw == bucket_percent_raw(rs, 4));
}

/// Rounding a share down loses less than one unit.
proof fn lemma_share(c: int, n: int, h: int)
    requires
        n > 0,
        c >= 0,
        h >= 0,
    ensures
        c * h - n < ((c * h) / n) * n <= c * h,
{
    assert(c * h - n < ((c * h) / n) * n <= c * h) by (nonlinear_arith)
        requires
            n > 0,
            c >= 0,
            h >= 0,
    ;
}

/// The band a return falls in.
pub fn bucket_index(r: Fixed) -> (b: usize)
    ensures
        b == bucket_of(r),
        b < BUCKET_COUNT,
{
    if r.raw < 0 {
        0
    } else if r.raw < 5 * SCALE {
        1
    } else if r.raw < 10 * SCALE {
        2
    } else if r.raw < 20 * SCALE {
        3
    } else {
        4
    }
}

/// The mean of a non-empty sample, rounded toward zero.
pub fn mean(rs: &Vec<Fixed>) -> (m: Fixed)
    requires
        rs.len() > 0,
    ensures
        m.raw == mean_raw(rs@),
{
    let n = rs.len();
    let mut sum: i128 = 0;
    let mut i: usize = 0;
    while i < n
        invariant
            n == rs.len(),
            i <= n,
            sum == raw_sum(rs@.subrange(0, i as int)),
        decreases n - i,
    {
        proof {
            assert(rs@.subrange(0, i + 1).drop_last() =~= rs@.subrange(0, i as int));
            lemma_raw_sum_bound(rs@.subrange(0, i as int));
        }
        sum = sum + rs[i].raw as i128;
        i += 1;
    }
    proof {
        assert(rs@.subrange(0, n as int) =~= rs@);
        lemma_raw_sum_bound(rs@);
        lemma_mean_in_range(rs@);
    }
    let q = div_toward_zero(sum, n as i128);
    Fixed { raw: q as i64 }
}

/// The least and the greatest value of a non-empty sample.
pub fn extremes(rs: &Vec<Fixed>) -> (r: (Fixed, Fixed))
    requires
        rs.len() > 0,
    ensures
        is_min(rs@, r.0),
        is_max(rs@, r.1),
{
    let mut lo = rs[0];
    let mut hi = rs[0];
    let mut i: usize = 1;
    while i < rs.len()
        invariant
            1 <= i <= rs.len(),
            exists|k: int| 0 <= k < i && rs@[k] == lo,
            exists|k: int| 0 <= k < i && rs@[k] == hi,
            forall|j: int| 0 <= j < i ==> lo.raw <= (#[trigger] rs@[j]).raw,
            forall|j: int| 0 <= j < i ==> hi.raw >= (#[trigger] rs@[j]).raw,
        decreases rs.len() - i,
    {
        if rs[i].raw < lo.raw {
            lo = rs[i];
        }
        if rs[i].raw > hi.raw {
            hi = rs[i];
        }
        assert(rs@[i as int] == rs[i as int]);
        i += 1;
    }
    (lo, hi)
}

/// The sum of the squared distances of a sample from `center`; absent when
/// it exceeds the accumulator.
pub fn squared_deviations(rs: &Vec<Fixed>, center: Fixed) -> (r: Option<i128>)
    ensures
        match r {
            Some(s) => s == sq_dev_sum(rs@, center.raw as int),
            None => sq_dev_sum(rs@, center.raw as int) > i128::MAX,
        },
{
    let n = rs.len();
    let mut sum: i128 = 0;
    let mut i: usize = 0;
    while i < n
        invariant
            n == rs.len(),
            i <= n,
            sum == sq_dev_sum(rs@.subrange(0, i as int), center.raw as int),
            0 <= sum,
        decreases n - i,
    {
        let ghost next = rs@.subrange(0, i + 1);
        proof {
            assert(next.drop_last() =~= rs@.subrange(0, i as int));
            lemma_sq_dev_sum_grows(rs@, center.raw as int, i + 1);
        }
        let d: i128 = rs[i].raw as i128 - center.raw as i128;
        assert(d * d >= 0) by (nonlinear_arith);
        let square = match d.checked_mul(d) {
            Some(sq) => sq,
            None => {
                return None;
            },
        };
        sum = match sum.checked_add(square) {
            Some(s) => s,
            None => {
                return None;
            },
        };
        i += 1;
    }
    assert(rs@.subrange(0, n as int) =~= rs@);
    Some(sum)
}

/// The share of a sample, in percent, that falls in each band.
pub fn distribution(rs: &Vec<Fixed>) -> (shares: [Fixed; 5])
    requires
        rs.len() > 0,
    ensures
        forall|b: int| 0 <= b < 5 ==> (#[trigger] shares[b]).raw == bucket_percent_raw(rs@, b),
{
    let n = rs.len();
    let mut counts: [usize; 5] = [0, 0, 0, 0, 0];
    let mut i: usize = 0;
    while i < n
        invariant
            n == rs.len(),
            i <= n,
            forall|b: int|
                0 <= b < 5 ==> (#[trigger] counts[b]) == bucket_count(rs@.subrange(0, i as int), b),
        decreases n - i,
    {
        let ghost before = counts;
        let ghost next = rs@.subrange(0, i + 1);
        proof {
            assert(next.drop_last() =~= rs@.subrange(0, i as int));
            lemma_bucket_counts_total(rs@.subrange(0, i as int));
        }
        let b = bucket_index(rs[i]);
        counts[b] = counts[b] + 1;
        proof {
            assert forall|c: int| 0 <= c < 5 implies (#[trigger] counts[c]) == bucket_count(
                next,
                c,
            ) by {
                assert(before[c] == bucket_count(rs@.subrange(0, i as int), c));
            }
        }
        i += 1;
    }
    proof {
        assert(rs@.subrange(0, n as int) =~= rs@);
        lemma_bucket_counts_total(rs@);
    }
    let mut shares: [Fixed; 5] = [Fixed { raw: 0 }; 5];
    let mut b: usize = 0;
    while b < BUCKET_COUNT
        invariant
            n == rs.len(),
            n > 0,
            b <= BUCKET_COUNT,
            forall|c: int| 0 <= c < 5 ==> (#[trigger] counts[c]) == bucket_count(rs@, c),
            forall|c: int| 0 <= c < 5 ==> 0 <= #[trigger] bucket_count(rs@, c) <= n,
            forall|c: int| 0 <= c < b ==> (#[trigger] shares[c]).raw == bucket_percent_raw(rs@, c),
        decreases BUCKET_COUNT - b,
    {
        let count = counts[b];
        assert(count == bucket_count(rs@, b as int));
        assert(0 <= count * HUNDRED_RAW <= n * HUNDRED_RAW && (count * HUNDRED_RAW) / (n as int)
            <= HUNDRED_RAW) by (nonlinear_arith)
            requires
                0 <= count <= n,
                n > 0,
                HUNDRED_RAW == 100_000_000,
        ;
        let share: i128 = (count as i128 * HUNDRED_RAW as i128) / (n as i128);
        shares[b] = Fixed { raw: share as i64 };
        b += 1;
    }
    shares
}

/// The statistics of a non-empty sample of returns; absent when the
/// standard deviation cannot be taken.
pub fn rolling_stats(rs: &Vec<Fixed>) -> (r: Option<RollingReturnStats>)
    requires
        rs.len() > 0,
    ensures
        match r {
            Some(s) => deviation_fits(rs@) && stats_match(rs@, s),
            None => !deviation_fits(rs@),
        },
{
    let average = mean(rs);
    let (min, max) = extremes(rs);
    let squares = match squared_deviations(rs, average) {
        Some(s) => s,
        None => {
            return None;
        },
    };
    proof {
        lemma_sq_dev_sum_nonneg(rs@, average.raw as int);
    }
    let variance: i128 = squares / (rs.len() as i128);
    if variance >= VARIANCE_LIMIT {
        return None;
    }
    let root = isqrt(variance as u128);
    assert(root < 0x8000_0000_0000_0000) by (nonlinear_arith)
        requires
            root * root <= variance,
            variance < 0x4000_0000_0000_0000_0000_0000_0000_0000,
            root >= 0,
    ;
    let shares = distribution(rs);
    Some(
        RollingReturnStats {
            average,
            min,
            max,
            std_dev: Fixed { raw: root as i64 },
            distribution: shares,
        },
    )
}

} // verus!
