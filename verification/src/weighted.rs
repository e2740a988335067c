//! Weighted aggregation of per-holding metrics into portfolio figures.
//!
//! For each period the metrics of the holdings that have both a weight and
//! a value for that period are combined, and the result is divided by the
//! weight of those holdings alone: a holding that lacks a period does not
//! pull the average of that period down.
use crate::fixed::{
    div_toward_zero, lemma_product_bound, lemma_trunc_div_exact, narrow, narrow_i128, trunc_div,
    Fixed,
};
use crate::price::{HistoricalPeriod, PeriodTable, PERIOD_COUNT};
use vstd::prelude::*;

verus! {

/// The metrics of one holding for the periods that have one, and the
/// holding's weight in the portfolio, in percent.
#[derive(Clone, Copy, Debug)]
pub struct WeightedRow {
    pub weight: Option<Fixed>,
    pub metrics: PeriodTable,
}

/// The mathematical content of a `WeightedRow`.
pub struct WeightedRowView {
    pub weight: Option<Fixed>,
    pub metrics: Map<HistoricalPeriod, Fixed>,
}

impl View for WeightedRow {
    type V = WeightedRowView;

    open spec fn view(&self) -> WeightedRowView {
        WeightedRowView { weight: self.weight, metrics: self.metrics@ }
    }
}

/// The views of a sequence of rows.
pub open spec fn row_views(rows: Seq<WeightedRow>) -> Seq<WeightedRowView> {
    rows.map_values(|r: WeightedRow| r@)
}

/// Whether a row takes part in the aggregate of period `p`.
pub open spec fn contributes(row: WeightedRowView, p: HistoricalPeriod) -> bool {
    row.weight.is_some() && row.metrics.contains_key(p)
}

/// The running totals of one period.
pub struct Totals {
    /// Sum of metric times weight over the contributing rows.
    pub weighted: int,
    /// Sum of the weights of the contributing rows.
    pub weight: int,
    /// Number of contributing rows.
    pub count: nat,
}

/// Whether a sum of products fits the accumulator.
pub open spec fn fits_wide(v: int) -> bool {
    -i128::MAX <= v <= i128::MAX
}

/// The totals of period `p` over the rows, taken in order; absent once the
/// sum of products leaves the accumulator.
pub open spec fn totals(rows: Seq<WeightedRowView>, p: HistoricalPeriod) -> Option<Totals>
    decreases rows.len(),
{
    if rows.len() == 0 {
        Some(Totals { weighted: 0, weight: 0, count: 0 })
    } else {
        match totals(rows.drop_last(), p) {
            None => None,
            Some(t) => if contributes(rows.last(), p) {
                let w = rows.last().weight.unwrap().raw as int;
                let m = rows.last().metrics[p].raw as int;
                if fits_wide(t.weighted + m * w) {
                    Some(
                        Totals {
                            weighted: t.weighted + m * w,
                            weight: t.weight + w,
                            count: t.count + 1,
                        },
                    )
                } else {
                    None
                }
            } else {
                Some(t)
            },
        }
    }
}

/// The weighted aggregate of period `p`: the weighted sum divided by the
/// weight of the contributing rows, rounded toward zero. Absent when no row
/// contributes, when the contributing weight is zero, or when the value
/// does not fit.
pub open spec fn weighted_value(rows: Seq<WeightedRowView>, p: HistoricalPeriod) -> Option<Fixed> {
    match totals(rows, p) {
        Some(t) => if t.count == 0 || t.weight == 0 {
            None
        } else {
            narrow(trunc_div(t.weighted, t.weight))
        },
        None => None,
    }
}

/// The sum of the weights stays within the rows' number times the range of
/// one weight.
proof fn lemma_totals_weight_bound(rows: Seq<WeightedRowView>, p: HistoricalPeriod)
    ensures
        totals(rows, p) matches Some(t) ==> rows.len() * i64::MIN <= t.weight <= rows.len()
            * i64::MAX && t.count <= rows.len() && fits_wide(t.weighted),
    decreases rows.len(),
{
    if rows.len() > 0 {
        lemma_totals_weight_bound(rows.drop_last(), p);
    }
}

/// Once the totals are absent they stay absent as rows are added.
proof fn lemma_totals_stay_absent(rows: Seq<WeightedRowView>, p: HistoricalPeriod, k: int)
    requires
        0 <= k <= rows.len(),
        totals(rows.subrange(0, k), p).is_none(),
    ensures
        totals(rows, p).is_none(),
    decreases rows.len() - k,
{
    if k < rows.len() {
        assert(rows.subrange(0, k + 1).drop_last() =~= rows.subrange(0, k));
        lemma_totals_stay_absent(rows, p, k + 1);
    } else {
        assert(rows.subrange(0, k) =~= rows);
    }
}

/// When every contributing row has the same metric, the weighted sum is
/// that metric times the sum of the weights.
proof fn lemma_uniform_totals(rows: Seq<WeightedRowView>, p: HistoricalPeriod, m: Fixed)
    requires
        forall|i: int|
            0 <= i < rows.len() && contributes(#[trigger] rows[i], p) ==> rows[i].metrics[p] == m,
    ensures
        totals(rows, p) matches Some(t) ==> t.weighted == m.raw * t.weight,
    decreases rows.len(),
{
    if rows.len() > 0 {
        let rest = rows.drop_last();
        assert forall|i: int|
            0 <= i < rest.len() && contributes(#[trigger] rest[i], p) implies {
            rest[i].metrics[p] == m
        } by {
            assert(rest[i] == rows[i]);
        }
        lemma_uniform_totals(rest, p, m);
        if totals(rest, p).is_some() && contributes(rows.last(), p) {
            let t = totals(rest, p).unwrap();
            let w = rows.last().weight.unwrap().raw as int;
            assert(rows.last() == rows[rows.len() - 1]);
            assert(m.raw * t.weight + m.raw * w == m.raw * (t.weight + w)) by (nonlinear_arith);
        }
    }
}

/// When all holdings that contribute to a period show the same metric, the
/// weighted aggregate of that period is that metric, whatever the weights,
/// as long as the contributing weight is not zero.
pub proof fn lemma_uniform_metric(rows: Seq<WeightedRowView>, p: HistoricalPeriod, m: Fixed)
    requires
        forall|i: int|
            0 <= i < rows.len() && contributes(#[trigger] rows[i], p) ==> rows[i].metrics[p] == m,
        totals(rows, p) matches Some(t) && t.count > 0 && t.weight != 0,
    ensures
        weighted_value(rows, p) == Some(m),
{
    lemma_uniform_totals(rows, p, m);
    let t = totals(rows, p).unwrap();
    lemma_trunc_div_exact(m.raw as int, t.weight);
}

/// Per-period renormalization: of two holdings, where the first has a
/// weight other than zero and only the first has a value for period `p`,
/// the weighted aggregate of `p` is the first holding's value alone, not a
/// share of it.
pub proof fn lemma_missing_period_renormalizes(
    a: WeightedRowView,
    b: WeightedRowView,
    p: HistoricalPeriod,
)
    requires
        a.weight matches Some(w) && w.raw != 0,
        a.metrics.contains_key(p),
        !b.metrics.contains_key(p),
    ensures
        weighted_value(seq![a, b], p) == Some(a.metrics[p]),
{
    let rows = seq![a, b];
    let one = rows.drop_last();
    assert(one =~= seq![a]);
    assert(one.drop_last() =~= Seq::<WeightedRowView>::empty());
    assert(one.last() == a);
    assert(rows.last() == b);
    let w = a.weight.unwrap().raw as int;
    let m = a.metrics[p].raw as int;
    lemma_product_bound(m, w);
    assert(totals(one.drop_last(), p) == Some(Totals { weighted: 0, weight: 0, count: 0 }));
    assert(totals(one, p) == Some(Totals { weighted: m * w, weight: w, count: 1 }));
    assert(totals(rows, p) == Some(Totals { weighted: m * w, weight: w, count: 1 }));
    lemma_trunc_div_exact(m, w);
}

/// The totals of period `period` over the rows; absent once the sum of
/// products leaves the accumulator.
fn period_totals(rows: &Vec<WeightedRow>, period: HistoricalPeriod) -> (r: Option<
    (i128, i128, usize),
>)
    ensures
        match r {
            Some((weighted, weight, count)) => totals(row_views(rows@), period) == Some(
                Totals { weighted: weighted as int, weight: weight as int, count: count as nat },
            ),
            None => totals(row_views(rows@), period).is_none(),
        },
{
    let ghost all = row_views(rows@);
    let mut weighted: i128 = 0;
    let mut weight: i128 = 0;
    let mut count: usize = 0;
    let mut i: usize = 0;
    while i < rows.len()
        invariant
            all == row_views(rows@),
            i <= rows.len(),
            totals(all.subrange(0, i as int), period) == Some(
                Totals { weighted: weighted as int, weight: weight as int, count: count as nat },
            ),
        decreases rows.len() - i,
    {
        proof {
            assert(all.subrange(0, i + 1).drop_last() =~= all.subrange(0, i as int));
            assert(all.subrange(0, i + 1).last() == rows@[i as int]@);
            lemma_totals_weight_bound(all.subrange(0, i as int), period);
        }
        match (rows[i].weight, rows[i].metrics.get(period)) {
            (Some(w), Some(m)) => {
                proof {
                    lemma_product_bound(m.raw as int, w.raw as int);
                }
                let product: i128 = (m.raw as i128) * (w.raw as i128);
                let next = match weighted.checked_add(product) {
                    Some(next) => next,
                    None => {
                        proof {
                            lemma_totals_stay_absent(all, period, i + 1);
                        }
                        return None;
                    },
                };
                if next == i128::MIN {
                    proof {
                        lemma_totals_stay_absent(all, period, i + 1);
                    }
                    return None;
                }
                weighted = next;
                weight = weight + w.raw as i128;
                count = count + 1;
            },
            _ => {},
        }
        i += 1;
    }
    assert(all.subrange(0, rows.len() as int) =~= all);
    Some((weighted, weight, count))
}

/// The weighted aggregate of every period over the rows.
pub fn weighted_average(rows: &Vec<WeightedRow>) -> (table: PeriodTable)
    ensures
        forall|p: HistoricalPeriod|
            #[trigger] table.spec_get(p) == weighted_value(row_views(rows@), p),
{
    let mut table = PeriodTable::new();
    let mut i: usize = 0;
    while i < PERIOD_COUNT
        invariant
            i <= PERIOD_COUNT,
            forall|p: HistoricalPeriod|
                p.spec_index() < i ==> #[trigger] table.spec_get(p) == weighted_value(
                    row_views(rows@),
                    p,
                ),
            forall|p: HistoricalPeriod| p.spec_index() >= i ==> table.spec_get(p).is_none(),
        decreases PERIOD_COUNT - i,
    {
        let period = HistoricalPeriod::from_index(i);
        proof {
            lemma_totals_weight_bound(row_views(rows@), period);
        }
        match period_totals(rows, period) {
            Some((weighted, weight, count)) => {
                if count > 0 && weight != 0 {
                    assert(weight > i128::MIN) by {
                        assert(row_views(rows@).len() == rows.len());
                        assert(rows.len() * i64::MIN <= weight);
                    }
                    match narrow_i128(div_toward_zero(weighted, weight)) {
                        Some(v) => {
                            table.insert(period, v);
                        },
                        None => {},
                    }
                }
            },
            None => {},
        }
        i += 1;
    }
    table
}

} // verus!
