//! Rolling-return statistics per holding of a portfolio, and their
//! weighted portfolio aggregate.
use crate::analytics::{
    calculate_portfolio_value, lookup, portfolio_value_spec, InvestmentValue,
    InvestmentValueView, PortfolioValue, PriceResults,
};
use crate::config::Portfolio;
use crate::currency::CurrencyRateProvider;
use crate::fixed::{
    div_toward_zero, lemma_product_bound, narrow, narrow_i128, trunc_div, Fixed, HUNDRED_RAW,
};
use crate::performance::{calculate_rolling_returns, prices_of, rolling_outcome, sorted_by_day};
use crate::price::{HistoricalPeriod, PriceResult};
use crate::stats::RollingReturnStats;
use crate::text::{clone_opt_string, concat2, opt_text};
use vstd::prelude::*;
use vstd::string::StringExecFns;

verus! {

/// Number of figures in the statistics: average, least, greatest, standard
/// deviation, and the five shares of the distribution.
pub const STAT_FIELDS: usize = 9;

/// The rolling-return statistics of one holding, or the error that kept
/// them from being taken.
#[derive(Debug)]
pub struct RollingReturnResult {
    pub identifier: String,
    pub short_name: Option<String>,
    pub stats: Option<RollingReturnStats>,
    pub error: Option<String>,
}

/// The mathematical content of a `RollingReturnResult`.
pub struct RollingReturnResultView {
    pub identifier: Seq<char>,
    pub short_name: Option<Seq<char>>,
    pub stats: Option<RollingReturnStats>,
    pub error: Option<Seq<char>>,
}

impl View for RollingReturnResult {
    type V = RollingReturnResultView;

    open spec fn view(&self) -> RollingReturnResultView {
        RollingReturnResultView {
            identifier: self.identifier@,
            short_name: opt_text(self.short_name),
            stats: self.stats,
            error: opt_text(self.error),
        }
    }
}

/// The rolling-return statistics of the holdings of a portfolio, and their
/// weighted aggregate.
#[derive(Debug)]
pub struct PortfolioRollingReturnResult {
    pub name: String,
    pub investment_returns: Vec<RollingReturnResult>,
    pub portfolio_stats: Option<RollingReturnStats>,
}

/// The statistics of one holding together with the holding's weight.
#[derive(Clone, Copy, Debug)]
pub struct StatRow {
    pub weight: Fixed,
    pub stats: RollingReturnStats,
}

/// The views of a sequence of results.
pub open spec fn result_views(rs: Seq<RollingReturnResult>) -> Seq<RollingReturnResultView> {
    rs.map_values(|r: RollingReturnResult| r@)
}

/// The figure of the statistics at position `f`.
pub open spec fn field_of(s: RollingReturnStats, f: int) -> Fixed {
    if f == 0 {
        s.average
    } else if f == 1 {
        s.min
    } else if f == 2 {
        s.max
    } else if f == 3 {
        s.std_dev
    } else {
        s.distribution[f - 4]
    }
}

/// A figure scaled by a weight in percent, rounded toward zero; absent
/// when it does not fit.
pub open spec fn scaled(figure: Fixed, weight: Fixed) -> Option<Fixed> {
    narrow(trunc_div(figure.raw * weight.raw, HUNDRED_RAW as int))
}

/// Sum over the rows of figure `f` scaled by the row's weight; absent when
/// a scaled figure is.
pub open spec fn scaled_sum(rows: Seq<StatRow>, f: int) -> Option<int>
    decreases rows.len(),
{
    if rows.len() == 0 {
        Some(0)
    } else {
        match (
            scaled_sum(rows.drop_last(), f),
            scaled(field_of(rows.last().stats, f), rows.last().weight),
        ) {
            (Some(acc), Some(v)) => Some(acc + v.raw),
            _ => None,
        }
    }
}

/// The weighted total of figure `f`; absent when it does not fit.
pub open spec fn field_total(rows: Seq<StatRow>, f: int) -> Option<Fixed> {
    match scaled_sum(rows, f) {
        Some(v) => narrow(v),
        None => None,
    }
}

/// Whether `r` is the weighted aggregate of the rows: each figure the sum
/// of the rows' figures scaled by their weights; absent when there are no
/// rows or a figure does not fit.
pub open spec fn combined_matches(rows: Seq<StatRow>, r: Option<RollingReturnStats>) -> bool {
    match r {
        Some(s) => rows.len() > 0 && forall|f: int|
            0 <= f < STAT_FIELDS ==> #[trigger] field_total(rows, f) == Some(field_of(s, f)),
        None => rows.len() == 0 || exists|f: int|
            0 <= f < STAT_FIELDS && (#[trigger] field_total(rows, f)).is_none(),
    }
}

/// The error of a holding with too short a price series.
pub open spec fn not_enough_data_message() -> Seq<char> {
    "Not enough data"@
}

/// The error of a holding whose rolling returns could not be taken.
pub open spec fn rolling_failed_message(cause: Seq<char>) -> Seq<char> {
    "Rolling return calculation failed: "@ + cause
}

/// The error of a holding without price data.
pub open spec fn no_price_data_message() -> Seq<char> {
    "Price data not available"@
}

/// The result for a holding, given what the calculation on its price data
/// came to; `None` stands for a holding without price data.
pub open spec fn rolling_result_from(
    h: InvestmentValueView,
    outcome: Option<Result<Option<RollingReturnStats>, String>>,
) -> RollingReturnResultView {
    let base = RollingReturnResultView {
        identifier: h.identifier,
        short_name: h.short_name,
        stats: None,
        error: None,
    };
    match h.error {
        Some(e) => RollingReturnResultView { error: Some(e), ..base },
        None => match outcome {
            Some(Ok(Some(s))) => RollingReturnResultView { stats: Some(s), ..base },
            Some(Ok(None)) => RollingReturnResultView {
                error: Some(not_enough_data_message()),
                ..base
            },
            Some(Err(e)) => RollingReturnResultView {
                error: Some(rolling_failed_message(e@)),
                ..base
            },
            None => RollingReturnResultView { error: Some(no_price_data_message()), ..base },
        },
    }
}

/// Whether `r` is the result for holding `h`: a holding that carries an
/// error hands it on; otherwise the result is made from the rolling
/// returns of the holding's price data for the period.
pub open spec fn is_rolling_result(
    h: InvestmentValueView,
    found: Option<Result<PriceResult, String>>,
    period: HistoricalPeriod,
    r: RollingReturnResultView,
) -> bool {
    if h.error.is_some() {
        r == rolling_result_from(h, None)
    } else {
        match found {
            Some(Ok(data)) => exists|outcome: Result<Option<RollingReturnStats>, String>|
                #[trigger] rolling_outcome(
                    prices_of(sorted_by_day(data.daily_prices@)),
                    period.spec_trading_days(),
                    outcome,
                ) && r == rolling_result_from(h, Some(outcome)),
            _ => r == rolling_result_from(h, None),
        }
    }
}

/// The holdings that have units: those of stated value have no price
/// history.
pub open spec fn with_units(hs: Seq<InvestmentValueView>) -> Seq<InvestmentValueView>
    decreases hs.len(),
{
    if hs.len() == 0 {
        Seq::empty()
    } else {
        let rest = with_units(hs.drop_last());
        if hs.last().units.is_some() {
            rest.push(hs.last())
        } else {
            rest
        }
    }
}

/// The rows that go into the aggregate: the statistics of each holding
/// that has both statistics and a weight.
pub open spec fn stat_rows(
    hs: Seq<InvestmentValueView>,
    results: Seq<RollingReturnResultView>,
) -> Seq<StatRow>
    decreases hs.len(),
{
    if hs.len() == 0 || results.len() != hs.len() {
        Seq::empty()
    } else {
        let rest = stat_rows(hs.drop_last(), results.drop_last());
        match (hs.last().weight, results.last().stats) {
            (Some(w), Some(s)) => rest.push(StatRow { weight: w, stats: s }),
            _ => rest,
        }
    }
}

/// The scaled figures add up within the rows' number times the range of
/// one figure.
proof fn lemma_scaled_sum_bound(rows: Seq<StatRow>, f: int)
    ensures
        scaled_sum(rows, f) matches Some(v) ==> rows.len() * i64::MIN <= v <= rows.len()
            * i64::MAX,
    decreases rows.len(),
{
    if rows.len() > 0 {
        lemma_scaled_sum_bound(rows.drop_last(), f);
    }
}

/// Once the sum of scaled figures is absent it stays absent as rows are
/// added.
proof fn lemma_scaled_sum_stays_absent(rows: Seq<StatRow>, f: int, k: int)
    requires
        0 <= k <= rows.len(),
        scaled_sum(rows.subrange(0, k), f).is_none(),
    ensures
        scaled_sum(rows, f).is_none(),
    decreases rows.len() - k,
{
    if k < rows.len() {
        assert(rows.subrange(0, k + 1).drop_last() =~= rows.subrange(0, k));
        lemma_scaled_sum_stays_absent(rows, f, k + 1);
    } else {
        assert(rows.subrange(0, k) =~= rows);
    }
}

/// The figure of the statistics at position `f`.
pub fn stat_field(s: &RollingReturnStats, f: usize) -> (v: Fixed)
    requires
        f < STAT_FIELDS,
    ensures
        v == field_of(*s, f as int),
{
    if f == 0 {
        s.average
    } else if f == 1 {
        s.min
    } else if f == 2 {
        s.max
    } else if f == 3 {
        s.std_dev
    } else {
        s.distribution[f - 4]
    }
}

/// A figure scaled by a weight in percent.
pub fn scale_by_weight(figure: Fixed, weight: Fixed) -> (r: Option<Fixed>)
    ensures
        r == scaled(figure, weight),
{
    proof {
        lemma_product_bound(figure.raw as int, weight.raw as int);
    }
    let product: i128 = (figure.raw as i128) * (weight.raw as i128);
    narrow_i128(div_toward_zero(product, HUNDRED_RAW as i128))
}

/// The weighted total of figure `f` over the rows.
pub fn total_of_field(rows: &Vec<StatRow>, f: usize) -> (r: Option<Fixed>)
    requires
        f < STAT_FIELDS,
    ensures
        r == field_total(rows@, f as int),
{
    let mut acc: i128 = 0;
    let mut i: usize = 0;
    while i < rows.len()
        invariant
            f < STAT_FIELDS,
            i <= rows.len(),
            scaled_sum(rows@.subrange(0, i as int), f as int) == Some(acc as int),
        decreases rows.len() - i,
    {
        proof {
            assert(rows@.subrange(0, i + 1).drop_last() =~= rows@.subrange(0, i as int));
            lemma_scaled_sum_bound(rows@.subrange(0, i as int), f as int);
        }
        match scale_by_weight(stat_field(&rows[i].stats, f), rows[i].weight) {
            Some(v) => {
                acc = acc + v.raw as i128;
            },
            None => {
                proof {
                    lemma_scaled_sum_stays_absent(rows@, f as int, i + 1);
                }
                return None;
            },
        }
        i += 1;
    }
    assert(rows@.subrange(0, rows.len() as int) =~= rows@);
    narrow_i128(acc)
}

/// The weighted aggregate of the rows' statistics.
pub fn combine_stats(rows: &Vec<StatRow>) -> (r: Option<RollingReturnStats>)
    ensures
        combined_matches(rows@, r),
{
    if rows.len() == 0 {
        return None;
    }
    let mut totals: [Fixed; 9] = [Fixed { raw: 0 }; 9];
    let mut f: usize = 0;
    while f < STAT_FIELDS
        invariant
            f <= STAT_FIELDS,
            forall|g: int| 0 <= g < f ==> #[trigger] field_total(rows@, g) == Some(totals[g]),
        decreases STAT_FIELDS - f,
    {
        match total_of_field(rows, f) {
            Some(t) => {
                totals[f] = t;
            },
            None => {
                return None;
            },
        }
        f += 1;
    }
    let s = RollingReturnStats {
        average: totals[0],
        min: totals[1],
        max: totals[2],
        std_dev: totals[3],
        distribution: [totals[4], totals[5], totals[6], totals[7], totals[8]],
    };
    assert forall|g: int| 0 <= g < STAT_FIELDS implies #[trigger] field_total(rows@, g) == Some(
        field_of(s, g),
    ) by {
        assert(field_of(s, g) == totals[g]);
    }
    Some(s)
}

/// The rolling-return result of one valued holding, given what was fetched
/// for it.
pub fn rolling_result(
    holding: &InvestmentValue,
    found: Option<&Result<PriceResult, String>>,
    period: HistoricalPeriod,
) -> (r: RollingReturnResult)
    ensures
        is_rolling_result(
            holding@,
            match found {
                Some(f) => Some(*f),
                None => None,
            },
            period,
            r@,
        ),
{
    let mut result = RollingReturnResult {
        identifier: holding.identifier.clone(),
        short_name: clone_opt_string(&holding.short_name),
        stats: None,
        error: None,
    };
    match &holding.error {
        Some(e) => {
            result.error = Some(e.clone());
        },
        None => match found {
            Some(Ok(data)) => {
                let outcome = calculate_rolling_returns(data, period);
                match &outcome {
                    Ok(Some(stats)) => {
                        result.stats = Some(*stats);
                    },
                    Ok(None) => {
                        result.error = Some(String::from_str("Not enough data"));
                    },
                    Err(e) => {
                        result.error = Some(
                            concat2("Rolling return calculation failed: ", e.as_str()),
                        );
                    },
                }
                assert(result@ == rolling_result_from(holding@, Some(outcome)));
            },
            _ => {
                result.error = Some(String::from_str("Price data not available"));
            },
        },
    }
    result
}

/// The rolling-return statistics of the holdings of a valued portfolio
/// that have units, and their weighted aggregate.
pub fn portfolio_rolling_returns(
    holdings: &PortfolioValue,
    price_results: &PriceResults,
    period: HistoricalPeriod,
) -> (r: PortfolioRollingReturnResult)
    requires
        price_results.wf(),
    ensures
        r.name@ == holdings.name@,
        result_views(r.investment_returns@).len() == with_units(holdings@.investments).len(),
        forall|i: int|
            0 <= i < r.investment_returns.len() ==> is_rolling_result(
                with_units(holdings@.investments)[i],
                lookup(price_results@, with_units(holdings@.investments)[i].identifier),
                period,
                #[trigger] result_views(r.investment_returns@)[i],
            ),
        combined_matches(
            stat_rows(with_units(holdings@.investments), result_views(r.investment_returns@)),
            r.portfolio_stats,
        ),
{
    let ghost hs = holdings@.investments;
    let mut results: Vec<RollingReturnResult> = Vec::new();
    let mut rows: Vec<StatRow> = Vec::new();
    let mut i: usize = 0;
    while i < holdings.investments.len()
        invariant
            price_results.wf(),
            hs == holdings@.investments,
            i <= holdings.investments.len(),
            results.len() == with_units(hs.subrange(0, i as int)).len(),
            forall|j: int|
                0 <= j < results.len() ==> is_rolling_result(
                    with_units(hs.subrange(0, i as int))[j],
                    lookup(price_results@, with_units(hs.subrange(0, i as int))[j].identifier),
                    period,
                    #[trigger] result_views(results@)[j],
                ),
            rows@ == stat_rows(with_units(hs.subrange(0, i as int)), result_views(results@)),
        decreases holdings.investments.len() - i,
    {
        let holding = &holdings.investments[i];
        let ghost before = with_units(hs.subrange(0, i as int));
        proof {
            assert(hs.subrange(0, i + 1).drop_last() =~= hs.subrange(0, i as int));
            assert(hs.subrange(0, i + 1).last() == holding@);
        }
        if holding.units.is_some() {
            let found = price_results.get(&holding.identifier);
            let result = rolling_result(holding, found, period);
            let ghost views_before = result_views(results@);
            let stats = result.stats;
            results.push(result);
            proof {
                let after = with_units(hs.subrange(0, i + 1));
                assert(after == before.push(holding@));
                assert(result_views(results@) =~= views_before.push(result@));
                assert(after.drop_last() =~= before);
                assert(result_views(results@).drop_last() =~= views_before);
            }
            match (holding.weight, stats) {
                (Some(w), Some(s)) => {
                    rows.push(StatRow { weight: w, stats: s });
                },
                _ => {},
            }
        }
        i += 1;
    }
    assert(hs.subrange(0, holdings.investments.len() as int) =~= hs);
    let portfolio_stats = combine_stats(&rows);
    PortfolioRollingReturnResult {
        name: holdings.name.clone(),
        investment_returns: results,
        portfolio_stats,
    }
}

/// Values a portfolio and takes the rolling-return statistics of its
/// holdings for one period, and their weighted aggregate.
pub fn calculate_portfolio_rolling_returns<P: CurrencyRateProvider>(
    portfolio: &Portfolio,
    price_results: &PriceResults,
    currency_provider: &P,
    target_currency: &str,
    period: HistoricalPeriod,
) -> (r: PortfolioRollingReturnResult)
    requires
        price_results.wf(),
    ensures
        exists|rates: Seq<Result<Fixed, Seq<char>>>|
            {
                let pv = #[trigger] portfolio_value_spec(
                    *portfolio,
                    price_results@,
                    target_currency@,
                    rates,
                );
                &&& rates.len() == portfolio.investments.len()
                &&& r.name@ == pv.name
                &&& result_views(r.investment_returns@).len() == with_units(pv.investments).len()
                &&& forall|i: int|
                    0 <= i < r.investment_returns.len() ==> is_rolling_result(
                        with_units(pv.investments)[i],
                        lookup(price_results@, with_units(pv.investments)[i].identifier),
                        period,
                        #[trigger] result_views(r.investment_returns@)[i],
                    )
                &&& combined_matches(
                    stat_rows(with_units(pv.investments), result_views(r.investment_returns@)),
                    r.portfolio_stats,
                )
            },
{
    let no_progress = || {};
    let holdings = calculate_portfolio_value(
        portfolio,
        price_results,
        currency_provider,
        target_currency,
        &no_progress,
    );
    let r = portfolio_rolling_returns(&holdings, price_results, period);
    proof {
        let rates = choose|rates: Seq<Result<Fixed, Seq<char>>>|
            rates.len() == portfolio.investments.len() && holdings@ == portfolio_value_spec(
                *portfolio,
                price_results@,
                target_currency@,
                rates,
            );
        let pv = portfolio_value_spec(*portfolio, price_results@, target_currency@, rates);
        assert(pv == holdings@);
    }
    r
}

} // verus!
