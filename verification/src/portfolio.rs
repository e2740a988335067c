//! Per-holding metrics by lookback period, and their weighted portfolio
//! aggregates: compound annual growth, and price change.
use crate::analytics::{
    calculate_portfolio_value, lookup, portfolio_value_spec, InvestmentValue,
    InvestmentValueView, PortfolioValue, PortfolioValueView, PriceResults,
};
use crate::config::Portfolio;
use crate::currency::CurrencyRateProvider;
use crate::fixed::{div_toward_zero, narrow, narrow_i128, trunc_div, Fixed, HUNDRED_RAW};
use crate::performance::{cagr_outcome, calculate_cagr};
use crate::price::{HistoricalPeriod, PeriodTable, PriceResult, PERIOD_COUNT};
use crate::text::{clone_opt_string, concat2, opt_text};
use crate::weighted::{
    lemma_missing_period_renormalizes, row_views, weighted_average, weighted_value, WeightedRow,
    WeightedRowView,
};
use vstd::prelude::*;
use vstd::string::StringExecFns;

verus! {

/// The metric that is taken per holding and period.
#[derive(Clone, Copy, Debug, PartialEq, Eq, Structural)]
pub enum MetricKind {
    /// Compound annual growth rate, in percent.
    Cagr,
    /// Change of the current price against the historical one, in percent.
    Change,
}

/// The metrics of one holding, or the error that kept them from being
/// taken.
#[derive(Debug)]
pub struct HoldingMetrics {
    pub identifier: String,
    pub short_name: Option<String>,
    pub metrics: PeriodTable,
    pub error: Option<String>,
}

/// The mathematical content of `HoldingMetrics`.
pub struct HoldingMetricsView {
    pub identifier: Seq<char>,
    pub short_name: Option<Seq<char>>,
    pub metrics: Map<HistoricalPeriod, Fixed>,
    pub error: Option<Seq<char>>,
}

impl View for HoldingMetrics {
    type V = HoldingMetricsView;

    open spec fn view(&self) -> HoldingMetricsView {
        HoldingMetricsView {
            identifier: self.identifier@,
            short_name: opt_text(self.short_name),
            metrics: self.metrics@,
            error: opt_text(self.error),
        }
    }
}

/// The metrics of the holdings of a portfolio, and their weighted
/// aggregate by period.
#[derive(Debug)]
pub struct PortfolioMetrics {
    pub name: String,
    pub holdings: Vec<HoldingMetrics>,
    pub portfolio: PeriodTable,
}

/// The mathematical content of `PortfolioMetrics`.
pub struct PortfolioMetricsView {
    pub name: Seq<char>,
    pub holdings: Seq<HoldingMetricsView>,
    pub portfolio: Map<HistoricalPeriod, Fixed>,
}

/// The views of a sequence of holding metrics.
pub open spec fn metrics_views(hs: Seq<HoldingMetrics>) -> Seq<HoldingMetricsView> {
    hs.map_values(|h: HoldingMetrics| h@)
}

impl View for PortfolioMetrics {
    type V = PortfolioMetricsView;

    open spec fn view(&self) -> PortfolioMetricsView {
        PortfolioMetricsView {
            name: self.name@,
            holdings: metrics_views(self.holdings@),
            portfolio: self.portfolio@,
        }
    }
}

/// The change from a historical price to the current one, in percent,
/// rounded toward zero; absent without a positive historical price, or
/// when the percentage does not fit.
pub open spec fn change_of(price: Fixed, historical: Option<Fixed>) -> Option<Fixed> {
    match historical {
        Some(h) => if h.raw > 0 {
            narrow(trunc_div((price.raw - h.raw) * HUNDRED_RAW, h.raw as int))
        } else {
            None
        },
        None => None,
    }
}

/// The price changes of a price result, by period.
pub open spec fn change_values(data: PriceResult) -> Map<HistoricalPeriod, Fixed> {
    Map::new(
        |p: HistoricalPeriod| change_of(data.price, data.historical_prices.spec_get(p)).is_some(),
        |p: HistoricalPeriod| change_of(data.price, data.historical_prices.spec_get(p)).unwrap(),
    )
}

/// The error of a holding whose growth rates could not be taken.
pub open spec fn cagr_failed_message(cause: Seq<char>) -> Seq<char> {
    "CAGR calculation failed: "@ + cause
}

/// The error of a holding without price data.
pub open spec fn no_price_data_message() -> Seq<char> {
    "Price data not available"@
}

/// The metrics of one valued holding. A holding that carries an error
/// hands it on. Growth rates need fetched price data and fail without;
/// price changes are simply none without.
pub open spec fn holding_metrics_spec(
    kind: MetricKind,
    h: InvestmentValueView,
    found: Option<Result<PriceResult, String>>,
) -> HoldingMetricsView {
    let base = HoldingMetricsView {
        identifier: h.identifier,
        short_name: h.short_name,
        metrics: Map::empty(),
        error: None,
    };
    match h.error {
        Some(e) => HoldingMetricsView { error: Some(e), ..base },
        None => match found {
            Some(Ok(data)) => match kind {
                MetricKind::Cagr => match cagr_outcome(data) {
                    Ok(m) => HoldingMetricsView { metrics: m, ..base },
                    Err(msg) => HoldingMetricsView {
                        error: Some(cagr_failed_message(msg)),
                        ..base
                    },
                },
                MetricKind::Change => HoldingMetricsView { metrics: change_values(data), ..base },
            },
            _ => match kind {
                MetricKind::Cagr => HoldingMetricsView {
                    error: Some(no_price_data_message()),
                    ..base
                },
                MetricKind::Change => base,
            },
        },
    }
}

/// The metrics of the holdings that have units, in order. Holdings of
/// stated value have no price history and are left out.
pub open spec fn holdings_metrics(
    kind: MetricKind,
    hs: Seq<InvestmentValueView>,
    prices: Map<Seq<char>, Result<PriceResult, String>>,
) -> Seq<HoldingMetricsView>
    decreases hs.len(),
{
    if hs.len() == 0 {
        Seq::empty()
    } else {
        let rest = holdings_metrics(kind, hs.drop_last(), prices);
        let h = hs.last();
        if h.units.is_some() {
            rest.push(holding_metrics_spec(kind, h, lookup(prices, h.identifier)))
        } else {
            rest
        }
    }
}

/// The rows that go into the weighted aggregate: for each holding that has
/// units, its weight and its metrics.
pub open spec fn metric_rows(
    kind: MetricKind,
    hs: Seq<InvestmentValueView>,
    prices: Map<Seq<char>, Result<PriceResult, String>>,
) -> Seq<WeightedRowView>
    decreases hs.len(),
{
    if hs.len() == 0 {
        Seq::empty()
    } else {
        let rest = metric_rows(kind, hs.drop_last(), prices);
        let h = hs.last();
        if h.units.is_some() {
            rest.push(
                WeightedRowView {
                    weight: h.weight,
                    metrics: holding_metrics_spec(kind, h, lookup(prices, h.identifier)).metrics,
                },
            )
        } else {
            rest
        }
    }
}

/// The weighted aggregates of the rows, by period.
pub open spec fn weighted_values(rows: Seq<WeightedRowView>) -> Map<HistoricalPeriod, Fixed> {
    Map::new(
        |p: HistoricalPeriod| weighted_value(rows, p).is_some(),
        |p: HistoricalPeriod| weighted_value(rows, p).unwrap(),
    )
}

/// The metrics of a valued portfolio.
pub open spec fn portfolio_metrics_spec(
    kind: MetricKind,
    holdings: PortfolioValueView,
    prices: Map<Seq<char>, Result<PriceResult, String>>,
) -> PortfolioMetricsView {
    PortfolioMetricsView {
        name: holdings.name,
        holdings: holdings_metrics(kind, holdings.investments, prices),
        portfolio: weighted_values(metric_rows(kind, holdings.investments, prices)),
    }
}

/// Per-period renormalization at the level of a portfolio: where two
/// holdings with units make up the portfolio, the first with a weight
/// other than zero and a metric for period `p`, the second without a metric
/// for `p`, the portfolio's figure for `p` is the first holding's metric
/// alone, not a share of it.
pub proof fn lemma_portfolio_renormalizes(
    kind: MetricKind,
    holdings: PortfolioValueView,
    prices: Map<Seq<char>, Result<PriceResult, String>>,
    p: HistoricalPeriod,
)
    requires
        holdings.investments.len() == 2,
        holdings.investments[0].units.is_some(),
        holdings.investments[1].units.is_some(),
        holdings.investments[0].weight matches Some(w) && w.raw != 0,
        holding_metrics_spec(
            kind,
            holdings.investments[0],
            lookup(prices, holdings.investments[0].identifier),
        ).metrics.contains_key(p),
        !holding_metrics_spec(
            kind,
            holdings.investments[1],
            lookup(prices, holdings.investments[1].identifier),
        ).metrics.contains_key(p),
    ensures
        ({
            let result = portfolio_metrics_spec(kind, holdings, prices);
            &&& result.holdings.len() == 2
            &&& result.portfolio.contains_key(p)
            &&& result.portfolio[p] == result.holdings[0].metrics[p]
        }),
{
    let hs = holdings.investments;
    let first = hs.drop_last();
    assert(first.len() == 1);
    assert(first.drop_last() =~= Seq::<InvestmentValueView>::empty());
    assert(first.last() == hs[0]);
    assert(hs.last() == hs[1]);
    let m0 = holding_metrics_spec(kind, hs[0], lookup(prices, hs[0].identifier));
    let m1 = holding_metrics_spec(kind, hs[1], lookup(prices, hs[1].identifier));
    let a = WeightedRowView { weight: hs[0].weight, metrics: m0.metrics };
    let b = WeightedRowView { weight: hs[1].weight, metrics: m1.metrics };
    assert(metric_rows(kind, first.drop_last(), prices) =~= Seq::<WeightedRowView>::empty());
    assert(metric_rows(kind, first, prices) =~= seq![a]);
    assert(metric_rows(kind, hs, prices) =~= seq![a, b]);
    assert(holdings_metrics(kind, first.drop_last(), prices) =~= Seq::<
        HoldingMetricsView,
    >::empty());
    assert(holdings_metrics(kind, first, prices) =~= seq![m0]);
    assert(holdings_metrics(kind, hs, prices) =~= seq![m0, m1]);
    lemma_missing_period_renormalizes(a, b, p);
}

/// The change of the current price against each historical price.
pub fn price_changes(data: &PriceResult) -> (changes: PeriodTable)
    ensures
        changes@ == change_values(*data),
{
    let mut changes = PeriodTable::new();
    let mut i: usize = 0;
    while i < PERIOD_COUNT
        invariant
            i <= PERIOD_COUNT,
            forall|p: HistoricalPeriod|
                p.spec_index() < i ==> #[trigger] changes.spec_get(p) == change_of(
                    data.price,
                    data.historical_prices.spec_get(p),
                ),
            forall|p: HistoricalPeriod| p.spec_index() >= i ==> changes.spec_get(p).is_none(),
        decreases PERIOD_COUNT - i,
    {
        let period = HistoricalPeriod::from_index(i);
        match data.historical_prices.get(period) {
            Some(h) => {
                if h.raw > 0 {
                    let diff: i128 = data.price.raw as i128 - h.raw as i128;
                    assert(-0x0800_0000_0000_0000_0000_0000_0000_0000 < diff * HUNDRED_RAW
                        < 0x0800_0000_0000_0000_0000_0000_0000_0000) by (nonlinear_arith)
                        requires
                            -0x1_0000_0000_0000_0000 < diff < 0x1_0000_0000_0000_0000,
                            HUNDRED_RAW == 100_000_000,
                    ;
                    match narrow_i128(
                        div_toward_zero(diff * (HUNDRED_RAW as i128), h.raw as i128),
                    ) {
                        Some(change) => {
                            changes.insert(period, change);
                        },
                        None => {},
                    }
                }
            },
            None => {},
        }
        i += 1;
    }
    assert(changes@ =~= change_values(*data));
    changes
}

/// The metrics of one valued holding, given what was fetched for it.
pub fn holding_metrics(
    kind: MetricKind,
    holding: &InvestmentValue,
    found: Option<&Result<PriceResult, String>>,
) -> (r: HoldingMetrics)
    ensures
        r@ == holding_metrics_spec(
            kind,
            holding@,
            match found {
                Some(f) => Some(*f),
                None => None,
            },
        ),
{
    let mut result = HoldingMetrics {
        identifier: holding.identifier.clone(),
        short_name: clone_opt_string(&holding.short_name),
        metrics: PeriodTable::new(),
        error: None,
    };
    match &holding.error {
        Some(e) => {
            result.error = Some(e.clone());
        },
        None => match found {
            Some(Ok(data)) => match kind {
                MetricKind::Cagr => match calculate_cagr(data) {
                    Ok(cagrs) => {
                        result.metrics = cagrs;
                    },
                    Err(e) => {
                        result.error = Some(concat2("CAGR calculation failed: ", e.as_str()));
                    },
                },
                MetricKind::Change => {
                    result.metrics = price_changes(data);
                },
            },
            _ => match kind {
                MetricKind::Cagr => {
                    result.error = Some(String::from_str("Price data not available"));
                },
                MetricKind::Change => {},
            },
        },
    }
    result
}

/// The metrics of the holdings of a valued portfolio that have units, and
/// their weighted aggregate by period.
pub fn portfolio_metrics(
    kind: MetricKind,
    holdings: &PortfolioValue,
    price_results: &PriceResults,
) -> (r: PortfolioMetrics)
    requires
        price_results.wf(),
    ensures
        r@ == portfolio_metrics_spec(kind, holdings@, price_results@),
{
    let ghost hs = holdings@.investments;
    let mut results: Vec<HoldingMetrics> = Vec::new();
    let mut rows: Vec<WeightedRow> = Vec::new();
    let mut i: usize = 0;
    while i < holdings.investments.len()
        invariant
            price_results.wf(),
            hs == holdings@.investments,
            i <= holdings.investments.len(),
            metrics_views(results@) == holdings_metrics(
                kind,
                hs.subrange(0, i as int),
                price_results@,
            ),
            row_views(rows@) == metric_rows(kind, hs.subrange(0, i as int), price_results@),
        decreases holdings.investments.len() - i,
    {
        let holding = &holdings.investments[i];
        proof {
            assert(hs.subrange(0, i + 1).drop_last() =~= hs.subrange(0, i as int));
            assert(hs.subrange(0, i + 1).last() == holding@);
        }
        if holding.units.is_some() {
            let found = price_results.get(&holding.identifier);
            let result = holding_metrics(kind, holding, found);
            let row = WeightedRow { weight: holding.weight, metrics: result.metrics };
            let ghost results_before = metrics_views(results@);
            let ghost rows_before = row_views(rows@);
            results.push(result);
            rows.push(row);
            proof {
                assert(metrics_views(results@) =~= results_before.push(result@));
                assert(row_views(rows@) =~= rows_before.push(row@));
            }
        }
        i += 1;
    }
    assert(hs.subrange(0, holdings.investments.len() as int) =~= hs);
    let portfolio = weighted_average(&rows);
    assert(portfolio@ =~= weighted_values(row_views(rows@)));
    PortfolioMetrics { name: holdings.name.clone(), holdings: results, portfolio }
}

/// Values a portfolio and takes the growth rates of its holdings and
/// their weighted aggregate.
pub fn calculate_portfolio_returns<P: CurrencyRateProvider>(
    portfolio: &Portfolio,
    price_results: &PriceResults,
    currency_provider: &P,
    target_currency: &str,
) -> (r: PortfolioMetrics)
    requires
        price_results.wf(),
    ensures
        exists|rates: Seq<Result<Fixed, Seq<char>>>|
            rates.len() == portfolio.investments.len() && r@ == portfolio_metrics_spec(
                MetricKind::Cagr,
                portfolio_value_spec(*portfolio, price_results@, target_currency@, rates),
                price_results@,
            ),
{
    let no_progress = || {};
    let holdings = calculate_portfolio_value(
        portfolio,
        price_results,
        currency_provider,
        target_currency,
        &no_progress,
    );
    let r = portfolio_metrics(MetricKind::Cagr, &holdings, price_results);
    proof {
        let rates = choose|rates: Seq<Result<Fixed, Seq<char>>>|
            rates.len() == portfolio.investments.len() && holdings@ == portfolio_value_spec(
                *portfolio,
                price_results@,
                target_currency@,
                rates,
            );
        assert(r@ == portfolio_metrics_spec(
            MetricKind::Cagr,
            portfolio_value_spec(*portfolio, price_results@, target_currency@, rates),
            price_results@,
        ));
    }
    r
}

/// Values a portfolio and takes the price changes of its holdings and
/// their weighted aggregate.
pub fn calculate_portfolio_changes<P: CurrencyRateProvider>(
    portfolio: &Portfolio,
    price_results: &PriceResults,
    currency_provider: &P,
    target_currency: &str,
) -> (r: PortfolioMetrics)
    requires
        price_results.wf(),
    ensures
        exists|rates: Seq<Result<Fixed, Seq<char>>>|
            rates.len() == portfolio.investments.len() && r@ == portfolio_metrics_spec(
                MetricKind::Change,
                portfolio_value_spec(*portfolio, price_results@, target_currency@, rates),
                price_results@,
            ),
{
    let no_progress = || {};
    let holdings = calculate_portfolio_value(
        portfolio,
        price_results,
        currency_provider,
        target_currency,
        &no_progress,
    );
    let r = portfolio_metrics(MetricKind::Change, &holdings, price_results);
    proof {
        let rates = choose|rates: Seq<Result<Fixed, Seq<char>>>|
            rates.len() == portfolio.investments.len() && holdings@ == portfolio_value_spec(
                *portfolio,
                price_results@,
                target_currency@,
                rates,
            );
        assert(r@ == portfolio_metrics_spec(
            MetricKind::Change,
            portfolio_value_spec(*portfolio, price_results@, target_currency@, rates),
            price_results@,
        ));
    }
    r
}

} // verus!
