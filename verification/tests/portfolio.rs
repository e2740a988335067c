use xmf::analytics::{calculate_portfolio_value, InvestmentValue, PortfolioValue, PriceResults};
use xmf::assoc::AssocVec;
use xmf::config::{
    FixedDepositInvestment, Investment, MutualFundInvestment, Portfolio, StockInvestment,
};
use xmf::currency::CurrencyRateProvider;
use xmf::fees::calculate_portfolio_fees;
use xmf::fetch::{investments_to_fetch, ProviderKind};
use xmf::fixed::Fixed;
use xmf::metadata::{FundMetadata, MetadataResults};
use xmf::portfolio::{
    calculate_portfolio_changes, calculate_portfolio_returns, portfolio_metrics, MetricKind,
};
use xmf::price::{DailyPrice, HistoricalPeriod, PeriodTable, PriceResult};
use xmf::rolling::{calculate_portfolio_rolling_returns, combine_stats, StatRow};
use xmf::stats::RollingReturnStats;
use xmf::summary::grand_total;
use xmf::weighted::{weighted_average, WeightedRow};

fn num(x: f64) -> Fixed {
    Fixed::from_raw((x * 1_000_000.0).round() as i64)
}

fn float(x: Fixed) -> f64 {
    x.raw as f64 / 1_000_000.0
}

// A mock currency provider that assumes all currencies are 1:1 with target
struct OneToOne;

impl CurrencyRateProvider for OneToOne {
    fn get_rate(&self, _from: &str, _to: &str) -> Result<Fixed, String> {
        Ok(num(1.0)) // Assume 1:1 for simplicity in tests
    }
}

fn shares(symbol: &str, units: f64) -> Investment {
    Investment::Stock(StockInvestment {
        symbol: symbol.to_string(),
        units: num(units),
        category: None,
    })
}

fn quote(price: f64, name: &str, historical: &[(HistoricalPeriod, f64)]) -> PriceResult {
    let mut historical_prices = PeriodTable::new();
    for (period, value) in historical {
        historical_prices.insert(*period, num(*value));
    }
    PriceResult {
        price: num(price),
        currency: "USD".to_string(),
        historical_prices,
        daily_prices: Vec::new(),
        short_name: Some(name.to_string()),
    }
}

#[test]
fn test_calculate_portfolio_returns_weighted() {
    let portfolio = Portfolio {
        name: "Tech".to_string(),
        investments: vec![shares("AAPL", 10.0), shares("GOOG", 20.0)],
    };

    let mut price_results: PriceResults = AssocVec::new();
    price_results.insert(
        "AAPL".to_string(),
        Ok(quote(100.0, "Apple", &[(HistoricalPeriod::OneYear, 80.0)])), // +25%
    );
    price_results.insert(
        "GOOG".to_string(),
        Ok(quote(50.0, "Google", &[(HistoricalPeriod::OneYear, 40.0)])), // +25%
    );

    let currency_provider = OneToOne;
    let result = calculate_portfolio_returns(&portfolio, &price_results, &currency_provider, "USD");

    // Each stock has 50% weight. (10*100 = 1000, 20*50 = 1000)
    // Both have 25% CAGR. Weighted average should be 25%.
    assert!((float(result.portfolio.get(HistoricalPeriod::OneYear).unwrap()) - 25.0).abs() < 0.1);
    assert_eq!(result.portfolio.get(HistoricalPeriod::OneYear), Some(num(25.0)));
    assert_eq!(result.name, "Tech");
    assert_eq!(result.holdings.len(), 2);
    assert_eq!(result.holdings[0].short_name.as_deref(), Some("Apple"));
}

#[test]
fn test_calculate_portfolio_returns_with_missing_period() {
    let portfolio = Portfolio {
        name: "Tech".to_string(),
        investments: vec![shares("AAPL", 10.0), shares("GOOG", 20.0)],
    };
    let mut price_results: PriceResults = AssocVec::new();
    price_results.insert(
        "AAPL".to_string(),
        Ok(quote(100.0, "Apple", &[(HistoricalPeriod::OneYear, 80.0)])), // +25%
    );
    price_results.insert("GOOG".to_string(), Ok(quote(50.0, "Google", &[])));
    let currency_provider = OneToOne;
    let result = calculate_portfolio_returns(&portfolio, &price_results, &currency_provider, "USD");
    assert!((float(result.portfolio.get(HistoricalPeriod::OneYear).unwrap()) - 25.0).abs() < 0.1);
    // the holding without history reports why it has no rates
    assert_eq!(
        result.holdings[1].error.as_deref(),
        Some("CAGR calculation failed: No historical prices available for CAGR calculation")
    );
    assert_eq!(result.holdings[0].error, None);
}

#[test]
fn returns_report_holdings_without_price_data() {
    let portfolio = Portfolio {
        name: "Tech".to_string(),
        investments: vec![
            shares("AAPL", 10.0),
            shares("MSFT", 1.0),
            Investment::FixedDeposit(FixedDepositInvestment {
                name: "FD".to_string(),
                value: num(10.0),
                currency: None,
                category: None,
            }),
        ],
    };
    let mut price_results: PriceResults = AssocVec::new();
    price_results.insert(
        "AAPL".to_string(),
        Ok(quote(100.0, "Apple", &[(HistoricalPeriod::OneYear, 80.0)])),
    );
    price_results.insert("MSFT".to_string(), Err("API unavailable".to_string()));
    let result = calculate_portfolio_returns(&portfolio, &price_results, &OneToOne, "USD");
    // the deposit is left out
    assert_eq!(result.holdings.len(), 2);
    assert_eq!(result.holdings[1].error.as_deref(), Some("API unavailable"));
    // no total, so no weights, so no portfolio figure
    assert_eq!(result.portfolio.len(), 0);
    assert_eq!(
        result.holdings[0].metrics.get(HistoricalPeriod::OneYear),
        Some(num(25.0))
    );
}

#[test]
fn test_calculate_portfolio_changes_weighted() {
    let portfolio = Portfolio {
        name: "Tech".to_string(),
        investments: vec![shares("AAPL", 10.0), shares("GOOG", 5.0)],
    };

    let mut price_results: PriceResults = AssocVec::new();
    price_results.insert(
        "AAPL".to_string(),
        Ok(quote(100.0, "Apple", &[(HistoricalPeriod::OneDay, 90.0)])), // +11.11%
    );
    price_results.insert(
        "GOOG".to_string(),
        Ok(quote(200.0, "Google", &[(HistoricalPeriod::OneDay, 180.0)])), // +11.11%
    );

    let currency_provider = OneToOne;
    let result = calculate_portfolio_changes(&portfolio, &price_results, &currency_provider, "USD");

    assert_eq!(result.name, "Tech");
    assert_eq!(result.holdings.len(), 2);
    assert_eq!(result.portfolio.len(), 1);

    // Each stock is worth 1000, so 50% weight each.
    // Weighted average is just the average of the two.
    // (11.111... + 11.111...) / 2 = 11.111...
    let aapl_change = float(result.holdings[0].metrics.get(HistoricalPeriod::OneDay).unwrap());
    assert!((aapl_change - 11.11).abs() < 0.02);

    let weighted_change = float(result.portfolio.get(HistoricalPeriod::OneDay).unwrap());
    assert!((weighted_change - 11.11).abs() < 0.02);
    assert_eq!(
        result.portfolio.get(HistoricalPeriod::OneDay),
        Some(Fixed::from_raw(11_111_111))
    );
}

#[test]
fn test_calculate_portfolio_changes_with_uneven_weights() {
    let portfolio = Portfolio {
        name: "Tech".to_string(),
        investments: vec![shares("AAPL", 15.0), shares("GOOG", 2.5)],
    };

    let mut price_results: PriceResults = AssocVec::new();
    price_results.insert(
        "AAPL".to_string(),
        Ok(quote(100.0, "Apple", &[(HistoricalPeriod::OneDay, 90.0)])), // +11.11%
    );
    price_results.insert(
        "GOOG".to_string(),
        Ok(quote(200.0, "Google", &[(HistoricalPeriod::OneDay, 180.0)])), // +11.11%
    );

    let currency_provider = OneToOne;
    let result = calculate_portfolio_changes(&portfolio, &price_results, &currency_provider, "USD");

    // Weighted average should still be the same since individual changes are the same
    let weighted_change = float(result.portfolio.get(HistoricalPeriod::OneDay).unwrap());
    assert!((weighted_change - 11.11).abs() < 0.02);
}

#[test]
fn test_calculate_portfolio_changes_with_missing_period() {
    let portfolio = Portfolio {
        name: "Tech".to_string(),
        investments: vec![shares("AAPL", 10.0), shares("GOOG", 5.0)],
    };

    let mut price_results: PriceResults = AssocVec::new();
    price_results.insert(
        "AAPL".to_string(),
        Ok(quote(
            100.0,
            "Apple",
            &[
                (HistoricalPeriod::OneDay, 90.0),   // +11.11%
                (HistoricalPeriod::FiveDays, 80.0), // +25%
            ],
        )),
    );
    // GOOG is missing the FiveDays period
    price_results.insert(
        "GOOG".to_string(),
        Ok(quote(200.0, "Google", &[(HistoricalPeriod::OneDay, 180.0)])), // +11.11%
    );

    let currency_provider = OneToOne;
    let result = calculate_portfolio_changes(&portfolio, &price_results, &currency_provider, "USD");

    let one_day_change = float(result.portfolio.get(HistoricalPeriod::OneDay).unwrap());
    assert!(
        (one_day_change - 11.11).abs() < 0.02,
        "1D change was {one_day_change}"
    );

    // For 5D, only AAPL contributes. Its weight among contributors is 100%.
    // So the portfolio change for 5D should just be AAPL's change.
    let five_day_change = float(result.portfolio.get(HistoricalPeriod::FiveDays).unwrap());
    assert!(
        (five_day_change - 25.0).abs() < 0.01,
        "5D change was {five_day_change}"
    );
    assert_eq!(result.portfolio.get(HistoricalPeriod::FiveDays), Some(num(25.0)));
}

#[test]
fn changes_skip_history_that_is_not_positive() {
    let holdings = PortfolioValue {
        name: "P".to_string(),
        investments: Vec::new(),
        total_converted_value: Some(num(0.0)),
        target_currency: "USD".to_string(),
    };
    let price_results: PriceResults = AssocVec::new();
    let empty = portfolio_metrics(MetricKind::Change, &holdings, &price_results);
    assert_eq!(empty.holdings.len(), 0);
    assert_eq!(empty.portfolio.len(), 0);

    let data = quote(
        100.0,
        "X",
        &[
            (HistoricalPeriod::OneDay, 0.0),
            (HistoricalPeriod::FiveDays, -5.0),
            (HistoricalPeriod::OneMonth, 125.0),
        ],
    );
    let changes = xmf::portfolio::price_changes(&data);
    assert_eq!(changes.get(HistoricalPeriod::OneDay), None);
    assert_eq!(changes.get(HistoricalPeriod::FiveDays), None);
    assert_eq!(changes.get(HistoricalPeriod::OneMonth), Some(num(-20.0)));
}

#[test]
fn weighted_average_divides_by_the_contributing_weight() {
    let mut a = PeriodTable::new();
    a.insert(HistoricalPeriod::OneYear, num(10.0));
    a.insert(HistoricalPeriod::FiveYears, num(8.0));
    let mut b = PeriodTable::new();
    b.insert(HistoricalPeriod::OneYear, num(20.0));
    let rows = vec![
        WeightedRow {
            weight: Some(num(25.0)),
            metrics: a,
        },
        WeightedRow {
            weight: Some(num(75.0)),
            metrics: b,
        },
        WeightedRow {
            weight: None,
            metrics: a,
        },
    ];
    let t = weighted_average(&rows);
    // (10 * 25 + 20 * 75) / 100 = 17.5
    assert_eq!(t.get(HistoricalPeriod::OneYear), Some(num(17.5)));
    // only the first row has a five year figure
    assert_eq!(t.get(HistoricalPeriod::FiveYears), Some(num(8.0)));
    assert_eq!(t.get(HistoricalPeriod::OneDay), None);

    // a contributing weight of zero leaves the figure absent
    let zero = vec![WeightedRow {
        weight: Some(num(0.0)),
        metrics: a,
    }];
    assert_eq!(weighted_average(&zero).get(HistoricalPeriod::OneYear), None);
    let cancelling = vec![
        WeightedRow {
            weight: Some(num(150.0)),
            metrics: a,
        },
        WeightedRow {
            weight: Some(num(-150.0)),
            metrics: b,
        },
    ];
    assert_eq!(
        weighted_average(&cancelling).get(HistoricalPeriod::OneYear),
        None
    );

    // a negative contributing weight divides like any other
    let short = vec![
        WeightedRow {
            weight: Some(num(150.0)),
            metrics: a,
        },
        WeightedRow {
            weight: Some(num(-50.0)),
            metrics: b,
        },
        WeightedRow {
            weight: Some(num(-200.0)),
            metrics: a,
        },
    ];
    // (10 * 150 + 20 * -50 + 10 * -200) / -100 = 15
    assert_eq!(
        weighted_average(&short).get(HistoricalPeriod::OneYear),
        Some(num(15.0))
    );
}

fn flat_stats(value: f64) -> RollingReturnStats {
    RollingReturnStats {
        average: num(value),
        min: num(value - 1.0),
        max: num(value + 1.0),
        std_dev: num(0.5),
        distribution: [num(0.0), num(100.0), num(0.0), num(0.0), num(0.0)],
    }
}

#[test]
fn rolling_stats_are_combined_by_weight() {
    assert!(combine_stats(&Vec::new()).is_none());
    let rows = vec![
        StatRow {
            weight: num(50.0),
            stats: flat_stats(4.0),
        },
        StatRow {
            weight: num(50.0),
            stats: flat_stats(2.0),
        },
    ];
    let s = combine_stats(&rows).unwrap();
    assert_eq!(s.average, num(3.0));
    assert_eq!(s.min, num(2.0));
    assert_eq!(s.max, num(4.0));
    assert_eq!(s.std_dev, num(0.5));
    assert_eq!(
        s.distribution,
        [num(0.0), num(100.0), num(0.0), num(0.0), num(0.0)]
    );
}

#[test]
fn portfolio_rolling_returns_per_holding() {
    let portfolio = Portfolio {
        name: "Tech".to_string(),
        investments: vec![shares("AAPL", 10.0), shares("GOOG", 10.0), shares("NONE", 1.0)],
    };
    let mut flat = quote(100.0, "Apple", &[]);
    flat.daily_prices = (0..10)
        .map(|i| DailyPrice {
            day: 19_000 + i,
            price: num(100.0),
        })
        .collect();
    let short = quote(100.0, "Google", &[]);
    let mut price_results: PriceResults = AssocVec::new();
    price_results.insert("AAPL".to_string(), Ok(flat));
    price_results.insert("GOOG".to_string(), Ok(short));
    let result = calculate_portfolio_rolling_returns(
        &portfolio,
        &price_results,
        &OneToOne,
        "USD",
        HistoricalPeriod::FiveDays,
    );
    assert_eq!(result.name, "Tech");
    assert_eq!(result.investment_returns.len(), 3);
    assert_eq!(result.investment_returns[0].stats.unwrap().average, num(0.0));
    assert_eq!(
        result.investment_returns[1].error.as_deref(),
        Some("Not enough data")
    );
    assert_eq!(
        result.investment_returns[2].error.as_deref(),
        Some("Price data not available for NONE")
    );
    // a holding failed, so there are no weights and no aggregate
    assert!(result.portfolio_stats.is_none());

    let ok = Portfolio {
        name: "Tech".to_string(),
        investments: vec![shares("AAPL", 10.0)],
    };
    let result = calculate_portfolio_rolling_returns(
        &ok,
        &price_results,
        &OneToOne,
        "USD",
        HistoricalPeriod::FiveDays,
    );
    let s = result.portfolio_stats.unwrap();
    assert_eq!(s.average, num(0.0));
    assert_eq!(s.distribution[1], num(100.0));
}

fn fund(isin: &str, units: f64) -> Investment {
    Investment::MutualFund(MutualFundInvestment {
        isin: isin.to_string(),
        units: num(units),
        category: None,
    })
}

fn metadata(isin: &str, expense_ratio: f64) -> FundMetadata {
    FundMetadata {
        isin: isin.to_string(),
        fund_type: "Debt".to_string(),
        fund_category: "Short Duration Fund".to_string(),
        expense_ratio: num(expense_ratio),
        expense_ratio_date: 20_269,
        aum: num(107715.0),
        fund_rating: Some(4),
        fund_rating_date: Some(20_269),
        category: "Debt - Bonds".to_string(),
    }
}

#[test]
fn portfolio_fee_is_weighted_by_holding() {
    let portfolio = Portfolio {
        name: "Funds".to_string(),
        investments: vec![fund("F1", 10.0), fund("F2", 30.0), shares("AAPL", 1.0), fund("F3", 0.0)],
    };
    let mut price_results: PriceResults = AssocVec::new();
    price_results.insert("F1".to_string(), Ok(quote(100.0, "One", &[])));
    price_results.insert("F2".to_string(), Ok(quote(100.0, "Two", &[])));
    price_results.insert("F3".to_string(), Ok(quote(100.0, "Three", &[])));
    price_results.insert("AAPL".to_string(), Ok(quote(1000.0, "Apple", &[])));
    let holdings = calculate_portfolio_value(&portfolio, &price_results, &OneToOne, "USD", &|| ());
    let mut metadata_results: MetadataResults = AssocVec::new();
    metadata_results.insert("F1".to_string(), Ok(metadata("F1", 1.0)));
    metadata_results.insert("F2".to_string(), Ok(metadata("F2", 0.5)));
    metadata_results.insert("F3".to_string(), Err("Empty funds array".to_string()));

    let fees = calculate_portfolio_fees(&portfolio, &holdings, &metadata_results);
    assert_eq!(fees.name, "Funds");
    assert_eq!(fees.investment_fees.len(), 4);
    assert_eq!(fees.investment_fees[0].expense_ratio, num(1.0));
    assert_eq!(fees.investment_fees[0].weight, num(20.0));
    assert_eq!(fees.investment_fees[1].weight, num(60.0));
    assert_eq!(fees.investment_fees[2].expense_ratio, num(0.0));
    assert_eq!(fees.investment_fees[2].error, None);
    assert_eq!(
        fees.investment_fees[3].error.as_deref(),
        Some("Empty funds array")
    );
    // (1.0 * 20 + 0.5 * 60) / 100 = 0.5
    assert_eq!(fees.portfolio_fee, Some(num(0.5)));

    let nothing = calculate_portfolio_fees(
        &Portfolio {
            name: "Empty".to_string(),
            investments: Vec::new(),
        },
        &holdings,
        &metadata_results,
    );
    assert_eq!(nothing.portfolio_fee, Some(num(0.0)));
    assert!(nothing.investment_fees.is_empty());
}

#[test]
fn each_instrument_is_planned_once() {
    let portfolios = vec![
        Portfolio {
            name: "A".to_string(),
            investments: vec![shares("AAPL", 1.0), fund("INF1", 2.0)],
        },
        Portfolio {
            name: "B".to_string(),
            investments: vec![
                shares("AAPL", 5.0),
                Investment::FixedDeposit(FixedDepositInvestment {
                    name: "FD".to_string(),
                    value: num(1.0),
                    currency: None,
                    category: None,
                }),
                shares("MSFT", 1.0),
            ],
        },
    ];
    let plan = investments_to_fetch(&portfolios);
    assert_eq!(plan.len(), 3);
    assert_eq!(plan.get(&"AAPL".to_string()), Some(&ProviderKind::Symbol));
    assert_eq!(plan.get(&"INF1".to_string()), Some(&ProviderKind::Isin));
    assert_eq!(plan.get(&"MSFT".to_string()), Some(&ProviderKind::Symbol));
    assert_eq!(plan.get(&"FD".to_string()), None);
    assert_eq!(investments_to_fetch(&Vec::new()).len(), 0);
}

#[test]
fn grand_total_needs_every_portfolio_total() {
    let value = |total: Option<f64>| PortfolioValue {
        name: "P".to_string(),
        investments: Vec::new(),
        total_converted_value: total.map(num),
        target_currency: "USD".to_string(),
    };
    assert_eq!(
        grand_total(&vec![value(Some(1500.0)), value(Some(2250.5))]),
        Some(num(3750.5))
    );
    assert_eq!(grand_total(&vec![value(Some(1500.0)), value(None)]), None);
    assert_eq!(grand_total(&Vec::new()), Some(num(0.0)));
    let huge = PortfolioValue {
        name: "P".to_string(),
        investments: Vec::new(),
        total_converted_value: Some(Fixed::from_raw(i64::MAX)),
        target_currency: "USD".to_string(),
    };
    let one = value(Some(1.0));
    assert_eq!(grand_total(&vec![huge, one]), None);
}

#[test]
fn returns_need_price_data() {
    let holding = InvestmentValue {
        identifier: "GHOST".to_string(),
        short_name: None,
        units: Some(num(1.0)),
        price: Some(num(1.0)),
        value: Some(num(1.0)),
        value_currency: Some("USD".to_string()),
        converted_value: Some(num(1.0)),
        weight: Some(num(100.0)),
        error: None,
    };
    let holdings = PortfolioValue {
        name: "P".to_string(),
        investments: vec![holding],
        total_converted_value: Some(num(1.0)),
        target_currency: "USD".to_string(),
    };
    let price_results: PriceResults = AssocVec::new();
    let cagr = portfolio_metrics(MetricKind::Cagr, &holdings, &price_results);
    assert_eq!(
        cagr.holdings[0].error.as_deref(),
        Some("Price data not available")
    );
    let change = portfolio_metrics(MetricKind::Change, &holdings, &price_results);
    assert_eq!(change.holdings[0].error, None);
    assert_eq!(change.holdings[0].metrics.len(), 0);
}

#[test]
fn rolling_failures_are_reported_per_holding() {
    let portfolio = Portfolio {
        name: "Tech".to_string(),
        investments: vec![shares("JUMP", 1.0)],
    };
    let mut jump = quote(2.0, "Jump", &[]);
    jump.daily_prices = [1.0, 1.0, 1.0, 1.0, 2.0]
        .iter()
        .enumerate()
        .map(|(i, p)| DailyPrice {
            day: 19_000 + i as i32,
            price: num(*p),
        })
        .collect();
    let mut price_results: PriceResults = AssocVec::new();
    price_results.insert("JUMP".to_string(), Ok(jump));
    let result = calculate_portfolio_rolling_returns(
        &portfolio,
        &price_results,
        &OneToOne,
        "USD",
        HistoricalPeriod::FiveDays,
    );
    assert_eq!(
        result.investment_returns[0].error.as_deref(),
        Some("Rolling return calculation failed: Rolling return out of range")
    );
    assert!(result.portfolio_stats.is_none());
}
