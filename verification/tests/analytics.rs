use xmf::analytics::{calculate_portfolio_value, PriceResults};
use xmf::assoc::AssocVec;
use xmf::config::{FixedDepositInvestment, Investment, Portfolio, StockInvestment};
use xmf::currency::CurrencyRateProvider;
use xmf::fixed::Fixed;
use xmf::price::{PeriodTable, PriceResult};

fn fx(x: f64) -> Fixed {
    Fixed::from_raw((x * 1_000_000.0).round() as i64)
}

struct MockCurrencyProvider {
    rates: Vec<(String, Result<f64, String>)>,
}

impl MockCurrencyProvider {
    fn new() -> Self {
        MockCurrencyProvider { rates: Vec::new() }
    }

    fn add_rate(&mut self, from: &str, to: &str, rate: f64) {
        let key = format!("{from}:{to}");
        self.rates.push((key, Ok(rate)));
    }

    fn add_error(&mut self, from: &str, to: &str, error: &str) {
        let key = format!("{from}:{to}");
        self.rates.push((key, Err(error.to_string())));
    }
}

impl CurrencyRateProvider for MockCurrencyProvider {
    fn get_rate(&self, from: &str, to: &str) -> Result<Fixed, String> {
        let key = format!("{from}:{to}");
        match self.rates.iter().find(|(k, _)| *k == key) {
            Some((_, Ok(rate))) => Ok(fx(*rate)),
            Some((_, Err(e))) => Err(e.clone()),
            None => Err(format!("Rate not found for {} to {}", from, to)),
        }
    }
}

fn price(price: f64, currency: &str, short_name: Option<&str>) -> PriceResult {
    PriceResult {
        price: fx(price),
        currency: currency.to_string(),
        historical_prices: PeriodTable::new(),
        daily_prices: Vec::new(),
        short_name: short_name.map(|s| s.to_string()),
    }
}

fn stock(symbol: &str, units: f64) -> Investment {
    Investment::Stock(StockInvestment {
        symbol: symbol.to_string(),
        units: fx(units),
        category: None,
    })
}

#[test]
fn test_valid_single_investment() {
    let currency_provider = MockCurrencyProvider::new();
    let mut price_results: PriceResults = AssocVec::new();
    price_results.insert(
        "AAPL".to_string(),
        Ok(price(150.0, "USD", Some("Apple Inc."))),
    );

    let portfolio = Portfolio {
        name: "Tech".to_string(),
        investments: vec![stock("AAPL", 10.0)],
    };
    let holdings =
        calculate_portfolio_value(&portfolio, &price_results, &currency_provider, "USD", &|| ());

    assert_eq!(holdings.name, "Tech");
    assert_eq!(holdings.total_converted_value, Some(fx(1500.0)));
    assert_eq!(holdings.target_currency, "USD");
    assert_eq!(holdings.investments[0].identifier, "AAPL");
    assert_eq!(holdings.investments[0].value, Some(fx(1500.0)));
    assert_eq!(holdings.investments[0].converted_value, Some(fx(1500.0)));
    assert_eq!(holdings.investments[0].weight, Some(fx(100.0)));
    assert_eq!(holdings.investments[0].error, None);
    assert_eq!(
        holdings.investments[0].short_name,
        Some("Apple Inc.".to_string())
    );
}

#[test]
fn test_error_handling_price_fetch() {
    let currency_provider = MockCurrencyProvider::new();
    let mut price_results: PriceResults = AssocVec::new();
    price_results.insert(
        "AAPL".to_string(),
        Ok(price(150.0, "USD", Some("Apple Inc."))),
    );
    price_results.insert("MSFT".to_string(), Err("API unavailable".to_string()));

    let portfolio = Portfolio {
        name: "Tech".to_string(),
        investments: vec![stock("AAPL", 10.0), stock("MSFT", 5.0)],
    };

    let holdings =
        calculate_portfolio_value(&portfolio, &price_results, &currency_provider, "USD", &|| ());

    assert!(holdings.total_converted_value.is_none());
    assert_eq!(holdings.investments[0].error, None);
    assert_eq!(
        holdings.investments[1].error.as_deref(),
        Some("API unavailable")
    );
    assert!(holdings.investments[0].converted_value.is_some());
    assert!(holdings.investments[1].converted_value.is_none());
    assert!(holdings.investments[0].weight.is_none());
}

#[test]
fn test_mixed_currencies_with_conversion() {
    let mut price_results: PriceResults = AssocVec::new();
    price_results.insert(
        "AAPL".to_string(),
        Ok(price(150.0, "USD", Some("Apple Inc."))),
    );
    price_results.insert(
        "RY".to_string(),
        Ok(price(100.0, "CAD", Some("Royal Bank"))),
    );
    let mut currency_provider = MockCurrencyProvider::new();
    currency_provider.add_rate("CAD", "USD", 0.75);
    let portfolio = Portfolio {
        name: "Diversified".to_string(),
        investments: vec![stock("AAPL", 10.0), stock("RY", 10.0)],
    };

    let holdings =
        calculate_portfolio_value(&portfolio, &price_results, &currency_provider, "USD", &|| ());

    assert_eq!(holdings.total_converted_value, Some(fx(2250.0)));
    assert_eq!(holdings.investments[0].identifier, "AAPL");
    assert_eq!(holdings.investments[0].converted_value, Some(fx(1500.0)));
    // 1500 / 2250 * 100, rounded toward zero at six places
    assert_eq!(
        holdings.investments[0].weight,
        Some(Fixed::from_raw(66_666_666))
    );
    assert_eq!(holdings.investments[1].identifier, "RY");
    assert_eq!(holdings.investments[1].value, Some(fx(1000.0)));
    assert_eq!(holdings.investments[1].converted_value, Some(fx(750.0)));
    assert_eq!(
        holdings.investments[1].weight,
        Some(Fixed::from_raw(33_333_333))
    );
}

#[test]
fn test_fixed_deposit_investment() {
    let price_results: PriceResults = AssocVec::new();
    let currency_provider = MockCurrencyProvider::new();

    let portfolio = Portfolio {
        name: "Bank".to_string(),
        investments: vec![deposit("My FD", 5000.0, Some("INR"))],
    };

    let holdings =
        calculate_portfolio_value(&portfolio, &price_results, &currency_provider, "INR", &|| ());

    assert_eq!(holdings.total_converted_value, Some(fx(5000.0)));
    assert_eq!(holdings.investments.len(), 1);
    assert_eq!(holdings.investments[0].identifier, "My FD");
    assert_eq!(holdings.investments[0].converted_value, Some(fx(5000.0)));
    assert_eq!(holdings.investments[0].weight, Some(fx(100.0)));
}

#[test]
fn test_currency_conversion_error() {
    let mut price_results: PriceResults = AssocVec::new();
    price_results.insert("AAPL".to_string(), Ok(price(150.0, "USD", None)));
    price_results.insert("RY".to_string(), Ok(price(100.0, "CAD", None)));
    let mut currency_provider = MockCurrencyProvider::new();
    currency_provider.add_error("CAD", "USD", "Rate service unavailable");
    let portfolio = Portfolio {
        name: "Diversified".to_string(),
        investments: vec![stock("AAPL", 10.0), stock("RY", 10.0)],
    };

    let summary =
        calculate_portfolio_value(&portfolio, &price_results, &currency_provider, "USD", &|| ());

    assert!(summary.total_converted_value.is_none());
    assert_eq!(summary.investments[0].error, None);
    assert_eq!(
        summary.investments[1].error,
        Some("Currency conversion failed from CAD to USD: Rate service unavailable".to_string())
    );
    assert!(summary.investments[0].converted_value.is_some());
    assert!(summary.investments[1].converted_value.is_none());
    assert_eq!(summary.investments[1].value, Some(fx(1000.0)));
}

fn deposit(name: &str, value: f64, currency: Option<&str>) -> Investment {
    Investment::FixedDeposit(FixedDepositInvestment {
        name: name.to_string(),
        value: fx(value),
        currency: currency.map(|c| c.to_string()),
        category: None,
    })
}

#[test]
fn summary_test_fixed_deposit_investment() {
    let price_results: PriceResults = AssocVec::new();
    let currency_provider = MockCurrencyProvider::new();

    // Test with fixed deposit that specifies a currency
    let portfolio_with_currency = Portfolio {
        name: "Bank".to_string(),
        investments: vec![deposit("My FD", 5000.0, Some("INR"))],
    };
    // Test with fixed deposit that does not specify a currency
    let portfolio_without_currency = Portfolio {
        name: "Bank".to_string(),
        investments: vec![deposit("My FD", 6000.0, None)],
    };

    let summary_with_currency = calculate_portfolio_value(
        &portfolio_with_currency,
        &price_results,
        &currency_provider,
        "INR",
        &|| (),
    );
    assert_eq!(summary_with_currency.name, "Bank");
    assert_eq!(summary_with_currency.total_converted_value, Some(fx(5000.0)));
    assert_eq!(summary_with_currency.investments.len(), 1);
    assert_eq!(summary_with_currency.investments[0].identifier, "My FD");
    assert_eq!(summary_with_currency.investments[0].units, None);
    assert_eq!(
        summary_with_currency.investments[0].converted_value,
        Some(fx(5000.0))
    );
    assert_eq!(
        summary_with_currency.investments[0].value_currency,
        Some("INR".to_string())
    );
    assert_eq!(summary_with_currency.investments[0].weight, Some(fx(100.0)));

    let summary_without_currency = calculate_portfolio_value(
        &portfolio_without_currency,
        &price_results,
        &currency_provider,
        "INR",
        &|| (),
    );
    assert_eq!(summary_without_currency.name, "Bank");
    assert_eq!(
        summary_without_currency.total_converted_value,
        Some(fx(6000.0))
    );
    assert_eq!(summary_without_currency.investments.len(), 1);
    assert_eq!(summary_without_currency.investments[0].identifier, "My FD");
    assert_eq!(summary_without_currency.investments[0].units, None);
    assert_eq!(
        summary_without_currency.investments[0].converted_value,
        Some(fx(6000.0))
    );
    assert_eq!(
        summary_without_currency.investments[0].value_currency,
        Some("INR".to_string())
    );
    assert_eq!(
        summary_without_currency.investments[0].weight,
        Some(fx(100.0))
    );

    // Test with non-matching currency (should trigger conversion)
    let mut currency_provider_with_rate = MockCurrencyProvider::new();
    currency_provider_with_rate.add_rate("USD", "INR", 80.0);
    let portfolio_usd_fd = Portfolio {
        name: "Bank".to_string(),
        investments: vec![deposit("USD FD", 100.0, Some("USD"))],
    };
    let summary_usd = calculate_portfolio_value(
        &portfolio_usd_fd,
        &price_results,
        &currency_provider_with_rate,
        "INR",
        &|| (),
    );
    assert_eq!(summary_usd.name, "Bank");
    assert_eq!(summary_usd.total_converted_value, Some(fx(8000.0)));
    assert_eq!(summary_usd.investments.len(), 1);
    assert_eq!(summary_usd.investments[0].identifier, "USD FD");
    assert_eq!(summary_usd.investments[0].units, None);
    assert_eq!(summary_usd.investments[0].converted_value, Some(fx(8000.0)));
    assert_eq!(
        summary_usd.investments[0].value_currency,
        Some("USD".to_string())
    );
    assert_eq!(summary_usd.investments[0].weight, Some(fx(100.0)));
    assert_eq!(summary_usd.investments[0].error, None);

    // Test with currency conversion error
    let mut currency_provider_with_error = MockCurrencyProvider::new();
    currency_provider_with_error.add_error("USD", "INR", "Rate unavailable");
    let summary_error = calculate_portfolio_value(
        &portfolio_usd_fd,
        &price_results,
        &currency_provider_with_error,
        "INR",
        &|| (),
    );
    assert!(summary_error.total_converted_value.is_none());
    assert_eq!(
        summary_error.investments[0].error,
        Some("Currency conversion failed from USD to INR: Rate unavailable".to_string())
    );
}

#[test]
fn test_mixed_investments_with_fixed_deposit() {
    let mut price_results: PriceResults = AssocVec::new();
    price_results.insert("AAPL".to_string(), Ok(price(200.0, "USD", None)));
    let mut currency_provider = MockCurrencyProvider::new();
    currency_provider.add_rate("USD", "INR", 80.0);

    let portfolio = Portfolio {
        name: "Mixed Portfolio".to_string(),
        investments: vec![stock("AAPL", 10.0), deposit("My FD", 40000.0, Some("INR"))],
    };

    let summary =
        calculate_portfolio_value(&portfolio, &price_results, &currency_provider, "INR", &|| ());

    // AAPL value in INR = 10 * 200 * 80 = 160000 INR
    // FD value in INR = 40000 INR
    // Total = 200000 INR
    assert_eq!(summary.total_converted_value, Some(fx(200000.0)));

    let aapl_summary = summary
        .investments
        .iter()
        .find(|i| i.identifier == "AAPL")
        .unwrap();
    let fd_summary = summary
        .investments
        .iter()
        .find(|i| i.identifier == "My FD")
        .unwrap();

    assert_eq!(aapl_summary.converted_value, Some(fx(160000.0)));
    assert_eq!(fd_summary.converted_value, Some(fx(40000.0)));
    assert_eq!(aapl_summary.weight, Some(fx(80.0)));
    assert_eq!(fd_summary.weight, Some(fx(20.0)));
}

#[test]
fn weights_add_up_to_one_hundred_within_rounding() {
    let mut price_results: PriceResults = AssocVec::new();
    price_results.insert("A".to_string(), Ok(price(1.0, "USD", None)));
    let currency_provider = MockCurrencyProvider::new();
    let portfolio = Portfolio {
        name: "Thirds".to_string(),
        investments: vec![stock("A", 1.0), stock("A", 1.0), stock("A", 1.0)],
    };
    let holdings =
        calculate_portfolio_value(&portfolio, &price_results, &currency_provider, "USD", &|| ());
    let sum: i64 = holdings
        .investments
        .iter()
        .map(|h| h.weight.unwrap().raw)
        .sum();
    assert_eq!(sum, 99_999_999);
    assert!((sum - 100_000_000).abs() < 3);
}

#[test]
fn value_out_of_range_is_a_holding_error() {
    let mut price_results: PriceResults = AssocVec::new();
    price_results.insert(
        "BIG".to_string(),
        Ok(PriceResult {
            price: Fixed::from_raw(i64::MAX),
            currency: "USD".to_string(),
            historical_prices: PeriodTable::new(),
            daily_prices: Vec::new(),
            short_name: None,
        }),
    );
    let currency_provider = MockCurrencyProvider::new();
    let portfolio = Portfolio {
        name: "Big".to_string(),
        investments: vec![stock("BIG", 2.0)],
    };
    let holdings =
        calculate_portfolio_value(&portfolio, &price_results, &currency_provider, "USD", &|| ());
    assert_eq!(
        holdings.investments[0].error.as_deref(),
        Some("Value out of range for BIG")
    );
    assert!(holdings.investments[0].converted_value.is_none());
    assert!(holdings.total_converted_value.is_none());
}

#[test]
fn missing_price_is_a_holding_error() {
    let price_results: PriceResults = AssocVec::new();
    let currency_provider = MockCurrencyProvider::new();
    let portfolio = Portfolio {
        name: "Tech".to_string(),
        investments: vec![stock("AAPL", 10.0)],
    };
    let holdings =
        calculate_portfolio_value(&portfolio, &price_results, &currency_provider, "USD", &|| ());
    assert_eq!(
        holdings.investments[0].error.as_deref(),
        Some("Price data not available for AAPL")
    );
    assert!(holdings.total_converted_value.is_none());
}

#[test]
fn zero_total_leaves_weights_absent() {
    let mut price_results: PriceResults = AssocVec::new();
    price_results.insert("AAPL".to_string(), Ok(price(0.0, "USD", None)));
    let currency_provider = MockCurrencyProvider::new();
    let portfolio = Portfolio {
        name: "Tech".to_string(),
        investments: vec![stock("AAPL", 10.0)],
    };
    let holdings =
        calculate_portfolio_value(&portfolio, &price_results, &currency_provider, "USD", &|| ());
    assert_eq!(holdings.total_converted_value, Some(fx(0.0)));
    assert_eq!(holdings.investments[0].converted_value, Some(fx(0.0)));
    assert!(holdings.investments[0].weight.is_none());
}

#[test]
fn progress_hook_runs_once_per_holding() {
    let mut price_results: PriceResults = AssocVec::new();
    price_results.insert("AAPL".to_string(), Ok(price(150.0, "USD", None)));
    let currency_provider = MockCurrencyProvider::new();
    let portfolio = Portfolio {
        name: "Tech".to_string(),
        investments: vec![stock("AAPL", 10.0), stock("MSFT", 1.0)],
    };
    let calls = std::cell::Cell::new(0u32);
    let _ = calculate_portfolio_value(&portfolio, &price_results, &currency_provider, "USD", &|| {
        calls.set(calls.get() + 1)
    });
    assert_eq!(calls.get(), 2);
}

#[test]
fn converted_value_out_of_range_is_a_holding_error() {
    let mut price_results: PriceResults = AssocVec::new();
    price_results.insert(
        "BIG".to_string(),
        Ok(PriceResult {
            price: Fixed::from_raw(i64::MAX),
            currency: "CAD".to_string(),
            historical_prices: PeriodTable::new(),
            daily_prices: Vec::new(),
            short_name: None,
        }),
    );
    let mut currency_provider = MockCurrencyProvider::new();
    currency_provider.add_rate("CAD", "USD", 2.0);
    let portfolio = Portfolio {
        name: "Big".to_string(),
        investments: vec![stock("BIG", 1.0)],
    };
    let holdings =
        calculate_portfolio_value(&portfolio, &price_results, &currency_provider, "USD", &|| ());
    assert_eq!(holdings.investments[0].value, Some(Fixed::from_raw(i64::MAX)));
    assert_eq!(
        holdings.investments[0].error.as_deref(),
        Some("Currency conversion failed from CAD to USD: converted value out of range")
    );
    assert!(holdings.total_converted_value.is_none());
}

#[test]
fn total_that_does_not_fit_is_absent() {
    let mut price_results: PriceResults = AssocVec::new();
    price_results.insert(
        "BIG".to_string(),
        Ok(PriceResult {
            price: Fixed::from_raw(i64::MAX),
            currency: "USD".to_string(),
            historical_prices: PeriodTable::new(),
            daily_prices: Vec::new(),
            short_name: None,
        }),
    );
    let currency_provider = MockCurrencyProvider::new();
    let portfolio = Portfolio {
        name: "Big".to_string(),
        investments: vec![stock("BIG", 1.0), stock("BIG", 1.0)],
    };
    let holdings =
        calculate_portfolio_value(&portfolio, &price_results, &currency_provider, "USD", &|| ());
    assert!(holdings.investments[0].error.is_none());
    assert!(holdings.investments[0].converted_value.is_some());
    assert!(holdings.total_converted_value.is_none());
    assert!(holdings.investments[0].weight.is_none());
}

#[test]
fn negative_total_still_gives_weights() {
    let mut price_results: PriceResults = AssocVec::new();
    price_results.insert("SHORT".to_string(), Ok(price(5.0, "USD", None)));
    let currency_provider = MockCurrencyProvider::new();

    // a single holding worth -5
    let single = Portfolio {
        name: "Short".to_string(),
        investments: vec![stock("SHORT", -1.0)],
    };
    let holdings =
        calculate_portfolio_value(&single, &price_results, &currency_provider, "USD", &|| ());
    assert_eq!(holdings.total_converted_value, Some(fx(-5.0)));
    assert_eq!(holdings.investments[0].converted_value, Some(fx(-5.0)));
    assert_eq!(holdings.investments[0].weight, Some(fx(100.0)));

    // -15 and 5 make -10: weights of 150 and -50 percent
    let mixed = Portfolio {
        name: "Mixed".to_string(),
        investments: vec![stock("SHORT", -3.0), stock("SHORT", 1.0)],
    };
    let holdings =
        calculate_portfolio_value(&mixed, &price_results, &currency_provider, "USD", &|| ());
    assert_eq!(holdings.total_converted_value, Some(fx(-10.0)));
    assert_eq!(holdings.investments[0].weight, Some(fx(150.0)));
    assert_eq!(holdings.investments[1].weight, Some(fx(-50.0)));

    // thirds of a negative total add up to one hundred within rounding
    let thirds = Portfolio {
        name: "Thirds".to_string(),
        investments: vec![stock("SHORT", -1.0), stock("SHORT", -1.0), stock("SHORT", -1.0)],
    };
    let holdings =
        calculate_portfolio_value(&thirds, &price_results, &currency_provider, "USD", &|| ());
    let sum: i64 = holdings
        .investments
        .iter()
        .map(|h| h.weight.unwrap().raw)
        .sum();
    assert_eq!(sum, 99_999_999);

    // values that cancel leave a total of zero and no weights
    let cancelled = Portfolio {
        name: "Cancelled".to_string(),
        investments: vec![stock("SHORT", -1.0), stock("SHORT", 1.0)],
    };
    let holdings =
        calculate_portfolio_value(&cancelled, &price_results, &currency_provider, "USD", &|| ());
    assert_eq!(holdings.total_converted_value, Some(fx(0.0)));
    assert!(holdings.investments[0].weight.is_none());
    assert!(holdings.investments[1].weight.is_none());
}
