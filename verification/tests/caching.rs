use std::cell::Cell;
use xmf::caching::{CachingCurrencyRateProvider, CachingPriceProvider};
use xmf::currency::CurrencyRateProvider;
use xmf::fixed::Fixed;
use xmf::price::{PeriodTable, PriceProvider, PriceResult};

struct MockInnerProvider {
    call_count: Cell<usize>,
}

impl MockInnerProvider {
    fn new() -> Self {
        Self {
            call_count: Cell::new(0),
        }
    }
}

impl<'a> PriceProvider for &'a MockInnerProvider {
    fn fetch_price(&self, symbol: &str) -> Result<PriceResult, String> {
        self.call_count.set(self.call_count.get() + 1);
        if symbol == "AAPL" {
            Ok(PriceResult {
                price: Fixed::from_raw(150_000_000),
                currency: "USD".to_string(),
                historical_prices: PeriodTable::new(),
                daily_prices: Vec::new(),
                short_name: None,
            })
        } else {
            Err("Unknown symbol".to_string())
        }
    }
}

#[test]
fn test_caching_price_provider() {
    let inner_provider = MockInnerProvider::new();
    let mut caching_provider = CachingPriceProvider::new(&inner_provider);

    // First call - should hit inner provider
    let result1 = caching_provider.fetch_price("AAPL").unwrap();
    assert_eq!(result1.price, Fixed::from_raw(150_000_000));
    assert_eq!(inner_provider.call_count.get(), 1);

    // Second call - should be cached
    let result2 = caching_provider.fetch_price("AAPL").unwrap();
    assert_eq!(result2.price, Fixed::from_raw(150_000_000));
    assert_eq!(inner_provider.call_count.get(), 1);

    // Call with different symbol
    let _ = caching_provider.fetch_price("GOOG");
    assert_eq!(inner_provider.call_count.get(), 2);

    // Call again with different symbol
    let again = caching_provider.fetch_price("GOOG");
    assert_eq!(inner_provider.call_count.get(), 2);
    assert_eq!(again.unwrap_err(), "Unknown symbol");
}

struct CountingRates {
    calls: Cell<usize>,
}

impl CurrencyRateProvider for &CountingRates {
    fn get_rate(&self, from: &str, _to: &str) -> Result<Fixed, String> {
        self.calls.set(self.calls.get() + 1);
        if from == "CAD" {
            Ok(Fixed::from_raw(750_000))
        } else {
            Err("Rate service unavailable".to_string())
        }
    }
}

#[test]
fn rates_are_asked_once_per_pair() {
    let inner = CountingRates {
        calls: Cell::new(0),
    };
    let mut rates = CachingCurrencyRateProvider::new(&inner);
    assert_eq!(rates.get_rate("CAD", "USD"), Ok(Fixed::from_raw(750_000)));
    assert_eq!(rates.get_rate("CAD", "USD"), Ok(Fixed::from_raw(750_000)));
    assert_eq!(inner.calls.get(), 1);
    assert!(rates.get_rate("EUR", "USD").is_err());
    assert_eq!(
        rates.get_rate("EUR", "USD"),
        Err("Rate service unavailable".to_string())
    );
    assert_eq!(inner.calls.get(), 2);
    // the pair is the key, not the currency alone
    assert_eq!(rates.get_rate("CAD", "EUR"), Ok(Fixed::from_raw(750_000)));
    assert_eq!(inner.calls.get(), 3);
}
