use xmf::cache::KeyValueCollection;
use xmf::fixed::Fixed;
use xmf::price::{DailyPrice, HistoricalPeriod, PeriodTable, PriceResult};
use xmf::providers::amfi::{
    daily_series, dedup_by_day, historical_from_navs, refresh_ttl_seconds, AmfiProvider,
};
use xmf::providers::cache_key;
use xmf::providers::yahoo::{
    daily_prices_from_chart, extract_historical_prices, find_closest_price, normalize_pence,
    YahooCurrencyProvider, YahooFinanceProvider,
};
use xmf::store::memory::MemoryCollection;

fn px(x: f64) -> Fixed {
    Fixed::from_raw((x * 1_000_000.0).round() as i64)
}

const DAY: i64 = 86_400;

#[test]
fn closest_price_is_the_first_at_or_after_the_target() {
    let timestamps = [100, 200, 300, 400];
    let prices = [Some(px(1.0)), None, Some(px(3.0)), Some(px(4.0))];
    assert_eq!(find_closest_price(0, &timestamps, &prices), Some(px(1.0)));
    assert_eq!(find_closest_price(100, &timestamps, &prices), Some(px(1.0)));
    assert_eq!(find_closest_price(101, &timestamps, &prices), None);
    assert_eq!(find_closest_price(201, &timestamps, &prices), Some(px(3.0)));
    assert_eq!(find_closest_price(401, &timestamps, &prices), None);
    assert_eq!(find_closest_price(400, &timestamps, &prices[..3]), None);
    assert_eq!(find_closest_price(5, &[], &[]), None);
}

#[test]
fn historical_prices_from_a_chart() {
    // eleven years of daily closes ending today; the close of a day is its
    // index
    let last: i64 = 1_735_689_600; // 2025-01-01
    let n: i64 = 4_000;
    let timestamps: Vec<i64> = (0..n).map(|i| last - (n - 1 - i) * DAY).collect();
    let closes: Vec<Option<Fixed>> = (0..n).map(|i| Some(px(i as f64 + 1.0))).collect();
    let table = extract_historical_prices(Some(&timestamps), Some(&closes));
    let at = |days_back: i64| Some(px((n - days_back) as f64));
    assert_eq!(table.get(HistoricalPeriod::OneDay), at(1));
    assert_eq!(table.get(HistoricalPeriod::FiveDays), at(5));
    assert_eq!(table.get(HistoricalPeriod::OneMonth), at(30));
    assert_eq!(table.get(HistoricalPeriod::OneYear), at(365));
    assert_eq!(table.get(HistoricalPeriod::ThreeYears), at(1095));
    assert_eq!(table.get(HistoricalPeriod::FiveYears), at(1825));
    assert_eq!(table.get(HistoricalPeriod::TenYears), at(3650));

    assert!(extract_historical_prices(None, Some(&closes)).is_empty());
    assert!(extract_historical_prices(Some(&timestamps), None).is_empty());
    assert!(extract_historical_prices(Some(&Vec::new()), Some(&closes)).is_empty());
}

#[test]
fn short_charts_reach_back_to_their_first_close() {
    let timestamps = vec![10 * DAY, 11 * DAY, 12 * DAY];
    let closes = vec![Some(px(5.0)), None, Some(px(7.0))];
    let table = extract_historical_prices(Some(&timestamps), Some(&closes));
    // the close before the last is missing
    assert_eq!(table.get(HistoricalPeriod::OneDay), None);
    // every longer period starts before the chart: its first close stands
    assert_eq!(table.get(HistoricalPeriod::FiveDays), Some(px(5.0)));
    assert_eq!(table.get(HistoricalPeriod::TenYears), Some(px(5.0)));
    let zero = vec![Some(px(0.0)), Some(px(1.0)), Some(px(7.0))];
    let table = extract_historical_prices(Some(&timestamps), Some(&zero));
    assert_eq!(table.get(HistoricalPeriod::OneDay), Some(px(1.0)));
    assert_eq!(table.get(HistoricalPeriod::FiveDays), None);
}

#[test]
fn daily_prices_from_a_chart() {
    let timestamps = vec![10 * DAY + 5, 11 * DAY, 12 * DAY + 86_399, 13 * DAY];
    let closes = vec![Some(px(5.0)), None, Some(px(7.0))];
    assert_eq!(
        daily_prices_from_chart(&timestamps, &closes),
        vec![
            DailyPrice {
                day: 10,
                price: px(5.0)
            },
            DailyPrice {
                day: 12,
                price: px(7.0)
            }
        ]
    );
    assert_eq!(
        daily_prices_from_chart(&vec![-1, i64::MAX], &vec![Some(px(1.0)), Some(px(2.0))]),
        vec![DailyPrice {
            day: -1,
            price: px(1.0)
        }]
    );
}

#[test]
fn test_price_fetch_normalizes_gbp_to_gbp() {
    let mut historical_prices = PeriodTable::new();
    historical_prices.insert(HistoricalPeriod::OneYear, px(12000.0));
    let result = normalize_pence(PriceResult {
        price: px(15065.0),
        currency: "GBp".to_string(),
        historical_prices,
        daily_prices: vec![DailyPrice {
            day: 20_000,
            price: px(15000.0),
        }],
        short_name: Some("UK.L".to_string()),
    });
    assert_eq!(result.currency, "GBP");
    assert_eq!(result.price, px(150.65));
    assert_eq!(
        result.historical_prices.get(HistoricalPeriod::OneYear),
        Some(px(120.0))
    );
    assert_eq!(result.daily_prices[0].price, px(150.0));
    assert_eq!(result.daily_prices[0].day, 20_000);
    assert_eq!(result.short_name.as_deref(), Some("UK.L"));

    let untouched = normalize_pence(PriceResult {
        price: px(150.0),
        currency: "GBP".to_string(),
        historical_prices: PeriodTable::new(),
        daily_prices: Vec::new(),
        short_name: None,
    });
    assert_eq!(untouched.price, px(150.0));
    assert_eq!(untouched.currency, "GBP");
}

#[test]
fn provider_addresses_and_cache_keys() {
    let yahoo = YahooFinanceProvider::new_with_collection("http://host", MemoryCollection::new());
    assert_eq!(
        yahoo.chart_url("AAPL"),
        "http://host/v8/finance/chart/AAPL?interval=1d&range=10y"
    );
    let rates = YahooCurrencyProvider::new_with_collection("http://host", MemoryCollection::new());
    assert_eq!(
        YahooCurrencyProvider::<MemoryCollection>::pair_symbol("USD", "EUR"),
        "USDEUR=X"
    );
    assert_eq!(
        rates.rate_url("USD", "EUR"),
        "http://host/v8/finance/chart/USDEUR=X"
    );
    let amfi = AmfiProvider::new_with_collection("http://funds", MemoryCollection::new());
    assert_eq!(
        amfi.nav_url("INF789F01XA0"),
        "http://funds/nav/INF789F01XA0"
    );
    assert_eq!(amfi.currency(), "INR");
}

#[test]
fn test_cache_hit() {
    let mut yahoo =
        YahooFinanceProvider::new_with_collection("http://host", MemoryCollection::new());
    let key = cache_key("AAPL");
    assert_eq!(key, b"AAPL".to_vec());
    assert_eq!(yahoo.cache_mut().get(&key), None);
    let ttl = yahoo.cache_ttl_ms();
    assert_eq!(ttl, Some(300_000));
    yahoo.cache_mut().put(&key, b"{\"price\":150.0}", ttl);
    assert_eq!(
        yahoo.cache_mut().get(&key),
        Some(b"{\"price\":150.0}".to_vec())
    );
    assert_eq!(yahoo.cache_mut().get(&cache_key("GOOG")), None);

    let mut rates =
        YahooCurrencyProvider::new_with_collection("http://host", MemoryCollection::new());
    let pair = cache_key("USDEUR=X");
    let ttl = rates.cache_ttl_ms();
    rates.cache_mut().put(&pair, b"0.9", ttl);
    assert_eq!(rates.cache_mut().get(&pair), Some(b"0.9".to_vec()));

    let mut amfi = AmfiProvider::new_with_collection("http://funds", MemoryCollection::new());
    // 2025-01-01 12:00:00 UTC: seven hours to the refresh
    let ttl = amfi.cache_ttl_ms(1_735_732_800);
    assert_eq!(ttl, Some(7 * 3600 * 1000));
    amfi.cache_mut().put(&cache_key("INF1"), b"nav", ttl);
    assert_eq!(
        amfi.cache_mut().get(&cache_key("INF1")),
        Some(b"nav".to_vec())
    );
}

#[test]
fn quotes_are_cached_for_five_minutes() {
    // the provider puts with a time-to-live of 300 s; the collection holds
    // the entry that long
    let mut cache = MemoryCollection::new();
    cache.put_at(b"AAPL", b"x", Some(xmf::providers::yahoo::QUOTE_TTL_MS), 1_000);
    assert!(cache.get_at(b"AAPL", 301_000).is_some());
    assert!(cache.get_at(b"AAPL", 301_001).is_none());
    let mut direct = MemoryCollection::new();
    direct.put(b"k", b"v", Some(60_000));
    assert_eq!(direct.get(b"k"), Some(b"v".to_vec()));
}

#[test]
fn fund_prices_refresh_at_seven_in_the_evening() {
    // 2025-01-01 12:00:00 UTC
    assert_eq!(refresh_ttl_seconds(1_735_732_800), 7 * 3600);
    // 2025-01-01 19:00:00 UTC
    assert_eq!(refresh_ttl_seconds(1_735_758_000), 24 * 3600);
}

fn nav(day: i32, price: f64) -> DailyPrice {
    DailyPrice {
        day,
        price: px(price),
    }
}

#[test]
fn historical_prices_from_fund_history() {
    let navs = vec![
        nav(20_000 - 3650, 100.0),
        nav(20_000 - 365, 120.0),
        nav(20_000 - 30, 130.0),
        nav(20_000 - 5, 140.0),
        nav(20_000 - 1, 145.0),
    ];
    let table = historical_from_navs(&navs, 20_000);
    assert_eq!(table.get(HistoricalPeriod::OneDay), Some(px(145.0)));
    assert_eq!(table.get(HistoricalPeriod::FiveDays), Some(px(140.0)));
    assert_eq!(table.get(HistoricalPeriod::OneMonth), Some(px(130.0)));
    assert_eq!(table.get(HistoricalPeriod::OneYear), Some(px(120.0)));
    assert_eq!(table.get(HistoricalPeriod::ThreeYears), Some(px(100.0)));
    assert_eq!(table.get(HistoricalPeriod::FiveYears), Some(px(100.0)));
    assert_eq!(table.get(HistoricalPeriod::TenYears), Some(px(100.0)));

    let partial = vec![nav(20_000 - 10, 120.0), nav(20_000 - 2, 0.0)];
    let table = historical_from_navs(&partial, 20_000);
    // the last price at least a day old is zero: no history for one day
    assert_eq!(table.get(HistoricalPeriod::OneDay), None);
    assert_eq!(table.get(HistoricalPeriod::FiveDays), Some(px(120.0)));
    assert_eq!(table.get(HistoricalPeriod::OneMonth), None);
    assert!(historical_from_navs(&Vec::new(), 20_000).is_empty());
}

#[test]
fn daily_series_is_sorted_with_one_entry_per_day() {
    let navs = vec![nav(3, 30.0), nav(1, 10.0), nav(2, 20.0), nav(1, 11.0)];
    let series = daily_series(&navs, Some(nav(3, 33.0)));
    assert_eq!(series, vec![nav(1, 10.0), nav(2, 20.0), nav(3, 30.0)]);
    assert_eq!(daily_series(&navs, None).len(), 3);
    assert_eq!(daily_series(&Vec::new(), Some(nav(9, 1.0))), vec![nav(9, 1.0)]);
    assert_eq!(
        dedup_by_day(&vec![nav(1, 1.0), nav(1, 2.0), nav(2, 3.0), nav(1, 4.0)]),
        vec![nav(1, 1.0), nav(2, 3.0), nav(1, 4.0)]
    );
}
