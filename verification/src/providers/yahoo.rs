//! The stock price and exchange rate adapters.
use crate::fixed::{trunc_div, Fixed};
use crate::price::{DailyPrice, HistoricalPeriod, PeriodTable, PriceResult, PERIOD_COUNT};
use crate::text::{concat3, str_eq};
use crate::util::SECONDS_PER_DAY;
use vstd::prelude::*;
use vstd::string::StringExecFns;

verus! {

/// Lifetime of a cached stock price or exchange rate: five minutes.
pub const QUOTE_TTL_MS: u64 = 300_000;

/// The part of a chart address between the base address and the symbol.
pub open spec fn chart_path() -> Seq<char> {
    "/v8/finance/chart/"@
}

/// The query of a price chart request: daily closes over ten years.
pub open spec fn chart_query() -> Seq<char> {
    "?interval=1d&range=10y"@
}

/// The symbol under which the rate of a currency pair is quoted.
pub open spec fn pair_symbol_spec(from: Seq<char>, to: Seq<char>) -> Seq<char> {
    from + to + "=X"@
}

/// The adapter for stock prices, with the collection it caches in.
pub struct YahooFinanceProvider<C> {
    base_url: String,
    cache: C,
}

impl<C> YahooFinanceProvider<C> {
    /// The base address of the service.
    pub closed spec fn spec_base_url(&self) -> Seq<char> {
        self.base_url@
    }

    /// The collection that answers are cached in.
    pub closed spec fn spec_cache(&self) -> C {
        self.cache
    }

    /// An adapter for the service at `base_url` that caches in `cache`.
    pub fn new_with_collection(base_url: &str, cache: C) -> (r: Self)
        ensures
            r.spec_base_url() == base_url@,
            r.spec_cache() == cache,
    {
        YahooFinanceProvider { base_url: String::from_str(base_url), cache }
    }

    /// The address of the price chart of `symbol`.
    pub fn chart_url(&self, symbol: &str) -> (url: String)
        ensures
            url@ == self.spec_base_url() + chart_path() + symbol@ + chart_query(),
    {
        let mut url = self.base_url.clone();
        url.append("/v8/finance/chart/");
        url.append(symbol);
        url.append("?interval=1d&range=10y");
        url
    }

    /// The lifetime of a cached price: five minutes.
    pub fn cache_ttl_ms(&self) -> (ttl: Option<u64>)
        ensures
            ttl == Some(QUOTE_TTL_MS),
    {
        Some(QUOTE_TTL_MS)
    }

    /// The collection that answers are cached in, to read and to write.
    pub fn cache_mut(&mut self) -> (cache: &mut C)
        ensures
            *cache == old(self).spec_cache(),
            final(self).spec_cache() == *final(cache),
            final(self).spec_base_url() == old(self).spec_base_url(),
    {
        &mut self.cache
    }
}

/// The adapter for exchange rates, with the collection it caches in.
pub struct YahooCurrencyProvider<C> {
    base_url: String,
    cache: C,
}

impl<C> YahooCurrencyProvider<C> {
    /// The base address of the service.
    pub closed spec fn spec_base_url(&self) -> Seq<char> {
        self.base_url@
    }

    /// The collection that answers are cached in.
    pub closed spec fn spec_cache(&self) -> C {
        self.cache
    }

    /// An adapter for the service at `base_url` that caches in `cache`.
    pub fn new_with_collection(base_url: &str, cache: C) -> (r: Self)
        ensures
            r.spec_base_url() == base_url@,
            r.spec_cache() == cache,
    {
        YahooCurrencyProvider { base_url: String::from_str(base_url), cache }
    }

    /// The symbol under which the rate from `from` to `to` is quoted; its
    /// bytes are the cache key of the rate.
    pub fn pair_symbol(from: &str, to: &str) -> (symbol: String)
        ensures
            symbol@ == pair_symbol_spec(from@, to@),
    {
        concat3(from, to, "=X")
    }

    /// The address of the rate from `from` to `to`.
    pub fn rate_url(&self, from: &str, to: &str) -> (url: String)
        ensures
            url@ == self.spec_base_url() + chart_path() + pair_symbol_spec(from@, to@),
    {
        let symbol = Self::pair_symbol(from, to);
        let mut url = self.base_url.clone();
        url.append("/v8/finance/chart/");
        url.append(symbol.as_str());
        assert(url@ =~= self.spec_base_url() + chart_path() + pair_symbol_spec(from@, to@));
        url
    }

    /// The lifetime of a cached rate: five minutes.
    pub fn cache_ttl_ms(&self) -> (ttl: Option<u64>)
        ensures
            ttl == Some(QUOTE_TTL_MS),
    {
        Some(QUOTE_TTL_MS)
    }

    /// The collection that answers are cached in, to read and to write.
    pub fn cache_mut(&mut self) -> (cache: &mut C)
        ensures
            *cache == old(self).spec_cache(),
            final(self).spec_cache() == *final(cache),
            final(self).spec_base_url() == old(self).spec_base_url(),
    {
        &mut self.cache
    }
}

/// Whether `i` is the position of the first timestamp that is not before
/// `target`.
pub open spec fn is_first_at_or_after(timestamps: Seq<i64>, target: i64, i: int) -> bool {
    &&& 0 <= i < timestamps.len()
    &&& timestamps[i] >= target
    &&& forall|j: int| 0 <= j < i ==> timestamps[j] < target
}

/// Whether `r` is the close found for `target`: the close at the position
/// of the first timestamp that is not before `target`, if there is such a
/// timestamp and a close is recorded at its position.
pub open spec fn is_closest_price(
    target: i64,
    timestamps: Seq<i64>,
    prices: Seq<Option<Fixed>>,
    r: Option<Fixed>,
) -> bool {
    if exists|i: int| is_first_at_or_after(timestamps, target, i) {
        let i = choose|i: int| is_first_at_or_after(timestamps, target, i);
        r == if i < prices.len() {
            prices[i]
        } else {
            None
        }
    } else {
        r.is_none()
    }
}

/// The close at the first timestamp that is not before `target_ts`.
pub fn find_closest_price(target_ts: i64, timestamps: &[i64], prices: &[Option<Fixed>]) -> (r:
    Option<Fixed>)
    ensures
        is_closest_price(target_ts, timestamps@, prices@, r),
{
    let mut i: usize = 0;
    while i < timestamps.len()
        invariant
            i <= timestamps.len(),
            forall|j: int| 0 <= j < i ==> timestamps@[j] < target_ts,
        decreases timestamps.len() - i,
    {
        if timestamps[i] >= target_ts {
            assert(is_first_at_or_after(timestamps@, target_ts, i as int));
            let ghost other = choose|k: int| is_first_at_or_after(timestamps@, target_ts, k);
            assert(other == i);
            return if i < prices.len() {
                prices[i]
            } else {
                None
            };
        }
        i += 1;
    }
    None
}

/// The price, if there is one and it is positive.
pub open spec fn if_positive(found: Option<Fixed>) -> Option<Fixed> {
    match found {
        Some(price) => if price.raw > 0 {
            Some(price)
        } else {
            None
        },
        None => None,
    }
}

/// The historical close of period `p` in a chart: for one day, the close
/// before the last; for longer periods, the close at the first timestamp
/// not more than the period's days before the last timestamp, if it is
/// positive.
pub open spec fn is_chart_history(
    timestamps: Seq<i64>,
    closes: Seq<Option<Fixed>>,
    p: HistoricalPeriod,
    r: Option<Fixed>,
) -> bool {
    if timestamps.len() == 0 {
        r.is_none()
    } else if p == HistoricalPeriod::OneDay {
        r == if closes.len() >= 2 {
            closes[closes.len() - 2]
        } else {
            None
        }
    } else {
        let target = timestamps.last() - p.spec_days() * SECONDS_PER_DAY;
        if target < i64::MIN {
            r.is_none()
        } else {
            exists|found: Option<Fixed>|
                #[trigger] is_closest_price(target as i64, timestamps, closes, found) && r
                    == if_positive(found)
        }
    }
}

/// The historical closes of a chart, by period. A chart without
/// timestamps or without closes has none.
pub fn extract_historical_prices(
    timestamps: Option<&Vec<i64>>,
    closes: Option<&Vec<Option<Fixed>>>,
) -> (table: PeriodTable)
    ensures
        match (timestamps, closes) {
            (Some(ts), Some(cs)) => forall|p: HistoricalPeriod|
                is_chart_history(ts@, cs@, p, #[trigger] table.spec_get(p)),
            _ => forall|p: HistoricalPeriod| table.spec_get(p).is_none(),
        },
{
    let mut table = PeriodTable::new();
    let (ts, cs) = match (timestamps, closes) {
        (Some(ts), Some(cs)) => (ts, cs),
        _ => {
            return table;
        },
    };
    if ts.len() == 0 {
        return table;
    }
    let reference = ts[ts.len() - 1];
    if cs.len() >= 2 {
        match cs[cs.len() - 2] {
            Some(previous) => {
                table.insert(HistoricalPeriod::OneDay, previous);
            },
            None => {},
        }
    }
    let mut i: usize = 1;
    while i < PERIOD_COUNT
        invariant
            1 <= i <= PERIOD_COUNT,
            ts.len() > 0,
            reference == ts@.last(),
            forall|p: HistoricalPeriod|
                p.spec_index() < i ==> is_chart_history(ts@, cs@, p, #[trigger] table.spec_get(p)),
            forall|p: HistoricalPeriod| p.spec_index() >= i ==> table.spec_get(p).is_none(),
        decreases PERIOD_COUNT - i,
    {
        let period = HistoricalPeriod::from_index(i);
        let span: i64 = period.to_duration() * SECONDS_PER_DAY;
        match reference.checked_sub(span) {
            Some(target) => {
                let found = find_closest_price(target, ts.as_slice(), cs.as_slice());
                match found {
                    Some(price) => {
                        if price.raw > 0 {
                            table.insert(period, price);
                        }
                    },
                    None => {},
                }
                assert(is_chart_history(ts@, cs@, period, table.spec_get(period)));
            },
            None => {},
        }
        i += 1;
    }
    table
}

/// The day, counted from the Unix epoch, that a timestamp in seconds
/// falls on.
pub open spec fn day_of(ts: i64) -> int {
    ts as int / (SECONDS_PER_DAY as int)
}

/// The daily closes of a chart up to position `upto`: one entry for each
/// position that has a close and a timestamp whose day is representable.
pub open spec fn chart_days(timestamps: Seq<i64>, closes: Seq<Option<Fixed>>, upto: int) -> Seq<
    DailyPrice,
>
    decreases upto,
{
    if upto <= 0 {
        Seq::empty()
    } else {
        let rest = chart_days(timestamps, closes, upto - 1);
        let i = upto - 1;
        if i < closes.len() && closes[i].is_some() && i32::MIN <= day_of(timestamps[i])
            <= i32::MAX {
            rest.push(DailyPrice { day: day_of(timestamps[i]) as i32, price: closes[i].unwrap() })
        } else {
            rest
        }
    }
}

/// The daily closes of a chart, in the chart's order.
pub fn daily_prices_from_chart(timestamps: &Vec<i64>, closes: &Vec<Option<Fixed>>) -> (days: Vec<
    DailyPrice,
>)
    ensures
        days@ == chart_days(timestamps@, closes@, timestamps.len() as int),
{
    let mut days: Vec<DailyPrice> = Vec::new();
    let mut i: usize = 0;
    while i < timestamps.len()
        invariant
            i <= timestamps.len(),
            days@ == chart_days(timestamps@, closes@, i as int),
        decreases timestamps.len() - i,
    {
        if i < closes.len() {
            match closes[i] {
                Some(close) => {
                    let day = match timestamps[i].checked_div_euclid(SECONDS_PER_DAY) {
                        Some(d) => d,
                        None => 0,
                    };
                    if i32::MIN as i64 <= day && day <= i32::MAX as i64 {
                        days.push(DailyPrice { day: day as i32, price: close });
                    }
                },
                None => {},
            }
        }
        i += 1;
    }
    days
}

/// A price quoted in pence brought to pounds.
pub open spec fn pounds(pence: Fixed) -> Fixed {
    Fixed { raw: trunc_div(pence.raw as int, 100) as i64 }
}

/// An optional price quoted in pence brought to pounds.
pub open spec fn opt_pounds(pence: Option<Fixed>) -> Option<Fixed> {
    match pence {
        Some(v) => Some(pounds(v)),
        None => None,
    }
}

/// Whether `after` is `before` with prices quoted in pence (currency code
/// `GBp`) brought to pounds; a result in any other currency stays as it
/// is.
pub open spec fn is_normalized(before: PriceResult, after: PriceResult) -> bool {
    if before.currency@ == "GBp"@ {
        &&& after.currency@ == "GBP"@
        &&& after.price == pounds(before.price)
        &&& after.short_name == before.short_name
        &&& forall|p: HistoricalPeriod|
            #[trigger] after.historical_prices.spec_get(p) == opt_pounds(
                before.historical_prices.spec_get(p),
            )
        &&& after.daily_prices.len() == before.daily_prices.len()
        &&& forall|i: int|
            0 <= i < before.daily_prices.len() ==> #[trigger] after.daily_prices[i] == (DailyPrice {
                day: before.daily_prices[i].day,
                price: pounds(before.daily_prices[i].price),
            })
    } else {
        after == before
    }
}

/// Brings a price result quoted in pence to pounds.
pub fn normalize_pence(result: PriceResult) -> (r: PriceResult)
    ensures
        is_normalized(result, r),
{
    if !str_eq(result.currency.as_str(), "GBp") {
        return result;
    }
    let mut historical = PeriodTable::new();
    let mut i: usize = 0;
    while i < PERIOD_COUNT
        invariant
            i <= PERIOD_COUNT,
            forall|p: HistoricalPeriod|
                p.spec_index() < i ==> #[trigger] historical.spec_get(p) == opt_pounds(
                    result.historical_prices.spec_get(p),
                ),
            forall|p: HistoricalPeriod| p.spec_index() >= i ==> historical.spec_get(p).is_none(),
        decreases PERIOD_COUNT - i,
    {
        let period = HistoricalPeriod::from_index(i);
        match result.historical_prices.get(period) {
            Some(v) => {
                historical.insert(period, v.hundredth());
            },
            None => {},
        }
        i += 1;
    }
    let mut daily: Vec<DailyPrice> = Vec::new();
    let mut k: usize = 0;
    while k < result.daily_prices.len()
        invariant
            k <= result.daily_prices.len(),
            daily.len() == k,
            forall|j: int|
                0 <= j < k ==> #[trigger] daily@[j] == (DailyPrice {
                    day: result.daily_prices[j].day,
                    price: pounds(result.daily_prices[j].price),
                }),
        decreases result.daily_prices.len() - k,
    {
        let entry = result.daily_prices[k];
        daily.push(DailyPrice { day: entry.day, price: entry.price.hundredth() });
        k += 1;
    }
    PriceResult {
        price: result.price.hundredth(),
        currency: String::from_str("GBP"),
        historical_prices: historical,
        daily_prices: daily,
        short_name: result.short_name,
    }
}

} // verus!
