//! Performance: compound annual growth over fixed lookback periods, and the
//! statistics of rolling returns over windows of a daily price series.
use crate::decimal::{
    cagr_call, cagr_rate_of, decimal_div, decimal_power, decimal_powd, decimal_quotient,
    fixed_parts, growth_percent_raw, growth_to_percent, rate_percent_raw, rate_to_percent,
    whole_parts,
};
use crate::fixed::{div_toward_zero, lemma_product_bound, narrow, trunc_div, Fixed, SCALE};
use crate::price::{DailyPrice, HistoricalPeriod, PeriodTable, PriceResult, PERIOD_COUNT};
use crate::ranking::{lemma_sorted_desc, sort_descending, sorted_desc, Rank};
use crate::stats::{deviation_fits, rolling_stats, stats_match, RollingReturnStats};
use vstd::prelude::*;
use vstd::string::StringExecFns;

verus! {

/// Trading days in a year.
pub const TRADING_DAYS_PER_YEAR: u32 = 252;

/// Position of the shortest period that a growth rate is computed for.
pub const FIRST_CAGR_INDEX: usize = 3;

/// The length of a period in years, in millionths, at 365 days to the year.
pub open spec fn years_raw(p: HistoricalPeriod) -> int {
    trunc_div(p.spec_days() * SCALE, 365)
}

/// What the growth rate of one period comes to.
pub enum CagrStep {
    /// No rate: no historical price, a price that is not positive, or a
    /// span of less than a year.
    Skipped,
    /// The annual growth rate in percent.
    Value(Fixed),
    /// The rate does not fit as a percentage.
    Failed,
}

/// The growth rate from the historical price of period `p` to the current
/// price: `((current / historical)^(1 / years) - 1) * 100`.
pub open spec fn cagr_step(
    price: Fixed,
    historical: Option<Fixed>,
    p: HistoricalPeriod,
) -> CagrStep {
    match historical {
        None => CagrStep::Skipped,
        Some(h) => if h.raw <= 0 || price.raw <= 0 || years_raw(p) < SCALE {
            CagrStep::Skipped
        } else {
            match narrow(
                rate_percent_raw(cagr_rate_of(h.raw as int, price.raw as int, years_raw(p))),
            ) {
                Some(v) => CagrStep::Value(v),
                None => CagrStep::Failed,
            }
        },
    }
}

/// The growth rate of period `p` for a price result; periods of less than
/// a year have none.
pub open spec fn cagr_of(data: PriceResult, p: HistoricalPeriod) -> CagrStep {
    if p.spec_index() < FIRST_CAGR_INDEX {
        CagrStep::Skipped
    } else {
        cagr_step(data.price, data.historical_prices.spec_get(p), p)
    }
}

/// Whether some period's growth rate does not fit.
pub open spec fn cagr_failed(data: PriceResult) -> bool {
    exists|p: HistoricalPeriod| cagr_of(data, p) is Failed
}

/// The rate that a step yielded, if it yielded one.
pub open spec fn step_value(step: CagrStep) -> Option<Fixed> {
    match step {
        CagrStep::Value(v) => Some(v),
        _ => None,
    }
}

/// The growth rates that exist, by period.
pub open spec fn cagr_values(data: PriceResult) -> Map<HistoricalPeriod, Fixed> {
    Map::new(
        |p: HistoricalPeriod| cagr_of(data, p) is Value,
        |p: HistoricalPeriod| cagr_of(data, p)->Value_0,
    )
}

/// The message when a rate does not fit as a percentage.
pub open spec fn cagr_conversion_message() -> Seq<char> {
    "CAGR percentage conversion failed"@
}

/// The message when no period yields a rate.
pub open spec fn no_history_message() -> Seq<char> {
    "No historical prices available for CAGR calculation"@
}

/// What the growth rates of a price result come to: the rates by period,
/// or the failure that a rate does not fit, or that no period has a rate.
pub open spec fn cagr_outcome(data: PriceResult) -> Result<
    Map<HistoricalPeriod, Fixed>,
    Seq<char>,
> {
    if cagr_failed(data) {
        Err(cagr_conversion_message())
    } else if forall|p: HistoricalPeriod| !(cagr_of(data, p) is Value) {
        Err(no_history_message())
    } else {
        Ok(cagr_values(data))
    }
}

/// The view of the result of a growth rate calculation.
pub open spec fn cagr_result_view(r: Result<PeriodTable, String>) -> Result<
    Map<HistoricalPeriod, Fixed>,
    Seq<char>,
> {
    match r {
        Ok(t) => Ok(t@),
        Err(msg) => Err(msg@),
    }
}

/// The growth rate of one period, given its historical price.
pub fn cagr_for_period(price: Fixed, historical: Option<Fixed>, period: HistoricalPeriod) -> (r:
    CagrStep)
    ensures
        r == cagr_step(price, historical, period),
{
    let h = match historical {
        Some(h) => h,
        None => {
            return CagrStep::Skipped;
        },
    };
    if h.raw <= 0 || price.raw <= 0 {
        return CagrStep::Skipped;
    }
    let days = period.to_duration();
    proof {
        lemma_product_bound(days as int, SCALE as int);
    }
    let years = div_toward_zero(days as i128 * SCALE as i128, 365);
    if years < SCALE as i128 {
        return CagrStep::Skipped;
    }
    assert(years <= 10 * SCALE) by {
        assert(days * SCALE <= 3650 * SCALE) by (nonlinear_arith)
            requires
                0 <= days <= 3650,
                SCALE == 1_000_000,
        ;
    }
    let rate = cagr_call(h, price, Fixed { raw: years as i64 });
    match rate_to_percent(rate) {
        Some(v) => CagrStep::Value(v),
        None => CagrStep::Failed,
    }
}

/// The compound annual growth rate, in percent, for each period of a year
/// or more that has a historical price, where that price and the current
/// one are positive. Other periods are passed over in silence. Fails when
/// a rate does not fit as a percentage, or when no period yields a rate.
pub fn calculate_cagr(price_data: &PriceResult) -> (r: Result<PeriodTable, String>)
    ensures
        cagr_result_view(r) == cagr_outcome(*price_data),
{
    let mut cagrs = PeriodTable::new();
    let mut found = false;
    let ghost mut witness = HistoricalPeriod::OneYear;
    let mut i: usize = FIRST_CAGR_INDEX;
    while i < PERIOD_COUNT
        invariant
            FIRST_CAGR_INDEX <= i <= PERIOD_COUNT,
            forall|p: HistoricalPeriod|
                p.spec_index() < i ==> {
                    &&& !(cagr_of(*price_data, p) is Failed)
                    &&& #[trigger] cagrs.spec_get(p) == step_value(cagr_of(*price_data, p))
                },
            forall|p: HistoricalPeriod| p.spec_index() >= i ==> cagrs.spec_get(p).is_none(),
            found ==> cagrs.spec_get(witness).is_some(),
            !found ==> forall|p: HistoricalPeriod| cagrs.spec_get(p).is_none(),
        decreases PERIOD_COUNT - i,
    {
        let period = HistoricalPeriod::from_index(i);
        match cagr_for_period(price_data.price, price_data.historical_prices.get(period), period) {
            CagrStep::Value(v) => {
                cagrs.insert(period, v);
                found = true;
                proof {
                    witness = period;
                }
            },
            CagrStep::Failed => {
                assert(cagr_of(*price_data, period) is Failed);
                return Err(String::from_str("CAGR percentage conversion failed"));
            },
            CagrStep::Skipped => {},
        }
        i += 1;
    }
    assert(!cagr_failed(*price_data));
    if found {
        assert(cagr_of(*price_data, witness) is Value);
        assert(cagrs@ =~= cagr_values(*price_data));
        Ok(cagrs)
    } else {
        assert forall|p: HistoricalPeriod| !(cagr_of(*price_data, p) is Value) by {
            assert(cagrs.spec_get(p).is_none());
        }
        Err(String::from_str("No historical prices available for CAGR calculation"))
    }
}

/// The annualized return of one window of `window` trading days, in
/// percent: `((end / start)^(252 / window) - 1) * 100`, with the quotients
/// and the power taken in decimal arithmetic. Absent when a step overflows
/// or the percentage does not fit.
pub open spec fn window_return(start: Fixed, end: Fixed, window: int) -> Option<Fixed> {
    match (
        decimal_quotient((end.raw as int, 6), (start.raw as int, 6)),
        decimal_quotient((TRADING_DAYS_PER_YEAR as int, 0), (window, 0)),
    ) {
        (Some(ratio), Some(exponent)) => match decimal_power(ratio, exponent) {
            Some(growth) => narrow(growth_percent_raw(growth)),
            None => None,
        },
        _ => None,
    }
}

/// The annualized return of one window.
pub fn annualized_return(start: Fixed, end: Fixed, window: u32) -> (r: Option<Fixed>)
    ensures
        r == window_return(start, end, window as int),
{
    let ratio = decimal_div(fixed_parts(end), fixed_parts(start));
    let exponent = decimal_div(whole_parts(TRADING_DAYS_PER_YEAR), whole_parts(window));
    match (ratio, exponent) {
        (Some(ratio), Some(exponent)) => match decimal_powd(ratio, exponent) {
            Some(growth) => growth_to_percent(growth),
            None => None,
        },
        _ => None,
    }
}

/// The annualized returns of the first `count` windows of length `window`
/// over a price series, in order. A window whose first price is not
/// positive is passed over. Absent when the return of some window is.
pub open spec fn window_returns(prices: Seq<Fixed>, window: int, count: int) -> Option<Seq<Fixed>>
    decreases count,
{
    if count <= 0 {
        Some(Seq::empty())
    } else {
        match window_returns(prices, window, count - 1) {
            None => None,
            Some(rs) => {
                let start = prices[count - 1];
                let end = prices[count - 1 + window - 1];
                if start.raw > 0 {
                    match window_return(start, end, window) {
                        Some(r) => Some(rs.push(r)),
                        None => None,
                    }
                } else {
                    Some(rs)
                }
            },
        }
    }
}

/// The annualized returns of all windows of length `window` over a price
/// series; absent when the return of some window is.
pub fn rolling_returns(prices: &Vec<Fixed>, window: u32) -> (r: Option<Vec<Fixed>>)
    requires
        1 <= window <= prices.len(),
    ensures
        match r {
            Some(rs) => window_returns(prices@, window as int, prices.len() - window + 1) == Some(
                rs@,
            ),
            None => window_returns(prices@, window as int, prices.len() - window + 1).is_none(),
        },
{
    let span = window as usize;
    let count = prices.len() - span + 1;
    let mut sample: Vec<Fixed> = Vec::new();
    let mut i: usize = 0;
    while i < count
        invariant
            1 <= span <= prices.len(),
            span == window,
            count == prices.len() - span + 1,
            i <= count,
            window_returns(prices@, window as int, i as int) == Some(sample@),
        ensures
            i == count,
            window_returns(prices@, window as int, count as int) == Some(sample@),
        decreases count - i,
    {
        let start = prices[i];
        let end = prices[i + span - 1];
        if start.raw > 0 {
            match annualized_return(start, end, window) {
                Some(r) => {
                    sample.push(r);
                },
                None => {
                    proof {
                        lemma_window_returns_stay_absent(
                            prices@,
                            window as int,
                            i + 1,
                            count as int,
                        );
                    }
                    return None;
                },
            }
        }
        i += 1;
    }
    Some(sample)
}

/// Once the returns of some windows are absent, so are those of more.
pub proof fn lemma_window_returns_stay_absent(
    prices: Seq<Fixed>,
    window: int,
    count: int,
    more: int,
)
    requires
        count <= more,
        window_returns(prices, window, count).is_none(),
    ensures
        window_returns(prices, window, more).is_none(),
    decreases more - count,
{
    if count < more {
        lemma_window_returns_stay_absent(prices, window, count, more - 1);
    }
}

/// A series in chronological order, entries of one day in their order of
/// appearance.
pub open spec fn sorted_by_day(s: Seq<DailyPrice>) -> Seq<DailyPrice> {
    sorted_desc(s)
}

/// Whether a series is in chronological order.
pub open spec fn is_chronological(s: Seq<DailyPrice>) -> bool {
    forall|i: int, j: int| 0 <= i <= j < s.len() ==> s[i].day <= s[j].day
}

/// A sorted series is chronological and holds exactly the entries of the
/// series it was sorted from.
pub proof fn lemma_sorted_by_day(s: Seq<DailyPrice>)
    ensures
        is_chronological(sorted_by_day(s)),
        sorted_by_day(s).len() == s.len(),
        sorted_by_day(s).to_multiset() == s.to_multiset(),
{
    lemma_sorted_desc(s);
    let sorted = sorted_by_day(s);
    assert forall|i: int, j: int| 0 <= i <= j < sorted.len() implies sorted[i].day
        <= sorted[j].day by {
        assert(sorted[i].rank() >= sorted[j].rank());
    }
}

/// Sorts a daily series into chronological order, keeping entries of one
/// day in their order of appearance.
pub fn sort_by_day(series: &Vec<DailyPrice>) -> (sorted: Vec<DailyPrice>)
    ensures
        sorted@ == sorted_by_day(series@),
{
    let mut copy: Vec<DailyPrice> = Vec::new();
    let mut i: usize = 0;
    while i < series.len()
        invariant
            i <= series.len(),
            copy@ == series@.subrange(0, i as int),
        decreases series.len() - i,
    {
        copy.push(series[i]);
        assert(series@.subrange(0, i + 1) =~= series@.subrange(0, i as int).push(
            series@[i as int],
        ));
        i += 1;
    }
    assert(series@.subrange(0, series.len() as int) =~= series@);
    sort_descending(copy)
}

/// The prices of a daily series, in its order.
pub open spec fn prices_of(series: Seq<DailyPrice>) -> Seq<Fixed> {
    series.map_values(|d: DailyPrice| d.price)
}

/// The prices of a daily series, in its order.
pub fn price_column(series: &Vec<DailyPrice>) -> (prices: Vec<Fixed>)
    ensures
        prices@ == prices_of(series@),
{
    let mut prices: Vec<Fixed> = Vec::new();
    let mut i: usize = 0;
    while i < series.len()
        invariant
            i <= series.len(),
            prices.len() == i,
            forall|j: int| 0 <= j < i ==> prices@[j] == series@[j].price,
        decreases series.len() - i,
    {
        prices.push(series[i].price);
        i += 1;
    }
    assert(prices@ =~= prices_of(series@));
    prices
}

/// The message when the return of a window cannot be taken.
pub open spec fn window_range_message() -> Seq<char> {
    "Rolling return out of range"@
}

/// The message when the standard deviation cannot be taken.
pub open spec fn deviation_range_message() -> Seq<char> {
    "Rolling return deviation out of range"@
}

/// What the rolling returns of a chronological price series come to for a
/// window length: nothing when the series is shorter than the window or no
/// window has a positive first price; otherwise the statistics, or the
/// failure to take them.
pub open spec fn rolling_outcome(
    prices: Seq<Fixed>,
    window: int,
    r: Result<Option<RollingReturnStats>, String>,
) -> bool {
    if prices.len() == 0 || prices.len() < window {
        r == Ok::<Option<RollingReturnStats>, String>(None)
    } else {
        match window_returns(prices, window, prices.len() - window + 1) {
            None => r is Err && r->Err_0@ == window_range_message(),
            Some(rs) => if rs.len() == 0 {
                r == Ok::<Option<RollingReturnStats>, String>(None)
            } else if deviation_fits(rs) {
                r matches Ok(Some(s)) && stats_match(rs, s)
            } else {
                r is Err && r->Err_0@ == deviation_range_message()
            },
        }
    }
}

/// The statistics of the rolling returns of a price series that is already
/// in chronological order.
pub fn rolling_returns_of_series(prices: &Vec<Fixed>, window: u32) -> (r: Result<
    Option<RollingReturnStats>,
    String,
>)
    requires
        window >= 1,
    ensures
        rolling_outcome(prices@, window as int, r),
{
    if prices.len() == 0 || prices.len() < window as usize {
        return Ok(None);
    }
    let sample = match rolling_returns(prices, window) {
        Some(rs) => rs,
        None => {
            return Err(String::from_str("Rolling return out of range"));
        },
    };
    if sample.len() == 0 {
        return Ok(None);
    }
    match rolling_stats(&sample) {
        Some(stats) => Ok(Some(stats)),
        None => Err(String::from_str("Rolling return deviation out of range")),
    }
}

/// Calculates the statistics of the rolling returns of an instrument for
/// one period: sorts its daily prices by day, slides a window of the
/// period's trading days across them, and summarizes the annualized
/// returns of the windows.
pub fn calculate_rolling_returns(price_data: &PriceResult, period: HistoricalPeriod) -> (r: Result<
    Option<RollingReturnStats>,
    String,
>)
    ensures
        rolling_outcome(
            prices_of(sorted_by_day(price_data.daily_prices@)),
            period.spec_trading_days(),
            r,
        ),
{
    let sorted = sort_by_day(&price_data.daily_prices);
    let prices = price_column(&sorted);
    rolling_returns_of_series(&prices, period.to_trading_days())
}

} // verus!
