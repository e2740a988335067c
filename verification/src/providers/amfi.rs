//! The mutual fund price adapter.
use crate::fixed::Fixed;
use crate::performance::{sort_by_day, sorted_by_day};
use crate::price::{DailyPrice, HistoricalPeriod, PeriodTable, PERIOD_COUNT};
use crate::util::{seconds_to_target, seconds_until_with_now};
use vstd::prelude::*;
use vstd::string::StringExecFns;

verus! {

/// Hour of the day, in UTC, at which fund prices are refreshed.
pub const REFRESH_HOUR: u32 = 19;

/// The currency that fund prices are quoted in.
pub open spec fn fund_currency() -> Seq<char> {
    "INR"@
}

/// The part of a price address between the base address and the ISIN.
pub open spec fn nav_path() -> Seq<char> {
    "/nav/"@
}

/// The adapter for mutual fund prices, with the collection it caches in.
pub struct AmfiProvider<C> {
    base_url: String,
    cache: C,
}

impl<C> AmfiProvider<C> {
    /// The base address of the service.
    pub closed spec fn spec_base_url(&self) -> Seq<char> {
        self.base_url@
    }

    /// The collection that answers are cached in.
    pub closed spec fn spec_cache(&self) -> C {
        self.cache
    }

    /// An adapter for the service at `base_url` that caches in `cache`.
    pub fn new_with_collection(base_url: &str, cache: C) -> (r: Self)
        ensures
            r.spec_base_url() == base_url@,
            r.spec_cache() == cache,
    {
        AmfiProvider { base_url: String::from_str(base_url), cache }
    }

    /// The address of the price of the fund `identifier`.
    pub fn nav_url(&self, identifier: &str) -> (url: String)
        ensures
            url@ == self.spec_base_url() + nav_path() + identifier@,
    {
        let mut url = self.base_url.clone();
        url.append("/nav/");
        url.append(identifier);
        url
    }

    /// The currency that the service quotes in.
    pub fn currency(&self) -> (code: &'static str)
        ensures
            code@ == fund_currency(),
    {
        "INR"
    }

    /// The lifetime of a price cached at `now`, in seconds since the Unix
    /// epoch: until the next refresh.
    pub fn cache_ttl_ms(&self, now: i64) -> (ttl: Option<u64>)
        ensures
            ttl == Some((seconds_to_target(REFRESH_HOUR, 0, now) * 1000) as u64),
    {
        Some(refresh_ttl_seconds(now) * 1000)
    }

    /// The collection that answers are cached in, to read and to write.
    pub fn cache_mut(&mut self) -> (cache: &mut C)
        ensures
            *cache == old(self).spec_cache(),
            final(self).spec_cache() == *final(cache),
            final(self).spec_base_url() == old(self).spec_base_url(),
    {
        &mut self.cache
    }
}

/// Seconds from `now` until the next refresh of fund prices.
pub fn refresh_ttl_seconds(now: i64) -> (seconds: u64)
    ensures
        seconds == seconds_to_target(REFRESH_HOUR, 0, now),
        0 < seconds <= 86_400,
{
    match seconds_until_with_now(REFRESH_HOUR, 0, now) {
        Ok(seconds) => seconds,
        Err(_) => 86_400,
    }
}

/// Whether `i` is the position of the last price of a day not after
/// `day`.
pub open spec fn is_last_on_or_before(navs: Seq<DailyPrice>, day: int, i: int) -> bool {
    &&& 0 <= i < navs.len()
    &&& navs[i].day <= day
    &&& forall|j: int| i < j < navs.len() ==> navs[j].day > day
}

/// Whether `r` is the historical price of period `p`: the last price of a
/// day at least the period's days before the current one, if there is one
/// and it is positive.
pub open spec fn is_nav_history(
    navs: Seq<DailyPrice>,
    current_day: i32,
    p: HistoricalPeriod,
    r: Option<Fixed>,
) -> bool {
    let start = current_day - p.spec_days();
    if exists|i: int| is_last_on_or_before(navs, start, i) {
        let i = choose|i: int| is_last_on_or_before(navs, start, i);
        r == if navs[i].price.raw > 0 {
            Some(navs[i].price)
        } else {
            None
        }
    } else {
        r.is_none()
    }
}

/// The last price of a day not after `day`.
pub fn last_on_or_before(navs: &Vec<DailyPrice>, day: i64) -> (r: Option<Fixed>)
    ensures
        if exists|i: int| is_last_on_or_before(navs@, day as int, i) {
            r == Some(navs@[choose|i: int| is_last_on_or_before(navs@, day as int, i)].price)
        } else {
            r.is_none()
        },
{
    let mut i: usize = navs.len();
    while i > 0
        invariant
            i <= navs.len(),
            forall|j: int| i <= j < navs.len() ==> navs@[j].day > day,
        decreases i,
    {
        i -= 1;
        if navs[i].day as i64 <= day {
            assert(is_last_on_or_before(navs@, day as int, i as int));
            let ghost other = choose|k: int| is_last_on_or_before(navs@, day as int, k);
            assert(other == i);
            return Some(navs[i].price);
        }
    }
    None
}

/// The historical prices of a fund, by period, from its price history and
/// the day of its current price.
pub fn historical_from_navs(navs: &Vec<DailyPrice>, current_day: i32) -> (table: PeriodTable)
    ensures
        forall|p: HistoricalPeriod|
            is_nav_history(navs@, current_day, p, #[trigger] table.spec_get(p)),
{
    let mut table = PeriodTable::new();
    let mut i: usize = 0;
    while i < PERIOD_COUNT
        invariant
            i <= PERIOD_COUNT,
            forall|p: HistoricalPeriod|
                p.spec_index() < i ==> is_nav_history(
                    navs@,
                    current_day,
                    p,
                    #[trigger] table.spec_get(p),
                ),
            forall|p: HistoricalPeriod| p.spec_index() >= i ==> table.spec_get(p).is_none(),
        decreases PERIOD_COUNT - i,
    {
        let period = HistoricalPeriod::from_index(i);
        let start: i64 = current_day as i64 - period.to_duration();
        match last_on_or_before(navs, start) {
            Some(price) => {
                if price.raw > 0 {
                    table.insert(period, price);
                }
            },
            None => {},
        }
        i += 1;
    }
    table
}

/// A chronological series with only the first entry of each day kept.
pub open spec fn first_per_day(s: Seq<DailyPrice>) -> Seq<DailyPrice>
    decreases s.len(),
{
    if s.len() == 0 {
        s
    } else {
        let rest = first_per_day(s.drop_last());
        if s.len() >= 2 && s[s.len() - 2].day == s.last().day {
            rest
        } else {
            rest.push(s.last())
        }
    }
}

/// Keeps the first entry of each run of entries of one day.
pub fn dedup_by_day(series: &Vec<DailyPrice>) -> (out: Vec<DailyPrice>)
    ensures
        out@ == first_per_day(series@),
{
    let mut out: Vec<DailyPrice> = Vec::new();
    let mut i: usize = 0;
    while i < series.len()
        invariant
            i <= series.len(),
            out@ == first_per_day(series@.subrange(0, i as int)),
        decreases series.len() - i,
    {
        proof {
            let next = series@.subrange(0, i + 1);
            assert(next.drop_last() =~= series@.subrange(0, i as int));
            assert(next.last() == series@[i as int]);
            if i >= 1 {
                assert(next[next.len() - 2] == series@[i - 1]);
            }
        }
        if i == 0 || series[i - 1].day != series[i].day {
            out.push(series[i]);
        }
        i += 1;
    }
    assert(series@.subrange(0, series.len() as int) =~= series@);
    out
}

/// The history with the current price, if its day is known, put behind
/// it.
pub open spec fn with_current(navs: Seq<DailyPrice>, current: Option<DailyPrice>) -> Seq<
    DailyPrice,
> {
    match current {
        Some(c) => navs.push(c),
        None => navs,
    }
}

/// The daily series of a fund: its price history and its current price,
/// in chronological order, one entry per day. Of several entries of one
/// day the earliest in the history stands.
pub fn daily_series(navs: &Vec<DailyPrice>, current: Option<DailyPrice>) -> (series: Vec<
    DailyPrice,
>)
    ensures
        series@ == first_per_day(sorted_by_day(with_current(navs@, current))),
{
    let mut all: Vec<DailyPrice> = Vec::new();
    let mut i: usize = 0;
    while i < navs.len()
        invariant
            i <= navs.len(),
            all@ == navs@.subrange(0, i as int),
        decreases navs.len() - i,
    {
        all.push(navs[i]);
        assert(navs@.subrange(0, i + 1) =~= navs@.subrange(0, i as int).push(navs@[i as int]));
        i += 1;
    }
    assert(navs@.subrange(0, navs.len() as int) =~= navs@);
    match current {
        Some(c) => {
            all.push(c);
        },
        None => {},
    }
    let sorted = sort_by_day(&all);
    dedup_by_day(&sorted)
}

} // verus!
