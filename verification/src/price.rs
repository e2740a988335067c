//! Lookback periods and fetched price data.
use crate::fixed::Fixed;
use crate::ranking::{Rank, Ranked};
use crate::text::{clone_opt_string, concat3, opt_text, str_eq, to_uppercase, uppercase_of};
use vstd::prelude::*;
use vstd::string::StringExecFns;

verus! {

/// A lookback horizon.
#[derive(Clone, Copy, Debug, PartialEq, Eq, Structural, Hash, PartialOrd, Ord)]
pub enum HistoricalPeriod {
    OneDay,
    FiveDays,
    OneMonth,
    OneYear,
    ThreeYears,
    FiveYears,
    TenYears,
}

/// Number of lookback periods.
pub const PERIOD_COUNT: usize = 7;

/// The period with the given position in the order of increasing length.
pub open spec fn period_at(i: int) -> HistoricalPeriod {
    if i == 0 {
        HistoricalPeriod::OneDay
    } else if i == 1 {
        HistoricalPeriod::FiveDays
    } else if i == 2 {
        HistoricalPeriod::OneMonth
    } else if i == 3 {
        HistoricalPeriod::OneYear
    } else if i == 4 {
        HistoricalPeriod::ThreeYears
    } else if i == 5 {
        HistoricalPeriod::FiveYears
    } else {
        HistoricalPeriod::TenYears
    }
}

/// The short label of a period.
pub open spec fn label_spec(p: HistoricalPeriod) -> Seq<char> {
    match p {
        HistoricalPeriod::OneDay => "1D"@,
        HistoricalPeriod::FiveDays => "5D"@,
        HistoricalPeriod::OneMonth => "1M"@,
        HistoricalPeriod::OneYear => "1Y"@,
        HistoricalPeriod::ThreeYears => "3Y"@,
        HistoricalPeriod::FiveYears => "5Y"@,
        HistoricalPeriod::TenYears => "10Y"@,
    }
}

/// The period that an upper-case label names, if it names one.
pub open spec fn period_of_label(label: Seq<char>) -> Option<HistoricalPeriod> {
    if label == "1D"@ {
        Some(HistoricalPeriod::OneDay)
    } else if label == "5D"@ {
        Some(HistoricalPeriod::FiveDays)
    } else if label == "1M"@ {
        Some(HistoricalPeriod::OneMonth)
    } else if label == "1Y"@ {
        Some(HistoricalPeriod::OneYear)
    } else if label == "3Y"@ {
        Some(HistoricalPeriod::ThreeYears)
    } else if label == "5Y"@ {
        Some(HistoricalPeriod::FiveYears)
    } else if label == "10Y"@ {
        Some(HistoricalPeriod::TenYears)
    } else {
        None
    }
}

/// The message for a text that names no period.
pub open spec fn invalid_period_message(s: Seq<char>) -> Seq<char> {
    "Invalid period: '"@ + s + "'. Valid periods are: 1D, 5D, 1M, 1Y, 3Y, 5Y, 10Y"@
}

impl HistoricalPeriod {
    /// Position of the period in the order of increasing length.
    pub open spec fn spec_index(self) -> int {
        match self {
            HistoricalPeriod::OneDay => 0,
            HistoricalPeriod::FiveDays => 1,
            HistoricalPeriod::OneMonth => 2,
            HistoricalPeriod::OneYear => 3,
            HistoricalPeriod::ThreeYears => 4,
            HistoricalPeriod::FiveYears => 5,
            HistoricalPeriod::TenYears => 6,
        }
    }

    /// Calendar length of the period in days.
    pub open spec fn spec_days(self) -> int {
        match self {
            HistoricalPeriod::OneDay => 1,
            HistoricalPeriod::FiveDays => 5,
            HistoricalPeriod::OneMonth => 30,
            HistoricalPeriod::OneYear => 365,
            HistoricalPeriod::ThreeYears => 1095,
            HistoricalPeriod::FiveYears => 1825,
            HistoricalPeriod::TenYears => 3650,
        }
    }

    /// Length of the period in trading days.
    pub open spec fn spec_trading_days(self) -> int {
        match self {
            HistoricalPeriod::OneDay => 1,
            HistoricalPeriod::FiveDays => 5,
            HistoricalPeriod::OneMonth => 21,
            HistoricalPeriod::OneYear => 252,
            HistoricalPeriod::ThreeYears => 756,
            HistoricalPeriod::FiveYears => 1260,
            HistoricalPeriod::TenYears => 2520,
        }
    }

    /// Position of the period in the order of increasing length.
    pub fn index(self) -> (i: usize)
        ensures
            i == self.spec_index(),
            i < PERIOD_COUNT,
            period_at(i as int) == self,
    {
        match self {
            HistoricalPeriod::OneDay => 0,
            HistoricalPeriod::FiveDays => 1,
            HistoricalPeriod::OneMonth => 2,
            HistoricalPeriod::OneYear => 3,
            HistoricalPeriod::ThreeYears => 4,
            HistoricalPeriod::FiveYears => 5,
            HistoricalPeriod::TenYears => 6,
        }
    }

    /// The period at position `i`.
    pub fn from_index(i: usize) -> (p: HistoricalPeriod)
        requires
            i < PERIOD_COUNT,
        ensures
            p == period_at(i as int),
            p.spec_index() == i,
    {
        if i == 0 {
            HistoricalPeriod::OneDay
        } else if i == 1 {
            HistoricalPeriod::FiveDays
        } else if i == 2 {
            HistoricalPeriod::OneMonth
        } else if i == 3 {
            HistoricalPeriod::OneYear
        } else if i == 4 {
            HistoricalPeriod::ThreeYears
        } else if i == 5 {
            HistoricalPeriod::FiveYears
        } else {
            HistoricalPeriod::TenYears
        }
    }

    /// The calendar duration of the period, in days, for locating a
    /// historical price.
    pub fn to_duration(&self) -> (days: i64)
        ensures
            days == self.spec_days(),
    {
        match self {
            HistoricalPeriod::OneDay => 1,
            HistoricalPeriod::FiveDays => 5,
            HistoricalPeriod::OneMonth => 30,
            HistoricalPeriod::OneYear => 365,
            HistoricalPeriod::ThreeYears => 365 * 3,
            HistoricalPeriod::FiveYears => 365 * 5,
            HistoricalPeriod::TenYears => 365 * 10,
        }
    }

    /// The number of trading days in the period, the window length for
    /// rolling returns.
    pub fn to_trading_days(&self) -> (days: u32)
        ensures
            days == self.spec_trading_days(),
    {
        match self {
            HistoricalPeriod::OneDay => 1,
            HistoricalPeriod::FiveDays => 5,
            HistoricalPeriod::OneMonth => 21,
            HistoricalPeriod::OneYear => 252,
            HistoricalPeriod::ThreeYears => 756,
            HistoricalPeriod::FiveYears => 1260,
            HistoricalPeriod::TenYears => 2520,
        }
    }

    /// The labels of all periods, in order of increasing length.
    pub fn variants() -> (labels: [&'static str; 7])
        ensures
            forall|i: int| 0 <= i < 7 ==> (#[trigger] labels[i])@ == label_spec(period_at(i)),
    {
        ["1D", "5D", "1M", "1Y", "3Y", "5Y", "10Y"]
    }

    /// The short label of the period.
    pub fn label(&self) -> (s: &'static str)
        ensures
            s@ == label_spec(*self),
    {
        match self {
            HistoricalPeriod::OneDay => "1D",
            HistoricalPeriod::FiveDays => "5D",
            HistoricalPeriod::OneMonth => "1M",
            HistoricalPeriod::OneYear => "1Y",
            HistoricalPeriod::ThreeYears => "3Y",
            HistoricalPeriod::FiveYears => "5Y",
            HistoricalPeriod::TenYears => "10Y",
        }
    }

    /// The short label of the period, as an owned string.
    pub fn to_string(&self) -> (s: String)
        ensures
            s@ == label_spec(*self),
    {
        String::from_str(self.label())
    }

    /// The period that an upper-case label names.
    pub fn from_label(label: &str) -> (r: Option<HistoricalPeriod>)
        ensures
            r == period_of_label(label@),
    {
        if str_eq(label, "1D") {
            Some(HistoricalPeriod::OneDay)
        } else if str_eq(label, "5D") {
            Some(HistoricalPeriod::FiveDays)
        } else if str_eq(label, "1M") {
            Some(HistoricalPeriod::OneMonth)
        } else if str_eq(label, "1Y") {
            Some(HistoricalPeriod::OneYear)
        } else if str_eq(label, "3Y") {
            Some(HistoricalPeriod::ThreeYears)
        } else if str_eq(label, "5Y") {
            Some(HistoricalPeriod::FiveYears)
        } else if str_eq(label, "10Y") {
            Some(HistoricalPeriod::TenYears)
        } else {
            None
        }
    }

    /// Reads a period from its label, in either case. A text that names no
    /// period gives a message that quotes it and lists the valid labels.
    pub fn from_str(s: &str) -> (r: Result<HistoricalPeriod, String>)
        ensures
            match r {
                Ok(p) => period_of_label(uppercase_of(s@)) == Some(p),
                Err(msg) => period_of_label(uppercase_of(s@)).is_none() && msg@
                    == invalid_period_message(s@),
            },
    {
        let upper = to_uppercase(s);
        match HistoricalPeriod::from_label(upper.as_str()) {
            Some(p) => Ok(p),
            None => Err(
                concat3(
                    "Invalid period: '",
                    s,
                    "'. Valid periods are: 1D, 5D, 1M, 1Y, 3Y, 5Y, 10Y",
                ),
            ),
        }
    }
}

impl std::str::FromStr for HistoricalPeriod {
    type Err = String;

    /// Reads a period from its label, in either case, as the inherent
    /// function of the same name does.
    fn from_str(s: &str) -> (r: Result<Self, String>)
        ensures
            match r {
                Ok(p) => period_of_label(uppercase_of(s@)) == Some(p),
                Err(msg) => period_of_label(uppercase_of(s@)).is_none() && msg@
                    == invalid_period_message(s@),
            },
    {
        HistoricalPeriod::from_str(s)
    }
}

/// One price per lookback period, each present or absent.
#[derive(Clone, Copy, Debug)]
pub struct PeriodTable {
    slots: [Option<Fixed>; 7],
}

impl PeriodTable {
    /// The value held for a period, if any.
    pub closed spec fn spec_get(&self, p: HistoricalPeriod) -> Option<Fixed> {
        self.slots[p.spec_index()]
    }

    /// The table as a map from the periods that hold a value.
    pub open spec fn view(&self) -> Map<HistoricalPeriod, Fixed> {
        Map::new(
            |p: HistoricalPeriod| self.spec_get(p).is_some(),
            |p: HistoricalPeriod| self.spec_get(p).unwrap(),
        )
    }

    /// A table with no value for any period.
    pub fn new() -> (t: Self)
        ensures
            forall|p: HistoricalPeriod| t.spec_get(p).is_none(),
            t@ == Map::<HistoricalPeriod, Fixed>::empty(),
    {
        let t = PeriodTable { slots: [None, None, None, None, None, None, None] };
        assert(t@ =~= Map::<HistoricalPeriod, Fixed>::empty());
        t
    }

    /// The value held for `period`, if any.
    pub fn get(&self, period: HistoricalPeriod) -> (r: Option<Fixed>)
        ensures
            r == self.spec_get(period),
    {
        self.slots[period.index()]
    }

    /// Holds `value` for `period`, replacing what was held before.
    pub fn insert(&mut self, period: HistoricalPeriod, value: Fixed)
        ensures
            final(self).spec_get(period) == Some(value),
            forall|p: HistoricalPeriod|
                p != period ==> final(self).spec_get(p) == old(self).spec_get(p),
            final(self)@ == old(self)@.insert(period, value),
    {
        self.slots[period.index()] = Some(value);
        assert(self@ =~= old(self)@.insert(period, value));
    }

    /// Number of periods up to position `upto` that hold a value.
    pub open spec fn spec_count(&self, upto: int) -> int
        decreases upto,
    {
        if upto <= 0 {
            0
        } else {
            self.spec_count(upto - 1) + if self.spec_get(period_at(upto - 1)).is_some() {
                1int
            } else {
                0int
            }
        }
    }

    /// Number of periods that hold a value.
    pub fn len(&self) -> (n: usize)
        ensures
            n == self.spec_count(PERIOD_COUNT as int),
    {
        let mut n: usize = 0;
        let mut i: usize = 0;
        while i < PERIOD_COUNT
            invariant
                i <= PERIOD_COUNT,
                n <= i,
                n == self.spec_count(i as int),
            decreases PERIOD_COUNT - i,
        {
            if self.get(HistoricalPeriod::from_index(i)).is_some() {
                n += 1;
            }
            i += 1;
        }
        n
    }

    /// Whether no period holds a value.
    pub fn is_empty(&self) -> (b: bool)
        ensures
            b == (forall|p: HistoricalPeriod| self.spec_get(p).is_none()),
    {
        let mut i: usize = 0;
        while i < PERIOD_COUNT
            invariant
                i <= PERIOD_COUNT,
                forall|j: int| 0 <= j < i ==> self.spec_get(period_at(j)).is_none(),
            decreases PERIOD_COUNT - i,
        {
            let p = HistoricalPeriod::from_index(i);
            if self.get(p).is_some() {
                return false;
            }
            i += 1;
        }
        assert forall|p: HistoricalPeriod| self.spec_get(p).is_none() by {
            assert(period_at(p.spec_index()) == p);
        }
        true
    }
}

/// The price of one day, the day given as a count of days since the Unix
/// epoch.
#[derive(Clone, Copy, Debug, PartialEq, Eq, Structural)]
pub struct DailyPrice {
    pub day: i32,
    pub price: Fixed,
}

impl Rank for DailyPrice {
    /// Earlier days rank higher, so that sorting by rank is sorting by day.
    open spec fn rank(&self) -> int {
        -(self.day as int)
    }
}

impl Ranked for DailyPrice {
    fn rank_value(&self) -> (r: i128) {
        -(self.day as i128)
    }
}

/// What a price provider reports for one instrument.
#[derive(Debug)]
pub struct PriceResult {
    pub price: Fixed,
    pub currency: String,
    pub historical_prices: PeriodTable,
    pub daily_prices: Vec<DailyPrice>,
    pub short_name: Option<String>,
}

/// The mathematical content of a `PriceResult`.
pub struct PriceResultView {
    pub price: Fixed,
    pub currency: Seq<char>,
    pub historical_prices: Map<HistoricalPeriod, Fixed>,
    pub daily_prices: Seq<DailyPrice>,
    pub short_name: Option<Seq<char>>,
}

impl View for PriceResult {
    type V = PriceResultView;

    open spec fn view(&self) -> PriceResultView {
        PriceResultView {
            price: self.price,
            currency: self.currency@,
            historical_prices: self.historical_prices@,
            daily_prices: self.daily_prices@,
            short_name: opt_text(self.short_name),
        }
    }
}

impl PriceResult {
    /// A copy of the price result.
    pub fn duplicate(&self) -> (r: PriceResult)
        ensures
            r@ == self@,
            r.price == self.price,
            r.currency == self.currency,
            r.historical_prices == self.historical_prices,
            r.short_name == self.short_name,
    {
        let mut daily_prices: Vec<DailyPrice> = Vec::new();
        let mut i: usize = 0;
        while i < self.daily_prices.len()
            invariant
                i <= self.daily_prices.len(),
                daily_prices@ == self.daily_prices@.subrange(0, i as int),
            decreases self.daily_prices.len() - i,
        {
            daily_prices.push(self.daily_prices[i]);
            assert(self.daily_prices@.subrange(0, i + 1) =~= self.daily_prices@.subrange(
                0,
                i as int,
            ).push(self.daily_prices@[i as int]));
            i += 1;
        }
        assert(self.daily_prices@.subrange(0, self.daily_prices.len() as int)
            =~= self.daily_prices@);
        PriceResult {
            price: self.price,
            currency: self.currency.clone(),
            historical_prices: self.historical_prices,
            daily_prices,
            short_name: clone_opt_string(&self.short_name),
        }
    }
}

/// The view of the result of a price fetch.
pub open spec fn fetch_view(r: Result<PriceResult, String>) -> Result<PriceResultView, Seq<char>> {
    match r {
        Ok(data) => Ok(data@),
        Err(e) => Err(e@),
    }
}

/// A source of current and historical prices. Nothing is promised of what
/// an implementation returns.
pub trait PriceProvider {
    fn fetch_price(&self, symbol: &str) -> Result<PriceResult, String>;
}

} // verus!
