//! Providers that remember what they fetched: each instrument, and each
//! currency pair, is asked of the wrapped provider at most once, and its
//! answer, a failure included, is handed out again on every later request.
use crate::assoc::AssocVec;
use crate::currency::CurrencyRateProvider;
use crate::fixed::Fixed;
use crate::price::{fetch_view, PriceProvider, PriceResult, PriceResultView};
use crate::text::concat3;
use vstd::prelude::*;
use vstd::string::StringExecFns;

verus! {

/// A price provider with a memory of its answers.
pub struct CachingPriceProvider<T> {
    inner: T,
    cache: AssocVec<String, Result<PriceResult, String>>,
}

/// The views of remembered price results.
pub open spec fn fetch_views(
    m: Map<Seq<char>, Result<PriceResult, String>>,
) -> Map<Seq<char>, Result<PriceResultView, Seq<char>>> {
    m.map_values(|r: Result<PriceResult, String>| fetch_view(r))
}

impl<T: PriceProvider> CachingPriceProvider<T> {
    /// The representation invariant of the memory.
    pub closed spec fn wf(&self) -> bool {
        self.cache.wf()
    }

    /// The remembered answers by symbol.
    pub closed spec fn remembered(&self) -> Map<Seq<char>, Result<PriceResultView, Seq<char>>> {
        fetch_views(self.cache@)
    }

    /// A provider that remembers the answers of `inner`.
    pub fn new(inner: T) -> (r: Self)
        ensures
            r.wf(),
            r.remembered() == Map::<Seq<char>, Result<PriceResultView, Seq<char>>>::empty(),
    {
        let r = CachingPriceProvider { inner, cache: AssocVec::new() };
        assert(r.remembered() =~= Map::<Seq<char>, Result<PriceResultView, Seq<char>>>::empty());
        r
    }

    /// The price of `symbol`: the remembered answer if there is one, else
    /// the answer of the wrapped provider, which is then remembered.
    pub fn fetch_price(&mut self, symbol: &str) -> (r: Result<PriceResult, String>)
        requires
            old(self).wf(),
        ensures
            final(self).wf(),
            final(self).remembered() == old(self).remembered().insert(symbol@, fetch_view(r)),
            old(self).remembered().contains_key(symbol@) ==> {
                fetch_view(r) == old(self).remembered()[symbol@]
            },
    {
        let key = String::from_str(symbol);
        match self.cache.get(&key) {
            Some(hit) => {
                let r = match hit {
                    Ok(data) => Ok(data.duplicate()),
                    Err(e) => Err(e.clone()),
                };
                assert(self.remembered().insert(symbol@, fetch_view(r)) =~= self.remembered());
                return r;
            },
            None => {},
        }
        let answer = self.inner.fetch_price(symbol);
        let kept = match &answer {
            Ok(data) => Ok(data.duplicate()),
            Err(e) => Err(e.clone()),
        };
        let ghost before = self.cache@;
        self.cache.insert(key, kept);
        assert(fetch_views(before.insert(symbol@, kept)) =~= fetch_views(before).insert(
            symbol@,
            fetch_view(kept),
        ));
        answer
    }
}

/// The key under which the rate of a currency pair is remembered.
pub open spec fn pair_key(from: Seq<char>, to: Seq<char>) -> Seq<char> {
    from + "-"@ + to
}

/// The view of the answer of a rate provider.
pub open spec fn rate_answer_view(r: Result<Fixed, String>) -> Result<Fixed, Seq<char>> {
    match r {
        Ok(rate) => Ok(rate),
        Err(e) => Err(e@),
    }
}

/// A rate provider with a memory of its answers.
pub struct CachingCurrencyRateProvider<T> {
    inner: T,
    cache: AssocVec<String, Result<Fixed, String>>,
}

impl<T: CurrencyRateProvider> CachingCurrencyRateProvider<T> {
    /// The representation invariant of the memory.
    pub closed spec fn wf(&self) -> bool {
        self.cache.wf()
    }

    /// The remembered answers by pair key.
    pub closed spec fn remembered(&self) -> Map<Seq<char>, Result<Fixed, Seq<char>>> {
        self.cache@.map_values(|r: Result<Fixed, String>| rate_answer_view(r))
    }

    /// A provider that remembers the answers of `inner`.
    pub fn new(inner: T) -> (r: Self)
        ensures
            r.wf(),
            r.remembered() == Map::<Seq<char>, Result<Fixed, Seq<char>>>::empty(),
    {
        let r = CachingCurrencyRateProvider { inner, cache: AssocVec::new() };
        assert(r.remembered() =~= Map::<Seq<char>, Result<Fixed, Seq<char>>>::empty());
        r
    }

    /// The rate from `from` to `to`: the remembered answer if there is
    /// one, else the answer of the wrapped provider, which is then
    /// remembered.
    pub fn get_rate(&mut self, from: &str, to: &str) -> (r: Result<Fixed, String>)
        requires
            old(self).wf(),
        ensures
            final(self).wf(),
            final(self).remembered() == old(self).remembered().insert(
                pair_key(from@, to@),
                rate_answer_view(r),
            ),
            old(self).remembered().contains_key(pair_key(from@, to@)) ==> rate_answer_view(r)
                == old(self).remembered()[pair_key(from@, to@)],
    {
        let key = concat3(from, "-", to);
        match self.cache.get(&key) {
            Some(hit) => {
                let r = match hit {
                    Ok(rate) => Ok(*rate),
                    Err(e) => Err(e.clone()),
                };
                assert(self.remembered().insert(key@, rate_answer_view(r)) =~= self.remembered());
                return r;
            },
            None => {},
        }
        let answer = self.inner.get_rate(from, to);
        let kept = match &answer {
            Ok(rate) => Ok(*rate),
            Err(e) => Err(e.clone()),
        };
        let ghost before = self.cache@;
        let ghost key_view = key@;
        self.cache.insert(key, kept);
        assert(before.insert(key_view, kept).map_values(
            |r: Result<Fixed, String>| rate_answer_view(r),
        ) =~= before.map_values(|r: Result<Fixed, String>| rate_answer_view(r)).insert(
            key_view,
            rate_answer_view(kept),
        ));
        answer
    }
}

} // verus!
