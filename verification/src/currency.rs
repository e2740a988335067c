//! Currency conversion: the rate provider's interface.
use crate::fixed::Fixed;
use vstd::prelude::*;

verus! {

/// A source of exchange rates: the amount of `to` that one unit of `from`
/// buys. Nothing is promised of what an implementation returns.
pub trait CurrencyRateProvider {
    fn get_rate(&self, from: &str, to: &str) -> Result<Fixed, String>;
}

} // verus!
