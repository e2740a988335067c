//! Investment tracking: portfolio valuation, return analytics, and the
//! cache that shields the data providers.
//!
//! The library is the computing core of a portfolio tracker. It takes what
//! was fetched (prices, exchange rates, fund metadata) and computes value,
//! weight, price change, growth rates, rolling-return statistics and fees
//! for each holding and each portfolio. Fetching itself, files and the
//! terminal are the caller's business.
//!
//! # Amounts
//!
//! All amounts (prices, unit counts, rates, percentages) are fixed-point
//! decimals with six fractional digits, see [`fixed::Fixed`]. Arithmetic is
//! exact on the integer model and rounds toward zero; a result that does
//! not fit is absent, never wrapped. Powers and roots are taken in 96-bit
//! decimal arithmetic and come back rounded to the nearest millionth, see
//! [`decimal`].
//!
//! # Partial failure
//!
//! A holding either converts into the target currency or carries an error.
//! Aggregates are all or nothing: a portfolio total, and with it every
//! weight and weighted figure, is present only if every holding converted.
//! Weights are taken of any total but zero.
//!
//! # Modules
//!
//! - [`analytics`]: valuation of a portfolio.
//! - [`performance`], [`stats`]: growth rates and rolling-return
//!   statistics of one instrument.
//! - [`portfolio`], [`rolling`], [`fees`], [`weighted`], [`summary`]:
//!   per-holding figures and their weighted portfolio aggregates.
//! - [`store`], [`cache`], [`caching`]: collections of cached values with
//!   time-to-live, their registry, and remembering providers.
//! - [`providers`], [`fetch`], [`util`]: the pure side of the provider
//!   adapters, the fetch plan, retry and refresh timing.
//! - [`config`], [`price`], [`metadata`], [`currency`], [`allocation`]:
//!   the data model and the provider interfaces.
//! - [`fixed`], [`decimal`], [`assoc`], [`text`]: numbers, a small ordered
//!   map, strings.
use vstd::prelude::*;

pub mod allocation;
pub mod analytics;
pub mod assoc;
pub mod cache;
pub mod caching;
mod clock;
pub mod config;
pub mod currency;
pub mod decimal;
pub mod fees;
pub mod fetch;
pub mod fixed;
pub mod metadata;
pub mod performance;
pub mod portfolio;
pub mod price;
pub mod providers;
pub mod ranking;
pub mod rolling;
pub mod stats;
pub mod store;
pub mod summary;
pub mod text;
pub mod util;
pub mod weighted;

verus! {

/// The commands that need the providers and the cache store set up.
#[derive(Clone, Copy, Debug, PartialEq, Eq, Structural)]
pub enum AppCommand {
    Summary,
    Change,
    Returns,
    Fees,
    Alloc,
}

} // verus!
