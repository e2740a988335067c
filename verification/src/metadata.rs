//! Fund metadata: what a metadata provider reports for one fund.
use crate::assoc::AssocVec;
use crate::fixed::Fixed;
use vstd::prelude::*;

verus! {

/// Descriptive data of a mutual fund. Dates are days since the Unix epoch;
/// the expense ratio is in percent.
#[derive(Debug)]
pub struct FundMetadata {
    pub isin: String,
    pub fund_type: String,
    pub fund_category: String,
    pub expense_ratio: Fixed,
    pub expense_ratio_date: i32,
    pub aum: Fixed,
    pub fund_rating: Option<u8>,
    pub fund_rating_date: Option<i32>,
    pub category: String,
}

/// A source of fund metadata. Nothing is promised of what an
/// implementation returns.
pub trait MetadataProvider {
    fn fetch_metadata(&self, identifier: &str) -> Result<FundMetadata, String>;
}

/// The fetched metadata results by ISIN.
pub type MetadataResults = AssocVec<String, Result<FundMetadata, String>>;

} // verus!
