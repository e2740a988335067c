//! Expense ratios per holding, and the weighted fee of a portfolio.
use crate::analytics::{lookup, views, InvestmentValue, InvestmentValueView, PortfolioValue};
use crate::config::{Investment, Portfolio};
use crate::fixed::{
    div_toward_zero, lemma_product_bound, narrow, narrow_i128, trunc_div, Fixed, HUNDRED_RAW,
};
use crate::metadata::{FundMetadata, MetadataResults};
use crate::text::{clone_opt_string, opt_text};
use crate::weighted::fits_wide;
use vstd::prelude::*;

verus! {

/// The expense ratio and weight of one holding.
#[derive(Debug)]
pub struct FeeResult {
    pub identifier: String,
    pub short_name: Option<String>,
    pub expense_ratio: Fixed,
    pub weight: Fixed,
    pub error: Option<String>,
}

/// The mathematical content of a `FeeResult`.
pub struct FeeResultView {
    pub identifier: Seq<char>,
    pub short_name: Option<Seq<char>>,
    pub expense_ratio: Fixed,
    pub weight: Fixed,
    pub error: Option<Seq<char>>,
}

impl View for FeeResult {
    type V = FeeResultView;

    open spec fn view(&self) -> FeeResultView {
        FeeResultView {
            identifier: self.identifier@,
            short_name: opt_text(self.short_name),
            expense_ratio: self.expense_ratio,
            weight: self.weight,
            error: opt_text(self.error),
        }
    }
}

/// The fees of the holdings of a portfolio, and the portfolio's weighted
/// fee in percent; the latter is absent when it does not fit.
#[derive(Debug)]
pub struct PortfolioFeeResult {
    pub name: String,
    pub investment_fees: Vec<FeeResult>,
    pub portfolio_fee: Option<Fixed>,
}

/// The views of a sequence of fee results.
pub open spec fn fee_views(rs: Seq<FeeResult>) -> Seq<FeeResultView> {
    rs.map_values(|r: FeeResult| r@)
}

/// The metadata result that counts for an investment: that of its ISIN, if
/// it is a mutual fund.
pub open spec fn metadata_for(
    investment: Investment,
    metadata: Map<Seq<char>, Result<FundMetadata, String>>,
) -> Option<Result<FundMetadata, String>> {
    match investment {
        Investment::MutualFund(mf) => lookup(metadata, mf.isin@),
        _ => None,
    }
}

/// The fee result of one holding: its weight, or zero without one; the
/// expense ratio of its fund, or zero without metadata; the error of a
/// failed metadata fetch.
pub open spec fn fee_result_spec(
    investment: Investment,
    h: InvestmentValueView,
    metadata: Map<Seq<char>, Result<FundMetadata, String>>,
) -> FeeResultView {
    let found = metadata_for(investment, metadata);
    FeeResultView {
        identifier: h.identifier,
        short_name: h.short_name,
        expense_ratio: match found {
            Some(Ok(meta)) => meta.expense_ratio,
            _ => Fixed { raw: 0 },
        },
        weight: match h.weight {
            Some(w) => w,
            None => Fixed { raw: 0 },
        },
        error: match found {
            Some(Err(e)) => Some(e@),
            _ => None,
        },
    }
}

/// The fee results of the first `count` holdings.
pub open spec fn fee_results(
    investments: Seq<Investment>,
    hs: Seq<InvestmentValueView>,
    metadata: Map<Seq<char>, Result<FundMetadata, String>>,
    count: int,
) -> Seq<FeeResultView> {
    Seq::new(count as nat, |i: int| fee_result_spec(investments[i], hs[i], metadata))
}

/// Sum of expense ratio times weight, and sum of the weights, over the
/// results in order; absent once the first sum leaves the accumulator.
pub open spec fn fee_totals(rs: Seq<FeeResultView>) -> Option<(int, int)>
    decreases rs.len(),
{
    if rs.len() == 0 {
        Some((0, 0))
    } else {
        match fee_totals(rs.drop_last()) {
            Some((fee, weight)) => {
                let next = fee + rs.last().expense_ratio.raw * rs.last().weight.raw;
                if fits_wide(next) {
                    Some((next, weight + rs.last().weight.raw))
                } else {
                    None
                }
            },
            None => None,
        }
    }
}

/// The weighted fee of a portfolio: the sum of expense ratio times weight
/// over one hundred percent, rounded toward zero; zero when the weights do
/// not add up to a positive number.
pub open spec fn portfolio_fee_spec(rs: Seq<FeeResultView>) -> Option<Fixed> {
    match fee_totals(rs) {
        Some((fee, weight)) => if weight > 0 {
            narrow(trunc_div(fee, HUNDRED_RAW as int))
        } else {
            Some(Fixed { raw: 0 })
        },
        None => None,
    }
}

/// The sum of the weights stays within the results' number times the range
/// of one weight.
proof fn lemma_fee_totals_bound(rs: Seq<FeeResultView>)
    ensures
        fee_totals(rs) matches Some((fee, weight)) ==> rs.len() * i64::MIN <= weight <= rs.len()
            * i64::MAX && fits_wide(fee),
    decreases rs.len(),
{
    if rs.len() > 0 {
        lemma_fee_totals_bound(rs.drop_last());
    }
}

/// Once the totals are absent they stay absent as results are added.
proof fn lemma_fee_totals_stay_absent(rs: Seq<FeeResultView>, k: int)
    requires
        0 <= k <= rs.len(),
        fee_totals(rs.subrange(0, k)).is_none(),
    ensures
        fee_totals(rs).is_none(),
    decreases rs.len() - k,
{
    if k < rs.len() {
        assert(rs.subrange(0, k + 1).drop_last() =~= rs.subrange(0, k));
        lemma_fee_totals_stay_absent(rs, k + 1);
    } else {
        assert(rs.subrange(0, k) =~= rs);
    }
}

/// The fee result of one holding.
pub fn fee_result(
    investment: &Investment,
    holding: &InvestmentValue,
    metadata_results: &MetadataResults,
) -> (r: FeeResult)
    requires
        metadata_results.wf(),
    ensures
        r@ == fee_result_spec(*investment, holding@, metadata_results@),
{
    let weight = match holding.weight {
        Some(w) => w,
        None => Fixed { raw: 0 },
    };
    let mut expense_ratio = Fixed { raw: 0 };
    let mut error: Option<String> = None;
    match investment {
        Investment::MutualFund(mf) => match metadata_results.get(&mf.isin) {
            Some(Ok(meta)) => {
                expense_ratio = meta.expense_ratio;
            },
            Some(Err(e)) => {
                error = Some(e.clone());
            },
            None => {},
        },
        _ => {},
    }
    FeeResult {
        identifier: holding.identifier.clone(),
        short_name: clone_opt_string(&holding.short_name),
        expense_ratio,
        weight,
        error,
    }
}

/// The weighted fee of a portfolio from the fee results of its holdings.
pub fn portfolio_fee(results: &Vec<FeeResult>) -> (r: Option<Fixed>)
    ensures
        r == portfolio_fee_spec(fee_views(results@)),
{
    let ghost all = fee_views(results@);
    let mut fee: i128 = 0;
    let mut weight: i128 = 0;
    let mut i: usize = 0;
    while i < results.len()
        invariant
            all == fee_views(results@),
            i <= results.len(),
            fee_totals(all.subrange(0, i as int)) == Some((fee as int, weight as int)),
        decreases results.len() - i,
    {
        proof {
            assert(all.subrange(0, i + 1).drop_last() =~= all.subrange(0, i as int));
            assert(all.subrange(0, i + 1).last() == results@[i as int]@);
            lemma_fee_totals_bound(all.subrange(0, i as int));
            lemma_product_bound(
                results@[i as int].expense_ratio.raw as int,
                results@[i as int].weight.raw as int,
            );
        }
        let product: i128 = (results[i].expense_ratio.raw as i128) * (results[i].weight.raw
            as i128);
        let next = match fee.checked_add(product) {
            Some(next) => next,
            None => {
                proof {
                    lemma_fee_totals_stay_absent(all, i + 1);
                }
                return None;
            },
        };
        if next == i128::MIN {
            proof {
                lemma_fee_totals_stay_absent(all, i + 1);
            }
            return None;
        }
        fee = next;
        weight = weight + results[i].weight.raw as i128;
        i += 1;
    }
    assert(all.subrange(0, results.len() as int) =~= all);
    if weight > 0 {
        narrow_i128(div_toward_zero(fee, HUNDRED_RAW as i128))
    } else {
        Some(Fixed { raw: 0 })
    }
}

/// Takes the expense ratio of each holding of a valued portfolio from the
/// fetched metadata, and the portfolio's weighted fee. Investments beyond
/// the number of valued holdings are passed over.
pub fn calculate_portfolio_fees(
    portfolio: &Portfolio,
    holdings: &PortfolioValue,
    metadata_results: &MetadataResults,
) -> (r: PortfolioFeeResult)
    requires
        metadata_results.wf(),
    ensures
        r.name@ == portfolio.name@,
        fee_views(r.investment_fees@) == fee_results(
            portfolio.investments@,
            holdings@.investments,
            metadata_results@,
            if portfolio.investments.len() <= holdings.investments.len() {
                portfolio.investments.len() as int
            } else {
                holdings.investments.len() as int
            },
        ),
        r.portfolio_fee == portfolio_fee_spec(fee_views(r.investment_fees@)),
{
    let count = if portfolio.investments.len() <= holdings.investments.len() {
        portfolio.investments.len()
    } else {
        holdings.investments.len()
    };
    let mut investment_fees: Vec<FeeResult> = Vec::new();
    let mut i: usize = 0;
    while i < count
        invariant
            metadata_results.wf(),
            count <= portfolio.investments.len(),
            count <= holdings.investments.len(),
            i <= count,
            investment_fees.len() == i,
            forall|j: int|
                0 <= j < i ==> (#[trigger] investment_fees@[j])@ == fee_result_spec(
                    portfolio.investments@[j],
                    holdings@.investments[j],
                    metadata_results@,
                ),
        decreases count - i,
    {
        let result = fee_result(
            &portfolio.investments[i],
            &holdings.investments[i],
            metadata_results,
        );
        investment_fees.push(result);
        i += 1;
    }
    assert(fee_views(investment_fees@) =~= fee_results(
        portfolio.investments@,
        holdings@.investments,
        metadata_results@,
        count as int,
    ));
    let portfolio_fee = portfolio_fee(&investment_fees);
    PortfolioFeeResult { name: portfolio.name.clone(), investment_fees, portfolio_fee }
}

} // verus!
