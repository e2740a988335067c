//! The grand total over several portfolios.
use crate::analytics::{PortfolioValue, PortfolioValueView};
use crate::fixed::{narrow, narrow_i128, Fixed};
use vstd::prelude::*;

verus! {

/// The views of a sequence of portfolio values.
pub open spec fn portfolio_views(pvs: Seq<PortfolioValue>) -> Seq<PortfolioValueView> {
    pvs.map_values(|pv: PortfolioValue| pv@)
}

/// Sum of the totals of the portfolios, in raw units; absent when a
/// portfolio has no total.
pub open spec fn totals_sum(pvs: Seq<PortfolioValueView>) -> Option<int>
    decreases pvs.len(),
{
    if pvs.len() == 0 {
        Some(0)
    } else {
        match (totals_sum(pvs.drop_last()), pvs.last().total_converted_value) {
            (Some(acc), Some(t)) => Some(acc + t.raw),
            _ => None,
        }
    }
}

/// The grand total: the sum of the portfolio totals, if every portfolio
/// has one and the sum fits.
pub open spec fn grand_total_spec(pvs: Seq<PortfolioValueView>) -> Option<Fixed> {
    match totals_sum(pvs) {
        Some(v) => narrow(v),
        None => None,
    }
}

/// The sum of the totals stays within the portfolios' number times the
/// range of one total.
proof fn lemma_totals_sum_bound(pvs: Seq<PortfolioValueView>)
    ensures
        totals_sum(pvs) matches Some(v) ==> pvs.len() * i64::MIN <= v <= pvs.len() * i64::MAX,
    decreases pvs.len(),
{
    if pvs.len() > 0 {
        lemma_totals_sum_bound(pvs.drop_last());
    }
}

/// Once the sum is absent it stays absent as portfolios are added.
proof fn lemma_totals_sum_stays_absent(pvs: Seq<PortfolioValueView>, k: int)
    requires
        0 <= k <= pvs.len(),
        totals_sum(pvs.subrange(0, k)).is_none(),
    ensures
        totals_sum(pvs).is_none(),
    decreases pvs.len() - k,
{
    if k < pvs.len() {
        assert(pvs.subrange(0, k + 1).drop_last() =~= pvs.subrange(0, k));
        lemma_totals_sum_stays_absent(pvs, k + 1);
    } else {
        assert(pvs.subrange(0, k) =~= pvs);
    }
}

/// The grand total over the portfolios: present only if every portfolio
/// has a total.
pub fn grand_total(summaries: &Vec<PortfolioValue>) -> (r: Option<Fixed>)
    ensures
        r == grand_total_spec(portfolio_views(summaries@)),
{
    let ghost all = portfolio_views(summaries@);
    let mut sum: i128 = 0;
    let mut i: usize = 0;
    while i < summaries.len()
        invariant
            all == portfolio_views(summaries@),
            i <= summaries.len(),
            totals_sum(all.subrange(0, i as int)) == Some(sum as int),
        decreases summaries.len() - i,
    {
        proof {
            assert(all.subrange(0, i + 1).drop_last() =~= all.subrange(0, i as int));
            assert(all.subrange(0, i + 1).last() == summaries@[i as int]@);
            lemma_totals_sum_bound(all.subrange(0, i as int));
        }
        match summaries[i].total_converted_value {
            Some(t) => {
                sum = sum + t.raw as i128;
            },
            None => {
                proof {
                    lemma_totals_sum_stays_absent(all, i + 1);
                }
                return None;
            },
        }
        i += 1;
    }
    assert(all.subrange(0, summaries.len() as int) =~= all);
    narrow_i128(sum)
}

} // verus!
