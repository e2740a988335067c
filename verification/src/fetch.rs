//! The fetch plan: which instruments to fetch, each once, and from which
//! kind of provider.
use crate::assoc::AssocVec;
use crate::config::{Investment, Portfolio};
use vstd::prelude::*;

verus! {

/// The kind of provider that prices an instrument.
#[derive(Clone, Copy, Debug, PartialEq, Eq, Structural)]
pub enum ProviderKind {
    /// Priced by ticker symbol.
    Symbol,
    /// Priced by ISIN.
    Isin,
}

/// The instruments to fetch, by identifier.
pub type FetchPlan = AssocVec<String, ProviderKind>;

/// The plan with one more investment taken into account: a stock is
/// fetched by symbol, a fund by ISIN, a holding of stated value not at
/// all. An identifier that is already planned is not planned twice; the
/// later provider kind stands.
pub open spec fn plan_with(
    plan: Map<Seq<char>, ProviderKind>,
    investment: Investment,
) -> Map<Seq<char>, ProviderKind> {
    match investment {
        Investment::Stock(s) => plan.insert(s.symbol@, ProviderKind::Symbol),
        Investment::MutualFund(mf) => plan.insert(mf.isin@, ProviderKind::Isin),
        Investment::FixedDeposit(_) => plan,
    }
}

/// The plan with a sequence of investments taken into account, in order.
pub open spec fn plan_with_all(
    plan: Map<Seq<char>, ProviderKind>,
    investments: Seq<Investment>,
) -> Map<Seq<char>, ProviderKind>
    decreases investments.len(),
{
    if investments.len() == 0 {
        plan
    } else {
        plan_with(plan_with_all(plan, investments.drop_last()), investments.last())
    }
}

/// The plan for a sequence of portfolios.
pub open spec fn plan_of(portfolios: Seq<Portfolio>) -> Map<Seq<char>, ProviderKind>
    decreases portfolios.len(),
{
    if portfolios.len() == 0 {
        Map::empty()
    } else {
        plan_with_all(plan_of(portfolios.drop_last()), portfolios.last().investments@)
    }
}

/// Taking more investments into account keeps what was planned.
pub proof fn lemma_plan_keeps_keys(
    plan: Map<Seq<char>, ProviderKind>,
    investments: Seq<Investment>,
    id: Seq<char>,
)
    requires
        plan.contains_key(id),
    ensures
        plan_with_all(plan, investments).contains_key(id),
    decreases investments.len(),
{
    if investments.len() > 0 {
        lemma_plan_keeps_keys(plan, investments.drop_last(), id);
    }
}

/// Every investment that is taken into account and is valued from a
/// fetched price is planned.
pub proof fn lemma_plan_covers_investment(
    plan: Map<Seq<char>, ProviderKind>,
    investments: Seq<Investment>,
    j: int,
)
    requires
        0 <= j < investments.len(),
        investments[j].spec_needs_fetch(),
    ensures
        plan_with_all(plan, investments).contains_key(investments[j].spec_identifier()),
    decreases investments.len(),
{
    if j == investments.len() - 1 {
    } else {
        lemma_plan_covers_investment(plan, investments.drop_last(), j);
        let inner = plan_with_all(plan, investments.drop_last());
        assert(investments.drop_last()[j] == investments[j]);
    }
}

/// The plan covers every holding, of every portfolio, that is valued from
/// a fetched price; as a map it holds each identifier once.
pub proof fn lemma_plan_covers(portfolios: Seq<Portfolio>, i: int, j: int)
    requires
        0 <= i < portfolios.len(),
        0 <= j < portfolios[i].investments.len(),
        portfolios[i].investments[j].spec_needs_fetch(),
    ensures
        plan_of(portfolios).contains_key(portfolios[i].investments[j].spec_identifier()),
    decreases portfolios.len(),
{
    let id = portfolios[i].investments[j].spec_identifier();
    if i == portfolios.len() - 1 {
        lemma_plan_covers_investment(
            plan_of(portfolios.drop_last()),
            portfolios.last().investments@,
            j,
        );
    } else {
        assert(portfolios.drop_last()[i] == portfolios[i]);
        lemma_plan_covers(portfolios.drop_last(), i, j);
        lemma_plan_keeps_keys(plan_of(portfolios.drop_last()), portfolios.last().investments@, id);
    }
}

/// Takes one investment into account.
pub fn plan_investment(plan: &mut FetchPlan, investment: &Investment)
    requires
        old(plan).wf(),
    ensures
        final(plan).wf(),
        final(plan)@ == plan_with(old(plan)@, *investment),
{
    match investment {
        Investment::Stock(s) => {
            plan.insert(s.symbol.clone(), ProviderKind::Symbol);
        },
        Investment::MutualFund(mf) => {
            plan.insert(mf.isin.clone(), ProviderKind::Isin);
        },
        Investment::FixedDeposit(_) => {},
    }
}

/// The instruments to fetch for a set of portfolios, each once.
pub fn investments_to_fetch(portfolios: &Vec<Portfolio>) -> (plan: FetchPlan)
    ensures
        plan.wf(),
        plan@ == plan_of(portfolios@),
{
    let mut plan: FetchPlan = AssocVec::new();
    let mut i: usize = 0;
    while i < portfolios.len()
        invariant
            i <= portfolios.len(),
            plan.wf(),
            plan@ == plan_of(portfolios@.subrange(0, i as int)),
        decreases portfolios.len() - i,
    {
        let investments = &portfolios[i].investments;
        let ghost start = plan@;
        let mut j: usize = 0;
        while j < investments.len()
            invariant
                j <= investments.len(),
                plan.wf(),
                plan@ == plan_with_all(start, investments@.subrange(0, j as int)),
            decreases investments.len() - j,
        {
            proof {
                assert(investments@.subrange(0, j + 1).drop_last() =~= investments@.subrange(
                    0,
                    j as int,
                ));
            }
            plan_investment(&mut plan, &investments[j]);
            j += 1;
        }
        proof {
            assert(investments@.subrange(0, investments.len() as int) =~= investments@);
            assert(portfolios@.subrange(0, i + 1).drop_last() =~= portfolios@.subrange(
                0,
                i as int,
            ));
        }
        i += 1;
    }
    assert(portfolios@.subrange(0, portfolios.len() as int) =~= portfolios@);
    plan
}

} // verus!
