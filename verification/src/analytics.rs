//! Portfolio valuation: market value, currency-converted value and weight
//! of each holding, and the portfolio total.
//!
//! A holding either converts or carries an error. The total is present only
//! if every holding converted, and weights only if the total is present and
//! not zero.
use crate::assoc::AssocVec;
use crate::config::{Investment, Portfolio};
use crate::currency::CurrencyRateProvider;
use crate::fixed::{narrow, narrow_i128, trunc_div, Fixed, HUNDRED_RAW, SCALE};
use crate::price::PriceResult;
use crate::text::{clone_opt_string, concat2, opt_text, str_eq};
use vstd::math::abs;
use vstd::prelude::*;
use vstd::string::StringExecFns;

verus! {

/// The fetched price results by instrument identifier.
pub type PriceResults = AssocVec<String, Result<PriceResult, String>>;

/// The calculated value and weight of a single holding.
#[derive(Debug)]
pub struct InvestmentValue {
    pub identifier: String,
    pub short_name: Option<String>,
    pub units: Option<Fixed>,
    pub price: Option<Fixed>,
    pub value: Option<Fixed>,
    pub value_currency: Option<String>,
    pub converted_value: Option<Fixed>,
    pub weight: Option<Fixed>,
    pub error: Option<String>,
}

/// The mathematical content of an `InvestmentValue`.
pub struct InvestmentValueView {
    pub identifier: Seq<char>,
    pub short_name: Option<Seq<char>>,
    pub units: Option<Fixed>,
    pub price: Option<Fixed>,
    pub value: Option<Fixed>,
    pub value_currency: Option<Seq<char>>,
    pub converted_value: Option<Fixed>,
    pub weight: Option<Fixed>,
    pub error: Option<Seq<char>>,
}

impl View for InvestmentValue {
    type V = InvestmentValueView;

    open spec fn view(&self) -> InvestmentValueView {
        InvestmentValueView {
            identifier: self.identifier@,
            short_name: opt_text(self.short_name),
            units: self.units,
            price: self.price,
            value: self.value,
            value_currency: opt_text(self.value_currency),
            converted_value: self.converted_value,
            weight: self.weight,
            error: opt_text(self.error),
        }
    }
}

/// A portfolio's holdings with all values in one target currency.
#[derive(Debug)]
pub struct PortfolioValue {
    pub name: String,
    pub investments: Vec<InvestmentValue>,
    pub total_converted_value: Option<Fixed>,
    pub target_currency: String,
}

/// The mathematical content of a `PortfolioValue`.
pub struct PortfolioValueView {
    pub name: Seq<char>,
    pub investments: Seq<InvestmentValueView>,
    pub total_converted_value: Option<Fixed>,
    pub target_currency: Seq<char>,
}

/// The views of a sequence of holdings.
pub open spec fn views(hs: Seq<InvestmentValue>) -> Seq<InvestmentValueView> {
    hs.map_values(|h: InvestmentValue| h@)
}

impl View for PortfolioValue {
    type V = PortfolioValueView;

    open spec fn view(&self) -> PortfolioValueView {
        PortfolioValueView {
            name: self.name@,
            investments: views(self.investments@),
            total_converted_value: self.total_converted_value,
            target_currency: self.target_currency@,
        }
    }
}

/// What a map holds under a key, if anything.
pub open spec fn lookup<K, V>(m: Map<K, V>, k: K) -> Option<V> {
    if m.contains_key(k) {
        Some(m[k])
    } else {
        None
    }
}

/// The error of a holding whose price was never fetched.
pub open spec fn missing_price_message(identifier: Seq<char>) -> Seq<char> {
    "Price data not available for "@ + identifier
}

/// The error of a holding whose market value does not fit.
pub open spec fn value_range_message(identifier: Seq<char>) -> Seq<char> {
    "Value out of range for "@ + identifier
}

/// The error of a holding whose value could not be converted.
pub open spec fn conversion_failed_message(
    from: Seq<char>,
    to: Seq<char>,
    cause: Seq<char>,
) -> Seq<char> {
    "Currency conversion failed from "@ + from + " to "@ + to + ": "@ + cause
}

/// The cause reported when a converted value does not fit.
pub open spec fn out_of_range_cause() -> Seq<char> {
    "converted value out of range"@
}

/// The view of a rate provider's answer.
pub open spec fn rate_view(rate: Result<Fixed, String>) -> Result<Fixed, Seq<char>> {
    match rate {
        Ok(r) => Ok(r),
        Err(e) => Err(e@),
    }
}

/// A holding before conversion: a holding of stated value carries that
/// value in its own currency, or in the target currency if it names none; a
/// priced holding carries units times price in the price's currency, or the
/// error of its price lookup.
pub open spec fn priced(
    investment: Investment,
    found: Option<Result<PriceResult, String>>,
    target: Seq<char>,
) -> InvestmentValueView {
    let base = InvestmentValueView {
        identifier: investment.spec_identifier(),
        short_name: None,
        units: investment.spec_units(),
        price: None,
        value: None,
        value_currency: None,
        converted_value: None,
        weight: None,
        error: None,
    };
    match investment {
        Investment::FixedDeposit(fd) => InvestmentValueView {
            value: Some(fd.value),
            value_currency: Some(
                match fd.currency {
                    Some(c) => c@,
                    None => target,
                },
            ),
            ..base
        },
        _ => match found {
            Some(Ok(data)) => {
                let value = narrow(
                    trunc_div(investment.spec_units().unwrap().raw * data.price.raw, SCALE as int),
                );
                InvestmentValueView {
                    short_name: opt_text(data.short_name),
                    price: Some(data.price),
                    value,
                    value_currency: Some(data.currency@),
                    error: if value.is_some() {
                        None
                    } else {
                        Some(value_range_message(investment.spec_identifier()))
                    },
                    ..base
                }
            },
            Some(Err(e)) => InvestmentValueView { error: Some(e@), ..base },
            None => InvestmentValueView {
                error: Some(missing_price_message(investment.spec_identifier())),
                ..base
            },
        },
    }
}

/// The outcome of converting `value` from one currency to another, given
/// the rate provider's answer: no conversion between equal currencies,
/// otherwise value times rate, or the failure with its cause.
pub open spec fn conversion_result(
    value: Fixed,
    from: Seq<char>,
    to: Seq<char>,
    rate: Result<Fixed, Seq<char>>,
) -> Result<Fixed, Seq<char>> {
    if from == to {
        Ok(value)
    } else {
        match rate {
            Ok(r) => match narrow(trunc_div(value.raw * r.raw, SCALE as int)) {
                Some(c) => Ok(c),
                None => Err(conversion_failed_message(from, to, out_of_range_cause())),
            },
            Err(e) => Err(conversion_failed_message(from, to, e)),
        }
    }
}

/// The view of a conversion outcome.
pub open spec fn outcome_view(r: Result<Fixed, String>) -> Result<Fixed, Seq<char>> {
    rate_view(r)
}

/// A holding after conversion: one that carries an error stays as it is;
/// any other gains its converted value, or the conversion's error.
pub open spec fn converted(
    h: InvestmentValueView,
    target: Seq<char>,
    rate: Result<Fixed, Seq<char>>,
) -> InvestmentValueView {
    if h.error.is_some() || h.value.is_none() || h.value_currency.is_none() {
        h
    } else {
        match conversion_result(h.value.unwrap(), h.value_currency.unwrap(), target, rate) {
            Ok(c) => InvestmentValueView { converted_value: Some(c), ..h },
            Err(e) => InvestmentValueView { error: Some(e), ..h },
        }
    }
}

/// Sum of the converted values of the holdings that have one, in raw units.
pub open spec fn converted_sum(hs: Seq<InvestmentValueView>) -> int
    decreases hs.len(),
{
    if hs.len() == 0 {
        0
    } else {
        converted_sum(hs.drop_last()) + match hs.last().converted_value {
            Some(c) => c.raw as int,
            None => 0,
        }
    }
}

/// Whether no holding carries an error.
pub open spec fn all_valid(hs: Seq<InvestmentValueView>) -> bool {
    forall|i: int| 0 <= i < hs.len() ==> (#[trigger] hs[i]).error.is_none()
}

/// The portfolio total: the sum of the converted values if every holding
/// converted and the sum fits, absent otherwise.
pub open spec fn total_of(hs: Seq<InvestmentValueView>) -> Option<Fixed> {
    if all_valid(hs) {
        narrow(converted_sum(hs))
    } else {
        None
    }
}

/// The weight of a holding: its converted value as a percentage of the
/// total, when both are present, the total is not zero and the percentage
/// fits.
pub open spec fn weight_of(converted_value: Option<Fixed>, total: Option<Fixed>) -> Option<Fixed> {
    match (converted_value, total) {
        (Some(c), Some(t)) => if t.raw != 0 {
            narrow(trunc_div(c.raw * HUNDRED_RAW, t.raw as int))
        } else {
            None
        },
        _ => None,
    }
}

/// A holding with its weight set against the given total.
pub open spec fn weighted(h: InvestmentValueView, total: Option<Fixed>) -> InvestmentValueView {
    InvestmentValueView { weight: weight_of(h.converted_value, total), ..h }
}

/// The portfolio value made of the given converted holdings.
pub open spec fn finished(
    name: Seq<char>,
    hs: Seq<InvestmentValueView>,
    target: Seq<char>,
) -> PortfolioValueView {
    PortfolioValueView {
        name,
        investments: hs.map_values(|h: InvestmentValueView| weighted(h, total_of(hs))),
        total_converted_value: total_of(hs),
        target_currency: target,
    }
}

/// The converted holdings of a portfolio, given the fetched prices and, for
/// each holding, the rate provider's answer should it be asked.
pub open spec fn valued_holdings(
    investments: Seq<Investment>,
    prices: Map<Seq<char>, Result<PriceResult, String>>,
    target: Seq<char>,
    rates: Seq<Result<Fixed, Seq<char>>>,
) -> Seq<InvestmentValueView> {
    Seq::new(
        investments.len(),
        |j: int|
            converted(
                priced(investments[j], lookup(prices, investments[j].spec_identifier()), target),
                target,
                rates[j],
            ),
    )
}

/// The value of a portfolio, given the fetched prices and the rate
/// provider's answers.
pub open spec fn portfolio_value_spec(
    portfolio: Portfolio,
    prices: Map<Seq<char>, Result<PriceResult, String>>,
    target: Seq<char>,
    rates: Seq<Result<Fixed, Seq<char>>>,
) -> PortfolioValueView {
    finished(
        portfolio.name@,
        valued_holdings(portfolio.investments@, prices, target, rates),
        target,
    )
}

/// Whether a portfolio value hangs together, whatever the rate provider
/// answered: every holding carries either an error or a converted value;
/// the total is the sum of the converted values, present exactly when no
/// holding carries an error and the sum fits; and every weight is the
/// holding's converted value as a percentage of the total, present exactly
/// when the total is present and not zero and the percentage fits.
pub open spec fn is_settled(pv: PortfolioValueView) -> bool {
    &&& pv.total_converted_value == total_of(pv.investments)
    &&& forall|i: int|
        0 <= i < pv.investments.len() ==> {
            &&& (#[trigger] pv.investments[i]).error.is_some()
                != pv.investments[i].converted_value.is_some()
            &&& pv.investments[i].weight == weight_of(
                pv.investments[i].converted_value,
                pv.total_converted_value,
            )
        }
}

/// Whether the holdings of a portfolio value are those of the portfolio, in
/// its order: each holding is listed under its investment's identifier with
/// its units, and a holding whose price was not fetched, or whose fetch
/// failed, carries an error.
pub open spec fn lists_holdings_of(
    pv: PortfolioValueView,
    portfolio: Portfolio,
    prices: Map<Seq<char>, Result<PriceResult, String>>,
) -> bool {
    &&& pv.name == portfolio.name@
    &&& pv.investments.len() == portfolio.investments.len()
    &&& forall|i: int|
        0 <= i < pv.investments.len() ==> {
            &&& (#[trigger] pv.investments[i]).identifier
                == portfolio.investments[i].spec_identifier()
            &&& pv.investments[i].units == portfolio.investments[i].spec_units()
            &&& (portfolio.investments[i].spec_needs_fetch() && !(lookup(
                prices,
                portfolio.investments[i].spec_identifier(),
            ) matches Some(Ok(_)))) ==> pv.investments[i].error.is_some()
        }
}

/// Setting weights changes neither the converted values nor the errors of
/// the holdings, so the total of the weighted holdings is the total they
/// were weighted against.
proof fn lemma_weights_leave_total(hs: Seq<InvestmentValueView>, total: Option<Fixed>)
    ensures
        converted_sum(hs.map_values(|h: InvestmentValueView| weighted(h, total)))
            == converted_sum(hs),
        all_valid(hs.map_values(|h: InvestmentValueView| weighted(h, total))) == all_valid(hs),
    decreases hs.len(),
{
    let ws = hs.map_values(|h: InvestmentValueView| weighted(h, total));
    if hs.len() > 0 {
        lemma_weights_leave_total(hs.drop_last(), total);
        assert(ws.drop_last() =~= hs.drop_last().map_values(
            |h: InvestmentValueView| weighted(h, total),
        ));
        assert(ws.last() == weighted(hs.last(), total));
    }
    if all_valid(hs) {
        assert forall|i: int| 0 <= i < ws.len() implies (#[trigger] ws[i]).error.is_none() by {
            assert(hs[i].error.is_none());
        }
    }
    if all_valid(ws) {
        assert forall|i: int| 0 <= i < hs.len() implies (#[trigger] hs[i]).error.is_none() by {
            assert(ws[i].error.is_none());
        }
    }
}

/// The value of a portfolio hangs together and lists the portfolio's
/// holdings, whatever the rate provider answered.
pub proof fn lemma_portfolio_value_is_settled(
    portfolio: Portfolio,
    prices: Map<Seq<char>, Result<PriceResult, String>>,
    target: Seq<char>,
    rates: Seq<Result<Fixed, Seq<char>>>,
)
    ensures
        is_settled(portfolio_value_spec(portfolio, prices, target, rates)),
        lists_holdings_of(
            portfolio_value_spec(portfolio, prices, target, rates),
            portfolio,
            prices,
        ),
        portfolio_value_spec(portfolio, prices, target, rates).target_currency == target,
{
    let hs = valued_holdings(portfolio.investments@, prices, target, rates);
    let pv = portfolio_value_spec(portfolio, prices, target, rates);
    lemma_weights_leave_total(hs, total_of(hs));
    assert forall|i: int| 0 <= i < pv.investments.len() implies {
        &&& (#[trigger] pv.investments[i]).error.is_some()
            != pv.investments[i].converted_value.is_some()
        &&& pv.investments[i].weight == weight_of(
            pv.investments[i].converted_value,
            pv.total_converted_value,
        )
        &&& pv.investments[i].identifier == portfolio.investments[i].spec_identifier()
        &&& pv.investments[i].units == portfolio.investments[i].spec_units()
        &&& (portfolio.investments[i].spec_needs_fetch() && !(lookup(
            prices,
            portfolio.investments[i].spec_identifier(),
        ) matches Some(Ok(_)))) ==> pv.investments[i].error.is_some()
    } by {
        assert(pv.investments[i] == weighted(hs[i], total_of(hs)));
    }
}

/// Sum of the weights of the holdings that have one, in raw units.
pub open spec fn weight_sum(hs: Seq<InvestmentValueView>) -> int
    decreases hs.len(),
{
    if hs.len() == 0 {
        0
    } else {
        weight_sum(hs.drop_last()) + match hs.last().weight {
            Some(w) => w.raw as int,
            None => 0,
        }
    }
}

/// After processing, a holding carries either an error or a converted
/// value, never both and never neither.
pub proof fn lemma_error_or_converted(
    investment: Investment,
    found: Option<Result<PriceResult, String>>,
    target: Seq<char>,
    rate: Result<Fixed, Seq<char>>,
)
    ensures
        ({
            let h = converted(priced(investment, found, target), target, rate);
            h.error.is_some() != h.converted_value.is_some()
        }),
{
}

/// All or nothing: when the price of some holding was not fetched, or its
/// fetch failed, the portfolio has no total and no holding has a weight,
/// while every holding keeps the converted value that its own price and
/// rate give it.
pub proof fn lemma_all_or_nothing(
    portfolio: Portfolio,
    prices: Map<Seq<char>, Result<PriceResult, String>>,
    target: Seq<char>,
    rates: Seq<Result<Fixed, Seq<char>>>,
    failed: int,
)
    requires
        0 <= failed < portfolio.investments.len(),
        portfolio.investments[failed].spec_needs_fetch(),
        !(lookup(prices, portfolio.investments[failed].spec_identifier()) matches Some(Ok(_))),
    ensures
        ({
            let pv = portfolio_value_spec(portfolio, prices, target, rates);
            let own = valued_holdings(portfolio.investments@, prices, target, rates);
            &&& pv.total_converted_value.is_none()
            &&& pv.investments.len() == portfolio.investments.len()
            &&& pv.investments[failed].error.is_some()
            &&& forall|i: int|
                0 <= i < pv.investments.len() ==> {
                    &&& (#[trigger] pv.investments[i]).converted_value == own[i].converted_value
                    &&& pv.investments[i].weight.is_none()
                }
        }),
{
    let own = valued_holdings(portfolio.investments@, prices, target, rates);
    assert(own[failed].error.is_some());
    assert(!all_valid(own));
}

/// The total is present exactly when every holding is free of error and
/// the sum of the converted values fits; it is then that sum. In
/// particular a total is never a partial sum over the holdings that
/// happened to convert.
pub proof fn lemma_total_iff_all_valid(
    name: Seq<char>,
    hs: Seq<InvestmentValueView>,
    target: Seq<char>,
)
    ensures
        ({
            let pv = finished(name, hs, target);
            let fits = i64::MIN <= converted_sum(hs) <= i64::MAX;
            &&& pv.total_converted_value.is_some() <==> (all_valid(pv.investments) && fits)
            &&& pv.total_converted_value matches Some(t) ==> t.raw == converted_sum(hs)
            &&& pv.investments.len() == hs.len()
            &&& forall|i: int|
                0 <= i < hs.len() ==> (#[trigger] pv.investments[i]).error == hs[i].error
        }),
{
    let pv = finished(name, hs, target);
    if all_valid(hs) {
        assert forall|i: int| 0 <= i < pv.investments.len() implies (
        #[trigger] pv.investments[i]).error.is_none() by {
            assert(hs[i].error.is_none());
        }
    }
    if all_valid(pv.investments) {
        assert forall|i: int| 0 <= i < hs.len() implies (#[trigger] hs[i]).error.is_none() by {
            assert(pv.investments[i].error.is_none());
        }
    }
}

/// Holdings do not touch each other: what a holding comes to before
/// weights are set, and with it its value, its converted value and its
/// error, depends on nothing but its own investment, its own price lookup
/// and the rate answered for it. A holding next to a failed one converts as
/// it would next to a sound one.
pub proof fn lemma_holdings_are_independent(
    one: Portfolio,
    other: Portfolio,
    prices_one: Map<Seq<char>, Result<PriceResult, String>>,
    prices_other: Map<Seq<char>, Result<PriceResult, String>>,
    target: Seq<char>,
    rates_one: Seq<Result<Fixed, Seq<char>>>,
    rates_other: Seq<Result<Fixed, Seq<char>>>,
    i: int,
    j: int,
)
    requires
        0 <= i < one.investments.len(),
        0 <= j < other.investments.len(),
        one.investments[i] == other.investments[j],
        lookup(prices_one, one.investments[i].spec_identifier()) == lookup(
            prices_other,
            other.investments[j].spec_identifier(),
        ),
        rates_one[i] == rates_other[j],
    ensures
        ({
            let a = portfolio_value_spec(one, prices_one, target, rates_one).investments[i];
            let b = portfolio_value_spec(other, prices_other, target, rates_other).investments[j];
            let own = converted(
                priced(
                    one.investments[i],
                    lookup(prices_one, one.investments[i].spec_identifier()),
                    target,
                ),
                target,
                rates_one[i],
            );
            &&& a.value == own.value && b.value == own.value
            &&& a.converted_value == own.converted_value
            &&& b.converted_value == own.converted_value
            &&& a.error == own.error && b.error == own.error
            &&& a.price == own.price && a.value_currency == own.value_currency
        }),
{
}

/// Taking the weights of holdings against a total `t`, each rounded toward
/// zero, and adding them up misses the exact figure by less than one unit
/// per holding: the sum of the weights times `t` lies within the number of
/// holdings times `|t|` of one hundred times the sum of the converted
/// values.
proof fn lemma_weight_sum_bound(hs: Seq<InvestmentValueView>, total: Fixed)
    requires
        total.raw != 0,
        forall|i: int|
            0 <= i < hs.len() ==> weight_of(
                (#[trigger] hs[i]).converted_value,
                Some(total),
            ).is_some(),
    ensures
        ({
            let ws = hs.map_values(|h: InvestmentValueView| weighted(h, Some(total)));
            let exact = converted_sum(hs) * HUNDRED_RAW;
            let slack = hs.len() * abs(total.raw as int);
            &&& exact - slack <= weight_sum(ws) * total.raw <= exact + slack
            &&& hs.len() > 0 ==> exact - slack < weight_sum(ws) * total.raw < exact + slack
        }),
    decreases hs.len(),
{
    let ws = hs.map_values(|h: InvestmentValueView| weighted(h, Some(total)));
    let t = total.raw as int;
    if hs.len() > 0 {
        let rest = hs.drop_last();
        let ws_rest = rest.map_values(|h: InvestmentValueView| weighted(h, Some(total)));
        assert forall|i: int| 0 <= i < rest.len() implies weight_of(
            (#[trigger] rest[i]).converted_value,
            Some(total),
        ).is_some() by {
            assert(rest[i] == hs[i]);
        }
        lemma_weight_sum_bound(rest, total);
        assert(ws.drop_last() =~= ws_rest);
        let last = hs[hs.len() - 1];
        assert(weight_of(last.converted_value, Some(total)).is_some());
        let c = last.converted_value.unwrap().raw as int;
        let share = c * HUNDRED_RAW;
        let q = trunc_div(share, t);
        assert(ws.last() == weighted(last, Some(total)));
        assert(ws.last().weight == Some(Fixed { raw: q as i64 }));
        assert(weight_sum(ws) == weight_sum(ws_rest) + q);
        assert(converted_sum(hs) == converted_sum(rest) + c);
        crate::fixed::lemma_trunc_div_bounds(share, t);
        let step = abs(t);
        let n = rest.len() as int;
        let sum_rest = weight_sum(ws_rest);
        let conv_rest = converted_sum(rest);
        assert(share - step < q * t < share + step);
        assert((sum_rest + q) * t == sum_rest * t + q * t) by (nonlinear_arith);
        assert((conv_rest + c) * HUNDRED_RAW == conv_rest * HUNDRED_RAW + share)
            by (nonlinear_arith)
            requires
                share == c * HUNDRED_RAW,
        ;
        assert((n + 1) * step == n * step + step) by (nonlinear_arith);
    } else {
        assert(hs.len() * abs(t) == 0) by (nonlinear_arith)
            requires
                hs.len() == 0,
        ;
    }
}

/// Weight normalization: in a portfolio whose total is present and not
/// zero and where every holding has a weight, the weights add up to one
/// hundred percent, give or take what rounding each weight toward zero can
/// shift: less than one millionth of a percent per holding.
pub proof fn lemma_weights_sum_to_hundred(
    name: Seq<char>,
    hs: Seq<InvestmentValueView>,
    target: Seq<char>,
)
    requires
        total_of(hs) matches Some(t) && t.raw != 0,
        forall|i: int|
            0 <= i < hs.len() ==> (#[trigger] finished(
                name,
                hs,
                target,
            ).investments[i]).weight.is_some(),
    ensures
        hs.len() > 0,
        HUNDRED_RAW - hs.len() < weight_sum(finished(name, hs, target).investments) < HUNDRED_RAW
            + hs.len(),
{
    let total = total_of(hs).unwrap();
    let t = total.raw as int;
    let out = finished(name, hs, target).investments;
    assert forall|i: int| 0 <= i < hs.len() implies (#[trigger] hs[i]).converted_value.is_some()
        && weight_of(hs[i].converted_value, Some(total)).is_some() by {
        assert(out[i].weight.is_some());
        assert(out[i] == weighted(hs[i], Some(total)));
    }
    if hs.len() == 0 {
        assert(converted_sum(hs) == 0);
        assert(false);
    }
    lemma_weight_sum_bound(hs, total);
    assert(out =~= hs.map_values(|h: InvestmentValueView| weighted(h, Some(total))));
    let sum = weight_sum(out);
    let n = hs.len() as int;
    assert(converted_sum(hs) == t);
    assert(n * abs(t) == if t > 0 {
        n * t
    } else {
        n * (-t)
    });
    if t > 0 {
        assert(HUNDRED_RAW - n < sum < HUNDRED_RAW + n) by (nonlinear_arith)
            requires
                t > 0,
                t * HUNDRED_RAW - n * t < sum * t < t * HUNDRED_RAW + n * t,
        ;
    } else {
        assert(HUNDRED_RAW - n < sum < HUNDRED_RAW + n) by (nonlinear_arith)
            requires
                t < 0,
                t * HUNDRED_RAW - n * (-t) < sum * t < t * HUNDRED_RAW + n * (-t),
        ;
    }
}

/// Values one holding from the fetched prices, before any conversion.
pub fn price_holding(
    investment: &Investment,
    price_results: &PriceResults,
    target_currency: &str,
) -> (h: InvestmentValue)
    requires
        price_results.wf(),
    ensures
        h@ == priced(
            *investment,
            lookup(price_results@, investment.spec_identifier()),
            target_currency@,
        ),
{
    let mut holding = InvestmentValue {
        identifier: investment.identifier().clone(),
        short_name: None,
        units: investment.units(),
        price: None,
        value: None,
        value_currency: None,
        converted_value: None,
        weight: None,
        error: None,
    };
    match investment {
        Investment::FixedDeposit(fd) => {
            holding.value = Some(fd.value);
            holding.value_currency = Some(
                match &fd.currency {
                    Some(c) => c.clone(),
                    None => String::from_str(target_currency),
                },
            );
        },
        _ => {
            let units = investment.units().unwrap();
            match price_results.get(investment.identifier()) {
                Some(Ok(data)) => {
                    let value = units.checked_mul(data.price);
                    holding.price = Some(data.price);
                    holding.value_currency = Some(data.currency.clone());
                    holding.short_name = clone_opt_string(&data.short_name);
                    if value.is_none() {
                        holding.error = Some(
                            concat2("Value out of range for ", holding.identifier.as_str()),
                        );
                    }
                    holding.value = value;
                },
                Some(Err(e)) => {
                    holding.error = Some(e.clone());
                },
                None => {
                    holding.error = Some(
                        concat2("Price data not available for ", holding.identifier.as_str()),
                    );
                },
            }
        },
    }
    holding
}

/// Builds the error of a failed conversion.
fn conversion_failed(from: &str, to: &str, cause: &str) -> (msg: String)
    ensures
        msg@ == conversion_failed_message(from@, to@, cause@),
{
    let mut out = String::from_str("Currency conversion failed from ");
    out.append(from);
    out.append(" to ");
    out.append(to);
    out.append(": ");
    out.append(cause);
    out
}

/// Settles the conversion of `value` once the rate provider has answered.
/// The answer is not looked at when the two currencies are equal.
pub fn settle_conversion(
    value: Fixed,
    current_currency: &str,
    target_currency: &str,
    rate: Result<Fixed, String>,
) -> (r: Result<Fixed, String>)
    ensures
        outcome_view(r) == conversion_result(
            value,
            current_currency@,
            target_currency@,
            rate_view(rate),
        ),
{
    if str_eq(current_currency, target_currency) {
        return Ok(value);
    }
    match rate {
        Ok(rate) => match value.checked_mul(rate) {
            Some(converted_value) => Ok(converted_value),
            None => Err(
                conversion_failed(
                    current_currency,
                    target_currency,
                    "converted value out of range",
                ),
            ),
        },
        Err(e) => Err(conversion_failed(current_currency, target_currency, e.as_str())),
    }
}

/// Converts `current_value` into the target currency. Equal currencies need
/// no rate and the provider is not asked; otherwise the outcome is settled
/// from whatever the provider answers.
pub fn convert_currency<P: CurrencyRateProvider>(
    currency_provider: &P,
    current_value: Fixed,
    current_currency: &str,
    target_currency: &str,
) -> (r: Result<Fixed, String>)
    ensures
        current_currency@ == target_currency@ ==> r == Ok::<Fixed, String>(current_value),
        exists|rate: Result<Fixed, Seq<char>>|
            outcome_view(r) == conversion_result(
                current_value,
                current_currency@,
                target_currency@,
                rate,
            ),
{
    if str_eq(current_currency, target_currency) {
        let ghost unused: Result<Fixed, Seq<char>> = Ok(current_value);
        assert(outcome_view(Ok(current_value)) == conversion_result(
            current_value,
            current_currency@,
            target_currency@,
            unused,
        ));
        return Ok(current_value);
    }
    let rate = currency_provider.get_rate(current_currency, target_currency);
    let ghost answered = rate_view(rate);
    let r = settle_conversion(current_value, current_currency, target_currency, rate);
    assert(outcome_view(r) == conversion_result(
        current_value,
        current_currency@,
        target_currency@,
        answered,
    ));
    r
}

/// Records the outcome of a conversion on a holding that carries no error.
pub fn record_conversion(holding: &mut InvestmentValue, outcome: Result<Fixed, String>)
    ensures
        final(holding)@ == match outcome_view(outcome) {
            Ok(c) => InvestmentValueView { converted_value: Some(c), ..old(holding)@ },
            Err(e) => InvestmentValueView { error: Some(e), ..old(holding)@ },
        },
{
    match outcome {
        Ok(converted_value) => {
            holding.converted_value = Some(converted_value);
        },
        Err(e) => {
            holding.error = Some(e);
        },
    }
}

/// Sets the weight of the holding at index `i`.
fn set_weight(investments: &mut Vec<InvestmentValue>, i: usize, weight: Option<Fixed>)
    requires
        i < old(investments).len(),
    ensures
        final(investments).len() == old(investments).len(),
        forall|j: int|
            0 <= j < old(investments).len() && j != i ==> {
                final(investments)[j] == old(investments)[j]
            },
        final(investments)[i as int]@ == (InvestmentValueView {
            weight,
            ..old(investments)[i as int]@
        }),
{
    investments[i].weight = weight;
}

/// The partial sums of converted values stay within what a wide
/// accumulator holds.
proof fn lemma_converted_sum_bound(hs: Seq<InvestmentValueView>)
    ensures
        -(hs.len() * 0x8000_0000_0000_0000) <= converted_sum(hs) <= hs.len()
            * 0x8000_0000_0000_0000,
    decreases hs.len(),
{
    if hs.len() > 0 {
        lemma_converted_sum_bound(hs.drop_last());
    }
}

/// Completes a portfolio value from its converted holdings: sets the total
/// if every holding converted, and then the weight of each holding.
pub fn finish_portfolio(
    name: String,
    investments: Vec<InvestmentValue>,
    target_currency: String,
) -> (pv: PortfolioValue)
    ensures
        pv@ == finished(name@, views(investments@), target_currency@),
{
    let mut investments = investments;
    let ghost hs = views(investments@);
    let n = investments.len();
    let mut sum: i128 = 0;
    let mut valid = true;
    let mut i: usize = 0;
    while i < n
        invariant
            n == investments.len(),
            hs == views(investments@),
            i <= n,
            sum == converted_sum(hs.subrange(0, i as int)),
            valid == all_valid(hs.subrange(0, i as int)),
        decreases n - i,
    {
        proof {
            let next = hs.subrange(0, i + 1);
            assert(next.drop_last() =~= hs.subrange(0, i as int));
            assert(next.last() == hs[i as int]);
            lemma_converted_sum_bound(hs.subrange(0, i as int));
            if valid && hs[i as int].error.is_none() {
                assert forall|j: int| 0 <= j < next.len() implies (
                #[trigger] next[j]).error.is_none() by {
                    if j < i {
                        assert(hs.subrange(0, i as int)[j] == next[j]);
                    }
                }
            } else if valid {
                assert(next[i as int].error.is_some());
            } else {
                let k = choose|k: int|
                    0 <= k < i && !(#[trigger] hs.subrange(0, i as int)[k]).error.is_none();
                assert(next[k] == hs.subrange(0, i as int)[k]);
            }
        }
        if investments[i].error.is_some() {
            valid = false;
        }
        match investments[i].converted_value {
            Some(c) => {
                sum = sum + c.raw as i128;
            },
            None => {},
        }
        i += 1;
    }
    assert(hs.subrange(0, n as int) =~= hs);
    let total = if valid {
        narrow_i128(sum)
    } else {
        None
    };
    let mut k: usize = 0;
    while k < n
        invariant
            n == investments.len(),
            hs.len() == n,
            k <= n,
            total == total_of(hs),
            forall|j: int| 0 <= j < k ==> (#[trigger] investments[j])@ == weighted(hs[j], total),
            forall|j: int| k <= j < n ==> (#[trigger] investments[j])@ == hs[j],
        decreases n - k,
    {
        let weight = match (investments[k].converted_value, total) {
            (Some(c), Some(t)) => {
                if t.raw != 0 {
                    c.percent_of(t)
                } else {
                    None
                }
            },
            _ => None,
        };
        set_weight(&mut investments, k, weight);
        k += 1;
    }
    let pv = PortfolioValue {
        name,
        investments,
        total_converted_value: total,
        target_currency,
    };
    assert(pv@.investments =~= hs.map_values(|h: InvestmentValueView| weighted(h, total_of(hs))));
    pv
}

/// Calculates the value and weight of each holding of a portfolio, with
/// all values in `target_currency`.
///
/// The result is the portfolio's value for the rates that the provider
/// answered. Whatever it answered, the result hangs together: a holding
/// whose price is missing carries an error, the total is present only if no
/// holding carries one, and the weights are taken of the total.
///
/// Prices come from `price_results`; the rate provider is asked once for
/// each holding whose currency differs from the target. `update_callback`
/// is called once per holding and has no part in the result.
pub fn calculate_portfolio_value<P: CurrencyRateProvider, F: Fn()>(
    portfolio: &Portfolio,
    price_results: &PriceResults,
    currency_provider: &P,
    target_currency: &str,
    update_callback: &F,
) -> (pv: PortfolioValue)
    requires
        price_results.wf(),
        update_callback.requires(()),
    ensures
        exists|rates: Seq<Result<Fixed, Seq<char>>>|
            rates.len() == portfolio.investments.len() && pv@ == portfolio_value_spec(
                *portfolio,
                price_results@,
                target_currency@,
                rates,
            ),
        is_settled(pv@),
        lists_holdings_of(pv@, *portfolio, price_results@),
        pv.target_currency@ == target_currency@,
{
    let mut holdings: Vec<InvestmentValue> = Vec::new();
    let ghost mut rates: Seq<Result<Fixed, Seq<char>>> = Seq::empty();
    let n = portfolio.investments.len();
    let mut i: usize = 0;
    while i < n
        invariant
            price_results.wf(),
            update_callback.requires(()),
            n == portfolio.investments.len(),
            i <= n,
            holdings.len() == i,
            rates.len() == i,
            forall|j: int|
                0 <= j < i ==> (#[trigger] holdings[j])@ == converted(
                    priced(
                        portfolio.investments[j],
                        lookup(price_results@, portfolio.investments[j].spec_identifier()),
                        target_currency@,
                    ),
                    target_currency@,
                    rates[j],
                ),
        decreases n - i,
    {
        let mut holding = price_holding(&portfolio.investments[i], price_results, target_currency);
        let ghost mut rate: Result<Fixed, Seq<char>> = Ok(Fixed { raw: 0 });
        if holding.error.is_none() {
            let outcome = match (&holding.value, &holding.value_currency) {
                (Some(value), Some(currency)) => {
                    let outcome = convert_currency(
                        currency_provider,
                        *value,
                        currency.as_str(),
                        target_currency,
                    );
                    proof {
                        rate = choose|rate: Result<Fixed, Seq<char>>|
                            outcome_view(outcome) == conversion_result(
                                *value,
                                currency@,
                                target_currency@,
                                rate,
                            );
                    }
                    Some(outcome)
                },
                _ => None,
            };
            match outcome {
                Some(outcome) => {
                    record_conversion(&mut holding, outcome);
                },
                None => {},
            }
        }
        let ghost before = holdings@;
        holdings.push(holding);
        proof {
            rates = rates.push(rate);
            assert forall|j: int| 0 <= j < i implies holdings[j] == before[j] by {}
        }
        update_callback();
        i += 1;
    }
    let pv = finish_portfolio(
        portfolio.name.clone(),
        holdings,
        String::from_str(target_currency),
    );
    proof {
        assert(views(holdings@) =~= valued_holdings(
            portfolio.investments@,
            price_results@,
            target_currency@,
            rates,
        ));
        lemma_portfolio_value_is_settled(*portfolio, price_results@, target_currency@, rates);
    }
    pv
}

} // verus!
