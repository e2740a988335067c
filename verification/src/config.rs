//! Portfolio definitions and provider settings.
use crate::fixed::Fixed;
use vstd::prelude::*;
use vstd::string::StringExecFns;

verus! {

/// Default base address of the stock price service.
pub open spec fn default_yahoo_url() -> Seq<char> {
    "https://query1.finance.yahoo.com"@
}

/// Default base address of the fund price service.
pub open spec fn default_amfi_url() -> Seq<char> {
    "https://mf.captnemo.in"@
}

/// A holding of an exchange-traded instrument, by ticker symbol.
#[derive(Debug)]
pub struct StockInvestment {
    pub symbol: String,
    pub units: Fixed,
    pub category: Option<String>,
}

/// A holding of a mutual fund, by ISIN.
#[derive(Debug)]
pub struct MutualFundInvestment {
    pub isin: String,
    pub units: Fixed,
    pub category: Option<String>,
}

/// A holding of stated value, such as a bank deposit.
#[derive(Debug)]
pub struct FixedDepositInvestment {
    pub name: String,
    pub value: Fixed,
    pub currency: Option<String>,
    pub category: Option<String>,
}

/// One entry of a portfolio.
#[derive(Debug)]
pub enum Investment {
    Stock(StockInvestment),
    MutualFund(MutualFundInvestment),
    FixedDeposit(FixedDepositInvestment),
}

impl Investment {
    /// The name under which the holding is listed and its price looked up:
    /// the ticker symbol, the ISIN, or the deposit's name.
    pub open spec fn spec_identifier(&self) -> Seq<char> {
        match self {
            Investment::Stock(s) => s.symbol@,
            Investment::MutualFund(mf) => mf.isin@,
            Investment::FixedDeposit(fd) => fd.name@,
        }
    }

    /// The unit count; a holding of stated value has none.
    pub open spec fn spec_units(&self) -> Option<Fixed> {
        match self {
            Investment::Stock(s) => Some(s.units),
            Investment::MutualFund(mf) => Some(mf.units),
            Investment::FixedDeposit(_) => None,
        }
    }

    /// Whether the holding is valued from a fetched price.
    pub open spec fn spec_needs_fetch(&self) -> bool {
        !(self is FixedDeposit)
    }

    /// The name under which the holding is listed and its price looked up.
    pub fn identifier(&self) -> (id: &String)
        ensures
            id@ == self.spec_identifier(),
    {
        match self {
            Investment::Stock(s) => &s.symbol,
            Investment::MutualFund(mf) => &mf.isin,
            Investment::FixedDeposit(fd) => &fd.name,
        }
    }

    /// The unit count; a holding of stated value has none.
    pub fn units(&self) -> (u: Option<Fixed>)
        ensures
            u == self.spec_units(),
    {
        match self {
            Investment::Stock(s) => Some(s.units),
            Investment::MutualFund(mf) => Some(mf.units),
            Investment::FixedDeposit(_) => None,
        }
    }

    /// Whether the holding is valued from a fetched price.
    pub fn needs_fetch(&self) -> (b: bool)
        ensures
            b == self.spec_needs_fetch(),
    {
        match self {
            Investment::FixedDeposit(_) => false,
            _ => true,
        }
    }
}

/// A named group of holdings.
#[derive(Debug)]
pub struct Portfolio {
    pub name: String,
    pub investments: Vec<Investment>,
}

/// Settings of the stock price service.
#[derive(Debug)]
pub struct YahooProviderConfig {
    pub base_url: String,
}

/// Settings of the fund price service.
#[derive(Debug)]
pub struct AmfiProviderConfig {
    pub base_url: String,
}

/// Settings of the data providers.
#[derive(Debug)]
pub struct ProvidersConfig {
    pub yahoo: Option<YahooProviderConfig>,
    pub amfi: Option<AmfiProviderConfig>,
}

impl Default for ProvidersConfig {
    /// Both providers at their default addresses.
    fn default() -> (r: Self)
        ensures
            r.spec_yahoo_url() == default_yahoo_url(),
            r.spec_amfi_url() == default_amfi_url(),
            r.yahoo.is_some(),
            r.amfi.is_some(),
    {
        ProvidersConfig {
            yahoo: Some(
                YahooProviderConfig {
                    base_url: String::from_str("https://query1.finance.yahoo.com"),
                },
            ),
            amfi: Some(AmfiProviderConfig { base_url: String::from_str("https://mf.captnemo.in") }),
        }
    }
}

impl ProvidersConfig {
    /// The address of the stock price service: the configured one, or the
    /// default.
    pub open spec fn spec_yahoo_url(&self) -> Seq<char> {
        match self.yahoo {
            Some(c) => c.base_url@,
            None => default_yahoo_url(),
        }
    }

    /// The address of the fund price service: the configured one, or the
    /// default.
    pub open spec fn spec_amfi_url(&self) -> Seq<char> {
        match self.amfi {
            Some(c) => c.base_url@,
            None => default_amfi_url(),
        }
    }

    /// The address of the stock price service.
    pub fn yahoo_url(&self) -> (url: String)
        ensures
            url@ == self.spec_yahoo_url(),
    {
        match &self.yahoo {
            Some(c) => c.base_url.clone(),
            None => String::from_str("https://query1.finance.yahoo.com"),
        }
    }

    /// The address of the fund price service.
    pub fn amfi_url(&self) -> (url: String)
        ensures
            url@ == self.spec_amfi_url(),
    {
        match &self.amfi {
            Some(c) => c.base_url.clone(),
            None => String::from_str("https://mf.captnemo.in"),
        }
    }
}

/// The whole configuration: portfolios, providers, the currency that values
/// are reported in, and where cached data is kept.
#[derive(Debug)]
pub struct AppConfig {
    pub portfolios: Vec<Portfolio>,
    pub providers: ProvidersConfig,
    pub currency: String,
    pub data_path: Option<String>,
}

} // verus!
