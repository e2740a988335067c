use xmf::allocation::AssetCategory;
use xmf::config::ProvidersConfig;
use xmf::fixed::Fixed;
use xmf::price::{HistoricalPeriod, PeriodTable};
use xmf::AppCommand;

#[test]
fn period_labels_and_lengths() {
    let all = [
        (HistoricalPeriod::OneDay, "1D", 1, 1),
        (HistoricalPeriod::FiveDays, "5D", 5, 5),
        (HistoricalPeriod::OneMonth, "1M", 30, 21),
        (HistoricalPeriod::OneYear, "1Y", 365, 252),
        (HistoricalPeriod::ThreeYears, "3Y", 1095, 756),
        (HistoricalPeriod::FiveYears, "5Y", 1825, 1260),
        (HistoricalPeriod::TenYears, "10Y", 3650, 2520),
    ];
    for (i, (period, label, days, trading_days)) in all.iter().enumerate() {
        assert_eq!(period.to_string(), *label);
        assert_eq!(period.label(), *label);
        assert_eq!(period.to_duration(), *days);
        assert_eq!(period.to_trading_days(), *trading_days);
        assert_eq!(period.index(), i);
        assert_eq!(HistoricalPeriod::from_index(i), *period);
        assert_eq!(HistoricalPeriod::variants()[i], *label);
    }
    assert_eq!(
        HistoricalPeriod::variants(),
        ["1D", "5D", "1M", "1Y", "3Y", "5Y", "10Y"]
    );
}

#[test]
fn period_from_str_in_either_case() {
    assert_eq!(
        HistoricalPeriod::from_str("1d"),
        Ok(HistoricalPeriod::OneDay)
    );
    assert_eq!(
        HistoricalPeriod::from_str("10y"),
        Ok(HistoricalPeriod::TenYears)
    );
    assert_eq!(
        HistoricalPeriod::from_str("3Y"),
        Ok(HistoricalPeriod::ThreeYears)
    );
    assert_eq!(
        HistoricalPeriod::from_str("1m"),
        Ok(HistoricalPeriod::OneMonth)
    );
    assert_eq!(HistoricalPeriod::from_label("1y"), None);
    assert_eq!(
        HistoricalPeriod::from_str("2w"),
        Err("Invalid period: '2w'. Valid periods are: 1D, 5D, 1M, 1Y, 3Y, 5Y, 10Y".to_string())
    );
}

#[test]
fn period_parses_from_text() {
    assert_eq!("5d".parse::<HistoricalPeriod>(), Ok(HistoricalPeriod::FiveDays));
    assert!("week".parse::<HistoricalPeriod>().is_err());
}

#[test]
fn periods_are_ordered_by_length() {
    assert!(HistoricalPeriod::OneDay < HistoricalPeriod::FiveDays);
    assert!(HistoricalPeriod::OneYear < HistoricalPeriod::TenYears);
}

#[test]
fn period_table_holds_one_value_per_period() {
    let mut t = PeriodTable::new();
    assert!(t.is_empty());
    t.insert(HistoricalPeriod::OneYear, Fixed::from_raw(5));
    t.insert(HistoricalPeriod::OneYear, Fixed::from_raw(6));
    t.insert(HistoricalPeriod::OneDay, Fixed::from_raw(7));
    assert!(!t.is_empty());
    assert_eq!(t.get(HistoricalPeriod::OneYear), Some(Fixed::from_raw(6)));
    assert_eq!(t.get(HistoricalPeriod::OneDay), Some(Fixed::from_raw(7)));
    assert_eq!(t.get(HistoricalPeriod::TenYears), None);
}

#[test]
fn asset_category_from_name() {
    assert_eq!(AssetCategory::from("Equity"), AssetCategory::Equity);
    assert_eq!(AssetCategory::from("DEBT"), AssetCategory::Debt);
    assert_eq!(AssetCategory::from("income"), AssetCategory::Debt);
    assert_eq!(AssetCategory::from("Fixed Income"), AssetCategory::Debt);
    assert_eq!(AssetCategory::from("hybrid"), AssetCategory::Hybrid);
    assert_eq!(AssetCategory::from("Balanced"), AssetCategory::Hybrid);
    assert_eq!(AssetCategory::from("dynamic"), AssetCategory::Hybrid);
    assert_eq!(AssetCategory::from("gold"), AssetCategory::Other);
    assert_eq!(AssetCategory::from_lowercase("Equity"), AssetCategory::Other);
    assert_eq!(AssetCategory::from_name("HYBRID"), AssetCategory::Hybrid);
    let by_trait: AssetCategory = "Income".into();
    assert_eq!(by_trait, AssetCategory::Debt);
}

#[test]
fn asset_category_display_info() {
    assert_eq!(AssetCategory::Equity.display_info().0, "Equity");
    assert_eq!(AssetCategory::Debt.display_info().0, "Debt");
    assert_eq!(AssetCategory::Hybrid.display_info().0, "Hybrid");
    assert_eq!(AssetCategory::Other.display_info().0, "Other");
    assert_eq!(AssetCategory::Equity.display_info().1, "\u{1F4C8}");
    assert_eq!(AssetCategory::Other.display_info().1, "\u{2753}");
}

#[test]
fn providers_default_to_the_public_services() {
    let config = ProvidersConfig::default();
    assert_eq!(
        config.yahoo.as_ref().unwrap().base_url,
        "https://query1.finance.yahoo.com"
    );
    assert_eq!(
        config.amfi.as_ref().unwrap().base_url,
        "https://mf.captnemo.in"
    );
    assert_eq!(config.yahoo_url(), "https://query1.finance.yahoo.com");
    let none = ProvidersConfig {
        yahoo: None,
        amfi: None,
    };
    assert_eq!(none.yahoo_url(), "https://query1.finance.yahoo.com");
    assert_eq!(none.amfi_url(), "https://mf.captnemo.in");
}

#[test]
fn app_commands_are_distinct() {
    assert_ne!(AppCommand::Summary, AppCommand::Change);
    assert_eq!(AppCommand::Fees, AppCommand::Fees);
}

fn entry(category: &str, name: &str, value: i64) -> xmf::allocation::AllocationEntry {
    xmf::allocation::AllocationEntry {
        category: category.to_string(),
        name: name.to_string(),
        value: Fixed::from_raw(value),
    }
}

#[test]
fn allocation_is_grouped_and_sorted_by_value() {
    let groups = xmf::allocation::allocation_breakdown(vec![
        entry("Equity", "AAPL", 1_500),
        entry("Debt", "FD one", 5_000),
        entry("Equity", "MSFT", 2_500),
        entry("Other", "Gold", 4_000),
        entry("Debt", "FD two", 5_000),
        entry("Equity", "TINY", 1),
    ]);
    let shape: Vec<(&str, i128, Vec<&str>)> = groups
        .iter()
        .map(|g| {
            (
                g.category.as_str(),
                g.total_raw,
                g.holdings.iter().map(|h| h.name.as_str()).collect(),
            )
        })
        .collect();
    assert_eq!(
        shape,
        vec![
            ("Debt", 10_000, vec!["FD one", "FD two"]),
            ("Equity", 4_001, vec!["MSFT", "AAPL", "TINY"]),
            ("Other", 4_000, vec!["Gold"]),
        ]
    );
    assert_eq!(groups[0].total(), Some(Fixed::from_raw(10_000)));
    // without a portfolio total the shares are taken of the listed values
    assert_eq!(
        xmf::allocation::allocation_total(None, &groups),
        Some(Fixed::from_raw(18_001))
    );
    assert_eq!(
        xmf::allocation::allocation_total(Some(Fixed::from_raw(7)), &groups),
        Some(Fixed::from_raw(7))
    );
    assert!(xmf::allocation::allocation_breakdown(Vec::new()).is_empty());
}

#[test]
fn categories_of_equal_total_keep_their_order() {
    let groups = xmf::allocation::allocation_breakdown(vec![
        entry("B", "b", 10),
        entry("A", "a", 10),
        entry("C", "c", 20),
        entry("A", "z", 0),
    ]);
    let order: Vec<&str> = groups.iter().map(|g| g.category.as_str()).collect();
    assert_eq!(order, vec!["C", "B", "A"]);
}

#[test]
fn allocation_shares() {
    let share = xmf::allocation::allocation_share;
    assert_eq!(
        share(Fixed::from_raw(2_500), Fixed::from_raw(10_000)),
        Some(Fixed::from_raw(25_000_000))
    );
    assert_eq!(share(Fixed::from_raw(2_500), Fixed::zero()), Some(Fixed::zero()));
    assert_eq!(
        share(Fixed::from_raw(2_500), Fixed::from_raw(-1)),
        Some(Fixed::zero())
    );
    assert_eq!(share(Fixed::from_raw(i64::MAX), Fixed::from_raw(1)), None);
}

#[test]
fn holdings_are_listed_under_their_category() {
    let stock = xmf::config::Investment::Stock(xmf::config::StockInvestment {
        symbol: "AAPL".to_string(),
        units: Fixed::from_raw(1),
        category: None,
    });
    let fund = xmf::config::Investment::MutualFund(xmf::config::MutualFundInvestment {
        isin: "INF1".to_string(),
        units: Fixed::from_raw(1),
        category: None,
    });
    let deposit = xmf::config::Investment::FixedDeposit(xmf::config::FixedDepositInvestment {
        name: "FD".to_string(),
        value: Fixed::from_raw(1),
        currency: None,
        category: None,
    });
    let failed: Result<xmf::metadata::FundMetadata, String> = Err("Unknown fund".to_string());
    let found: Result<xmf::metadata::FundMetadata, String> = Ok(xmf::metadata::FundMetadata {
        isin: "INF1".to_string(),
        fund_type: "Hybrid".to_string(),
        fund_category: "Balanced".to_string(),
        expense_ratio: Fixed::zero(),
        expense_ratio_date: 0,
        aum: Fixed::zero(),
        fund_rating: None,
        fund_rating_date: None,
        category: "Hybrid".to_string(),
    });
    let category = xmf::allocation::holding_category;
    assert_eq!(category(&stock, &failed), "Equity");
    assert_eq!(category(&deposit, &found), "Debt");
    assert_eq!(category(&fund, &found), "Hybrid");
    assert_eq!(category(&fund, &failed), "Other");
}
