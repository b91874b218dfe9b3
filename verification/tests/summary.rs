use investment_tracker::models::{AmountSign, Investment, InvestmentType};
use investment_tracker::portfolio::PortfolioAnalytics;
use investment_tracker::storage::Storage;
use investment_tracker::summary::PortfolioFigures;
use std::path::PathBuf;

fn make_investment(name: &str, amount: f64, current_value: Option<f64>, inv_type: InvestmentType) -> Investment<f64> {
    Investment::new(
        String::new(),
        inv_type,
        name.to_string(),
        None,
        amount,
        AmountSign::Positive,
        "2024-01-15".to_string(),
        current_value,
        None,
        None,
        None,
    )
    .unwrap()
}

fn figures_of(investments: Vec<Investment<f64>>) -> PortfolioFigures<f64> {
    PortfolioAnalytics::new(Storage::open(PathBuf::from("investments.json"), investments)).get_summary()
}

struct Totals {
    total_investments: usize,
    total_invested: f64,
    total_current_value: f64,
    total_roi: f64,
    total_roi_percentage: f64,
    total_dividends: f64,
}

fn totals(f: &PortfolioFigures<f64>) -> Totals {
    let total_invested: f64 = f.invested.iter().sum();
    let total_current_value: f64 = f.current_values.iter().sum();
    let total_roi = total_current_value - total_invested;
    let total_roi_percentage = if total_invested > 0.0 { total_roi / total_invested * 100.0 } else { 0.0 };
    Totals {
        total_investments: f.total_investments,
        total_invested,
        total_current_value,
        total_roi,
        total_roi_percentage,
        total_dividends: f.dividends.iter().map(|d| d.iter().sum::<f64>()).sum(),
    }
}

#[test]
fn test_summary_empty_portfolio() {
    let figures = figures_of(vec![]);
    let summary = totals(&figures);
    assert_eq!(summary.total_investments, 0);
    assert_eq!(summary.total_invested, 0.0);
    assert_eq!(summary.total_current_value, 0.0);
    assert_eq!(summary.total_roi, 0.0);
    assert_eq!(summary.total_roi_percentage, 0.0);
    assert!(figures.allocation_by_type.is_empty());
    assert!(figures.count_by_type.is_empty());
    assert_eq!(summary.total_dividends, 0.0);
}

#[test]
fn test_summary_single_investment_with_gain() {
    let summary = totals(&figures_of(vec![make_investment("Apple", 1000.0, Some(1200.0), InvestmentType::Stock)]));
    assert_eq!(summary.total_investments, 1);
    assert!((summary.total_invested - 1000.0).abs() < 0.001);
    assert!((summary.total_current_value - 1200.0).abs() < 0.001);
    assert!((summary.total_roi - 200.0).abs() < 0.001);
    assert!((summary.total_roi_percentage - 20.0).abs() < 0.001);
}

#[test]
fn test_summary_single_investment_with_loss() {
    let summary = totals(&figures_of(vec![make_investment("Bond", 1000.0, Some(800.0), InvestmentType::Bond)]));
    assert!((summary.total_roi - (-200.0)).abs() < 0.001);
    assert!((summary.total_roi_percentage - (-20.0)).abs() < 0.001);
}

#[test]
fn test_summary_no_current_values_uses_zero() {
    let figures = figures_of(vec![make_investment("Deposit", 500.0, None, InvestmentType::Deposit)]);
    assert!(figures.current_values.is_empty());
    let summary = totals(&figures);
    assert_eq!(summary.total_current_value, 0.0);
    assert_eq!(summary.total_roi, -500.0);
}

#[test]
fn test_summary_totals_across_multiple_investments() {
    let summary = totals(&figures_of(vec![
        make_investment("A", 1000.0, Some(1100.0), InvestmentType::Stock),
        make_investment("B", 2000.0, Some(2200.0), InvestmentType::ETF),
        make_investment("C", 500.0, None, InvestmentType::Crypto),
    ]));
    assert_eq!(summary.total_investments, 3);
    assert!((summary.total_invested - 3500.0).abs() < 0.001);
    assert!((summary.total_current_value - 3300.0).abs() < 0.001);
    assert!((summary.total_roi - (-200.0)).abs() < 0.001);
}

#[test]
fn test_summary_includes_dividends() {
    let mut inv = make_investment("MSFT", 1000.0, Some(1100.0), InvestmentType::Stock);
    inv.add_dividend("2024-06-01".to_string(), 50.0, AmountSign::Positive, None).unwrap();
    inv.add_dividend("2024-09-01".to_string(), 50.0, AmountSign::Positive, None).unwrap();
    let figures = figures_of(vec![inv]);
    assert_eq!(figures.dividends, vec![vec![50.0, 50.0]]);
    assert!((totals(&figures).total_dividends - 100.0).abs() < 0.001);
}

#[test]
fn summary_groups_by_type() {
    let figures = figures_of(vec![
        make_investment("S1", 100.0, Some(150.0), InvestmentType::Stock),
        make_investment("D1", 400.0, None, InvestmentType::Deposit),
        make_investment("S2", 200.0, Some(250.0), InvestmentType::Stock),
    ]);
    assert_eq!(figures.invested, vec![100.0, 400.0, 200.0]);
    assert_eq!(figures.current_values, vec![150.0, 250.0]);
    assert_eq!(figures.count_by_type, vec![("Stock".to_string(), 2), ("Deposit".to_string(), 1)]);
    assert_eq!(
        figures.allocation_by_type,
        vec![("Stock".to_string(), vec![150.0, 250.0]), ("Deposit".to_string(), vec![400.0])]
    );
}
