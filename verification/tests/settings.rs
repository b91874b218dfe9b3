use investment_tracker::commands::{
    is_date_shaped, menu_investment_type, range_cutoff, range_cutoff_from, range_days, MenuAction,
};
use investment_tracker::config::{
    data_file_path, data_location, parse_bool, Config, ConfigError, DataLocation, SettingKey,
};
use investment_tracker::display::{colors_enabled, load_currency_symbol};
use investment_tracker::models::{AmountSign, Investment, InvestmentType};
use investment_tracker::portfolio::PortfolioAnalytics;
use investment_tracker::storage::Storage;
use investment_tracker::text::decimal_string;
use std::path::PathBuf;

#[test]
fn test_config_defaults() {
    let config = Config::new();

    assert_eq!(config.default_currency, Some("USD".to_string()));
    assert_eq!(config.date_format, Some("YYYY-MM-DD".to_string()));
    assert_eq!(config.show_dividends, Some(true));
    assert_eq!(config.data_directory, None);
}

fn make_investment(name: &str, inv_type: InvestmentType) -> Investment<f64> {
    Investment::new(
        String::new(),
        inv_type,
        name.to_string(),
        None,
        100.0,
        AmountSign::Positive,
        "2024-01-15".to_string(),
        None,
        None,
        None,
        None,
    )
    .unwrap()
}

#[test]
fn test_count_by_type() {
    let analytics = PortfolioAnalytics::new(Storage::<f64>::new(PathBuf::from("/dev/null")));
    let investments = vec![
        make_investment("S1", InvestmentType::Stock),
        make_investment("S2", InvestmentType::Stock),
        make_investment("E1", InvestmentType::ETF),
    ];
    let counts = analytics.calculate_count_by_type(&investments);
    let get = |name: &str| counts.iter().find(|(n, _)| n == name).map(|(_, c)| *c);

    assert_eq!(get("Stock").unwrap(), 2);
    assert_eq!(get("ETF").unwrap(), 1);
    assert!(get("Crypto").is_none());
}

fn valued(name: &str, amount: f64, current_value: Option<f64>, inv_type: InvestmentType) -> Investment<f64> {
    Investment::new(
        String::new(),
        inv_type,
        name.to_string(),
        None,
        amount,
        AmountSign::Positive,
        "2024-01-15".to_string(),
        current_value,
        None,
        None,
        None,
    )
    .unwrap()
}

#[test]
fn test_allocation_by_type_sums_current_values() {
    let analytics = PortfolioAnalytics::new(Storage::<f64>::new(PathBuf::from("/dev/null")));
    let investments = vec![
        valued("S1", 100.0, Some(150.0), InvestmentType::Stock),
        valued("S2", 200.0, Some(250.0), InvestmentType::Stock),
        valued("E1", 300.0, Some(320.0), InvestmentType::ETF),
        valued("D1", 400.0, None, InvestmentType::Deposit), // no current_value → uses amount
    ];
    let groups = analytics.calculate_allocation_by_type(&investments);
    let alloc = |name: &str| -> f64 {
        groups.iter().find(|(n, _)| n == name).map(|(_, v)| v.iter().sum()).unwrap()
    };

    assert!((alloc("Stock") - 400.0).abs() < 0.001); // 150 + 250
    assert!((alloc("ETF") - 320.0).abs() < 0.001);
    assert!((alloc("Deposit") - 400.0).abs() < 0.001); // fallback to amount
    let names: Vec<&str> = groups.iter().map(|(n, _)| n.as_str()).collect();
    assert_eq!(names, vec!["Stock", "ETF", "Deposit"]);
    assert_eq!(groups[0].1, vec![150.0, 250.0]);
}

#[test]
fn count_by_type_follows_first_occurrence() {
    let analytics = PortfolioAnalytics::new(());
    let investments = vec![
        make_investment("B", InvestmentType::Bond),
        make_investment("X", InvestmentType::Other("Gold".to_string())),
        make_investment("B2", InvestmentType::Bond),
    ];
    let counts = analytics.calculate_count_by_type(&investments);
    assert_eq!(counts, vec![("Bond".to_string(), 2), ("Gold".to_string(), 1)]);
    assert!(analytics.calculate_count_by_type::<f64>(&[]).is_empty());
}

#[test]
fn currency_symbols() {
    let mut c = Config::new();
    assert_eq!(c.currency_symbol(), "$");
    c.default_currency = Some("eur".to_string());
    assert_eq!(c.currency_symbol(), "€");
    c.default_currency = Some("CNH".to_string());
    assert_eq!(c.currency_symbol(), "¥");
    c.default_currency = Some("eth".to_string());
    assert_eq!(c.currency_symbol(), "Ξ");
    c.default_currency = Some("xyz".to_string());
    assert_eq!(c.currency_symbol(), "XYZ");
    c.default_currency = None;
    assert_eq!(c.currency_symbol(), "$");
}

#[test]
fn settings_from_configuration() {
    assert!(colors_enabled(None));
    let mut c = Config::new();
    assert!(colors_enabled(Some(&c)));
    c.color_output = None;
    assert!(colors_enabled(Some(&c)));
    c.color_output = Some(false);
    assert!(!colors_enabled(Some(&c)));

    assert_eq!(load_currency_symbol(None), "$");
    c.default_currency = Some("GBP".to_string());
    assert_eq!(load_currency_symbol(Some(&c)), "£");
}

#[test]
fn data_directory_path() {
    let mut c = Config::new();
    assert_eq!(c.get_data_directory(), None);
    c.data_directory = Some("/custom/path".to_string());
    assert_eq!(c.get_data_directory(), Some(PathBuf::from("/custom/path")));
}

#[test]
fn changing_settings() {
    let mut c = Config::new();
    assert_eq!(c.apply_setting("Currency", "EUR".to_string()), Ok(SettingKey::Currency));
    assert_eq!(c.default_currency, Some("EUR".to_string()));
    assert_eq!(c.apply_setting("data_directory", "/d".to_string()), Ok(SettingKey::DataDirectory));
    assert_eq!(c.data_directory, Some("/d".to_string()));
    assert_eq!(c.apply_setting("date-format", "DD/MM/YYYY".to_string()), Ok(SettingKey::DateFormat));
    assert_eq!(c.date_format, Some("DD/MM/YYYY".to_string()));
    assert_eq!(c.apply_setting("show-dividends", "false".to_string()), Ok(SettingKey::ShowDividends));
    assert_eq!(c.show_dividends, Some(false));
    assert_eq!(c.apply_setting("COLOR_OUTPUT", "false".to_string()), Ok(SettingKey::ColorOutput));
    assert_eq!(c.color_output, Some(false));
    assert_eq!(
        c.apply_setting("color-output", "no".to_string()),
        Err(ConfigError::InvalidBool("no".to_string()))
    );
    assert_eq!(c.color_output, Some(false));
    assert_eq!(
        c.apply_setting("Colour", "true".to_string()),
        Err(ConfigError::UnknownKey("colour".to_string()))
    );
    assert_eq!(parse_bool("true"), Some(true));
    assert_eq!(parse_bool("True"), None);
}

#[test]
fn configuration_summary_fills_defaults() {
    let c = Config {
        data_directory: None,
        default_currency: None,
        date_format: Some("DD/MM/YYYY".to_string()),
        show_dividends: Some(false),
        color_output: None,
    };
    let s = c.summary();
    assert_eq!(s.data_directory, "Default (home directory)");
    assert_eq!(s.default_currency, "USD");
    assert_eq!(s.date_format, "DD/MM/YYYY");
    assert!(!s.show_dividends);
    assert!(s.color_output);
}

#[test]
fn menu_entries() {
    let all = MenuAction::all();
    assert_eq!(all.len(), 7);
    assert_eq!(all[0], MenuAction::AddInvestment);
    assert_eq!(all[6], MenuAction::Quit);
    let labels = MenuAction::labels();
    assert_eq!(labels[0], "➕  Add a new investment");
    assert_eq!(labels[6], "🚪  Quit");
    assert_eq!(MenuAction::RecordDividend.label(), "💰  Record a dividend payment");
}

#[test]
fn menu_types() {
    assert_eq!(menu_investment_type(0), Some(InvestmentType::Stock));
    assert_eq!(menu_investment_type(2), Some(InvestmentType::MutualFund));
    assert_eq!(menu_investment_type(5), Some(InvestmentType::Crypto));
    assert_eq!(menu_investment_type(6), None);
}

#[test]
fn date_shape() {
    assert!(is_date_shaped("2024-01-15"));
    assert!(is_date_shaped("9999-99-99"));
    assert!(!is_date_shaped("2024/01/15"));
    assert!(!is_date_shaped("2024-1-15"));
    assert!(!is_date_shaped(""));
}

#[test]
fn report_ranges() {
    assert_eq!(range_days("1m"), Some(30));
    assert_eq!(range_days("3m"), Some(90));
    assert_eq!(range_days("6m"), Some(180));
    assert_eq!(range_days("1y"), Some(365));
    assert_eq!(range_days("all"), None);
}

#[test]
fn report_range_cutoffs() {
    assert_eq!(range_cutoff("all"), None);
    assert_eq!(range_cutoff("2w"), None);
    let month = range_cutoff("1m").unwrap();
    let year = range_cutoff("1y").unwrap();
    assert!(is_date_shaped(&month));
    assert!(is_date_shaped(&year));
    assert!(year < month);
}

#[test]
fn report_ranges_count_back_from_today() {
    assert_eq!(range_cutoff_from("2024-03-31", "1m"), Some("2024-03-01".to_string()));
    assert_eq!(range_cutoff_from("2024-03-31", "3m"), Some("2024-01-01".to_string()));
    assert_eq!(range_cutoff_from("2024-03-31", "6m"), Some("2023-10-03".to_string()));
    assert_eq!(range_cutoff_from("2024-03-31", "1y"), Some("2023-04-01".to_string()));
    assert_eq!(range_cutoff_from("2024-03-31", "all"), None);
    assert_eq!(range_cutoff_from("2024-3-31", "1m"), Some("2024-03-01".to_string()));
    assert_eq!(range_cutoff_from("2024-02-30", "1m"), None);
    assert_eq!(range_cutoff_from("yesterday", "1m"), None);
    assert_eq!(range_cutoff_from("0000-06-01", "1y"), Some("-0001-06-02".to_string()));
    assert_eq!(range_cutoff_from("+10000-01-31", "1m"), Some("+10000-01-01".to_string()));
    assert_eq!(range_cutoff_from("0001-01-10", "1y"), Some("0000-01-11".to_string()));
}

#[test]
fn decimal_numbers() {
    assert_eq!(decimal_string(0), "0");
    assert_eq!(decimal_string(7), "7");
    assert_eq!(decimal_string(1205), "1205");
}

#[test]
fn data_location_precedence() {
    let mut c = Config::new();
    assert_eq!(data_location(Some("/tmp/x.json".to_string()), Some(&c)), DataLocation::File("/tmp/x.json".to_string()));
    assert_eq!(data_location(None, Some(&c)), DataLocation::Default);
    c.data_directory = Some("/data".to_string());
    assert_eq!(data_location(None, Some(&c)), DataLocation::Directory("/data".to_string()));
    assert_eq!(data_location(Some("f.json".to_string()), Some(&c)), DataLocation::File("f.json".to_string()));
    assert_eq!(data_location(None, None), DataLocation::Default);
}

#[test]
fn currency_codes_in_any_case() {
    for code in ["eur", "Gbp", "usd", "xyz", "eTh"] {
        let mut a = Config::new();
        a.default_currency = Some(code.to_string());
        let mut b = Config::new();
        b.default_currency = Some(code.to_uppercase());
        assert_eq!(a.currency_symbol(), b.currency_symbol());
    }
    let mut c = Config::new();
    c.default_currency = Some("xyz".to_string());
    assert_eq!(c.currency_symbol(), "XYZ");
}

#[test]
fn data_file_path_precedence() {
    let default_file = PathBuf::from("/home/u/.investment_tracker/investments.json");
    let mut c = Config::new();
    assert_eq!(
        data_file_path(Some("/tmp/x.json".to_string()), Some(&c), default_file.clone()),
        PathBuf::from("/tmp/x.json")
    );
    assert_eq!(data_file_path(None, Some(&c), default_file.clone()), default_file);
    c.data_directory = Some("/data".to_string());
    assert_eq!(data_file_path(None, Some(&c), default_file.clone()), PathBuf::from("/data/investments.json"));
    assert_eq!(data_file_path(None, None, default_file.clone()), default_file);
}
