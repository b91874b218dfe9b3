use investment_tracker::error::InvestmentError;
use investment_tracker::models::{validate_date, AmountSign, Investment, InvestmentType};
use investment_tracker::models::parse_investment_type;

fn sign_of(x: f64) -> AmountSign {
    if x < 0.0 {
        AmountSign::Negative
    } else if x == 0.0 {
        AmountSign::Zero
    } else if x > 0.0 {
        AmountSign::Positive
    } else {
        AmountSign::Unordered
    }
}

fn make_investment(amount: f64, current_value: Option<f64>) -> Investment<f64> {
    Investment::new(
        "test-id".to_string(),
        InvestmentType::Stock,
        "Test Company".to_string(),
        Some("TEST".to_string()),
        amount,
        sign_of(amount),
        "2024-01-15".to_string(),
        current_value,
        None,
        None,
        None,
    )
    .unwrap()
}

#[test]
fn test_add_price_entry() {
    let mut inv = make_investment(1000.0, None);
    inv.add_price_entry("2024-03-01".to_string(), 1100.0, sign_of(1100.0), None)
        .unwrap();
    assert_eq!(inv.current_value, Some(1100.0));
    assert_eq!(inv.price_history.len(), 1);

    inv.add_price_entry(
        "2024-04-01".to_string(),
        1200.0,
        sign_of(1200.0),
        Some("Q1 update".to_string()),
    )
    .unwrap();
    assert_eq!(inv.current_value, Some(1200.0));
    assert_eq!(inv.price_history.len(), 2);
    assert_eq!(inv.price_history[1].notes, Some("Q1 update".to_string()));
}

#[test]
fn test_add_price_entry_invalid_price() {
    let mut inv = make_investment(1000.0, None);
    let result = inv.add_price_entry("2024-03-01".to_string(), 0.0, sign_of(0.0), None);
    assert!(result.is_err());
    if let Err(e) = result {
        if let InvestmentError::InvalidAmount(msg) = e {
            assert_eq!(msg, "Price must be greater than 0");
        } else {
            panic!("Expected InvalidAmount error");
        }
    }
}

#[test]
fn models_test_valid_investment_creation() {
    let investment = Investment::new(
        "test-id".to_string(),
        InvestmentType::Stock,
        "Test Company".to_string(),
        Some("TEST".to_string()),
        1000.0,
        sign_of(1000.0),
        "2024-01-15".to_string(),
        Some(1200.0),
        Some("Test investment".to_string()),
        None,
        None,
    )
    .unwrap();

    assert_eq!(investment.id, "test-id");
    assert_eq!(investment.name, "Test Company");
    assert_eq!(investment.amount, 1000.0);
    assert_eq!(investment.date, "2024-01-15");
    assert_eq!(investment.current_value, Some(1200.0));
    assert_eq!(investment.notes, Some("Test investment".to_string()));
    assert!(investment.created_at.contains("202"));
    assert!(investment.updated_at.contains("202"));
}

#[test]
fn models_test_invalid_amount() {
    let result = Investment::new(
        "test-id".to_string(),
        InvestmentType::Stock,
        "Test Company".to_string(),
        None,
        0.0,
        sign_of(0.0),
        "2024-01-15".to_string(),
        None,
        None,
        None,
        None,
    );

    assert!(result.is_err());
    if let Err(e) = result {
        if let InvestmentError::InvalidAmount(msg) = e {
            assert_eq!(msg, "Amount must be greater than 0");
        } else {
            panic!("Expected InvalidAmount error");
        }
    }
}

#[test]
fn test_validate_date_valid() {
    assert!(validate_date("2024-01-15").is_ok());
    assert!(validate_date("2000-02-29").is_ok()); // 2000 is a leap year
    assert!(validate_date("1999-12-31").is_ok());
}

#[test]
fn test_validate_date_invalid_format() {
    assert!(validate_date("15-01-2024").is_err());
    assert!(validate_date("2024/01/15").is_err());
    assert!(validate_date("20240115").is_err());
    assert!(validate_date("not-a-date").is_err());
    assert!(validate_date("").is_err());
}

#[test]
fn test_validate_date_impossible_dates() {
    assert!(validate_date("2024-13-01").is_err()); // month 13
    assert!(validate_date("2024-00-01").is_err()); // month 0
    assert!(validate_date("2024-01-32").is_err()); // day 32
    assert!(validate_date("2023-02-29").is_err()); // 2023 is not a leap year
    assert!(validate_date("9999-99-99").is_err());
}

#[test]
fn models_test_invalid_date_format() {
    let result = Investment::new(
        "test-id".to_string(),
        InvestmentType::Stock,
        "Test Company".to_string(),
        None,
        1000.0,
        sign_of(1000.0),
        "invalid-date".to_string(),
        None,
        None,
        None,
        None,
    );

    assert!(result.is_err());
    if let Err(e) = result {
        if let InvestmentError::InvalidDate(_) = e {
            // the message is checked by invalid_date_message_text
        } else {
            panic!("Expected InvalidDate error");
        }
    }
}

#[test]
fn models_test_update_amount() {
    let mut investment = Investment::new(
        "test-id".to_string(),
        InvestmentType::Stock,
        "Test Company".to_string(),
        None,
        1000.0,
        sign_of(1000.0),
        "2024-01-15".to_string(),
        None,
        None,
        None,
        None,
    )
    .unwrap();

    let stamp_before = investment.updated_at.clone();

    investment.update_amount(1500.0, sign_of(1500.0)).unwrap();

    assert_eq!(investment.amount, 1500.0);
    assert!(investment.updated_at >= stamp_before);
}

#[test]
fn models_test_update_invalid_amount() {
    let mut investment = Investment::new(
        "test-id".to_string(),
        InvestmentType::Stock,
        "Test Company".to_string(),
        None,
        1000.0,
        sign_of(1000.0),
        "2024-01-15".to_string(),
        None,
        None,
        None,
        None,
    )
    .unwrap();

    let result = investment.update_amount(0.0, sign_of(0.0));
    assert!(result.is_err());
}

#[test]
fn models_test_investment_type_display() {
    assert_eq!(InvestmentType::Stock.display_name(), "Stock");
    assert_eq!(InvestmentType::ETF.display_name(), "ETF");
    assert_eq!(InvestmentType::MutualFund.display_name(), "Mutual Fund");
    assert_eq!(
        InvestmentType::Other("Custom".to_string()).display_name(),
        "Custom"
    );
}

#[test]
fn test_add_dividend() {
    let mut inv = make_investment(1000.0, Some(1200.0));
    inv.add_dividend("2024-03-01".to_string(), 25.0, sign_of(25.0), None)
        .unwrap();
    inv.add_dividend("2024-06-01".to_string(), 25.0, sign_of(25.0), Some("Q2".to_string()))
        .unwrap();
    assert_eq!(inv.dividends.len(), 2);
    let total: f64 = inv.dividends.iter().map(|d| d.amount).sum();
    assert!((total - 50.0).abs() < 0.001);
    // Check sorted order
    assert_eq!(inv.dividends[0].date, "2024-03-01");
    assert_eq!(inv.dividends[1].date, "2024-06-01");
}

#[test]
fn test_add_dividend_invalid_amount() {
    let mut inv = make_investment(1000.0, Some(1200.0));
    let result = inv.add_dividend("2024-03-01".to_string(), 0.0, sign_of(0.0), None);
    assert!(result.is_err());
    if let Err(e) = result {
        if let InvestmentError::InvalidAmount(_) = e {
            // expected
        } else {
            panic!("Expected InvalidAmount error");
        }
    }
}

#[test]
fn test_investment_type_from_str() {
    assert_eq!(
        "stock".parse::<InvestmentType>().unwrap(),
        InvestmentType::Stock
    );
    assert_eq!(
        "etf".parse::<InvestmentType>().unwrap(),
        InvestmentType::ETF
    );
    assert_eq!(
        "mutual_fund".parse::<InvestmentType>().unwrap(),
        InvestmentType::MutualFund
    );
    assert_eq!(
        "custom".parse::<InvestmentType>().unwrap(),
        InvestmentType::Other("custom".to_string())
    );
}

// ── Further cases ────────────────────────────────────────────────────────────

#[test]
fn type_names_ignore_case() {
    assert_eq!(InvestmentType::parse_name("STOCK"), InvestmentType::Stock);
    assert_eq!(InvestmentType::parse_name("Mutual Fund"), InvestmentType::MutualFund);
    assert_eq!(InvestmentType::parse_name("CryPto"), InvestmentType::Crypto);
    assert_eq!(InvestmentType::parse_name("Bond"), InvestmentType::Bond);
    assert_eq!(InvestmentType::parse_name("deposit"), InvestmentType::Deposit);
    assert_eq!(
        InvestmentType::parse_name("Real Estate"),
        InvestmentType::Other("real estate".to_string())
    );
}

#[test]
fn display_then_parse_gives_the_type_back() {
    for t in [
        InvestmentType::Stock,
        InvestmentType::ETF,
        InvestmentType::MutualFund,
        InvestmentType::Deposit,
        InvestmentType::Bond,
        InvestmentType::Crypto,
    ] {
        assert_eq!(InvestmentType::parse_name(&t.display_name()), t);
    }
}

#[test]
fn command_line_type_names() {
    assert_eq!(parse_investment_type("ETF").unwrap(), InvestmentType::ETF);
    assert_eq!(parse_investment_type("mutualfund").unwrap(), InvestmentType::MutualFund);
    assert_eq!(
        parse_investment_type("mutual fund").unwrap(),
        InvestmentType::Other("mutual fund".to_string())
    );
}

#[test]
fn invalid_date_message_text() {
    match validate_date("2024-02-30") {
        Err(InvestmentError::InvalidDate(msg)) => assert_eq!(
            msg,
            "'2024-02-30' is not a valid date — expected YYYY-MM-DD (e.g. 2024-01-15)"
        ),
        other => panic!("unexpected {:?}", other),
    }
    assert!(validate_date("2024-02-29").is_ok());
}

#[test]
fn price_history_is_kept_in_date_order() {
    let mut inv = make_investment(1000.0, None);
    inv.add_price_entry("2024-03-01".to_string(), 1100.0, sign_of(1100.0), None).unwrap();
    inv.add_price_entry("2024-02-01".to_string(), 900.0, sign_of(900.0), None).unwrap();
    inv.add_price_entry("2024-03-01".to_string(), 1150.0, sign_of(1150.0), Some("later".to_string())).unwrap();
    let dates: Vec<&str> = inv.price_history.iter().map(|e| e.date.as_str()).collect();
    assert_eq!(dates, vec!["2024-02-01", "2024-03-01", "2024-03-01"]);
    // entries with the same date keep the order they were added in
    assert_eq!(inv.price_history[1].price, 1100.0);
    assert_eq!(inv.price_history[2].price, 1150.0);
    // the current value is the latest price
    assert_eq!(inv.current_value, Some(1150.0));
    // the stored history is already sorted
    let sorted: Vec<f64> = inv.sorted_price_history().iter().map(|e| e.price).collect();
    assert_eq!(sorted, vec![900.0, 1100.0, 1150.0]);
}

#[test]
fn price_endpoints_of_history() {
    let mut inv = make_investment(1000.0, None);
    assert_eq!(inv.price_endpoints(&None), None);
    inv.add_price_entry("2024-03-01".to_string(), 1200.0, sign_of(1200.0), None).unwrap();
    assert_eq!(inv.price_endpoints(&None), None);
    inv.add_price_entry("2024-02-01".to_string(), 800.0, sign_of(800.0), None).unwrap();
    assert_eq!(inv.price_endpoints(&None), Some((800.0, 1200.0)));
    inv.add_price_entry("2024-06-01".to_string(), 1500.0, sign_of(1500.0), None).unwrap();
    assert_eq!(inv.price_endpoints(&Some("2024-02-15".to_string())), Some((1200.0, 1500.0)));
    assert_eq!(inv.price_endpoints(&Some("2024-03-01".to_string())), Some((1200.0, 1500.0)));
    assert_eq!(inv.price_endpoints(&Some("2024-05-01".to_string())), None);
}

#[test]
fn rejected_changes_leave_investment_unchanged() {
    let mut inv = make_investment(1000.0, Some(1100.0));
    let before = inv.updated_at.clone();
    assert!(matches!(
        inv.add_price_entry("2024-13-01".to_string(), 5.0, sign_of(5.0), None),
        Err(InvestmentError::InvalidDate(_))
    ));
    assert!(matches!(
        inv.add_dividend("2024-01-01".to_string(), -1.0, sign_of(-1.0), None),
        Err(InvestmentError::InvalidAmount(ref m)) if m == "Dividend amount must be greater than 0"
    ));
    assert!(matches!(
        inv.update_current_value(-5.0, sign_of(-5.0)),
        Err(InvestmentError::InvalidAmount(ref m)) if m == "Value cannot be negative"
    ));
    assert!(inv.price_history.is_empty());
    assert!(inv.dividends.is_empty());
    assert_eq!(inv.current_value, Some(1100.0));
    assert_eq!(inv.updated_at, before);
}

#[test]
fn current_value_may_be_zero() {
    let mut inv = make_investment(1000.0, None);
    inv.update_current_value(0.0, sign_of(0.0)).unwrap();
    assert_eq!(inv.current_value, Some(0.0));
}

#[test]
fn a_nan_amount_is_refused() {
    // an amount must be greater than 0, which NaN is not
    let inv = Investment::new(
        String::new(),
        InvestmentType::Bond,
        "N".to_string(),
        None,
        f64::NAN,
        sign_of(f64::NAN),
        "2024-01-15".to_string(),
        None,
        None,
        None,
        None,
    );
    assert!(matches!(inv, Err(InvestmentError::InvalidAmount(m)) if m == "Amount must be greater than 0"));
}

#[test]
fn negative_amount_is_refused() {
    let res = Investment::new(
        String::new(),
        InvestmentType::Bond,
        "N".to_string(),
        None,
        -3.0,
        sign_of(-3.0),
        "bad".to_string(),
        None,
        None,
        None,
        None,
    );
    // the amount is checked before the date
    assert!(matches!(res, Err(InvestmentError::InvalidAmount(_))));
}

#[test]
fn error_messages() {
    assert_eq!(
        InvestmentError::InvalidAmount("x".to_string()).message(),
        "Invalid amount: x"
    );
    assert_eq!(
        InvestmentError::InvalidDate("y".to_string()).message(),
        "Invalid date format: y"
    );
    assert_eq!(
        InvestmentError::NotFound("z".to_string()).message(),
        "Investment not found: z"
    );
    assert_eq!(
        InvestmentError::InsufficientUnits("w".to_string()).message(),
        "Insufficient units: w"
    );
}

#[test]
fn dates_must_be_written_as_yyyy_mm_dd() {
    assert!(validate_date("2024-1-5").is_err());
    assert!(validate_date("2024- 1- 5").is_err());
    assert!(validate_date(" 2024-01-05").is_err());
    assert!(validate_date("+2024-01-05").is_err());
    assert!(validate_date("2024-01-05").is_ok());
    match validate_date("2024-1-5") {
        Err(InvestmentError::InvalidDate(m)) => assert!(m.contains("'2024-1-5' is not a valid date")),
        _ => panic!("expected InvalidDate"),
    }
}

#[test]
fn display_then_parse_round_trip() {
    let types = vec![
        InvestmentType::Stock,
        InvestmentType::ETF,
        InvestmentType::MutualFund,
        InvestmentType::Deposit,
        InvestmentType::Bond,
        InvestmentType::Crypto,
        InvestmentType::Other("gold".to_string()),
    ];
    for t in types {
        let text = t.display_name();
        assert_eq!(text.parse::<InvestmentType>().unwrap(), t);
    }
}

#[test]
fn timestamps_have_the_documented_shape() {
    let inv = Investment::new(
        String::new(),
        InvestmentType::Stock,
        "T".to_string(),
        None,
        1.0,
        AmountSign::Positive,
        "2024-01-15".to_string(),
        None,
        None,
        None,
        None,
    )
    .unwrap();
    let ts: Vec<char> = inv.created_at.chars().collect();
    assert_eq!(ts.len(), 19);
    assert_eq!((ts[4], ts[7], ts[10], ts[13], ts[16]), ('-', '-', ' ', ':', ':'));
    assert_eq!(inv.created_at, inv.updated_at);
}

#[test]
fn calendar_rule_with_leap_years() {
    assert!(validate_date("2024-02-29").is_ok());
    assert!(validate_date("2023-02-29").is_err());
    assert!(validate_date("2000-02-29").is_ok());
    assert!(validate_date("1900-02-29").is_err());
    assert!(validate_date("0000-02-29").is_ok());
    assert!(validate_date("2024-04-31").is_err());
    assert!(validate_date("2024-12-31").is_ok());
    assert!(validate_date("2024-00-10").is_err());
    assert!(validate_date("2024-01-00").is_err());
}
