use currency_converter_api::converter::{convert_currency, rebase_rates};
use currency_converter_api::decimal::Dec;
use currency_converter_api::error::ApiError;
use currency_converter_api::rate::{DailyRate, RateMap};
use rust_decimal::Decimal;
use std::str::FromStr;

fn dec_of(s: &str) -> Dec {
    let d = Decimal::from_str(s).unwrap();
    Dec { mantissa: d.mantissa(), scale: d.scale() }
}

fn decimal_of(d: Dec) -> Decimal {
    Decimal::from_i128_with_scale(d.mantissa, d.scale)
}

fn create_test_rates() -> DailyRate {
    let mut rates = RateMap::new();
    rates.insert("USD".to_string(), dec_of("1.05"));
    rates.insert("GBP".to_string(), dec_of("0.85"));
    rates.insert("JPY".to_string(), dec_of("158.2"));

    DailyRate {
        date: "2024-12-04".to_string(),
        base: "EUR".to_string(),
        rates,
    }
}

#[test]
fn test_convert_same_currency() {
    let rates = create_test_rates();
    let (result, rate) = convert_currency(&rates, "USD", "USD", dec_of("100.0")).unwrap();

    assert_eq!(decimal_of(result), Decimal::from_str("100.0").unwrap());
    assert_eq!(decimal_of(rate), Decimal::ONE);
}

#[test]
fn test_convert_usd_to_eur_optimized() {
    let rates = create_test_rates();
    let (result, rate) = convert_currency(&rates, "USD", "EUR", dec_of("100.0")).unwrap();

    // 100 USD in EUR: 100 * (1.0 / 1.05)
    let expected_rate = Decimal::from_str("1.0").unwrap() / Decimal::from_str("1.05").unwrap();
    let expected_result = Decimal::from_str("100.0").unwrap() * expected_rate;

    assert_eq!(decimal_of(rate), expected_rate);
    assert_eq!(decimal_of(result), expected_result);
}

#[test]
fn test_convert_usd_to_jpy_direct() {
    let rates = create_test_rates();
    let (result, rate) = convert_currency(&rates, "USD", "JPY", dec_of("100.0")).unwrap();

    // USD->JPY = (EUR->JPY) / (EUR->USD) = 158.2 / 1.05
    let expected_rate = Decimal::from_str("158.2").unwrap() / Decimal::from_str("1.05").unwrap();
    let expected_result = Decimal::from_str("100.0").unwrap() * expected_rate;

    assert_eq!(decimal_of(rate), expected_rate);
    assert_eq!(decimal_of(result), expected_result);
}

#[test]
fn test_convert_eur_to_usd() {
    let rates = create_test_rates();
    let (result, rate) = convert_currency(&rates, "EUR", "USD", dec_of("100.0")).unwrap();

    // EUR->USD = 1.05
    assert_eq!(decimal_of(rate), Decimal::from_str("1.05").unwrap());
    assert_eq!(decimal_of(result), Decimal::from_str("105.0").unwrap());
}

#[test]
fn test_convert_unknown_currency() {
    let rates = create_test_rates();
    let result = convert_currency(&rates, "USD", "XXX", dec_of("100.0"));

    assert!(result.is_err());
    match result {
        Err(ApiError::CurrencyNotFound(currency)) => {
            assert_eq!(currency, "XXX");
        }
        _ => panic!("Expected CurrencyNotFound error"),
    }
}

#[test]
fn test_rebase_same_currency() {
    let rates = create_test_rates();
    let result = rebase_rates(&rates, "EUR").unwrap();
    assert_eq!(result.base, "EUR");
    assert_eq!(
        decimal_of(result.rates.get(&"USD".to_string()).unwrap()),
        Decimal::from_str("1.05").unwrap()
    );
}

#[test]
fn test_rebase_eur_to_usd() {
    let rates = create_test_rates();
    let result = rebase_rates(&rates, "USD").unwrap();

    assert_eq!(result.base, "USD");

    // EUR in terms of USD: 1.0 / 1.05
    let expected_eur_rate = Decimal::from_str("1.0").unwrap() / Decimal::from_str("1.05").unwrap();
    assert_eq!(
        decimal_of(result.rates.get(&"EUR".to_string()).unwrap()),
        expected_eur_rate
    );

    // USD should NOT be in the rates map (base currency)
    assert!(!result.rates.contains(&"USD".to_string()));

    // JPY in terms of USD: 158.2 / 1.05
    let expected_jpy_rate =
        Decimal::from_str("158.2").unwrap() / Decimal::from_str("1.05").unwrap();
    assert_eq!(
        decimal_of(result.rates.get(&"JPY".to_string()).unwrap()),
        expected_jpy_rate
    );
}

#[test]
fn test_rebase_does_not_include_new_base() {
    let rates = create_test_rates();
    let result = rebase_rates(&rates, "GBP").unwrap();

    assert_eq!(result.base, "GBP");
    // GBP should NOT appear in the rates map
    assert!(!result.rates.contains(&"GBP".to_string()));
    // But EUR (old base) should be there
    assert!(result.rates.contains(&"EUR".to_string()));
}

#[test]
fn test_decimal_precision() {
    let rates = create_test_rates();

    // Converting there and back should keep precision within decimal
    // representation error, far below any binary floating-point drift.
    let (result1, _rate1) = convert_currency(&rates, "USD", "JPY", dec_of("1000.0")).unwrap();
    let (result2, _rate2) = convert_currency(&rates, "JPY", "USD", result1).unwrap();

    let diff = (decimal_of(result2) - Decimal::from_str("1000.0").unwrap()).abs();
    assert!(
        diff < Decimal::from_str("0.0001").unwrap(),
        "Round-trip conversion lost precision: {}",
        diff
    );
}

#[test]
fn test_cross_rate_consistency() {
    let rates = create_test_rates();

    // USD->GBP should equal (EUR->GBP)/(EUR->USD)
    let (_, usd_to_gbp) = convert_currency(&rates, "USD", "GBP", dec_of("1.0")).unwrap();
    let expected = Decimal::from_str("0.85").unwrap() / Decimal::from_str("1.05").unwrap();

    assert_eq!(decimal_of(usd_to_gbp), expected);
}

#[test]
fn test_convert_lowercase_codes_normalized() {
    let rates = create_test_rates();
    let (result, rate) = convert_currency(&rates, "eur", "usd", dec_of("100.0")).unwrap();

    assert_eq!(decimal_of(rate), Decimal::from_str("1.05").unwrap());
    assert_eq!(decimal_of(result), Decimal::from_str("105.0").unwrap());
}

#[test]
fn test_convert_example_rounded_values() {
    let rates = create_test_rates();
    let (result, rate) = convert_currency(&rates, "USD", "JPY", dec_of("100")).unwrap();

    // rate = 158.2/1.05, about 150.6667; result about 15066.67
    let rate_diff =
        (decimal_of(rate) - Decimal::from_str("150.6667").unwrap()).abs();
    assert!(rate_diff < Decimal::from_str("0.0001").unwrap());
    let result_diff =
        (decimal_of(result) - Decimal::from_str("15066.67").unwrap()).abs();
    assert!(result_diff < Decimal::from_str("0.01").unwrap());
}

#[test]
fn test_rebase_example_rounded_values() {
    let rates = create_test_rates();
    let result = rebase_rates(&rates, "USD").unwrap();

    // EUR in terms of USD is about 0.95238
    let eur = decimal_of(result.rates.get(&"EUR".to_string()).unwrap());
    let diff = (eur - Decimal::from_str("0.95238").unwrap()).abs();
    assert!(diff < Decimal::from_str("0.00001").unwrap());
    assert!(!result.rates.contains(&"USD".to_string()));
}

#[test]
fn test_convert_zero_rate_is_calculation_error() {
    let mut rates = create_test_rates();
    rates.rates.insert("ZRO".to_string(), dec_of("0"));
    let result = convert_currency(&rates, "ZRO", "USD", dec_of("5"));
    match result {
        Err(ApiError::CalculationError(_)) => {}
        _ => panic!("Expected CalculationError for zero from-rate"),
    }
}

#[test]
fn test_rebase_zero_rate_is_calculation_error() {
    let mut rates = create_test_rates();
    rates.rates.insert("ZRO".to_string(), dec_of("0"));
    let result = rebase_rates(&rates, "ZRO");
    match result {
        Err(ApiError::CalculationError(_)) => {}
        _ => panic!("Expected CalculationError for zero base rate"),
    }
}

#[test]
fn test_rebase_unknown_currency_names_code() {
    let rates = create_test_rates();
    let result = rebase_rates(&rates, "xxx");
    match result {
        Err(ApiError::CurrencyNotFound(code)) => assert_eq!(code, "XXX"),
        _ => panic!("Expected CurrencyNotFound error"),
    }
}
