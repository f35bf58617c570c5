use currency_converter_api::api::{
    health_core, convert_core, latest_core, ConvertQuery, LatestRatesQuery,
};
use currency_converter_api::config::Config;
use currency_converter_api::decimal::Dec;
use currency_converter_api::error::{client_message, status_code_of, ApiError};
use currency_converter_api::rate::{DailyRate, RateMap};
use currency_converter_api::text::to_upper_code;
use rust_decimal::Decimal;
use std::str::FromStr;

fn api_dec_of(s: &str) -> Dec {
    let d = Decimal::from_str(s).unwrap();
    Dec { mantissa: d.mantissa(), scale: d.scale() }
}

fn api_decimal_of(d: Dec) -> Decimal {
    Decimal::from_i128_with_scale(d.mantissa, d.scale)
}

fn api_test_rates() -> DailyRate {
    let mut rates = RateMap::new();
    rates.insert("USD".to_string(), api_dec_of("1.05"));
    rates.insert("JPY".to_string(), api_dec_of("158.2"));
    DailyRate {
        date: "2024-12-04".to_string(),
        base: "EUR".to_string(),
        rates,
    }
}

#[test]
fn test_convert_core_missing_rates_is_503() {
    // Valid codes and amount, but nothing cached: always 503.
    let q = ConvertQuery {
        from: "USD".to_string(),
        to: "JPY".to_string(),
        amount: "100".to_string(),
    };
    match convert_core(Ok(None), &q) {
        Err(e) => {
            assert!(matches!(e, ApiError::NoRatesAvailable));
            assert_eq!(status_code_of(&e), 503);
        }
        Ok(_) => panic!("Expected NoRatesAvailable"),
    }
}

#[test]
fn test_convert_core_bad_code_length_is_400() {
    let q = ConvertQuery {
        from: "US".to_string(),
        to: "JPY".to_string(),
        amount: "100".to_string(),
    };
    match convert_core(Ok(Some(api_test_rates())), &q) {
        Err(e) => {
            assert!(matches!(e, ApiError::ValidationError(_)));
            assert_eq!(status_code_of(&e), 400);
        }
        Ok(_) => panic!("Expected ValidationError"),
    }
}

#[test]
fn test_convert_core_bad_amount_is_400() {
    for bad in ["abc", "-5", ""] {
        let q = ConvertQuery {
            from: "USD".to_string(),
            to: "JPY".to_string(),
            amount: bad.to_string(),
        };
        match convert_core(Ok(Some(api_test_rates())), &q) {
            Err(ApiError::ValidationError(_)) => {}
            _ => panic!("Expected ValidationError for amount {}", bad),
        }
    }
}

#[test]
fn test_convert_core_success_fields() {
    let q = ConvertQuery {
        from: "eur".to_string(),
        to: "usd".to_string(),
        amount: "100".to_string(),
    };
    let resp = convert_core(Ok(Some(api_test_rates())), &q).unwrap();
    assert_eq!(resp.from, "EUR");
    assert_eq!(resp.to, "USD");
    assert_eq!(resp.date, "2024-12-04");
    assert_eq!(api_decimal_of(resp.amount), Decimal::from_str("100").unwrap());
    assert_eq!(api_decimal_of(resp.rate), Decimal::from_str("1.05").unwrap());
    assert_eq!(api_decimal_of(resp.result), Decimal::from_str("105").unwrap());
}

#[test]
fn test_convert_core_unknown_code_is_404() {
    let q = ConvertQuery {
        from: "USD".to_string(),
        to: "XXX".to_string(),
        amount: "100".to_string(),
    };
    match convert_core(Ok(Some(api_test_rates())), &q) {
        Err(e) => {
            match &e {
                ApiError::CurrencyNotFound(code) => assert_eq!(code, "XXX"),
                _ => panic!("Expected CurrencyNotFound"),
            }
            assert_eq!(status_code_of(&e), 404);
        }
        Ok(_) => panic!("Expected CurrencyNotFound"),
    }
}

#[test]
fn test_latest_core_missing_rates_is_503() {
    let q = LatestRatesQuery { base: Some("USD".to_string()) };
    match latest_core(Ok(None), &q) {
        Err(e) => {
            assert!(matches!(e, ApiError::NoRatesAvailable));
            assert_eq!(status_code_of(&e), 503);
        }
        Ok(_) => panic!("Expected NoRatesAvailable"),
    }
}

#[test]
fn test_latest_core_bad_base_length_is_400() {
    let q = LatestRatesQuery { base: Some("US".to_string()) };
    match latest_core(Ok(Some(api_test_rates())), &q) {
        Err(ApiError::ValidationError(_)) => {}
        _ => panic!("Expected ValidationError"),
    }
}

#[test]
fn test_latest_core_default_base_passthrough() {
    let q = LatestRatesQuery { base: None };
    let resp = latest_core(Ok(Some(api_test_rates())), &q).unwrap();
    assert_eq!(resp.base, "EUR");
    assert_eq!(resp.date, "2024-12-04");
    assert_eq!(
        api_decimal_of(resp.rates.get(&"USD".to_string()).unwrap()),
        Decimal::from_str("1.05").unwrap()
    );
}

#[test]
fn test_latest_core_rebases_to_requested_base() {
    let q = LatestRatesQuery { base: Some("usd".to_string()) };
    let resp = latest_core(Ok(Some(api_test_rates())), &q).unwrap();
    assert_eq!(resp.base, "USD");
    assert!(!resp.rates.contains(&"USD".to_string()));
    let expected = Decimal::from_str("1").unwrap() / Decimal::from_str("1.05").unwrap();
    assert_eq!(
        api_decimal_of(resp.rates.get(&"EUR".to_string()).unwrap()),
        expected
    );
}

#[test]
fn test_latest_core_unknown_base_is_500() {
    // Per the endpoint table, an unknown-base rebase failure is a 500,
    // not a 404.
    let q = LatestRatesQuery { base: Some("XXX".to_string()) };
    match latest_core(Ok(Some(api_test_rates())), &q) {
        Err(e) => {
            assert!(matches!(e, ApiError::InternalError(_)));
            assert_eq!(status_code_of(&e), 500);
        }
        Ok(_) => panic!("Expected InternalError"),
    }
}

#[test]
fn test_convert_core_validates_before_store_failure() {
    // A bad request is answered 400 even when the cache read failed.
    let q = ConvertQuery {
        from: "US".to_string(),
        to: "JPY".to_string(),
        amount: "100".to_string(),
    };
    let store_err: Result<Option<_>, _> = Err(ApiError::StoreError("down".to_string()));
    match convert_core(store_err, &q) {
        Err(e) => {
            assert!(matches!(e, ApiError::ValidationError(_)));
            assert_eq!(status_code_of(&e), 400);
        }
        Ok(_) => panic!("Expected ValidationError"),
    }
}

#[test]
fn test_convert_core_passes_store_failure_through() {
    let q = ConvertQuery {
        from: "USD".to_string(),
        to: "JPY".to_string(),
        amount: "100".to_string(),
    };
    let store_err: Result<Option<_>, _> = Err(ApiError::StoreError("down".to_string()));
    match convert_core(store_err, &q) {
        Err(e) => {
            assert!(matches!(e, ApiError::StoreError(_)));
            assert_eq!(status_code_of(&e), 500);
        }
        Ok(_) => panic!("Expected StoreError"),
    }
}

#[test]
fn test_health_core_unhealthy_backend_still_ok() {
    // An unreachable cache backend is reported inline, never as an error.
    let resp = health_core(false, None);
    assert_eq!(resp.status, "ok");
    assert_eq!(resp.redis, "unhealthy");
    assert!(resp.last_update.is_none());
}

#[test]
fn test_health_core_healthy_backend() {
    let resp = health_core(true, Some("2024-12-04".to_string()));
    assert_eq!(resp.status, "ok");
    assert_eq!(resp.redis, "healthy");
    assert_eq!(resp.last_update.unwrap(), "2024-12-04");
}

#[test]
fn test_parse_amount_exact_value() {
    let q = ConvertQuery {
        from: "USD".to_string(),
        to: "JPY".to_string(),
        amount: "3.14".to_string(),
    };
    let d = q.parse_amount().unwrap();
    assert_eq!(d.mantissa, 314);
    assert_eq!(d.scale, 2);
}

#[test]
fn test_status_codes_for_all_errors() {
    assert_eq!(status_code_of(&ApiError::CurrencyNotFound("XXX".to_string())), 404);
    assert_eq!(status_code_of(&ApiError::NoRatesAvailable), 503);
    assert_eq!(status_code_of(&ApiError::ValidationError("x".to_string())), 400);
    assert_eq!(status_code_of(&ApiError::FetchError("x".to_string())), 500);
    assert_eq!(status_code_of(&ApiError::ParseError("x".to_string())), 500);
    assert_eq!(status_code_of(&ApiError::StoreError("x".to_string())), 500);
    assert_eq!(status_code_of(&ApiError::CalculationError("x".to_string())), 500);
    assert_eq!(status_code_of(&ApiError::InternalError("x".to_string())), 500);
}

#[test]
fn test_client_messages() {
    assert_eq!(
        client_message(&ApiError::CurrencyNotFound("XXX".to_string())),
        "Currency code 'XXX' not found in exchange rates"
    );
    assert_eq!(
        client_message(&ApiError::NoRatesAvailable),
        "No exchange rates available. Please try again later."
    );
    assert_eq!(
        client_message(&ApiError::ValidationError("bad amount".to_string())),
        "Invalid parameter: bad amount"
    );
    // Backend detail never reaches the caller.
    assert_eq!(
        client_message(&ApiError::StoreError("connection refused".to_string())),
        "Database connection error"
    );
    assert_eq!(
        client_message(&ApiError::FetchError("x".to_string())),
        "Failed to fetch exchange rates"
    );
    assert_eq!(
        client_message(&ApiError::ParseError("x".to_string())),
        "Failed to parse exchange rate data"
    );
    assert_eq!(
        client_message(&ApiError::CalculationError("x".to_string())),
        "Internal server error"
    );
    assert_eq!(
        client_message(&ApiError::InternalError("x".to_string())),
        "Internal server error"
    );
}

#[test]
fn test_to_upper_code_normalizes() {
    assert_eq!(to_upper_code("usd"), "USD");
    assert_eq!(to_upper_code("UsD"), "USD");
    assert_eq!(to_upper_code("USD"), "USD");
}

#[test]
fn test_server_address_formats_host_and_port() {
    let config = Config {
        server_host: "0.0.0.0".to_string(),
        server_port: 3000,
        redis_url: "redis://localhost:6379".to_string(),
        ecb_url: "https://example.invalid/feed.xml".to_string(),
        update_cron: "0 0 15 * * *".to_string(),
    };
    assert_eq!(config.server_address(), "0.0.0.0:3000");
}
