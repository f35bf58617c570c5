use currency_converter_api::decimal::Dec;
use currency_converter_api::error::ApiError;
use currency_converter_api::feed::parse_ecb_xml;
use currency_converter_api::rate::{DailyRate, EcbRate, RateMap};
use rust_decimal::Decimal;
use std::str::FromStr;

fn feed_decimal_of(d: Dec) -> Decimal {
    Decimal::from_i128_with_scale(d.mantissa, d.scale)
}

fn feed_rate_at(rates: &RateMap, code: &str) -> Decimal {
    feed_decimal_of(rates.get(&code.to_string()).unwrap())
}

#[test]
fn test_parse_ecb_xml() {
    let xml = r#"<?xml version="1.0" encoding="UTF-8"?>
<gesmes:Envelope xmlns:gesmes="http://www.gesmes.org/xml/2002-08-01" xmlns="http://www.ecb.int/vocabulary/2002-08-01/eurofxref">
    <Cube>
        <Cube time="2024-12-04">
            <Cube currency="USD" rate="1.0534"/>
            <Cube currency="JPY" rate="158.23"/>
            <Cube currency="GBP" rate="0.8345"/>
        </Cube>
    </Cube>
</gesmes:Envelope>"#;

    let result = parse_ecb_xml(xml).unwrap();

    assert_eq!(result.date, "2024-12-04");
    assert_eq!(result.base, "EUR");
    assert_eq!(result.rates.len(), 3); // USD, JPY, GBP; the base is never a key
    assert_eq!(feed_rate_at(&result.rates, "USD"), Decimal::from_str("1.0534").unwrap());
    assert_eq!(feed_rate_at(&result.rates, "JPY"), Decimal::from_str("158.23").unwrap());
    assert_eq!(feed_rate_at(&result.rates, "GBP"), Decimal::from_str("0.8345").unwrap());
    assert!(!result.rates.contains(&"EUR".to_string()));
}

#[test]
fn test_parse_ecb_xml_bad_rate_is_parse_error() {
    let xml = r#"<Envelope><Cube><Cube time="2024-12-04">
        <Cube currency="USD" rate="not-a-number"/>
    </Cube></Cube></Envelope>"#;
    match parse_ecb_xml(xml) {
        Err(ApiError::ParseError(msg)) => assert!(msg.contains("USD")),
        _ => panic!("Expected ParseError naming the code"),
    }
}

#[test]
fn test_parse_ecb_xml_missing_date_is_parse_error() {
    let xml = r#"<Envelope><Cube>
        <Cube currency="USD" rate="1.05"/>
    </Cube></Envelope>"#;
    match parse_ecb_xml(xml) {
        Err(ApiError::ParseError(_)) => {}
        _ => panic!("Expected ParseError for a feed without a date"),
    }
}

#[test]
fn test_parse_ecb_xml_missing_rate_attribute_is_parse_error() {
    let xml = r#"<Envelope><Cube><Cube time="2024-12-04">
        <Cube currency="USD"/>
    </Cube></Cube></Envelope>"#;
    match parse_ecb_xml(xml) {
        Err(ApiError::ParseError(_)) => {}
        _ => panic!("Expected ParseError for a currency without a rate"),
    }
}

#[test]
fn test_parse_ecb_xml_invalid_date_is_parse_error() {
    let xml = r#"<Envelope><Cube><Cube time="2024-13-04">
        <Cube currency="USD" rate="1.05"/>
    </Cube></Cube></Envelope>"#;
    match parse_ecb_xml(xml) {
        Err(ApiError::ParseError(_)) => {}
        _ => panic!("Expected ParseError for an invalid month"),
    }
}

#[test]
fn test_parse_ecb_xml_single_quoted_attributes() {
    let xml = r#"<Envelope><Cube><Cube time='2024-12-04'>
        <Cube currency='USD' rate='1.05'/>
    </Cube></Cube></Envelope>"#;
    let result = parse_ecb_xml(xml).unwrap();
    assert_eq!(result.date, "2024-12-04");
    assert_eq!(feed_rate_at(&result.rates, "USD"), Decimal::from_str("1.05").unwrap());
}

#[test]
fn test_parse_ecb_xml_duplicate_currency_last_wins() {
    let xml = r#"<Envelope><Cube><Cube time="2024-12-04">
        <Cube currency="USD" rate="1.01"/>
        <Cube currency="USD" rate="1.07"/>
    </Cube></Cube></Envelope>"#;
    let result = parse_ecb_xml(xml).unwrap();
    assert_eq!(feed_rate_at(&result.rates, "USD"), Decimal::from_str("1.07").unwrap());
    assert_eq!(result.rates.len(), 1);
}

#[test]
fn test_from_ecb_data_negative_rate_rejected() {
    let rates = vec![EcbRate { currency: "USD".to_string(), rate: "-1.05".to_string() }];
    match DailyRate::from_ecb_data("2024-12-04".to_string(), rates) {
        Err(msg) => assert!(msg.contains("USD")),
        Ok(_) => panic!("Expected a negative rate to be rejected"),
    }
}

#[test]
fn test_from_ecb_data_uppercases_codes() {
    let rates = vec![EcbRate { currency: "usd".to_string(), rate: "1.05".to_string() }];
    let daily = DailyRate::from_ecb_data("2024-12-04".to_string(), rates).unwrap();
    assert!(daily.rates.contains(&"USD".to_string()));
    assert!(!daily.rates.contains(&"usd".to_string()));
}

#[test]
fn test_from_ecb_data_duplicate_code_last_wins() {
    let rates = vec![
        EcbRate { currency: "USD".to_string(), rate: "1.01".to_string() },
        EcbRate { currency: "USD".to_string(), rate: "1.07".to_string() },
    ];
    let daily = DailyRate::from_ecb_data("2024-12-04".to_string(), rates).unwrap();
    assert_eq!(feed_rate_at(&daily.rates, "USD"), Decimal::from_str("1.07").unwrap());
}

#[test]
fn test_validate_date_accepts_leap_day() {
    let daily = DailyRate {
        date: "2024-02-29".to_string(),
        base: "EUR".to_string(),
        rates: RateMap::new(),
    };
    assert!(daily.validate_date().is_ok());
}

#[test]
fn test_validate_date_rejects_bad_days() {
    for bad in ["2023-02-29", "2024-02-30", "2024-04-31", "2024-00-10", "2024-12-00", "2024-12-4", "12/04/2024", "2024-12-044"] {
        let daily = DailyRate {
            date: bad.to_string(),
            base: "EUR".to_string(),
            rates: RateMap::new(),
        };
        assert!(daily.validate_date().is_err(), "accepted {}", bad);
    }
}
