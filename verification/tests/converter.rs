use currency_converter::convert::{convert_currency, rate_factor, AMOUNT_LIMIT};
use currency_converter::currency::{get_currency_color, parse_currency, str_ci_eq, Currency, CurrencyColor};
use currency_converter::error::ConverterError;
use currency_converter::ratio::Ratio;

#[test]
fn eur_to_try_hundred() {
    // 100 EUR at the fixed factor 38.5 is exactly 3850.
    let r = convert_currency(Ratio::from_int(100), "EUR", "TRY").unwrap();
    assert_eq!(r.num, 38500);
    assert_eq!(r.den, 10);
    // Cross-multiplication against 3850 / 1: the value is exact.
    assert_eq!(r.num * 1, 3850 * r.den);
}

#[test]
fn eur_to_uah_hundred() {
    // 100 EUR at the fixed factor 40.2 is exactly 4020.
    let r = convert_currency(Ratio::new(100, 1), "EUR", "UAH").unwrap();
    assert_eq!(r.num * 1, 4020 * r.den);
}

#[test]
fn lower_case_codes_behave_like_upper_case() {
    let lower = convert_currency(Ratio::new(100, 1), "try", "uah").unwrap();
    let upper = convert_currency(Ratio::new(100, 1), "TRY", "UAH").unwrap();
    assert_eq!(lower, upper);
    let mixed = convert_currency(Ratio::new(100, 1), "tRy", "Uah").unwrap();
    assert_eq!(mixed, upper);
}

#[test]
fn self_conversion_is_identity() {
    // Converting a currency to itself keeps the value exactly.
    for code in ["EUR", "TRY", "UAH"] {
        let amount = Ratio::new(12345, 100);
        let r = convert_currency(amount, code, code).unwrap();
        assert_eq!(r.num * amount.den, amount.num * r.den);
    }
}

#[test]
fn round_trip_returns_original_value() {
    // A -> B then B -> A is exact for every supported pair.
    let codes = ["EUR", "TRY", "UAH"];
    for a in codes {
        for b in codes {
            let amount = Ratio::new(12345, 100);
            let there = convert_currency(amount, a, b).unwrap();
            let back = convert_currency(there, b, a).unwrap();
            assert_eq!(back.num * amount.den, amount.num * back.den);
        }
    }
}

#[test]
fn unknown_target_is_rejected() {
    let r = convert_currency(Ratio::new(100, 1), "EUR", "XYZ");
    match r {
        Err(ConverterError::UnknownTarget { code }) => assert_eq!(code, "XYZ"),
        _ => panic!("expected an unknown-target error"),
    }
}

#[test]
fn unknown_source_is_rejected() {
    let r = convert_currency(Ratio::new(100, 1), "XYZ", "EUR");
    match r {
        Err(ConverterError::UnknownSource { code }) => assert_eq!(code, "XYZ"),
        _ => panic!("expected an unknown-source error"),
    }
}

#[test]
fn unknown_source_reported_before_unknown_target() {
    let r = convert_currency(Ratio::new(100, 1), "ABC", "XYZ");
    assert!(matches!(r, Err(ConverterError::UnknownSource { .. })));
}

#[test]
fn error_messages_name_the_code() {
    let source = ConverterError::UnknownSource { code: String::from("XYZ") };
    assert_eq!(source.message(), "Unknown source currency: XYZ");
    let target = ConverterError::UnknownTarget { code: String::from("XYZ") };
    assert_eq!(target.message(), "Unknown target currency: XYZ");
    let unsupported = ConverterError::UnsupportedTarget { code: String::from("USD") };
    assert_eq!(unsupported.message(), "Unsupported target currency: USD");
    let fetch = ConverterError::FetchFailed { detail: String::from("connection refused") };
    assert_eq!(fetch.message(), "Failed to fetch exchange rates: connection refused");
}

#[test]
fn parse_currency_reads_codes_case_insensitively() {
    assert_eq!(parse_currency("EUR"), Some(Currency::Eur));
    assert_eq!(parse_currency("eur"), Some(Currency::Eur));
    assert_eq!(parse_currency("uAh"), Some(Currency::Uah));
    assert_eq!(parse_currency("try"), Some(Currency::Try));
    assert_eq!(parse_currency(""), None);
    assert_eq!(parse_currency("EU"), None);
    assert_eq!(parse_currency("EURO"), None);
    assert_eq!(parse_currency("USD"), None);
}

#[test]
fn currency_colors_follow_the_code() {
    assert_eq!(get_currency_color("EUR"), CurrencyColor::BrightBlue);
    assert_eq!(get_currency_color("eur"), CurrencyColor::BrightBlue);
    assert_eq!(get_currency_color("TRY"), CurrencyColor::BrightRed);
    assert_eq!(get_currency_color("UAH"), CurrencyColor::BrightYellow);
    assert_eq!(get_currency_color("USD"), CurrencyColor::Plain);
}

#[test]
fn str_ci_eq_ignores_ascii_case_only() {
    assert!(str_ci_eq("TRY", "try"));
    assert!(str_ci_eq("TrY", "tRy"));
    assert!(!str_ci_eq("TRY", "TRX"));
    assert!(!str_ci_eq("TRY", "TR"));
    assert!(str_ci_eq("", ""));
}

#[test]
fn rate_factors_are_the_fixed_table() {
    let eur = rate_factor(Currency::Eur);
    assert_eq!((eur.num, eur.den), (1, 1));
    let try_factor = rate_factor(Currency::Try);
    assert_eq!((try_factor.num, try_factor.den), (385, 10));
    let uah = rate_factor(Currency::Uah);
    assert_eq!((uah.num, uah.den), (402, 10));
}

#[test]
fn large_amounts_stay_exact() {
    let amount = Ratio::new(AMOUNT_LIMIT, 1);
    let there = convert_currency(amount, "UAH", "TRY").unwrap();
    // 1 UAH = (10/402) EUR = 385/402 * ... the value is kept exactly.
    assert_eq!(there.num * amount.den * 402 * 10, amount.num * there.den * 385 * 10);
}

#[test]
fn negative_amounts_are_computed_not_rejected() {
    let r = convert_currency(Ratio::new(-100, 1), "EUR", "TRY").unwrap();
    assert_eq!(r.num * 1, -3850 * r.den);
}
