use currency_converter::error::ConverterError;
use currency_converter::rates::{convert_live, convert_with_table, lookup_rate, RateEntry, RateTable};
use currency_converter::ratio::Ratio;

fn sample_table() -> RateTable {
    RateTable {
        base: String::from("EUR"),
        date: String::from("2025-04-01"),
        rates: vec![
            RateEntry { code: String::from("TRY"), rate: Ratio::new(385, 10) },
            RateEntry { code: String::from("UAH"), rate: Ratio::new(402, 10) },
        ],
    }
}

#[test]
fn fetched_table_converts_by_lookup() {
    let r = convert_with_table(Ratio::new(100, 1), &sample_table(), "TRY").unwrap();
    assert_eq!(r.num, 100 * 385);
    assert_eq!(r.den, 10);
    assert_eq!(r.num * 1, 3850 * r.den);
}

#[test]
fn table_lookup_ignores_ascii_case() {
    let upper = convert_with_table(Ratio::new(100, 1), &sample_table(), "UAH").unwrap();
    let lower = convert_with_table(Ratio::new(100, 1), &sample_table(), "uah").unwrap();
    assert_eq!(upper, lower);
}

#[test]
fn absent_target_is_unsupported() {
    let r = convert_with_table(Ratio::new(100, 1), &sample_table(), "USD");
    match r {
        Err(ConverterError::UnsupportedTarget { code }) => assert_eq!(code, "USD"),
        _ => panic!("expected an unsupported-target error"),
    }
}

#[test]
fn failed_fetch_surfaces_a_fetch_error() {
    let fetched: Result<RateTable, String> = Err(String::from("unreachable endpoint"));
    let r = convert_live(Ratio::new(100, 1), fetched, "TRY");
    match r {
        Err(ConverterError::FetchFailed { detail }) => assert_eq!(detail, "unreachable endpoint"),
        _ => panic!("expected a fetch error"),
    }
}

#[test]
fn successful_fetch_converts_like_the_table() {
    let r = convert_live(Ratio::new(100, 1), Ok(sample_table()), "try").unwrap();
    assert_eq!(r.num * 1, 3850 * r.den);
}

#[test]
fn live_target_absent_after_successful_fetch() {
    let r = convert_live(Ratio::new(100, 1), Ok(sample_table()), "XYZ");
    assert!(matches!(r, Err(ConverterError::UnsupportedTarget { .. })));
}

#[test]
fn lookup_takes_the_first_matching_entry() {
    let table = RateTable {
        base: String::from("EUR"),
        date: String::from("2025-04-01"),
        rates: vec![
            RateEntry { code: String::from("TRY"), rate: Ratio::new(385, 10) },
            RateEntry { code: String::from("try"), rate: Ratio::new(999, 10) },
        ],
    };
    let rate = lookup_rate(&table, "TRY").unwrap();
    assert_eq!((rate.num, rate.den), (385, 10));
}

#[test]
fn lookup_misses_on_an_empty_table() {
    let table = RateTable {
        base: String::from("EUR"),
        date: String::from("2025-04-01"),
        rates: vec![],
    };
    assert!(lookup_rate(&table, "TRY").is_none());
}
