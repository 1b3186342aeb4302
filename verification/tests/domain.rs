use tonneli::date::Date;
use tonneli::date::DateRange;
use tonneli::date::parse_date;
use tonneli::model::Cities;
use tonneli::model::Fraction;
use tonneli::numbers::i64_to_string;
use tonneli::numbers::parse_i32;
use tonneli::ports::AddressSearch;
use tonneli::ports::PortError;
use tonneli::query::parse_search_input;

#[test]
fn city_slugs() {
    assert_eq!(Cities::Aachen.slug(), "aachen");
    assert_eq!(Cities::Cologne.slug(), "cologne");
    assert_eq!(Cities::Nuremberg.slug(), "nuremberg");
    assert_eq!(Cities::Cologne.id().0, "cologne");
}

#[test]
fn blank_queries_are_empty() {
    let q = AddressSearch::new(String::from("   \t "), None);
    assert!(q.is_empty());
    let q = AddressSearch::new(String::new(), Some(String::from("10")));
    assert!(q.is_empty());
    let q = AddressSearch::new(String::from(" Hauptstraße "), None);
    assert!(!q.is_empty());
}

#[test]
fn search_input_with_house_number() {
    let q = parse_search_input("Hauptstraße 10");
    assert_eq!(q.street, "Hauptstraße");
    assert_eq!(q.house_number.as_deref(), Some("10"));
}

#[test]
fn search_input_without_digit_keeps_whole_street() {
    let q = parse_search_input("Unterer  Markt");
    assert_eq!(q.street, "Unterer Markt");
    assert_eq!(q.house_number, None);
}

#[test]
fn search_input_single_numeric_token_is_street() {
    let q = parse_search_input("42");
    assert_eq!(q.street, "42");
    assert_eq!(q.house_number, None);
}

#[test]
fn search_input_empty() {
    let q = parse_search_input("   ");
    assert_eq!(q.street, "");
    assert_eq!(q.house_number, None);
}

#[test]
fn search_input_multi_word_street_with_number() {
    let q = parse_search_input("Am Alten Hafen 3a");
    assert_eq!(q.street, "Am Alten Hafen");
    assert_eq!(q.house_number.as_deref(), Some("3a"));
}

#[test]
fn date_validity() {
    assert_eq!(
        Date::new(2024, 2, 29),
        Some(Date { year: 2024, month: 2, day: 29 })
    );
    assert_eq!(Date::new(2023, 2, 29), None);
    assert_eq!(Date::new(1900, 2, 29), None);
    assert_eq!(Date::new(2000, 2, 29), Some(Date { year: 2000, month: 2, day: 29 }));
    assert_eq!(Date::new(2024, 4, 31), None);
    assert_eq!(Date::new(2024, 0, 1), None);
    assert_eq!(Date::new(2024, 13, 1), None);
}

#[test]
fn date_order() {
    let a = Date { year: 2024, month: 12, day: 31 };
    let b = Date { year: 2025, month: 1, day: 1 };
    assert!(a.le(&b));
    assert!(!b.le(&a));
    assert!(a.le(&a));
}

#[test]
fn iso_dates_parse() {
    assert_eq!(
        parse_date("2024-12-15"),
        Some(Date { year: 2024, month: 12, day: 15 })
    );
    assert_eq!(parse_date("2024-02-30"), None);
    assert_eq!(parse_date("2024-1-5"), None);
    assert_eq!(parse_date("not a date"), None);
    assert_eq!(parse_date(""), None);
}

#[test]
fn decimal_rendering() {
    assert_eq!(i64_to_string(0), "0");
    assert_eq!(i64_to_string(6_756_817), "6756817");
    assert_eq!(i64_to_string(-45), "-45");
    assert_eq!(i64_to_string(i64::MIN), "-9223372036854775808");
}

#[test]
fn decimal_parsing() {
    assert_eq!(parse_i32("0"), Some(0));
    assert_eq!(parse_i32("007"), Some(7));
    assert_eq!(parse_i32("-45"), Some(-45));
    assert_eq!(parse_i32("+45"), Some(45));
    assert_eq!(parse_i32("2147483647"), Some(i32::MAX));
    assert_eq!(parse_i32("2147483648"), None);
    assert_eq!(parse_i32("-2147483648"), Some(i32::MIN));
    assert_eq!(parse_i32("-2147483649"), None);
    assert_eq!(parse_i32("00000000000000001"), Some(1));
    assert_eq!(parse_i32("12a"), None);
    assert_eq!(parse_i32(""), None);
    assert_eq!(parse_i32("-"), None);
}

#[test]
fn error_messages() {
    assert_eq!(
        PortError::Network(String::from("timed out")).message(),
        "Network error: timed out"
    );
    assert_eq!(PortError::Parse(String::from("x")).message(), "Parse error: x");
    assert_eq!(PortError::AddressNotFound.message(), "Address not found");
    assert_eq!(PortError::UnsupportedCity.message(), "Unsupported city");
    assert_eq!(PortError::InvalidAddressId.message(), "Invalid address id");
    assert_eq!(
        PortError::UnknownFraction(String::from("x")).message(),
        "Unknown fraction: x"
    );
    assert_eq!(PortError::Internal(String::from("x")).message(), "Internal error: x");
}

#[test]
fn fractions_compare() {
    assert_eq!(Fraction::Other(String::from("xyz")), Fraction::Other(String::from("xyz")));
    assert_ne!(Fraction::Other(String::from("xyz")), Fraction::Organic);
}

#[test]
fn range_membership_is_inclusive() {
    let range = DateRange {
        start: Date { year: 2024, month: 12, day: 15 },
        end: Date { year: 2025, month: 1, day: 15 },
    };
    assert!(range.start.le(&range.end));
}
