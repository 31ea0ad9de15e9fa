use cyberpunk::decimal::Decimal;

#[test]
fn decimal_reads_plain_numerals() {
    assert_eq!(Decimal::parse("0.8"), Some(Decimal::from_millionths(800_000)));
    assert_eq!(Decimal::parse("1000"), Some(Decimal::from_millionths(1_000_000_000)));
    assert_eq!(Decimal::parse("-16.0"), Some(Decimal::from_millionths(-16_000_000)));
    assert_eq!(Decimal::parse("+2.5"), Some(Decimal::from_millionths(2_500_000)));
    assert_eq!(Decimal::parse(".5"), Some(Decimal::from_millionths(500_000)));
    assert_eq!(Decimal::parse("5."), Some(Decimal::from_millionths(5_000_000)));
    assert_eq!(Decimal::parse("0.1234567"), Some(Decimal::from_millionths(123_456)));
    assert_eq!(Decimal::parse("-0"), Some(Decimal::from_millionths(0)));
}

#[test]
fn decimal_rejects_what_is_no_numeral() {
    assert_eq!(Decimal::parse(""), None);
    assert_eq!(Decimal::parse("."), None);
    assert_eq!(Decimal::parse("-"), None);
    assert_eq!(Decimal::parse("abc"), None);
    assert_eq!(Decimal::parse("1e3"), None);
    assert_eq!(Decimal::parse("1.2.3"), None);
    assert_eq!(Decimal::parse(" 1"), None);
    assert_eq!(Decimal::parse("1000000000000"), None);
    assert_eq!(
        Decimal::parse("999999999999.999999"),
        Some(Decimal::from_millionths(999_999_999_999_999_999))
    );
}

#[test]
fn decimal_shortest_text() {
    assert_eq!(Decimal::from_millionths(800_000).to_string(), "0.8");
    assert_eq!(Decimal::from_millionths(500_000).to_string(), "0.5");
    assert_eq!(Decimal::from_millionths(1_000_000_000).to_string(), "1000");
    assert_eq!(Decimal::from_millionths(-16_000_000).to_string(), "-16");
    assert_eq!(Decimal::from_millionths(1_500_000).to_string(), "1.5");
    assert_eq!(Decimal::from_millionths(1).to_string(), "0.000001");
    assert_eq!(Decimal::from_millionths(10_050_000).to_string(), "10.05");
    assert_eq!(Decimal::from_millionths(0).to_string(), "0");
}

#[test]
fn decimal_fixed_places() {
    assert_eq!(Decimal::from_millionths(800_000).format_fixed(2), "0.80");
    assert_eq!(Decimal::from_millionths(1_000_000_000).format_fixed(1), "1000.0");
    assert_eq!(Decimal::from_millionths(2_000_000).format_fixed(3), "2.000");
    assert_eq!(Decimal::from_millionths(-16_000_000).format_fixed(1), "-16.0");
    assert_eq!(Decimal::from_millionths(250_000).format_fixed(1), "0.2");
    assert_eq!(Decimal::from_millionths(350_000).format_fixed(1), "0.4");
    assert_eq!(Decimal::from_millionths(260_000).format_fixed(1), "0.3");
    assert_eq!(Decimal::from_millionths(999_999).format_fixed(3), "1.000");
    assert_eq!(Decimal::from_millionths(1_234_567).format_fixed(6), "1.234567");
    assert_eq!(Decimal::from_millionths(1_234_567).format_fixed(9), "1.234567");
    assert_eq!(Decimal::from_millionths(1_500_000).format_fixed(0), "2");
    assert_eq!(Decimal::from_millionths(-40_000).format_fixed(1), "-0.0");
}

#[test]
fn decimal_one() {
    assert!(Decimal::parse("1.0").unwrap().is_one());
    assert!(Decimal::one().is_one());
    assert!(!Decimal::parse("-1").unwrap().is_one());
    assert!(!Decimal::parse("0.8").unwrap().is_one());
}
