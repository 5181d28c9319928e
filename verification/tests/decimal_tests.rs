use docgen::decimal::{push_fixed2, Decimal, Total};

fn dec(text: &str) -> Decimal {
    Decimal::parse(text).expect("a decimal numeral")
}

#[test]
fn parse_reads_whole_numbers_and_fractions() {
    assert_eq!(dec("2").raw(), 20_000);
    assert_eq!(dec("10.00").raw(), 100_000);
    assert_eq!(dec("1.5").raw(), 15_000);
    assert_eq!(dec("0.2").raw(), 2_000);
    assert_eq!(dec("-3.25").raw(), -32_500);
    assert_eq!(dec("+7").raw(), 70_000);
    assert_eq!(dec(".5").raw(), 5_000);
    assert_eq!(dec("5.").raw(), 50_000);
    assert_eq!(dec("0.0001").raw(), 1);
    assert_eq!(dec("10000000").raw(), 100_000_000_000);
}

#[test]
fn parse_refuses_what_is_no_numeral() {
    assert!(Decimal::parse("").is_none());
    assert!(Decimal::parse("-").is_none());
    assert!(Decimal::parse(".").is_none());
    assert!(Decimal::parse("abc").is_none());
    assert!(Decimal::parse("1,5").is_none());
    assert!(Decimal::parse("1.2.3").is_none());
    assert!(Decimal::parse("1e3").is_none());
    assert!(Decimal::parse("inf").is_none());
    assert!(Decimal::parse("nan").is_none());
    assert!(Decimal::parse(" 1").is_none());
}

#[test]
fn parse_refuses_too_many_digits_and_too_large_numbers() {
    assert!(Decimal::parse("0.00001").is_none());
    assert!(Decimal::parse("10000000.0001").is_none());
    assert!(Decimal::parse("10000001").is_none());
    assert!(Decimal::parse("99999999999999999999999999999999").is_none());
}

#[test]
fn from_raw_keeps_the_range() {
    assert_eq!(Decimal::from_raw(15_000).unwrap().raw(), 15_000);
    assert!(Decimal::from_raw(100_000_000_000).is_some());
    assert!(Decimal::from_raw(100_000_000_001).is_none());
    assert!(Decimal::from_raw(-100_000_000_001).is_none());
    assert_eq!(Decimal::zero().raw(), 0);
}

#[test]
fn shortest_numeral_drops_trailing_zeros() {
    assert_eq!(dec("2").to_string(), "2");
    assert_eq!(dec("1.50").to_string(), "1.5");
    assert_eq!(dec("0.25").to_string(), "0.25");
    assert_eq!(dec("0.125").to_string(), "0.125");
    assert_eq!(dec("0.0625").to_string(), "0.0625");
    assert_eq!(dec("0.0005").to_string(), "0.0005");
    assert_eq!(dec("-12.3400").to_string(), "-12.34");
    assert_eq!(dec("0").to_string(), "0");
    assert_eq!(dec("100").to_string(), "100");
}

fn fixed2(value: i128, unit: i128) -> String {
    let mut out = String::new();
    push_fixed2(&mut out, value, unit);
    out
}

#[test]
fn two_digits_round_half_away_from_zero() {
    assert_eq!(fixed2(1_234_500, 100), "123.45");
    assert_eq!(fixed2(12_500, 100), "1.25");
    assert_eq!(fixed2(12_550, 100), "1.26");
    assert_eq!(fixed2(12_549, 100), "1.25");
    assert_eq!(fixed2(-12_550, 100), "-1.26");
    assert_eq!(fixed2(-12_549, 100), "-1.25");
    assert_eq!(fixed2(-49, 100), "0.00");
    assert_eq!(fixed2(-50, 100), "-0.01");
    assert_eq!(fixed2(50, 100), "0.01");
    assert_eq!(fixed2(0, 1), "0.00");
    assert_eq!(fixed2(7, 1), "0.07");
    assert_eq!(fixed2(2_500_000_000, 1_000_000), "25.00");
    assert_eq!(fixed2(30_000_000_000_000, 10_000_000_000), "30.00");
}

#[test]
fn total_is_the_sum_of_units_times_price() {
    let tx = vec![
        ("design".to_string(), dec("2"), dec("10.00")),
        ("hosting".to_string(), dec("1"), dec("5.00")),
    ];
    let total = Total::of_lines(&tx).unwrap();
    assert_eq!(total.raw(), 2_500_000_000);
    let rate = dec("0.2");
    assert_eq!(total.tax(&rate), 5_000_000_000_000);
    assert_eq!(total.with_tax(&rate), 30_000_000_000_000);
    assert_eq!(Total::of_lines(&[]).unwrap().raw(), 0);
}

#[test]
fn total_refuses_more_lines_than_a_document_holds() {
    let line = ("x".to_string(), dec("1"), dec("1"));
    let tx = vec![line; 10_001];
    assert!(Total::of_lines(&tx).is_none());
    assert!(Total::of_lines(&tx[..10_000]).is_some());
}
