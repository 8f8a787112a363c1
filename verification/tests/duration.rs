use fluxcd::meta::duration::Duration;
use fluxcd::meta::grammar::Term;
use fluxcd::meta::parse_error::DurationParseError;

fn scaled_fraction(term: &Term) -> u64 {
    let mut scale = 1f64;
    for _ in 0..term.fraction_digits {
        scale *= 10f64;
    }
    ((term.fraction as f64) * ((term.unit as f64) / scale)) as u64
}

fn parse(text: &str) -> Result<Duration, DurationParseError> {
    let scan = Duration::scan(text);
    let parts: Vec<u64> = scan.terms().iter().map(scaled_fraction).collect();
    scan.resolve(&parts)
}

fn check_representation(string: &str, nanoseconds: i64) {
    let duration = Duration::from_nanoseconds(nanoseconds);

    assert_eq!(string, &*duration.to_string());

    let parsed = parse(string).expect("should parse");
    assert_eq!(duration, parsed);

    let round_tripped = Duration::try_from_time(duration.into_time()).expect("round trip");
    assert_eq!(round_tripped, duration);
}

#[test]
fn duration_string_representation_zero() {
    check_representation("0s", 0);
}

#[test]
fn duration_string_representation_nanosecond() {
    check_representation("1ns", Duration::NANOSECOND);
}

#[test]
fn duration_string_representation_microseconds() {
    check_representation("1.1µs", 1100 * Duration::NANOSECOND);
}

#[test]
fn duration_string_representation_milliseconds() {
    check_representation("2.2ms", 2200 * Duration::MICROSECOND);
}

#[test]
fn duration_string_representation_seconds() {
    check_representation("3.3s", 3300 * Duration::MILLISECOND);
}

#[test]
fn duration_string_representation_minutes() {
    check_representation("4m5s", 4 * Duration::MINUTE + 5 * Duration::SECOND);
}

#[test]
fn duration_string_representation_minutes_fraction() {
    check_representation("4m5.001s", 4 * Duration::MINUTE + 5001 * Duration::MILLISECOND);
}

#[test]
fn duration_string_representation_hours() {
    check_representation(
        "5h6m7.001s",
        5 * Duration::HOUR + 6 * Duration::MINUTE + 7001 * Duration::MILLISECOND,
    );
}

#[test]
fn duration_string_representation_small_fraction() {
    check_representation("8m0.000000001s", 8 * Duration::MINUTE + Duration::NANOSECOND);
}

#[test]
fn duration_string_representation_max() {
    check_representation("2562047h47m16.854775807s", Duration::MAX);
}

#[test]
fn duration_string_representation_min() {
    check_representation("-2562047h47m16.854775808s", Duration::MIN);
}

#[test]
fn duration_units_are_counted_toward_zero() {
    let d = Duration::from_nanoseconds(-1_999_999_999);
    assert_eq!(d.nanoseconds(), -1_999_999_999);
    assert_eq!(d.microseconds(), -1_999_999);
    assert_eq!(d.milliseconds(), -1_999);
    assert_eq!(d.whole_seconds(), -1);
    assert_eq!(d.seconds_and_nanoseconds(), (-1, -999_999_999));

    let d = Duration::from_nanoseconds(2_500_000_001);
    assert_eq!(d.microseconds(), 2_500_000);
    assert_eq!(d.milliseconds(), 2_500);
    assert_eq!(d.whole_seconds(), 2);
    assert_eq!(d.seconds_and_nanoseconds(), (2, 500_000_001));
}

#[test]
fn duration_text_keeps_inner_zero_units() {
    assert_eq!(Duration::from_nanoseconds(Duration::HOUR).to_string(), "1h0m0s");
    assert_eq!(Duration::from_nanoseconds(Duration::MINUTE).to_string(), "1m0s");
    assert_eq!(
        Duration::from_nanoseconds(72 * Duration::HOUR + 3 * Duration::MINUTE + 500_000_000)
            .to_string(),
        "72h3m0.5s"
    );
    assert_eq!(Duration::from_nanoseconds(-1_500_000).to_string(), "-1.5ms");
    assert_eq!(Duration::from_nanoseconds(999).to_string(), "999ns");
    assert_eq!(Duration::from_nanoseconds(1_000).to_string(), "1µs");
    assert_eq!(Duration::from_nanoseconds(100_000_000).to_string(), "100ms");
    assert_eq!(Duration::from_nanoseconds(1_000_000_000).to_string(), "1s");
    assert_eq!(Duration::from_nanoseconds(10_000_000_000).to_string(), "10s");
}

#[test]
fn duration_from_whole_nanoseconds_checks_the_range() {
    assert_eq!(
        Duration::try_from_whole_nanoseconds(i64::MAX as i128).unwrap(),
        Duration::from_nanoseconds(Duration::MAX)
    );
    assert_eq!(
        Duration::try_from_whole_nanoseconds(i64::MIN as i128).unwrap(),
        Duration::from_nanoseconds(Duration::MIN)
    );
    assert!(Duration::try_from_whole_nanoseconds(i64::MAX as i128 + 1).is_err());
    assert!(Duration::try_from_whole_nanoseconds(i64::MIN as i128 - 1).is_err());
}

#[test]
fn duration_converts_to_and_from_time() {
    let span = Duration::from_nanoseconds(-1_500_000_001).into_time();
    assert_eq!(span, time::Duration::new(-1, -500_000_001));
    assert_eq!(span.whole_nanoseconds(), -1_500_000_001);
    assert_eq!(
        Duration::from_nanoseconds(Duration::MAX).into_time(),
        time::Duration::nanoseconds(i64::MAX)
    );
    assert_eq!(
        Duration::try_from_time(time::Duration::new(2, 5)).unwrap(),
        Duration::from_nanoseconds(2_000_000_005)
    );
    assert_eq!(
        Duration::try_from_time(time::Duration::new(3, -5)).unwrap(),
        Duration::from_nanoseconds(2_999_999_995)
    );
    assert!(Duration::try_from_time(time::Duration::MAX).is_err());
    assert!(Duration::try_from_time(time::Duration::MIN).is_err());
    assert!(Duration::try_from_time(time::Duration::new(9_223_372_036, 854_775_808)).is_err());
    assert_eq!(
        Duration::try_from_time(time::Duration::new(9_223_372_036, 854_775_807)).unwrap(),
        Duration::from_nanoseconds(Duration::MAX)
    );
}

#[test]
fn duration_parse_takes_signs_and_all_units() {
    assert_eq!(parse("0").unwrap(), Duration::from_nanoseconds(0));
    assert_eq!(parse("-0").unwrap(), Duration::from_nanoseconds(0));
    assert_eq!(parse("+0").unwrap(), Duration::from_nanoseconds(0));
    assert_eq!(parse("+5s").unwrap(), Duration::from_nanoseconds(5 * Duration::SECOND));
    assert_eq!(parse("-5s").unwrap(), Duration::from_nanoseconds(-5 * Duration::SECOND));
    assert_eq!(parse("3ns").unwrap(), Duration::from_nanoseconds(3));
    assert_eq!(parse("3us").unwrap(), Duration::from_nanoseconds(3_000));
    assert_eq!(parse("3µs").unwrap(), Duration::from_nanoseconds(3_000));
    assert_eq!(parse("3μs").unwrap(), Duration::from_nanoseconds(3_000));
    assert_eq!(parse("3ms").unwrap(), Duration::from_nanoseconds(3_000_000));
    assert_eq!(parse("3m").unwrap(), Duration::from_nanoseconds(3 * Duration::MINUTE));
    assert_eq!(parse("3h").unwrap(), Duration::from_nanoseconds(3 * Duration::HOUR));
    assert_eq!(parse("1.5h").unwrap(), Duration::from_nanoseconds(90 * Duration::MINUTE));
    assert_eq!(parse(".5s").unwrap(), Duration::from_nanoseconds(500_000_000));
    assert_eq!(parse("5.s").unwrap(), Duration::from_nanoseconds(5 * Duration::SECOND));
    assert_eq!(
        parse("1h2m3s4ms5us6ns").unwrap(),
        Duration::from_nanoseconds(
            Duration::HOUR + 2 * Duration::MINUTE + 3 * Duration::SECOND + 4_005_006
        )
    );
    assert_eq!(parse("1s1s").unwrap(), Duration::from_nanoseconds(2 * Duration::SECOND));
}

#[test]
fn duration_scan_finds_terms() {
    let scan = Duration::scan("-1.25h30m");
    assert_eq!(
        scan.terms(),
        &vec![
            Term { whole: 1, fraction: 25, fraction_digits: 2, unit: 3_600_000_000_000 },
            Term { whole: 30, fraction: 0, fraction_digits: 0, unit: 60_000_000_000 },
        ]
    );
    let resolved = scan.resolve(&vec![900_000_000_000, 0]).unwrap();
    assert_eq!(resolved, Duration::from_nanoseconds(-(105 * Duration::MINUTE)));
}

#[test]
fn duration_scan_stops_taking_fraction_digits_that_overflow() {
    let scan = Duration::scan("0.184467440737095516159s");
    assert_eq!(
        scan.terms(),
        &vec![Term {
            whole: 0,
            fraction: 18446744073709551615,
            fraction_digits: 20,
            unit: 1_000_000_000
        }]
    );
    let scan = Duration::scan("0.184467440737095516165s");
    assert_eq!(
        scan.terms(),
        &vec![Term {
            whole: 0,
            fraction: 1844674407370955161,
            fraction_digits: 19,
            unit: 1_000_000_000
        }]
    );
    let scan = Duration::scan("1.000s");
    assert_eq!(
        scan.terms(),
        &vec![Term { whole: 1, fraction: 0, fraction_digits: 3, unit: 1_000_000_000 }]
    );
    assert_eq!(scan.resolve(&vec![77]).unwrap(), Duration::from_nanoseconds(Duration::SECOND));
}

#[test]
fn duration_parse_refuses_what_is_invalid() {
    for text in ["", "-", "+", "s", "-s", ".s", "-.s", "1.s.", "x1s", " 1s", "--1s", "+-1s", "1s."] {
        let error = parse(text).unwrap_err();
        assert!(matches!(error, DurationParseError::Invalid { .. }), "{text:?}: {error:?}");
        assert_eq!(error.input(), text);
        assert_eq!(error.to_string(), format!("invalid duration '{text}'"));
    }
}

#[test]
fn duration_parse_refuses_a_number_without_unit() {
    for text in ["1", "1s2", "1.5", "3h.5", "01", "00"] {
        let error = parse(text).unwrap_err();
        assert!(matches!(error, DurationParseError::MissingUnit { .. }), "{text:?}: {error:?}");
        assert_eq!(error.input(), text);
        assert_eq!(error.to_string(), format!("missing unit in duration '{text}'"));
    }
}

#[test]
fn duration_parse_refuses_an_unknown_unit() {
    let error = parse("1d").unwrap_err();
    match &error {
        DurationParseError::UnknownUnit { input, unit } => {
            assert_eq!(input, "1d");
            assert_eq!(unit, "d");
        }
        other => panic!("{other:?}"),
    }
    assert_eq!(error.input(), "1d");
    assert_eq!(error.to_string(), "unknown unit 'd' in duration '1d'");

    let error = parse("3h4 weeks5s").unwrap_err();
    match &error {
        DurationParseError::UnknownUnit { unit, .. } => assert_eq!(unit, " weeks"),
        other => panic!("{other:?}"),
    }

    let error = parse("1s ").unwrap_err();
    match &error {
        DurationParseError::UnknownUnit { unit, .. } => assert_eq!(unit, "s "),
        other => panic!("{other:?}"),
    }

    let error = parse("1µ").unwrap_err();
    match &error {
        DurationParseError::UnknownUnit { unit, .. } => assert_eq!(unit, "µ"),
        other => panic!("{other:?}"),
    }
}

#[test]
fn duration_error_reports_a_unit_that_is_no_text() {
    let error = DurationParseError::unknown_unit(&[0x61, 0xff, 0x62], "1a?b");
    match &error {
        DurationParseError::UnknownUnit { input, unit } => {
            assert_eq!(input, "1a?b");
            assert_eq!(unit, "a\u{fffd}b");
        }
        other => panic!("{other:?}"),
    }
    let error = DurationParseError::unknown_unit(&[0xce], "x");
    match &error {
        DurationParseError::UnknownUnit { unit, .. } => assert_eq!(unit, "\u{fffd}"),
        other => panic!("{other:?}"),
    }
    assert_eq!(DurationParseError::invalid("abc").input(), "abc");
    assert_eq!(DurationParseError::missing_unit("12").input(), "12");
}

#[test]
fn duration_parse_refuses_what_is_out_of_range() {
    // the number before the point is beyond a u64
    assert!(matches!(
        parse("18446744073709551616ns").unwrap_err(),
        DurationParseError::Invalid { .. }
    ));
    assert_eq!(parse("9223372036854775807ns").unwrap(), Duration::from_nanoseconds(i64::MAX));
    assert_eq!(parse("-9223372036854775808ns").unwrap(), Duration::from_nanoseconds(i64::MIN));
    // the sum is beyond an i64
    assert!(matches!(
        parse("9223372036854775808ns").unwrap_err(),
        DurationParseError::Invalid { .. }
    ));
    assert!(matches!(
        parse("-9223372036854775809ns").unwrap_err(),
        DurationParseError::Invalid { .. }
    ));
    // a term is beyond a u64
    assert!(matches!(parse("5124096h").unwrap_err(), DurationParseError::Invalid { .. }));
    // the sum is beyond a u64
    assert!(matches!(
        parse("18446744073709551615ns1ns").unwrap_err(),
        DurationParseError::Invalid { .. }
    ));
    // an overflow comes before the flaw of a later piece
    assert!(matches!(
        parse("18446744073709551615ns1ns1d").unwrap_err(),
        DurationParseError::Invalid { .. }
    ));
    // a flaw comes before what follows it
    assert!(matches!(
        parse("1d18446744073709551616ns").unwrap_err(),
        DurationParseError::UnknownUnit { .. }
    ));
}

#[test]
fn duration_orders_by_length() {
    let short = Duration::from_nanoseconds(-5);
    let long = Duration::from_nanoseconds(7);
    assert!(short < long);
    assert_eq!(short.max(long), long);
    assert_eq!(short, Duration::from_nanoseconds(-5));
}

fn exact_fraction(term: &Term) -> u64 {
    let mut scale = 1u128;
    for _ in 0..term.fraction_digits {
        scale *= 10;
    }
    ((term.fraction as u128) * (term.unit as u128) / scale) as u64
}

#[test]
fn duration_text_reads_back() {
    let mut samples = vec![
        0,
        1,
        -1,
        999,
        1_000,
        1_001,
        999_999,
        1_000_000,
        1_234_567,
        999_999_999,
        1_000_000_000,
        1_000_000_001,
        59_999_999_999,
        60_000_000_000,
        3_599_999_999_999,
        3_600_000_000_000,
        3_600_000_000_001,
        86_400_000_000_000,
        i64::MAX,
        i64::MIN,
        i64::MIN + 1,
    ];
    let mut x: i64 = 0x2545_F491_4F6C_DD1D;
    for step in 0..2_000 {
        x ^= x << 13;
        x ^= ((x as u64) >> 7) as i64;
        x ^= x << 17;
        samples.push(x >> (step % 64));
    }
    for nanoseconds in samples {
        let duration = Duration::from_nanoseconds(nanoseconds);
        let text = duration.to_string();
        let scan = Duration::scan(&text);
        let exact: Vec<u64> = scan.terms().iter().map(exact_fraction).collect();
        let scaled: Vec<u64> = scan.terms().iter().map(scaled_fraction).collect();
        assert_eq!(exact, scaled, "{text}");
        assert_eq!(scan.resolve(&exact).unwrap(), duration, "{text}");
    }
}
