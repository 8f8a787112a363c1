use fluxcd::meta::formatting::{frac, integer};
use fluxcd::meta::scan::{leading_fractions, leading_ints, unit_base};
use fluxcd::text::{bytes_equal, reversed, str_equal};

fn forward(buf: &[u8]) -> String {
    String::from_utf8(buf.iter().rev().copied().collect()).unwrap()
}

#[test]
fn text_helpers_compare_and_reverse() {
    assert!(bytes_equal(b"", b""));
    assert!(bytes_equal(b"abc", b"abc"));
    assert!(!bytes_equal(b"abc", b"abd"));
    assert!(!bytes_equal(b"abc", b"ab"));
    assert!(!bytes_equal(b"", b"a"));
    assert!(str_equal("µs", "µs"));
    assert!(!str_equal("µs", "μs"));
    assert!(!str_equal("us", "µs"));
    assert_eq!(reversed(&b"abc".to_vec()), b"cba".to_vec());
    assert_eq!(reversed(&Vec::new()), Vec::<u8>::new());
}

#[test]
fn integer_writes_decimal_digits_in_reverse() {
    let mut buf = b"x".to_vec();
    integer(&mut buf, 0);
    assert_eq!(buf, b"x0".to_vec());
    integer(&mut buf, 1203);
    assert_eq!(buf, b"x03021".to_vec());
    let mut buf = Vec::new();
    integer(&mut buf, u64::MAX);
    assert_eq!(forward(&buf), "18446744073709551615");
}

#[test]
fn frac_writes_the_fraction_without_trailing_zeros() {
    let mut buf = Vec::new();
    assert_eq!(frac(&mut buf, 1_500_000, 6), 1);
    assert_eq!(forward(&buf), ".5");

    let mut buf = Vec::new();
    assert_eq!(frac(&mut buf, 12_345, 3), 12);
    assert_eq!(forward(&buf), ".345");

    let mut buf = Vec::new();
    assert_eq!(frac(&mut buf, 12_000, 3), 12);
    assert_eq!(forward(&buf), "");

    let mut buf = Vec::new();
    assert_eq!(frac(&mut buf, 1_000_000_001, 9), 1);
    assert_eq!(forward(&buf), ".000000001");

    let mut buf = Vec::new();
    assert_eq!(frac(&mut buf, 120_030, 6), 0);
    assert_eq!(forward(&buf), ".12003");

    let mut buf = b"s".to_vec();
    assert_eq!(frac(&mut buf, 987, 0), 987);
    assert_eq!(buf, b"s".to_vec());
    assert_eq!(frac(&mut buf, 987, -4), 987);
    assert_eq!(buf, b"s".to_vec());

    let mut buf = Vec::new();
    assert_eq!(frac(&mut buf, 7, 25), 0);
    assert_eq!(forward(&buf), ".0000000000000000000000007");
}

#[test]
fn leading_ints_reads_digits_or_overflows() {
    assert_eq!(leading_ints(b"123abc", 0), Some((123, 3)));
    assert_eq!(leading_ints(b"123abc", 1), Some((23, 3)));
    assert_eq!(leading_ints(b"123abc", 3), Some((0, 3)));
    assert_eq!(leading_ints(b"123", 3), Some((0, 3)));
    assert_eq!(leading_ints(b"", 0), Some((0, 0)));
    assert_eq!(leading_ints(b"007", 0), Some((7, 3)));
    assert_eq!(leading_ints(b"18446744073709551615s", 0), Some((u64::MAX, 20)));
    assert_eq!(leading_ints(b"18446744073709551616s", 0), None);
    assert_eq!(leading_ints(b"99999999999999999999999", 0), None);
}

#[test]
fn leading_fractions_stops_at_overflow() {
    assert_eq!(leading_fractions(b"0.25s", 2), (25, 2, 4));
    assert_eq!(leading_fractions(b"0.s", 2), (0, 0, 2));
    assert_eq!(leading_fractions(b"0.000s", 2), (0, 3, 5));
    assert_eq!(leading_fractions(b"18446744073709551615", 0), (u64::MAX, 20, 20));
    assert_eq!(leading_fractions(b"18446744073709551616", 0), (1844674407370955161, 19, 20));
    assert_eq!(
        leading_fractions(b"184467440737095516160000001h", 0),
        (1844674407370955161, 19, 27)
    );
}

#[test]
fn unit_base_knows_the_units() {
    assert_eq!(unit_base(b"ns"), Some(1));
    assert_eq!(unit_base(b"us"), Some(1_000));
    assert_eq!(unit_base("µs".as_bytes()), Some(1_000));
    assert_eq!(unit_base("μs".as_bytes()), Some(1_000));
    assert_eq!(unit_base(b"\xC2\xB5s"), Some(1_000));
    assert_eq!(unit_base(b"\xCE\xBCs"), Some(1_000));
    assert_eq!(unit_base(b"ms"), Some(1_000_000));
    assert_eq!(unit_base(b"s"), Some(1_000_000_000));
    assert_eq!(unit_base(b"m"), Some(60_000_000_000));
    assert_eq!(unit_base(b"h"), Some(3_600_000_000_000));
    for unknown in [&b""[..], b"d", b"S", b"sm", b"hs", b"mss", b"\xC2\xB5", b"\xCE\xB5s", b"secs"] {
        assert_eq!(unit_base(unknown), None, "{unknown:?}");
    }
}
