use e6dl::text::{decimal_string, parse_u32, starts_with, str_eq};

#[test]
fn decimal_string_writes_single_digits() {
    for (n, s) in [(0u64, "0"), (1, "1"), (5, "5"), (9, "9")] {
        assert_eq!(decimal_string(n), s);
    }
}

#[test]
fn decimal_string_writes_longer_numbers() {
    assert_eq!(decimal_string(10), "10");
    assert_eq!(decimal_string(42), "42");
    assert_eq!(decimal_string(100), "100");
    assert_eq!(decimal_string(1234567890), "1234567890");
    assert_eq!(decimal_string(4294967295), "4294967295");
    assert_eq!(decimal_string(4294967296), "4294967296");
    assert_eq!(decimal_string(u64::MAX), "18446744073709551615");
}

#[test]
fn decimal_string_agrees_with_the_standard_library() {
    let mut n: u64 = 0;
    while n < 3000 {
        assert_eq!(decimal_string(n), n.to_string());
        n += 1;
    }
    let mut m: u64 = 1;
    while m < u64::MAX / 7 {
        assert_eq!(decimal_string(m), m.to_string());
        assert_eq!(decimal_string(m - 1), (m - 1).to_string());
        m *= 7;
    }
}

#[test]
fn parse_u32_reads_plain_numbers() {
    assert_eq!(parse_u32("0"), Some(0));
    assert_eq!(parse_u32("1"), Some(1));
    assert_eq!(parse_u32("12"), Some(12));
    assert_eq!(parse_u32("320"), Some(320));
    assert_eq!(parse_u32("4294967295"), Some(u32::MAX));
}

#[test]
fn parse_u32_accepts_a_plus_and_leading_zeros() {
    assert_eq!(parse_u32("+5"), Some(5));
    assert_eq!(parse_u32("007"), Some(7));
    assert_eq!(parse_u32("+007"), Some(7));
    assert_eq!(parse_u32("0000000000000000000001"), Some(1));
}

#[test]
fn parse_u32_refuses_numbers_that_do_not_fit() {
    assert_eq!(parse_u32("4294967296"), None);
    assert_eq!(parse_u32("4294967300"), None);
    assert_eq!(parse_u32("99999999999999999999999999"), None);
    assert_eq!(parse_u32("18446744073709551616"), None);
}

#[test]
fn parse_u32_refuses_what_is_no_number() {
    for s in ["", "+", "-", "-1", "-0", "++1", "+-1", "a13", "b13", "13a", "1 2", " 12", "12 ", "1.5", "0x10", "１２", "٣"] {
        assert_eq!(parse_u32(s), None, "{:?}", s);
    }
}

#[test]
fn parse_u32_agrees_with_the_standard_library() {
    let samples = [
        "", "0", "00", "+", "+0", "-0", "1", "+1", "-1", "42", "a13", "b7", "4294967295", "4294967296",
        "04294967295", "+4294967295", "42949672950", "3 ", " 3", "3\n", "é", "1é", "12345678901234567890123",
    ];
    for s in samples {
        assert_eq!(parse_u32(s), s.parse::<u32>().ok(), "{:?}", s);
    }
    let mut n: u32 = 0;
    while n < 2000 {
        assert_eq!(parse_u32(&n.to_string()), Some(n));
        n += 1;
    }
}

#[test]
fn parse_u32_reads_back_what_decimal_string_writes() {
    for n in [0u32, 1, 9, 10, 99, 100, 65535, 65536, 1_000_000, u32::MAX - 1, u32::MAX] {
        assert_eq!(parse_u32(&decimal_string(n as u64)), Some(n));
    }
}

#[test]
fn str_eq_compares_characters() {
    assert!(str_eq("", ""));
    assert!(str_eq("pool", "pool"));
    assert!(str_eq("é→x", "é→x"));
    assert!(!str_eq("pool", "pools"));
    assert!(!str_eq("pools", "pool"));
    assert!(!str_eq("pool", "poo1"));
    assert!(!str_eq("", "a"));
    assert!(!str_eq("Pool", "pool"));
}

#[test]
fn starts_with_finds_prefixes() {
    assert!(starts_with("tag:wolf", "tag:"));
    assert!(starts_with("tag:", "tag:"));
    assert!(starts_with("anything", ""));
    assert!(starts_with("", ""));
    assert!(!starts_with("tag", "tag:"));
    assert!(!starts_with("", "tag:"));
    assert!(!starts_with("xtag:wolf", "tag:"));
    assert!(!starts_with("tgg:wolf", "tag:"));
    assert!(starts_with("éa", "é"));
}
