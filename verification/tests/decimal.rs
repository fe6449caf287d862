use fusefs::decimal::{parse_decimal, to_decimal};
use fusefs::store::etcd_store::{ino_key, key_ino};

#[test]
fn decimal_of_small_and_large_numbers() {
    assert_eq!(to_decimal(0), "0");
    assert_eq!(to_decimal(7), "7");
    assert_eq!(to_decimal(10), "10");
    assert_eq!(to_decimal(1234567890), "1234567890");
    assert_eq!(to_decimal(u64::MAX), "18446744073709551615");
}

#[test]
fn decimal_agrees_with_the_standard_notation() {
    for n in [0u64, 1, 9, 10, 99, 100, 101, 4096, 65535, 1 << 40, u64::MAX - 1] {
        assert_eq!(to_decimal(n), n.to_string());
    }
}

#[test]
fn parse_reads_digits_only() {
    assert_eq!(parse_decimal("0"), Some(0));
    assert_eq!(parse_decimal("42"), Some(42));
    assert_eq!(parse_decimal("007"), Some(7));
    assert_eq!(parse_decimal("18446744073709551615"), Some(u64::MAX));
    assert_eq!(parse_decimal(""), None);
    assert_eq!(parse_decimal("+1"), None);
    assert_eq!(parse_decimal("-1"), None);
    assert_eq!(parse_decimal("1 "), None);
    assert_eq!(parse_decimal("12a"), None);
    assert_eq!(parse_decimal("١٢"), None);
}

#[test]
fn parse_refuses_what_does_not_fit() {
    assert_eq!(parse_decimal("18446744073709551616"), None);
    assert_eq!(parse_decimal("99999999999999999999"), None);
    assert_eq!(parse_decimal("184467440737095516150"), None);
    assert_eq!(parse_decimal("000000000000000000000000001"), Some(1));
}

#[test]
fn key_of_an_identifier_reads_back() {
    for ino in [1u64, 2, 3, 10, 255, 1000, u64::MAX] {
        assert_eq!(key_ino(&ino_key(ino)), Some(ino));
    }
    assert_eq!(ino_key(1), "1");
    assert_eq!(ino_key(120), "120");
    assert_eq!(key_ino("x"), None);
}
