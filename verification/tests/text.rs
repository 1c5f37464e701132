use newsletter_backend::startup::{bind_address, ApplicationBaseUrl};
use newsletter_backend::text::decimal_string;

#[test]
fn decimal_of_zero_is_one_digit() {
    assert_eq!(decimal_string(0), "0");
}

#[test]
fn decimal_of_single_digits() {
    assert_eq!(decimal_string(7), "7");
    assert_eq!(decimal_string(9), "9");
}

#[test]
fn decimal_has_no_leading_zero_and_keeps_inner_zeros() {
    assert_eq!(decimal_string(10), "10");
    assert_eq!(decimal_string(1005), "1005");
    assert_eq!(decimal_string(5432), "5432");
}

#[test]
fn decimal_of_the_largest_values() {
    assert_eq!(decimal_string(65535), "65535");
    assert_eq!(decimal_string(u64::MAX), "18446744073709551615");
}

#[test]
fn decimal_agrees_with_the_standard_formatting() {
    let mut n: u64 = 1;
    while n < 1_000_000_000_000 {
        assert_eq!(decimal_string(n), format!("{}", n));
        assert_eq!(decimal_string(n - 1), format!("{}", n - 1));
        n = n * 7 + 3;
    }
}

#[test]
fn bind_address_joins_host_and_port() {
    assert_eq!(bind_address("127.0.0.1", 8000), "127.0.0.1:8000");
    assert_eq!(bind_address("localhost", 0), "localhost:0");
    assert_eq!(bind_address("", 65535), ":65535");
}

#[test]
fn base_url_holds_the_text() {
    let url = ApplicationBaseUrl("http://127.0.0.1".to_string());
    assert_eq!(url.0, "http://127.0.0.1");
    assert_eq!(format!("{:?}", url), "ApplicationBaseUrl(\"http://127.0.0.1\")");
}
