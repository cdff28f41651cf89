use spcplay::text::{append_decimal, append_line, append_signed_decimal};

fn decimal(n: u64) -> String {
    let mut buf = String::new();
    append_decimal(&mut buf, n);
    buf
}

fn signed(n: i32) -> String {
    let mut buf = String::new();
    append_signed_decimal(&mut buf, n);
    buf
}

#[test]
fn decimal_of_small_and_large_numbers() {
    assert_eq!(decimal(0), "0");
    assert_eq!(decimal(7), "7");
    assert_eq!(decimal(9), "9");
    assert_eq!(decimal(10), "10");
    assert_eq!(decimal(255), "255");
    assert_eq!(decimal(1000), "1000");
    assert_eq!(decimal(65535), "65535");
    assert_eq!(decimal(1234567890), "1234567890");
    assert_eq!(decimal(u64::MAX), "18446744073709551615");
}

#[test]
fn decimal_agrees_with_the_standard_formatting() {
    let mut n: u64 = 1;
    for _ in 0..200 {
        assert_eq!(decimal(n), format!("{}", n));
        n = n.wrapping_mul(6364136223846793005).wrapping_add(1442695040888963407);
    }
    for n in 0..1100u64 {
        assert_eq!(decimal(n), format!("{}", n));
    }
}

#[test]
fn signed_decimal_puts_a_minus_before_negative_numbers() {
    assert_eq!(signed(0), "0");
    assert_eq!(signed(42), "42");
    assert_eq!(signed(-1), "-1");
    assert_eq!(signed(-10), "-10");
    assert_eq!(signed(i32::MAX), "2147483647");
    assert_eq!(signed(i32::MIN), "-2147483648");
}

#[test]
fn decimal_appends_to_what_is_there() {
    let mut buf = String::from("x=");
    append_decimal(&mut buf, 305);
    append_signed_decimal(&mut buf, -7);
    assert_eq!(buf, "x=305-7");
}

#[test]
fn line_ends_with_a_line_feed() {
    let mut buf = String::from("a");
    append_line(&mut buf, "bc");
    append_line(&mut buf, "");
    append_line(&mut buf, "d");
    assert_eq!(buf, "abc\n\nd\n");
}
