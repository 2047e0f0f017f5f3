use loadgen::decimal::decimal_string;
use loadgen::fixed::{fixed_point_string, rounded_quotient, short_decimal_string};
use loadgen::parse::{parse_u64, NumberError};

#[test]
fn decimal_string_writes_plain_numbers() {
    assert_eq!(decimal_string(0), "0");
    assert_eq!(decimal_string(7), "7");
    assert_eq!(decimal_string(10), "10");
    assert_eq!(decimal_string(1234567890), "1234567890");
    assert_eq!(decimal_string(u128::MAX), "340282366920938463463374607431768211455");
}

#[test]
fn fixed_point_string_pads_the_fraction() {
    assert_eq!(fixed_point_string(0, 9), "0.000000000");
    assert_eq!(fixed_point_string(1_500_000_000, 9), "1.500000000");
    assert_eq!(fixed_point_string(100_000_042, 9), "0.100000042");
    assert_eq!(fixed_point_string(1234, 3), "1.234");
    assert_eq!(fixed_point_string(5, 3), "0.005");
    assert_eq!(fixed_point_string(42, 0), "42");
}

#[test]
fn rounded_quotient_rounds_to_the_nearest() {
    assert_eq!(rounded_quotient(1499, 1000), 1);
    assert_eq!(rounded_quotient(1501, 1000), 2);
    assert_eq!(rounded_quotient(0, 10), 0);
    assert_eq!(rounded_quotient(4, 10), 0);
    assert_eq!(rounded_quotient(6, 10), 1);
    assert_eq!(rounded_quotient(u128::MAX, 1), u128::MAX);
    assert_eq!(rounded_quotient(7, 7), 1);
}

#[test]
fn rounded_quotient_rounds_halves_to_the_even_side() {
    assert_eq!(rounded_quotient(500, 1000), 0);
    assert_eq!(rounded_quotient(1500, 1000), 2);
    assert_eq!(rounded_quotient(2500, 1000), 2);
    assert_eq!(rounded_quotient(3500, 1000), 4);
    assert_eq!(rounded_quotient(5, 10), 0);
    assert_eq!(rounded_quotient(15, 10), 2);
    assert_eq!(rounded_quotient(1, 2), 0);
    assert_eq!(rounded_quotient(3, 2), 2);
    assert_eq!(rounded_quotient(u128::MAX, 2), u128::MAX / 2 + 1);
}

#[test]
fn rounded_quotient_rounds_as_float_formatting_does() {
    assert_eq!(format!("{:.0}", 0.5f64), rounded_quotient(500, 1000).to_string());
    assert_eq!(format!("{:.0}", 1.5f64), rounded_quotient(1500, 1000).to_string());
    assert_eq!(format!("{:.0}", 2.5f64), rounded_quotient(2500, 1000).to_string());
    assert_eq!(format!("{:.0}", 3.5f64), rounded_quotient(3500, 1000).to_string());
    assert_eq!(format!("{:.0}", 2.501f64), rounded_quotient(2501, 1000).to_string());
    assert_eq!(format!("{:.0}", 2.499f64), rounded_quotient(2499, 1000).to_string());
}

#[test]
fn parse_u64_reads_digits() {
    assert_eq!(parse_u64("0"), Ok(0));
    assert_eq!(parse_u64("42"), Ok(42));
    assert_eq!(parse_u64("+42"), Ok(42));
    assert_eq!(parse_u64("007"), Ok(7));
    assert_eq!(parse_u64("18446744073709551615"), Ok(u64::MAX));
}

#[test]
fn parse_u64_names_each_error() {
    assert_eq!(parse_u64(""), Err(NumberError::Empty));
    assert_eq!(parse_u64("+"), Err(NumberError::InvalidDigit));
    assert_eq!(parse_u64("-"), Err(NumberError::InvalidDigit));
    assert_eq!(parse_u64("-5"), Err(NumberError::InvalidDigit));
    assert_eq!(parse_u64("12a"), Err(NumberError::InvalidDigit));
    assert_eq!(parse_u64(" 1"), Err(NumberError::InvalidDigit));
    assert_eq!(parse_u64("1_000"), Err(NumberError::InvalidDigit));
    assert_eq!(parse_u64("++1"), Err(NumberError::InvalidDigit));
    assert_eq!(parse_u64("٣"), Err(NumberError::InvalidDigit));
    assert_eq!(parse_u64("18446744073709551616"), Err(NumberError::Overflow));
    assert_eq!(parse_u64("99999999999999999999999"), Err(NumberError::Overflow));
}

#[test]
fn parse_u64_reports_the_first_obstacle() {
    assert_eq!(parse_u64("99999999999999999999999x"), Err(NumberError::Overflow));
    assert_eq!(parse_u64("9x9999999999999999999999"), Err(NumberError::InvalidDigit));
}

#[test]
fn parse_u64_agrees_with_std() {
    let texts = [
        "", "0", "1", "+1", "-1", "+", "-", "12a", "a12", "18446744073709551615",
        "18446744073709551616", "000000000000000000000000001", "99999999999999999999999x",
        "1 ", " 1", "+-1", "1e3", "0x10",
    ];
    for text in texts {
        let std_says: Result<u64, _> = text.parse::<u64>();
        let ours = parse_u64(text);
        match (std_says, ours) {
            (Ok(a), Ok(b)) => assert_eq!(a, b),
            (Err(e), Err(ours)) => {
                let same = match e.kind() {
                    std::num::IntErrorKind::Empty => ours == NumberError::Empty,
                    std::num::IntErrorKind::InvalidDigit => ours == NumberError::InvalidDigit,
                    std::num::IntErrorKind::PosOverflow => ours == NumberError::Overflow,
                    _ => false,
                };
                assert!(same, "{:?} on {:?}", ours, text);
            }
            (a, b) => panic!("{:?} against {:?} on {:?}", a, b, text),
        }
    }
}

#[test]
fn decimal_string_reads_back() {
    for n in [0u64, 1, 9, 10, 99, 100, 12345, u64::MAX] {
        assert_eq!(parse_u64(&decimal_string(n as u128)), Ok(n));
    }
}

#[test]
fn number_error_says_what_is_wrong() {
    assert_eq!(NumberError::Empty.message(), "cannot parse integer from empty string");
    assert_eq!(NumberError::InvalidDigit.message(), "invalid digit found in string");
    assert_eq!(NumberError::Overflow.message(), "number too large to fit in target type");
}

#[test]
fn short_decimal_string_leaves_out_what_says_nothing() {
    assert_eq!(short_decimal_string(0, 9), "0");
    assert_eq!(short_decimal_string(0, 0), "0");
    assert_eq!(short_decimal_string(1_000_000_000, 9), "1");
    assert_eq!(short_decimal_string(1_500_000_000, 9), "1.5");
    assert_eq!(short_decimal_string(500_000_000, 9), "0.5");
    assert_eq!(short_decimal_string(1, 9), "0.000000001");
    assert_eq!(short_decimal_string(100_000_042, 9), "0.100000042");
    assert_eq!(short_decimal_string(100, 3), "0.1");
    assert_eq!(short_decimal_string(1_230, 3), "1.23");
    assert_eq!(short_decimal_string(8_250, 3), "8.25");
    assert_eq!(short_decimal_string(1_001, 3), "1.001");
}

#[test]
fn short_decimal_string_keeps_the_zeros_of_the_whole_part() {
    assert_eq!(short_decimal_string(42, 0), "42");
    assert_eq!(short_decimal_string(10, 0), "10");
    assert_eq!(short_decimal_string(10_000, 3), "10");
    assert_eq!(short_decimal_string(100_500, 3), "100.5");
    assert_eq!(short_decimal_string(u128::MAX, 3), "340282366920938463463374607431768211.455");
    assert_eq!(short_decimal_string(1_000, 5), "0.01");
}
