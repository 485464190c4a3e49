use ringer::text::{
    compare_str, i64_to_string, parse_i32, parse_i64, str_eq, IntError, Precedence,
};

#[test]
fn writes_integers_in_decimal() {
    assert_eq!(i64_to_string(0), "0");
    assert_eq!(i64_to_string(7), "7");
    assert_eq!(i64_to_string(1234567890), "1234567890");
    assert_eq!(i64_to_string(-42), "-42");
    assert_eq!(i64_to_string(i64::MAX), "9223372036854775807");
    assert_eq!(i64_to_string(i64::MIN), "-9223372036854775808");
}

#[test]
fn reads_integers_like_str_parse() {
    assert_eq!(parse_i64("60"), Ok(60));
    assert_eq!(parse_i64("+60"), Ok(60));
    assert_eq!(parse_i64("-60"), Ok(-60));
    assert_eq!(parse_i64("007"), Ok(7));
    assert_eq!(parse_i64("9223372036854775807"), Ok(i64::MAX));
    assert_eq!(parse_i64("-9223372036854775808"), Ok(i64::MIN));
    assert_eq!(parse_i64(""), Err(IntError::Empty));
    assert_eq!(parse_i64("-"), Err(IntError::InvalidDigit));
    assert_eq!(parse_i64("+"), Err(IntError::InvalidDigit));
    assert_eq!(parse_i64("12a"), Err(IntError::InvalidDigit));
    assert_eq!(parse_i64(" 12"), Err(IntError::InvalidDigit));
    assert_eq!(parse_i64("9223372036854775808"), Err(IntError::PosOverflow));
    assert_eq!(parse_i64("-9223372036854775809"), Err(IntError::NegOverflow));
    assert_eq!(parse_i64("99999999999999999999x"), Err(IntError::PosOverflow));
}

#[test]
fn reads_like_the_standard_library() {
    for s in ["", "0", "-0", "+1", "abc", "-", "+", "2147483647", "2147483648", "-2147483648",
              "-2147483649", "12x", "١٢", "9223372036854775807", "9223372036854775808", "+-1"] {
        assert_eq!(parse_i64(s).ok(), s.parse::<i64>().ok(), "{}", s);
        assert_eq!(parse_i32(s).ok(), s.parse::<i32>().ok(), "{}", s);
    }
}

#[test]
fn reads_32_bit_integers() {
    assert_eq!(parse_i32("2147483647"), Ok(i32::MAX));
    assert_eq!(parse_i32("2147483648"), Err(IntError::PosOverflow));
    assert_eq!(parse_i32("-2147483648"), Ok(i32::MIN));
    assert_eq!(parse_i32("-2147483649"), Err(IntError::NegOverflow));
}

#[test]
fn decimal_text_reads_back() {
    for x in [0i64, 1, -1, 59, 60, 1 << 40, i64::MAX, i64::MIN] {
        assert_eq!(parse_i64(&i64_to_string(x)), Ok(x));
    }
    for x in [0i32, 17, -17, i32::MAX, i32::MIN] {
        assert_eq!(parse_i32(&i64_to_string(x as i64)), Ok(x));
    }
}

#[test]
fn compares_strings() {
    assert!(str_eq("abc", "abc"));
    assert!(!str_eq("abc", "abd"));
    assert!(!str_eq("ab", "abc"));
    assert!(str_eq("", ""));
    assert!(str_eq("é", "é"));
    assert_eq!(compare_str("abc", "abd"), Precedence::Before);
    assert_eq!(compare_str("abd", "abc"), Precedence::After);
    assert_eq!(compare_str("ab", "abc"), Precedence::Before);
    assert_eq!(compare_str("abc", "abc"), Precedence::Same);
    assert_eq!(compare_str("Z", "a"), Precedence::Before);
}
