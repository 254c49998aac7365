use schizoid::text::{
    find_char, i64_to_decimal, parse_id, parse_uint_radix, trim, u64_to_decimal, ParseIntError,
};
use std::num::IntErrorKind;

fn std_u32(s: &str, radix: u32) -> Result<u64, ParseIntError> {
    u32::from_str_radix(s, radix).map(|v| v as u64).map_err(|e| match e.kind() {
        IntErrorKind::Empty => ParseIntError::Empty,
        IntErrorKind::InvalidDigit => ParseIntError::InvalidDigit,
        IntErrorKind::PosOverflow => ParseIntError::PosOverflow,
        IntErrorKind::Zero => ParseIntError::Zero,
        _ => panic!("unexpected error kind"),
    })
}

#[test]
fn parsing_agrees_with_std() {
    let cases = [
        "", "+", "-", "0", "+0", "-0", "007", "12", "+12", " 12", "12 ", "1_0", "4294967295",
        "4294967296", "99999999999999999999", "9x9", "x", "ff", "FF", "fF", "+ff", "g", "٣",
        "12a", "++1", "0x10",
    ];
    for radix in [10u32, 16] {
        for s in cases {
            assert_eq!(parse_uint_radix(s, radix, u32::MAX as u64), std_u32(s, radix), "{s:?} radix {radix}");
        }
    }
}

#[test]
fn overflow_is_reported_before_a_later_bad_digit() {
    assert_eq!(parse_uint_radix("99999999999x", 10, u32::MAX as u64), Err(ParseIntError::PosOverflow));
    assert_eq!(parse_uint_radix("9x99999999999", 10, u32::MAX as u64), Err(ParseIntError::InvalidDigit));
}

#[test]
fn ids_are_nonzero_u64() {
    assert_eq!(parse_id("123456789012345678"), Ok(123456789012345678));
    assert_eq!(parse_id("0"), Err(ParseIntError::Zero));
    assert_eq!(parse_id("18446744073709551615"), Ok(u64::MAX));
    assert_eq!(parse_id("18446744073709551616"), Err(ParseIntError::PosOverflow));
    assert_eq!(parse_id("abc"), Err(ParseIntError::InvalidDigit));
    assert_eq!("0".parse::<std::num::NonZeroU64>().unwrap_err().kind(), &IntErrorKind::Zero);
}

#[test]
fn decimal_printing_agrees_with_display() {
    for n in [0u64, 1, 9, 10, 11, 99, 100, 1234567890, u64::MAX] {
        assert_eq!(u64_to_decimal(n), n.to_string());
    }
    for x in [0i64, -1, 7, -10, i64::MAX, i64::MIN, -1234] {
        assert_eq!(i64_to_decimal(x), x.to_string());
    }
}

#[test]
fn trim_agrees_with_std() {
    let cases = [
        "", "   ", " a ", "\t12/25\n", "\u{a0}x\u{3000}", "a b", "\u{2028}\u{85}q\u{200a}", "\u{200b}x",
        "x\u{fe0f}",
    ];
    for s in cases {
        assert_eq!(trim(s), s.trim(), "{s:?}");
    }
}

#[test]
fn messages_match_std() {
    assert_eq!(ParseIntError::Empty.message(), "".parse::<u32>().unwrap_err().to_string());
    assert_eq!(ParseIntError::InvalidDigit.message(), "x".parse::<u32>().unwrap_err().to_string());
    assert_eq!(ParseIntError::PosOverflow.message(), "99999999999".parse::<u32>().unwrap_err().to_string());
    assert_eq!(
        ParseIntError::Zero.message(),
        "0".parse::<std::num::NonZeroU64>().unwrap_err().to_string()
    );
}

#[test]
fn find_char_gives_first_position() {
    assert_eq!(find_char("12/25/2020", '/'), 2);
    assert_eq!(find_char("1225", '/'), 4);
    assert_eq!(find_char("", '/'), 0);
    assert_eq!(find_char("é/x", '/'), 1);
}
