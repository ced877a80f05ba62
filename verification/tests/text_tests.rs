use deepfilter_audio::text::{parse_unsigned_span, parse_usize, IntErrorKind};

fn std_usize(s: &str) -> Result<usize, String> {
    s.parse::<usize>().map_err(|e| e.to_string())
}

fn ours_usize(s: &str) -> Result<usize, String> {
    parse_usize(s).map_err(|k| k.message().to_string())
}

#[test]
fn parse_usize_accepts_plain_and_plus_signed_numbers() {
    assert_eq!(parse_usize("480"), Ok(480));
    assert_eq!(parse_usize("+5"), Ok(5));
    assert_eq!(parse_usize("007"), Ok(7));
    assert_eq!(parse_usize("0"), Ok(0));
}

#[test]
fn parse_usize_refuses_what_str_parse_refuses() {
    for s in ["", "+", "-", "-1", " 5", "5 ", "12a", "++5", "4.5", "٣"] {
        assert!(parse_usize(s).is_err(), "{s:?}");
        assert_eq!(ours_usize(s), std_usize(s), "{s:?}");
    }
}

#[test]
fn parse_usize_reports_the_kind_of_error() {
    assert_eq!(parse_usize(""), Err(IntErrorKind::Empty));
    assert_eq!(parse_usize("+"), Err(IntErrorKind::InvalidDigit));
    assert_eq!(parse_usize("-"), Err(IntErrorKind::InvalidDigit));
    assert_eq!(parse_usize("12a"), Err(IntErrorKind::InvalidDigit));
    assert_eq!(parse_usize("99999999999999999999"), Err(IntErrorKind::PosOverflow));
    // The first fault from the left decides.
    assert_eq!(parse_usize("99999999999999999999x"), Err(IntErrorKind::PosOverflow));
    assert_eq!(parse_usize("9x9999999999999999999"), Err(IntErrorKind::InvalidDigit));
    for s in ["99999999999999999999x", "9x9999999999999999999", "", "+"] {
        assert_eq!(ours_usize(s), std_usize(s), "{s:?}");
    }
}

#[test]
fn int_error_messages_are_those_of_std() {
    assert_eq!(IntErrorKind::Empty.message(), "cannot parse integer from empty string");
    assert_eq!(IntErrorKind::InvalidDigit.message(), "invalid digit found in string");
    assert_eq!(IntErrorKind::PosOverflow.message(), "number too large to fit in target type");
}

#[test]
fn parse_usize_agrees_with_std_at_the_limits() {
    let max = usize::MAX.to_string();
    assert_eq!(parse_usize(&max), Ok(usize::MAX));
    let over = format!("{}0", max);
    assert_eq!(parse_usize(&over), Err(IntErrorKind::PosOverflow));
    assert_eq!(ours_usize("18446744073709551616"), std_usize("18446744073709551616"));
}

#[test]
fn parse_unsigned_span_reads_a_slice_of_characters() {
    let s = "cpu 123 456";
    assert_eq!(parse_unsigned_span(s, 4, 7, u64::MAX), Ok(123));
    assert_eq!(parse_unsigned_span(s, 8, 11, u64::MAX), Ok(456));
    assert_eq!(parse_unsigned_span(s, 0, 3, u64::MAX), Err(IntErrorKind::InvalidDigit));
    assert_eq!(parse_unsigned_span(s, 4, 4, u64::MAX), Err(IntErrorKind::Empty));
    assert_eq!(parse_unsigned_span(s, 4, 7, 122), Err(IntErrorKind::PosOverflow));
    assert_eq!(parse_unsigned_span("18446744073709551615", 0, 20, u64::MAX), Ok(u64::MAX));
    assert_eq!(parse_unsigned_span("18446744073709551616", 0, 20, u64::MAX), Err(IntErrorKind::PosOverflow));
}
