use y4m::{parse_bytes, Error, ParseError, Ratio};

#[test]
fn parse_bytes_reads_plain_digits() {
    assert_eq!(parse_bytes(b"0").unwrap(), 0);
    assert_eq!(parse_bytes(b"7").unwrap(), 7);
    assert_eq!(parse_bytes(b"1920").unwrap(), 1920);
    assert_eq!(parse_bytes(b"30000").unwrap(), 30000);
}

#[test]
fn parse_bytes_accepts_leading_zeros_and_a_plus_sign() {
    assert_eq!(parse_bytes(b"007").unwrap(), 7);
    assert_eq!(parse_bytes(b"+5").unwrap(), 5);
    assert_eq!(parse_bytes(b"+000").unwrap(), 0);
}

#[test]
fn parse_bytes_reads_the_largest_word() {
    let text = format!("{}", usize::MAX);
    assert_eq!(parse_bytes(text.as_bytes()).unwrap(), usize::MAX);
    let padded = format!("000{}", usize::MAX);
    assert_eq!(parse_bytes(padded.as_bytes()).unwrap(), usize::MAX);
}

#[test]
fn parse_bytes_refuses_what_does_not_fit() {
    let text = format!("{}0", usize::MAX);
    assert!(matches!(parse_bytes(text.as_bytes()), Err(Error::ParseError(ParseError::Int))));
    let mut next = format!("{}", usize::MAX).into_bytes();
    let last = next.len() - 1;
    next[last] += 1;
    assert!(matches!(parse_bytes(&next), Err(Error::ParseError(ParseError::Int))));
}

#[test]
fn parse_bytes_refuses_text_that_is_no_number() {
    for text in [&b""[..], b"+", b"-", b"-1", b"12a", b"a12", b" 1", b"1 ", b"1_000", b"++1", b"0x10", b"1.5"] {
        assert!(
            matches!(parse_bytes(text), Err(Error::ParseError(ParseError::Int))),
            "{:?}",
            text
        );
    }
}

#[test]
fn parse_bytes_tells_bad_utf8_from_bad_digits() {
    assert!(matches!(parse_bytes(&[0xFF]), Err(Error::ParseError(ParseError::Utf8))));
    assert!(matches!(parse_bytes(&[0x31, 0x80]), Err(Error::ParseError(ParseError::Utf8))));
    assert!(matches!(parse_bytes(&[0xC0, 0x80]), Err(Error::ParseError(ParseError::Utf8))));
    assert!(matches!(parse_bytes(&[0xED, 0xA0, 0x80]), Err(Error::ParseError(ParseError::Utf8))));
    // Well-formed UTF-8 that is not a number.
    assert!(matches!(parse_bytes("é".as_bytes()), Err(Error::ParseError(ParseError::Int))));
    assert!(matches!(parse_bytes("1٣".as_bytes()), Err(Error::ParseError(ParseError::Int))));
}

#[test]
fn ratio_new_keeps_both_numbers() {
    let ratio = Ratio::new(30000, 1001);
    assert_eq!(ratio.num, 30000);
    assert_eq!(ratio.den, 1001);
    let zero = Ratio::new(1, 0);
    assert_eq!(zero.den, 0);
}

#[test]
fn ratio_parse_reads_num_and_den() {
    assert_eq!(Ratio::parse(b"25:1").unwrap(), Ratio::new(25, 1));
    assert_eq!(Ratio::parse(b"30000:1001").unwrap(), Ratio::new(30000, 1001));
    assert_eq!(Ratio::parse(b"0:0").unwrap(), Ratio::new(0, 0));
    assert_eq!(Ratio::parse(b"+4:+3").unwrap(), Ratio::new(4, 3));
}

#[test]
fn ratio_parse_wants_two_parts_that_hold_something() {
    for text in [&b""[..], b"25", b":", b":1", b"25:", b"abc"] {
        assert!(
            matches!(Ratio::parse(text), Err(Error::ParseError(ParseError::General))),
            "{:?}",
            text
        );
    }
}

#[test]
fn ratio_parse_reports_bad_numbers() {
    assert!(matches!(Ratio::parse(b"a:1"), Err(Error::ParseError(ParseError::Int))));
    assert!(matches!(Ratio::parse(b"1:b"), Err(Error::ParseError(ParseError::Int))));
    assert!(matches!(Ratio::parse(b"1:2:3"), Err(Error::ParseError(ParseError::Int))));
    assert!(matches!(Ratio::parse(&[0xFF, b':', b'1']), Err(Error::ParseError(ParseError::Utf8))));
    assert!(matches!(Ratio::parse(&[b'1', b':', 0xFF]), Err(Error::ParseError(ParseError::Utf8))));
    // The numerator is read first.
    assert!(matches!(Ratio::parse(&[b'x', b':', 0xFF]), Err(Error::ParseError(ParseError::Int))));
}

#[test]
fn ratio_is_shown_as_num_colon_den() {
    assert_eq!(Ratio::new(25, 1).to_string(), "25:1");
    assert_eq!(Ratio::new(30000, 1001).to_string(), "30000:1001");
    assert_eq!(Ratio::new(0, 0).to_string(), "0:0");
    assert_eq!(Ratio::new(usize::MAX, 10).to_string(), format!("{}:10", usize::MAX));
    let mut out = vec![b'F'];
    Ratio::new(120, 7).write_to(&mut out);
    assert_eq!(out, b"F120:7".to_vec());
}
