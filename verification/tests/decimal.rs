use cgstat::decimal::{parse_u64, render_u64, NumberError};

#[test]
fn digits_are_read() {
    assert_eq!(Ok(0), parse_u64(b"0"));
    assert_eq!(Ok(1234), parse_u64(b"1234"));
    assert_eq!(Ok(1234), parse_u64(b"+1234"));
    assert_eq!(Ok(7), parse_u64(b"0007"));
    assert_eq!(Ok(u64::MAX), parse_u64(b"18446744073709551615"));
    assert_eq!(Ok(10_000_000_000_000_000_000), parse_u64(b"10000000000000000000"));
}

#[test]
fn empty_text_is_no_number() {
    assert_eq!(Err(NumberError::Empty), parse_u64(b""));
}

#[test]
fn other_bytes_are_no_digits() {
    assert_eq!(Err(NumberError::InvalidDigit), parse_u64(b"+"));
    assert_eq!(Err(NumberError::InvalidDigit), parse_u64(b"-"));
    assert_eq!(Err(NumberError::InvalidDigit), parse_u64(b"-1"));
    assert_eq!(Err(NumberError::InvalidDigit), parse_u64(b"++1"));
    assert_eq!(Err(NumberError::InvalidDigit), parse_u64(b"1+"));
    assert_eq!(Err(NumberError::InvalidDigit), parse_u64(b"12a"));
    assert_eq!(Err(NumberError::InvalidDigit), parse_u64(b"/"));
    assert_eq!(Err(NumberError::InvalidDigit), parse_u64(b":"));
    assert_eq!(Err(NumberError::InvalidDigit), parse_u64(b" 1"));
    assert_eq!(Err(NumberError::InvalidDigit), parse_u64("\u{663}".as_bytes()));
}

#[test]
fn numbers_above_the_range_overflow() {
    assert_eq!(Err(NumberError::Overflow), parse_u64(b"18446744073709551616"));
    assert_eq!(Err(NumberError::Overflow), parse_u64(b"18446744073709551620"));
    assert_eq!(Err(NumberError::Overflow), parse_u64(b"+99999999999999999999"));
    assert_eq!(Err(NumberError::Overflow), parse_u64(b"184467440737095516150"));
}

#[test]
fn the_first_fault_from_the_left_is_reported() {
    assert_eq!(Err(NumberError::Overflow), parse_u64(b"99999999999999999999x"));
    assert_eq!(Err(NumberError::InvalidDigit), parse_u64(b"9999999999999999999x9"));
    assert_eq!(Err(NumberError::InvalidDigit), parse_u64(b"1844674407370955161x"));
    assert_eq!(Err(NumberError::InvalidDigit), parse_u64(b"18446744073709551615x"));
    assert_eq!(Err(NumberError::Overflow), parse_u64(b"18446744073709551616x"));
}

#[test]
fn numbers_are_written_without_sign_or_padding() {
    assert_eq!("0", render_u64(0));
    assert_eq!("7", render_u64(7));
    assert_eq!("10", render_u64(10));
    assert_eq!("41943040", render_u64(41943040));
    assert_eq!("1000000", render_u64(1_000_000));
    assert_eq!("18446744073709551615", render_u64(u64::MAX));
}

#[test]
fn written_numbers_read_back() {
    let values = [0u64, 1, 9, 10, 99, 100, 101, 4096, 1 << 32, u64::MAX - 1, u64::MAX];
    for v in values {
        let text = render_u64(v);
        assert_eq!(v.to_string(), text);
        assert_eq!(Ok(v), parse_u64(text.as_bytes()));
    }
}

#[test]
fn reasons_have_their_words() {
    assert_eq!("cannot parse integer from empty string", NumberError::Empty.message());
    assert_eq!("invalid digit found in string", NumberError::InvalidDigit.message());
    assert_eq!("number too large to fit in target type", NumberError::Overflow.message());
}
