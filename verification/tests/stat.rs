use cgstat::decimal::NumberError;
use cgstat::stat::{find_key_val, starts_with, StatError};

fn malformed(token: &str, reason: NumberError) -> Result<Option<u64>, StatError> {
    Err(StatError::Malformed { token: token.to_string(), reason })
}

#[test]
fn test_find_key_val_happy_many() {
    let r = "
foo 1234
baz_baz 1111
bar 4443
baz 9999
";
    let res = find_key_val(r.as_bytes(), "baz");
    assert!(res.is_ok());
    assert_eq!(Some(9999 as u64), res.unwrap());
}

#[test]
fn test_find_key_val_happy_simple() {
    let r = "baz 1234";
    let res = find_key_val(r.as_bytes(), "baz");
    assert!(res.is_ok());
    assert_eq!(Some(1234 as u64), res.unwrap());
}

#[test]
fn key_among_other_lines_is_found() {
    let r = "foo 1234\nbaz_baz 1111\nbar 4443\nbaz 9999\n";
    assert_eq!(Ok(Some(9999)), find_key_val(r.as_bytes(), "baz"));
    assert_eq!(Ok(Some(1234)), find_key_val(r.as_bytes(), "foo"));
    assert_eq!(Ok(Some(1111)), find_key_val(r.as_bytes(), "baz_baz"));
    assert_eq!(Ok(Some(4443)), find_key_val(r.as_bytes(), "bar"));
}

#[test]
fn empty_stream_has_no_key() {
    assert_eq!(Ok(None), find_key_val(b"", "rss"));
    assert_eq!(Ok(None), find_key_val(b"", ""));
    assert_eq!(Ok(None), find_key_val(b"", "baz"));
}

#[test]
fn missing_key_is_absent_not_an_error() {
    assert_eq!(Ok(None), find_key_val(b"cache 1\nmapped_file 2\n", "rss"));
    assert_eq!(Ok(None), find_key_val(b"\n\n\n", "rss"));
    assert_eq!(Ok(None), find_key_val(b"abc\nnot a number\n", "rss"));
}

#[test]
fn prefix_must_match_exactly() {
    assert_eq!(Ok(None), find_key_val(b"rss", "rss"));
    assert_eq!(Ok(None), find_key_val(b"rss5 1\n", "rss"));
    assert_eq!(Ok(None), find_key_val(b"RSS 1\n", "rss"));
    assert_eq!(Ok(None), find_key_val(b" rss 1\n", "rss"));
    assert_eq!(Ok(None), find_key_val(b"total_rss 1\n", "rss"));
    assert_eq!(Ok(None), find_key_val(b"rss\t1\n", "rss"));
    assert_eq!(Ok(Some(7)), find_key_val(b"rss_huge 1\nrss 7\n", "rss"));
}

#[test]
fn first_match_wins() {
    assert_eq!(Ok(Some(1)), find_key_val(b"rss 1\nrss 2\n", "rss"));
    assert_eq!(Ok(Some(2)), find_key_val(b"cache 9\nrss 2\nrss 1\n", "rss"));
    assert_eq!(Ok(Some(3)), find_key_val(b"rss 3\nrss abc\n", "rss"));
}

#[test]
fn lines_after_the_match_are_not_read() {
    assert_eq!(Ok(Some(5)), find_key_val(b"rss 5\n\xff\xfe\n", "rss"));
    assert_eq!(Ok(Some(5)), find_key_val(b"rss 5\nrss 99999999999999999999\n", "rss"));
}

#[test]
fn non_numeric_value_is_a_format_violation() {
    assert_eq!(malformed("abc", NumberError::InvalidDigit), find_key_val(b"rss abc", "rss"));
    assert_eq!(malformed("abc", NumberError::InvalidDigit), find_key_val(b"rss abc\nrss 1\n", "rss"));
    assert_eq!(malformed("12 ", NumberError::InvalidDigit), find_key_val(b"rss 12 \n", "rss"));
    assert_eq!(malformed(" 12", NumberError::InvalidDigit), find_key_val(b"rss  12\n", "rss"));
    assert_eq!(malformed("-5", NumberError::InvalidDigit), find_key_val(b"rss -5\n", "rss"));
    assert_eq!(malformed("+", NumberError::InvalidDigit), find_key_val(b"rss +\n", "rss"));
    assert_eq!(malformed("1.5", NumberError::InvalidDigit), find_key_val(b"rss 1.5\n", "rss"));
    assert_eq!(malformed("0x10", NumberError::InvalidDigit), find_key_val(b"rss 0x10\n", "rss"));
}

#[test]
fn missing_value_is_a_format_violation() {
    assert_eq!(malformed("", NumberError::Empty), find_key_val(b"rss \n", "rss"));
    assert_eq!(malformed("", NumberError::Empty), find_key_val(b"rss ", "rss"));
}

#[test]
fn value_beyond_64_bits_is_a_format_violation() {
    assert_eq!(Ok(Some(u64::MAX)), find_key_val(b"rss 18446744073709551615\n", "rss"));
    assert_eq!(
        malformed("18446744073709551616", NumberError::Overflow),
        find_key_val(b"rss 18446744073709551616\n", "rss")
    );
    assert_eq!(
        malformed("99999999999999999999x", NumberError::Overflow),
        find_key_val(b"rss 99999999999999999999x\n", "rss")
    );
    assert_eq!(
        malformed("9x99999999999999999999", NumberError::InvalidDigit),
        find_key_val(b"rss 9x99999999999999999999\n", "rss")
    );
}

#[test]
fn plus_sign_and_leading_zeros_are_read() {
    assert_eq!(Ok(Some(5)), find_key_val(b"rss +5\n", "rss"));
    assert_eq!(Ok(Some(42)), find_key_val(b"rss 00042\n", "rss"));
    assert_eq!(Ok(Some(0)), find_key_val(b"rss 0\n", "rss"));
    assert_eq!(Ok(Some(u64::MAX)), find_key_val(b"rss 00018446744073709551615\n", "rss"));
}

#[test]
fn carriage_return_belongs_to_the_line_end_only() {
    assert_eq!(Ok(Some(5)), find_key_val(b"rss 5\r\n", "rss"));
    assert_eq!(Ok(Some(6)), find_key_val(b"cache 1\r\nrss 6\r\ninactive 2\r\n", "rss"));
    assert_eq!(malformed("5\r", NumberError::InvalidDigit), find_key_val(b"rss 5\r", "rss"));
    assert_eq!(malformed("5\r", NumberError::InvalidDigit), find_key_val(b"rss 5\r\r\n", "rss"));
}

#[test]
fn stream_that_is_no_text_is_an_error() {
    assert_eq!(Err(StatError::NotText), find_key_val(b"\xff\nrss 5\n", "rss"));
    assert_eq!(Err(StatError::NotText), find_key_val(b"cache 1\nrss \xc3\n", "rss"));
    assert_eq!(Err(StatError::NotText), find_key_val(b"\xc3", "rss"));
    assert_eq!(Ok(None), find_key_val("caf\u{e9} 1\n".as_bytes(), "rss"));
}

#[test]
fn value_that_is_text_but_no_number_keeps_its_text() {
    let data = "rss caf\u{e9}\n";
    assert_eq!(
        malformed("caf\u{e9}", NumberError::InvalidDigit),
        find_key_val(data.as_bytes(), "rss")
    );
}

#[test]
fn key_may_be_any_text() {
    assert_eq!(Ok(Some(12)), find_key_val(b" 12\n", ""));
    assert_eq!(Ok(Some(3)), find_key_val("gr\u{f6}\u{df}e 3\n".as_bytes(), "gr\u{f6}\u{df}e"));
    assert_eq!(Ok(Some(4)), find_key_val(b"a b 4\n", "a b"));
    assert_eq!(malformed("b 4", NumberError::InvalidDigit), find_key_val(b"a b 4\n", "a"));
}

#[test]
fn repeated_lookups_agree() {
    let samples: [&[u8]; 5] =
        [b"", b"rss 1\nrss 2\n", b"cache 1\n", b"rss abc\n", b"\xff\n"];
    for data in samples {
        let first = find_key_val(data, "rss");
        let second = find_key_val(data, "rss");
        assert_eq!(first, second);
    }
}

#[test]
fn last_line_needs_no_line_feed() {
    assert_eq!(Ok(Some(8)), find_key_val(b"cache 1\nrss 8", "rss"));
    assert_eq!(Ok(Some(8)), find_key_val(b"\n\nrss 8", "rss"));
}

#[test]
fn messages_name_the_token_and_the_reason() {
    let e = find_key_val(b"rss abc", "rss").unwrap_err();
    assert_eq!("cannot convert 'abc': invalid digit found in string", e.message());
    let e = find_key_val(b"rss ", "rss").unwrap_err();
    assert_eq!("cannot convert '': cannot parse integer from empty string", e.message());
    let e = find_key_val(b"rss 18446744073709551616", "rss").unwrap_err();
    assert_eq!(
        "cannot convert '18446744073709551616': number too large to fit in target type",
        e.message()
    );
    assert_eq!("stream did not contain valid UTF-8", StatError::NotText.message());
}

#[test]
fn lookup_agrees_with_the_standard_library() {
    let tokens = ["0", "7", "+7", "-7", "", "+", "007", "18446744073709551615",
        "18446744073709551616", "1e3", "12a", "a12", " 1", "1 ", "++1", "+-1",
        "99999999999999999999999", "9999999999999999", "99999999999999999",
        "99999999999999999999x", "9999999999999999999x9", "18446744073709551615x",
        "18446744073709551616x", "1844674407370955161x6", "+18446744073709551615",
        "+18446744073709551616", "000000000000000000000000000001", "1_000", "\u{663}"];
    for token in tokens {
        let line = format!("rss {}\n", token);
        let found = find_key_val(line.as_bytes(), "rss");
        match token.parse::<u64>() {
            Ok(v) => assert_eq!(Ok(Some(v)), found),
            Err(e) => {
                let err = found.unwrap_err();
                assert_eq!(format!("cannot convert '{}': {}", token, e), err.message());
            }
        }
    }
}

#[test]
fn starts_with_compares_the_front() {
    assert!(starts_with(b"rss 1", b"rss "));
    assert!(starts_with(b"rss 1", b""));
    assert!(starts_with(b"", b""));
    assert!(!starts_with(b"rs", b"rss "));
    assert!(!starts_with(b"rsx 1", b"rss "));
    assert!(!starts_with(b"", b"r"));
}
