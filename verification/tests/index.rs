use gitid::error::GitIdError;
use gitid::index::parse_index;

#[test]
fn parse_index_reads_decimal_digits() {
    assert_eq!(parse_index("0"), Ok(0));
    assert_eq!(parse_index("7"), Ok(7));
    assert_eq!(parse_index("12"), Ok(12));
    assert_eq!(parse_index("4096"), Ok(4096));
}

#[test]
fn parse_index_accepts_leading_zeros_and_a_plus_sign() {
    assert_eq!(parse_index("007"), Ok(7));
    assert_eq!(parse_index("+3"), Ok(3));
    assert_eq!(parse_index("+0"), Ok(0));
}

#[test]
fn parse_index_refuses_text_that_is_no_number() {
    assert_eq!(parse_index("abc"), Err(GitIdError::ParseError));
    assert_eq!(parse_index(""), Err(GitIdError::ParseError));
    assert_eq!(parse_index("+"), Err(GitIdError::ParseError));
    assert_eq!(parse_index("-1"), Err(GitIdError::ParseError));
    assert_eq!(parse_index("-0"), Err(GitIdError::ParseError));
    assert_eq!(parse_index("++1"), Err(GitIdError::ParseError));
    assert_eq!(parse_index("1+"), Err(GitIdError::ParseError));
    assert_eq!(parse_index(" 1"), Err(GitIdError::ParseError));
    assert_eq!(parse_index("1 "), Err(GitIdError::ParseError));
    assert_eq!(parse_index("1.0"), Err(GitIdError::ParseError));
    assert_eq!(parse_index("1_000"), Err(GitIdError::ParseError));
    assert_eq!(parse_index("0x10"), Err(GitIdError::ParseError));
    assert_eq!(parse_index("١"), Err(GitIdError::ParseError));
    assert_eq!(parse_index("1é"), Err(GitIdError::ParseError));
}

#[test]
fn parse_index_reads_the_largest_number_and_no_larger_one() {
    assert_eq!(parse_index(&usize::MAX.to_string()), Ok(usize::MAX));
    let mut above = usize::MAX.to_string();
    above.push('0');
    assert_eq!(parse_index(&above), Err(GitIdError::ParseError));
    let next = (usize::MAX as u128 + 1).to_string();
    assert_eq!(parse_index(&next), Err(GitIdError::ParseError));
    assert_eq!(parse_index("99999999999999999999999999999999999999999"), Err(GitIdError::ParseError));
}

#[test]
fn parse_index_agrees_with_the_standard_parser() {
    let samples = ["0", "1", "10", "+10", "-10", "", "+", "a", "1a", "a1", "00", "18446744073709551615", "18446744073709551616", "٣", " 2", "2\n"];
    for text in samples {
        let expected = text.parse::<usize>().map_err(|_| GitIdError::ParseError);
        assert_eq!(parse_index(text), expected);
    }
}
