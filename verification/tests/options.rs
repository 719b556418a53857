use parquet_viewer::error::ViewError;
use parquet_viewer::options::{
    display_format, parse_count, parse_format, row_limit, same_text, Format, DEFAULT_ROW_LIMIT,
};

#[test]
fn count_reads_plain_digits() {
    assert_eq!(parse_count("0"), Ok(0));
    assert_eq!(parse_count("3"), Ok(3));
    assert_eq!(parse_count("10"), Ok(10));
    assert_eq!(parse_count("1000000"), Ok(1_000_000));
}

#[test]
fn count_accepts_a_leading_plus_and_leading_zeros() {
    assert_eq!(parse_count("+5"), Ok(5));
    assert_eq!(parse_count("007"), Ok(7));
    assert_eq!(parse_count("+000"), Ok(0));
    assert_eq!(parse_count("00000000000000000000000000000000012"), Ok(12));
}

#[test]
fn count_reaches_the_largest_size() {
    let largest = format!("{}", usize::MAX);
    assert_eq!(parse_count(&largest), Ok(usize::MAX));
}

#[test]
fn count_past_the_largest_size_is_invalid() {
    let too_large = format!("{}0", usize::MAX);
    assert_eq!(parse_count(&too_large), Err(ViewError::InvalidArgument));
    assert_eq!(
        parse_count("340282366920938463463374607431768211456"),
        Err(ViewError::InvalidArgument)
    );
    let next = format!("{}", (usize::MAX as u128) + 1);
    assert_eq!(parse_count(&next), Err(ViewError::InvalidArgument));
}

#[test]
fn non_integer_count_is_invalid() {
    assert_eq!(parse_count("abc"), Err(ViewError::InvalidArgument));
    assert_eq!(parse_count("1.5"), Err(ViewError::InvalidArgument));
    assert_eq!(parse_count("12x"), Err(ViewError::InvalidArgument));
    assert_eq!(parse_count("x12"), Err(ViewError::InvalidArgument));
    assert_eq!(parse_count("1 2"), Err(ViewError::InvalidArgument));
    assert_eq!(parse_count(" 5"), Err(ViewError::InvalidArgument));
    assert_eq!(parse_count("5 "), Err(ViewError::InvalidArgument));
    assert_eq!(parse_count("٣"), Err(ViewError::InvalidArgument));
}

#[test]
fn empty_or_bare_sign_count_is_invalid() {
    assert_eq!(parse_count(""), Err(ViewError::InvalidArgument));
    assert_eq!(parse_count("+"), Err(ViewError::InvalidArgument));
    assert_eq!(parse_count("++1"), Err(ViewError::InvalidArgument));
    assert_eq!(parse_count("1+"), Err(ViewError::InvalidArgument));
}

#[test]
fn negative_count_is_invalid() {
    assert_eq!(parse_count("-1"), Err(ViewError::InvalidArgument));
    assert_eq!(parse_count("-0"), Err(ViewError::InvalidArgument));
    assert_eq!(parse_count("-"), Err(ViewError::InvalidArgument));
}

#[test]
fn count_agrees_with_the_standard_parser() {
    let samples = [
        "0", "1", "+1", "-1", "", "+", "-", "42", "0042", "4 2", "4_2", "0x10", "1e3", "99999999999",
        "18446744073709551615", "18446744073709551616", "٤٢", "+-1", "１２",
    ];
    for text in samples {
        let expected = text.parse::<usize>().map_err(|_| ViewError::InvalidArgument);
        assert_eq!(parse_count(text), expected, "count {:?}", text);
    }
}

#[test]
fn omitted_count_defaults_to_ten() {
    assert_eq!(DEFAULT_ROW_LIMIT, 10);
    assert_eq!(row_limit(None), Ok(10));
}

#[test]
fn given_count_overrides_the_default() {
    assert_eq!(row_limit(Some("0")), Ok(0));
    assert_eq!(row_limit(Some("25")), Ok(25));
    assert_eq!(row_limit(Some("ten")), Err(ViewError::InvalidArgument));
}

#[test]
fn format_names() {
    assert_eq!(parse_format("csv"), Ok(Format::Csv));
    assert_eq!(parse_format("json"), Ok(Format::Json));
}

#[test]
fn unknown_format_is_invalid() {
    assert_eq!(parse_format("xml"), Err(ViewError::InvalidArgument));
    assert_eq!(parse_format(""), Err(ViewError::InvalidArgument));
    assert_eq!(parse_format("CSV"), Err(ViewError::InvalidArgument));
    assert_eq!(parse_format("Json"), Err(ViewError::InvalidArgument));
    assert_eq!(parse_format("csv "), Err(ViewError::InvalidArgument));
    assert_eq!(parse_format("cs"), Err(ViewError::InvalidArgument));
    assert_eq!(parse_format("jsonl"), Err(ViewError::InvalidArgument));
}

#[test]
fn omitted_format_defaults_to_json() {
    assert_eq!(display_format(None), Ok(Format::Json));
    assert_eq!(display_format(Some("csv")), Ok(Format::Csv));
    assert_eq!(display_format(Some("yaml")), Err(ViewError::InvalidArgument));
}

#[test]
fn same_text_compares_character_by_character() {
    assert!(same_text("", ""));
    assert!(same_text("csv", "csv"));
    assert!(same_text("naïve", "naïve"));
    assert!(!same_text("csv", "cs"));
    assert!(!same_text("cs", "csv"));
    assert!(!same_text("csv", "csw"));
    assert!(!same_text("", "x"));
    assert!(!same_text("x", ""));
}
