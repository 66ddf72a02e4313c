use rake::ranges::expand_ranges;
use rake::ranges::parse_number;
use rake::ranges::parse_range_or_value;
use rake::ranges::range_formatted;
use rake::ranges::widen_codes;
use rake::ranges::NumberError;
use rake::ranges::RangeOrValue;

fn single_u16(text: &str) -> u16 {
    match parse_range_or_value::<u16>(text) {
        Ok(RangeOrValue::Single(v)) => v,
        other => panic!("expected a single value, got {:?}", other),
    }
}

fn range_u64(text: &str) -> (u64, u64) {
    match parse_range_or_value::<u64>(text) {
        Ok(RangeOrValue::Range(a, b)) => (a, b),
        other => panic!("expected a range, got {:?}", other),
    }
}

fn error_u16(text: &str) -> String {
    match parse_range_or_value::<u16>(text) {
        Err(message) => message,
        other => panic!("expected an error, got {:?}", other),
    }
}

fn formatted(values: &[u64]) -> Vec<String> {
    range_formatted(&values.to_vec())
}

#[test]
fn numbers_are_read() {
    assert_eq!(parse_number("0", 10), Ok(0));
    assert_eq!(parse_number("10", 10), Ok(10));
    assert_eq!(parse_number("+7", 10), Ok(7));
    assert_eq!(parse_number("007", 10), Ok(7));
    assert_eq!(parse_number("18446744073709551615", u64::MAX), Ok(u64::MAX));
}

#[test]
fn number_errors() {
    assert_eq!(parse_number("", 10), Err(NumberError::Empty));
    assert_eq!(parse_number("+", 10), Err(NumberError::InvalidDigit));
    assert_eq!(parse_number("-", 10), Err(NumberError::InvalidDigit));
    assert_eq!(parse_number("-1", 10), Err(NumberError::InvalidDigit));
    assert_eq!(parse_number("1a", 10), Err(NumberError::InvalidDigit));
    assert_eq!(parse_number(" 1", 10), Err(NumberError::InvalidDigit));
    assert_eq!(parse_number("++1", 10), Err(NumberError::InvalidDigit));
    assert_eq!(parse_number("1+", 10), Err(NumberError::InvalidDigit));
    assert_eq!(parse_number("11", 10), Err(NumberError::TooLarge));
    assert_eq!(parse_number("18446744073709551616", u64::MAX), Err(NumberError::TooLarge));
    assert_eq!(parse_number("99999999999999999999999999", u64::MAX), Err(NumberError::TooLarge));
    assert_eq!(parse_number("65536x", 65535), Err(NumberError::TooLarge));
    assert_eq!(parse_number("6553x", 65535), Err(NumberError::InvalidDigit));
}

#[test]
fn number_error_messages() {
    assert_eq!(NumberError::Empty.as_str(), "cannot parse integer from empty string");
    assert_eq!(NumberError::InvalidDigit.as_str(), "invalid digit found in string");
    assert_eq!(NumberError::TooLarge.as_str(), "number too large to fit in target type");
}

#[test]
fn numbers_agree_with_the_standard_library() {
    for text in ["", "0", "+0", "12", "65535", "65536", "+", "-", "-0", "1 ", "a", "1a", "99999", "0065535", "+65535", "٣"] {
        let ours = parse_number(text, u16::MAX as u64).ok();
        let theirs = text.parse::<u16>().ok().map(|v| v as u64);
        assert_eq!(ours, theirs, "text {:?}", text);
        if let Err(e) = text.parse::<u16>() {
            assert_eq!(parse_number(text, u16::MAX as u64).unwrap_err().as_str(), e.to_string(), "text {:?}", text);
        }
    }
}

#[test]
fn single_values_are_read() {
    assert_eq!(single_u16("401"), 401);
    assert_eq!(single_u16(" 401 "), 401);
    assert_eq!(single_u16("65535"), 65535);
    assert!(matches!(parse_range_or_value::<u64>("2777"), Ok(RangeOrValue::Single(2777))));
}

#[test]
fn ranges_are_read() {
    assert_eq!(range_u64("1000-2000"), (1000, 2000));
    assert_eq!(range_u64(" 200 - 300 "), (200, 300));
    assert_eq!(range_u64("5-5"), (5, 5));
    assert!(matches!(parse_range_or_value::<u16>("200-300"), Ok(RangeOrValue::Range(200, 300))));
}

#[test]
fn range_errors() {
    assert_eq!(error_u16("abc"), "Invalid number: invalid digit found in string");
    assert_eq!(error_u16(""), "Invalid number: cannot parse integer from empty string");
    assert_eq!(error_u16("   "), "Invalid number: cannot parse integer from empty string");
    assert_eq!(error_u16("65536"), "Invalid number: number too large to fit in target type");
    assert_eq!(error_u16("a-5"), "Invalid start of range: invalid digit found in string");
    assert_eq!(error_u16("-5"), "Invalid start of range: cannot parse integer from empty string");
    assert_eq!(error_u16("70000-5"), "Invalid start of range: number too large to fit in target type");
    assert_eq!(error_u16("5-"), "Invalid end of range: cannot parse integer from empty string");
    assert_eq!(error_u16("5-x"), "Invalid end of range: invalid digit found in string");
    assert_eq!(error_u16("5-70000"), "Invalid end of range: number too large to fit in target type");
    assert_eq!(error_u16("1-2-3"), "Invalid end of range: invalid digit found in string");
    assert_eq!(error_u16("300-200"), "Start of range cannot be greater than end");
    assert_eq!(error_u16("x-y"), "Invalid start of range: invalid digit found in string");
}

#[test]
fn wide_numbers_fit_the_wide_kind_only() {
    assert!(matches!(parse_range_or_value::<u64>("70000"), Ok(RangeOrValue::Single(70000))));
    assert!(parse_range_or_value::<u16>("70000").is_err());
    assert!(matches!(
        parse_range_or_value::<u64>("0-18446744073709551615"),
        Ok(RangeOrValue::Range(0, u64::MAX))
    ));
}

#[test]
fn ranges_are_written_out() {
    let input: Vec<RangeOrValue<u16>> =
        vec![RangeOrValue::Range(200, 203), RangeOrValue::Single(401), RangeOrValue::Range(7, 7)];
    assert_eq!(expand_ranges(input), vec![200, 201, 202, 203, 401, 7]);
}

#[test]
fn expansion_keeps_order_and_repeats() {
    let input: Vec<RangeOrValue<u64>> =
        vec![RangeOrValue::Single(5), RangeOrValue::Range(4, 6), RangeOrValue::Single(5)];
    assert_eq!(expand_ranges(input), vec![5, 4, 5, 6, 5]);
}

#[test]
fn reversed_range_and_empty_list_expand_to_nothing() {
    let input: Vec<RangeOrValue<u64>> = vec![RangeOrValue::Range(6, 4)];
    assert_eq!(expand_ranges(input), Vec::<u64>::new());
    assert_eq!(expand_ranges(Vec::<RangeOrValue<u16>>::new()), Vec::<u16>::new());
}

#[test]
fn range_can_end_at_the_largest_number() {
    let input: Vec<RangeOrValue<u16>> = vec![RangeOrValue::Range(65533, 65535)];
    assert_eq!(expand_ranges(input), vec![65533, 65534, 65535]);
    let input: Vec<RangeOrValue<u64>> = vec![RangeOrValue::Range(u64::MAX - 1, u64::MAX)];
    assert_eq!(expand_ranges(input), vec![u64::MAX - 1, u64::MAX]);
}

#[test]
fn long_runs_become_ranges() {
    assert_eq!(formatted(&[200, 201, 202, 203, 204, 205]), vec!["200-205"]);
    assert_eq!(formatted(&[1, 2, 3, 4, 5, 6, 7, 8, 9, 10]), vec!["1-10"]);
}

#[test]
fn short_runs_stay_single_numbers() {
    assert_eq!(formatted(&[200, 201, 202, 203, 204]), vec!["200", "201", "202", "203", "204"]);
    assert_eq!(formatted(&[7]), vec!["7"]);
}

#[test]
fn numbers_are_sorted_first() {
    assert_eq!(formatted(&[404, 200, 301]), vec!["200", "301", "404"]);
    assert_eq!(formatted(&[205, 203, 201, 204, 202, 200]), vec!["200-205"]);
}

#[test]
fn runs_are_told_apart() {
    assert_eq!(
        formatted(&[401, 200, 201, 202, 203, 204, 205, 206, 500, 501]),
        vec!["200-206", "401", "500", "501"]
    );
    assert_eq!(
        formatted(&[1, 2, 3, 4, 5, 6, 10, 11, 12, 13, 14, 15]),
        vec!["1-6", "10-15"]
    );
}

#[test]
fn repeated_numbers_break_a_run() {
    assert_eq!(formatted(&[5, 5]), vec!["5", "5"]);
    assert_eq!(formatted(&[1, 2, 3, 3, 4, 5, 6, 7, 8]), vec!["1", "2", "3", "3-8"]);
}

#[test]
fn empty_list_has_no_entries() {
    assert_eq!(formatted(&[]), Vec::<String>::new());
}

#[test]
fn largest_numbers_are_formatted() {
    assert_eq!(formatted(&[u64::MAX, u64::MAX - 1]), vec!["18446744073709551614", "18446744073709551615"]);
    assert_eq!(formatted(&[u64::MAX, u64::MAX]), vec!["18446744073709551615", "18446744073709551615"]);
}

#[test]
fn codes_are_widened() {
    assert_eq!(widen_codes(&vec![200u16, 65535, 0]), vec![200u64, 65535, 0]);
    assert_eq!(widen_codes(&Vec::new()), Vec::<u64>::new());
}
