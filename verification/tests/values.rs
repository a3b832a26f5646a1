use crontabcheck::number::{decimal_value, to_decimal};
use crontabcheck::{
    day_of_month_value_parser, day_of_week_value_parser, hour_value_parser, minute_value_parser,
    month_value_parser, parse_enum, parse_field, parse_field_separator, parse_period,
    parse_range_or_value, parse_value, parse_within_bounds, CrontabSyntaxError, Diagnostic,
    FieldKind,
};

const KINDS: [FieldKind; 5] = [
    FieldKind::Minute,
    FieldKind::Hour,
    FieldKind::DayOfMonth,
    FieldKind::Month,
    FieldKind::DayOfWeek,
];

const MONTHS: [&str; 12] =
    ["jan", "feb", "mar", "apr", "may", "jun", "jul", "aug", "sep", "oct", "nov", "dec"];

const DAYS: [&str; 7] = ["mon", "tue", "wed", "thu", "fri", "sat", "sun"];

fn at<'a>(error: CrontabSyntaxError, position: &'a [u8]) -> Diagnostic<'a> {
    Diagnostic { error, position: Some(position), cause: None }
}

fn caused<'a>(
    error: CrontabSyntaxError,
    position: &'a [u8],
    cause: Diagnostic<'a>,
) -> Diagnostic<'a> {
    Diagnostic { error, position: Some(position), cause: Some(Box::new(cause)) }
}

#[test]
fn bounds_of_each_kind() {
    assert_eq!((FieldKind::Minute.min(), FieldKind::Minute.max()), (0, 59));
    assert_eq!((FieldKind::Hour.min(), FieldKind::Hour.max()), (0, 24));
    assert_eq!((FieldKind::DayOfMonth.min(), FieldKind::DayOfMonth.max()), (0, 31));
    assert_eq!((FieldKind::Month.min(), FieldKind::Month.max()), (1, 12));
    assert_eq!((FieldKind::DayOfWeek.min(), FieldKind::DayOfWeek.max()), (0, 7));
}

#[test]
fn decimal_text_of_numbers() {
    assert_eq!(to_decimal(0), b"0".to_vec());
    assert_eq!(to_decimal(7), b"7".to_vec());
    assert_eq!(to_decimal(10), b"10".to_vec());
    assert_eq!(to_decimal(59), b"59".to_vec());
    assert_eq!(to_decimal(1203), b"1203".to_vec());
    assert_eq!(to_decimal(-45), b"-45".to_vec());
    assert_eq!(to_decimal(i32::MAX), b"2147483647".to_vec());
    assert_eq!(to_decimal(i32::MIN), b"-2147483648".to_vec());
}

#[test]
fn decimal_value_of_digits() {
    assert_eq!(decimal_value(b"0"), Some(0));
    assert_eq!(decimal_value(b"007"), Some(7));
    assert_eq!(decimal_value(b"59"), Some(59));
    assert_eq!(decimal_value(b"2147483647"), Some(i32::MAX));
    assert_eq!(decimal_value(b"00002147483647"), Some(i32::MAX));
    assert_eq!(decimal_value(b"2147483648"), None);
    assert_eq!(decimal_value(b"99999999999999999999999999999999"), None);
    assert_eq!(decimal_value(b""), None);
    assert_eq!(decimal_value(b"1a"), None);
    assert_eq!(decimal_value(b"-1"), None);
}

#[test]
fn decimal_value_reads_back_decimal_text() {
    for v in [0, 1, 9, 10, 99, 100, 65535, i32::MAX] {
        assert_eq!(decimal_value(&to_decimal(v)), Some(v));
    }
}

#[test]
fn every_number_within_bounds_is_accepted() {
    for kind in KINDS {
        for n in kind.min()..=kind.max() {
            let text = to_decimal(n);
            assert_eq!(parse_value(&text, kind), Ok(&b""[..]), "{:?} {}", kind, n);
        }
    }
}

#[test]
fn numbers_out_of_bounds_are_refused_with_their_value() {
    for kind in KINDS {
        for n in [kind.max() + 1, kind.max() + 10, 1000, i32::MAX] {
            let text = to_decimal(n);
            let expected = at(
                CrontabSyntaxError::ValueOutOfBounds { value: n, min: kind.min(), max: kind.max() },
                &text,
            );
            assert_eq!(parse_value(&text, kind), Err(expected), "{:?} {}", kind, n);
        }
    }
    assert_eq!(
        month_value_parser(b"0"),
        Err(at(CrontabSyntaxError::ValueOutOfBounds { value: 0, min: 1, max: 12 }, b"0"))
    );
    assert_eq!(
        minute_value_parser(b"60"),
        Err(at(CrontabSyntaxError::ValueOutOfBounds { value: 60, min: 0, max: 59 }, b"60"))
    );
}

#[test]
fn numbers_that_no_i32_holds_are_no_numbers() {
    for kind in KINDS {
        assert_eq!(
            parse_value(b"2147483648", kind),
            Err(at(CrontabSyntaxError::InvalidNumericValue, b"2147483648"))
        );
        assert_eq!(
            parse_value(b"-1", kind),
            Err(at(CrontabSyntaxError::InvalidNumericValue, b"-1"))
        );
    }
}

#[test]
fn bounded_integer_leaves_what_follows_the_digits() {
    assert_eq!(parse_within_bounds(b"12ab", 0, 59), Ok(&b"ab"[..]));
    assert_eq!(parse_within_bounds(b"007 ", 0, 59), Ok(&b" "[..]));
    assert_eq!(parse_within_bounds(b"5", 5, 5), Ok(&b""[..]));
    assert_eq!(
        parse_within_bounds(b"4", 5, 5),
        Err(at(CrontabSyntaxError::ValueOutOfBounds { value: 4, min: 5, max: 5 }, b"4"))
    );
}

#[test]
fn bounded_integer_needs_a_digit() {
    assert_eq!(
        parse_within_bounds(b"", 0, 59),
        Err(at(CrontabSyntaxError::InvalidNumericValue, b""))
    );
    assert_eq!(
        parse_within_bounds(b"x1", 0, 59),
        Err(at(CrontabSyntaxError::InvalidNumericValue, b"x1"))
    );
    assert_eq!(
        parse_within_bounds(b" 1", 0, 59),
        Err(at(CrontabSyntaxError::InvalidNumericValue, b" 1"))
    );
}

#[test]
fn permissive_upper_bounds() {
    assert_eq!(hour_value_parser(b"24"), Ok(&b""[..]));
    assert_eq!(
        hour_value_parser(b"25"),
        Err(at(CrontabSyntaxError::ValueOutOfBounds { value: 25, min: 0, max: 24 }, b"25"))
    );
    assert_eq!(day_of_month_value_parser(b"31"), Ok(&b""[..]));
    assert_eq!(day_of_month_value_parser(b"0"), Ok(&b""[..]));
    assert_eq!(
        day_of_month_value_parser(b"32"),
        Err(at(CrontabSyntaxError::ValueOutOfBounds { value: 32, min: 0, max: 31 }, b"32"))
    );
    assert_eq!(day_of_week_value_parser(b"7"), Ok(&b""[..]));
    assert_eq!(
        day_of_week_value_parser(b"8"),
        Err(at(CrontabSyntaxError::ValueOutOfBounds { value: 8, min: 0, max: 7 }, b"8"))
    );
}

#[test]
fn every_name_is_accepted_by_its_field() {
    for name in MONTHS {
        assert_eq!(month_value_parser(name.as_bytes()), Ok(&b""[..]), "{}", name);
        assert_eq!(parse_value(name.as_bytes(), FieldKind::Month), Ok(&b""[..]), "{}", name);
    }
    for name in DAYS {
        assert_eq!(day_of_week_value_parser(name.as_bytes()), Ok(&b""[..]), "{}", name);
        assert_eq!(parse_value(name.as_bytes(), FieldKind::DayOfWeek), Ok(&b""[..]), "{}", name);
    }
}

#[test]
fn a_name_before_a_separator_leaves_nothing_behind_the_separator() {
    for name in MONTHS {
        let input = format!("{} \t", name);
        let rest = month_value_parser(input.as_bytes()).unwrap();
        assert_eq!(rest, b" \t");
        assert_eq!(parse_field_separator(rest), Ok(&b""[..]));
    }
    for name in DAYS {
        let input = format!("{} ", name);
        let rest = day_of_week_value_parser(input.as_bytes()).unwrap();
        assert_eq!(rest, b" ");
        assert_eq!(parse_field_separator(rest), Ok(&b""[..]));
    }
}

#[test]
fn names_are_lowercase_and_belong_to_one_field() {
    assert_eq!(
        month_value_parser(b"Jan"),
        Err(at(CrontabSyntaxError::InvalidNumericValue, b"Jan"))
    );
    assert_eq!(
        day_of_week_value_parser(b"MON"),
        Err(at(CrontabSyntaxError::InvalidNumericValue, b"MON"))
    );
    assert_eq!(
        month_value_parser(b"mon"),
        Err(at(CrontabSyntaxError::InvalidNumericValue, b"mon"))
    );
    assert_eq!(
        day_of_week_value_parser(b"jan"),
        Err(at(CrontabSyntaxError::InvalidNumericValue, b"jan"))
    );
    assert_eq!(
        minute_value_parser(b"jan"),
        Err(at(CrontabSyntaxError::InvalidNumericValue, b"jan"))
    );
    assert_eq!(
        month_value_parser(b"ja"),
        Err(at(CrontabSyntaxError::InvalidNumericValue, b"ja"))
    );
    assert_eq!(month_value_parser(b"january"), Ok(&b"uary"[..]));
}

#[test]
fn period_accepts_a_star_and_steps_within_bounds() {
    for kind in KINDS {
        assert_eq!(parse_period(b"*", kind), Ok(&b""[..]));
        for n in kind.min()..=kind.max() {
            let input = format!("*/{}", n);
            assert_eq!(parse_period(input.as_bytes(), kind), Ok(&b""[..]), "{}", input);
        }
    }
    assert_eq!(parse_period(b"*/2", FieldKind::Minute), Ok(&b""[..]));
    assert_eq!(parse_period(b"*/jan", FieldKind::Month), Ok(&b""[..]));
    assert_eq!(parse_period(b"*-", FieldKind::Minute), Ok(&b"-"[..]));
}

#[test]
fn period_refuses_a_missing_or_malformed_step() {
    assert_eq!(
        parse_period(b"*/", FieldKind::Minute),
        Err(caused(
            CrontabSyntaxError::InvalidPeriodField,
            b"",
            at(CrontabSyntaxError::InvalidNumericValue, b""),
        ))
    );
    assert_eq!(
        parse_period(b"*/abc", FieldKind::Minute),
        Err(caused(
            CrontabSyntaxError::InvalidPeriodField,
            b"abc",
            at(CrontabSyntaxError::InvalidNumericValue, b"abc"),
        ))
    );
    assert_eq!(
        parse_period(b"*/60 ", FieldKind::Minute),
        Err(caused(
            CrontabSyntaxError::InvalidPeriodField,
            b"60 ",
            at(CrontabSyntaxError::ValueOutOfBounds { value: 60, min: 0, max: 59 }, b"60 "),
        ))
    );
}

#[test]
fn period_needs_a_star() {
    assert_eq!(
        parse_period(b"", FieldKind::Hour),
        Err(at(CrontabSyntaxError::InvalidPeriodField, b""))
    );
    assert_eq!(
        parse_period(b"2", FieldKind::Hour),
        Err(at(CrontabSyntaxError::InvalidPeriodField, b"2"))
    );
    assert_eq!(
        parse_period(b"/2", FieldKind::Hour),
        Err(at(CrontabSyntaxError::InvalidPeriodField, b"/2"))
    );
}

#[test]
fn period_is_no_enumeration() {
    assert_eq!(parse_period(b"*/2,*/3", FieldKind::Minute), Ok(&b",*/3"[..]));
    assert_eq!(parse_field(b"*/2,*/3", FieldKind::Minute), Ok(&b",*/3"[..]));
}

#[test]
fn range_of_one_or_two_values() {
    assert_eq!(parse_range_or_value(b"1", FieldKind::Minute), Ok(&b""[..]));
    assert_eq!(parse_range_or_value(b"1 ", FieldKind::Minute), Ok(&b" "[..]));
    assert_eq!(parse_range_or_value(b"1-2,3", FieldKind::Minute), Ok(&b",3"[..]));
    assert_eq!(parse_range_or_value(b"23-1", FieldKind::Hour), Ok(&b""[..]));
    assert_eq!(parse_range_or_value(b"jan-12", FieldKind::Month), Ok(&b""[..]));
    assert_eq!(parse_range_or_value(b"1-2-3", FieldKind::Minute), Ok(&b"-3"[..]));
}

#[test]
fn range_needs_its_second_value() {
    assert_eq!(
        parse_range_or_value(b"1-", FieldKind::Minute),
        Err(at(CrontabSyntaxError::InvalidNumericValue, b""))
    );
    assert_eq!(
        parse_range_or_value(b"1-x", FieldKind::Minute),
        Err(at(CrontabSyntaxError::InvalidNumericValue, b"x"))
    );
    assert_eq!(
        parse_range_or_value(b"1-60", FieldKind::Minute),
        Err(at(CrontabSyntaxError::ValueOutOfBounds { value: 60, min: 0, max: 59 }, b"60"))
    );
    assert_eq!(
        parse_range_or_value(b"x-1", FieldKind::Minute),
        Err(at(CrontabSyntaxError::InvalidNumericValue, b"x-1"))
    );
}

#[test]
fn enumeration_accepts_lists_of_values_and_ranges() {
    for kind in KINDS {
        let low = kind.min().max(1);
        let single = format!("{}-{}", low, low + 1);
        assert_eq!(parse_enum(single.as_bytes(), kind), Ok(&b""[..]));
        let pair = format!("{},{}", low, low + 1);
        assert_eq!(parse_enum(pair.as_bytes(), kind), Ok(&b""[..]));
    }
    assert_eq!(parse_enum(b"1-2", FieldKind::Minute), Ok(&b""[..]));
    assert_eq!(parse_enum(b"1,2", FieldKind::Minute), Ok(&b""[..]));
    assert_eq!(parse_enum(b"1-2,4,6-8", FieldKind::Minute), Ok(&b""[..]));
    assert_eq!(parse_enum(b"1-2,4,6-8", FieldKind::Month), Ok(&b""[..]));
    assert_eq!(parse_enum(b"mon,wed-fri,0", FieldKind::DayOfWeek), Ok(&b""[..]));
    assert_eq!(parse_enum(b"5", FieldKind::Hour), Ok(&b""[..]));
}

#[test]
fn enumeration_refuses_a_missing_element() {
    assert_eq!(
        parse_enum(b",1", FieldKind::Minute),
        Err(caused(
            CrontabSyntaxError::InvalidEnumField,
            b",1",
            at(CrontabSyntaxError::InvalidNumericValue, b",1"),
        ))
    );
    assert_eq!(
        parse_enum(b"1,", FieldKind::Minute),
        Err(caused(
            CrontabSyntaxError::InvalidEnumField,
            b"1,",
            at(CrontabSyntaxError::InvalidNumericValue, b""),
        ))
    );
    assert_eq!(
        parse_enum(b"", FieldKind::Minute),
        Err(caused(
            CrontabSyntaxError::InvalidEnumField,
            b"",
            at(CrontabSyntaxError::InvalidNumericValue, b""),
        ))
    );
}

#[test]
fn enumeration_wraps_the_failure_of_any_element() {
    assert_eq!(
        parse_enum(b"1,2,61,3", FieldKind::Minute),
        Err(caused(
            CrontabSyntaxError::InvalidEnumField,
            b"1,2,61,3",
            at(CrontabSyntaxError::ValueOutOfBounds { value: 61, min: 0, max: 59 }, b"61,3"),
        ))
    );
    assert_eq!(
        parse_enum(b"1-x", FieldKind::Minute),
        Err(caused(
            CrontabSyntaxError::InvalidEnumField,
            b"1-x",
            at(CrontabSyntaxError::InvalidNumericValue, b"x"),
        ))
    );
}

#[test]
fn field_is_a_period_where_a_star_comes_first() {
    assert_eq!(parse_field(b"* ", FieldKind::Minute), Ok(&b" "[..]));
    assert_eq!(parse_field(b"*/5 ", FieldKind::Minute), Ok(&b" "[..]));
    assert_eq!(parse_field(b"1,2 ", FieldKind::Minute), Ok(&b" "[..]));
    assert_eq!(
        parse_field(b"*/x", FieldKind::Minute),
        Err(caused(
            CrontabSyntaxError::InvalidPeriodField,
            b"x",
            at(CrontabSyntaxError::InvalidNumericValue, b"x"),
        ))
    );
    assert_eq!(
        parse_field(b"", FieldKind::Minute),
        Err(caused(
            CrontabSyntaxError::InvalidEnumField,
            b"",
            at(CrontabSyntaxError::InvalidNumericValue, b""),
        ))
    );
    assert_eq!(
        parse_field(b"1,*", FieldKind::Minute),
        Err(caused(
            CrontabSyntaxError::InvalidEnumField,
            b"1,*",
            at(CrontabSyntaxError::InvalidNumericValue, b"*"),
        ))
    );
}
