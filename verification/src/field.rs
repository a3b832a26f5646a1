//! The grammar of one schedule field: values, ranges, enumerations and
//! periods, for each of the five kinds of field.
//!
//! Every parser reads a prefix of its input and hands back what follows it.
//! The input is the rest of a complete line: where it ends nothing more
//! will come, so a parser that would need more bytes fails.

use vstd::prelude::*;
use crate::bytes::{digit, lemma_run_len, run_len, skip, ByteClass, Scan};
use crate::error::{
    failure, failure_caused, outcome_view, CrontabSyntaxError, Diagnostic, OutcomeView,
    ParseOutcome, SyntaxErrorView,
};
use crate::number::{decimal_value, digits_value};

verus! {

/// The five columns of a schedule.
#[derive(Clone, Copy, Debug, PartialEq, Eq)]
pub enum FieldKind {
    Minute,
    Hour,
    DayOfMonth,
    Month,
    DayOfWeek,
}

/// The names of the months, in the order in which they are tried.
pub open spec fn month_names() -> Seq<Seq<u8>> {
    seq![
        seq!['j' as u8, 'a' as u8, 'n' as u8],
        seq!['f' as u8, 'e' as u8, 'b' as u8],
        seq!['m' as u8, 'a' as u8, 'r' as u8],
        seq!['a' as u8, 'p' as u8, 'r' as u8],
        seq!['m' as u8, 'a' as u8, 'y' as u8],
        seq!['j' as u8, 'u' as u8, 'n' as u8],
        seq!['j' as u8, 'u' as u8, 'l' as u8],
        seq!['a' as u8, 'u' as u8, 'g' as u8],
        seq!['s' as u8, 'e' as u8, 'p' as u8],
        seq!['o' as u8, 'c' as u8, 't' as u8],
        seq!['n' as u8, 'o' as u8, 'v' as u8],
        seq!['d' as u8, 'e' as u8, 'c' as u8],
    ]
}

/// The names of the days of the week, in the order in which they are tried.
pub open spec fn day_names() -> Seq<Seq<u8>> {
    seq![
        seq!['m' as u8, 'o' as u8, 'n' as u8],
        seq!['t' as u8, 'u' as u8, 'e' as u8],
        seq!['w' as u8, 'e' as u8, 'd' as u8],
        seq!['t' as u8, 'h' as u8, 'u' as u8],
        seq!['f' as u8, 'r' as u8, 'i' as u8],
        seq!['s' as u8, 'a' as u8, 't' as u8],
        seq!['s' as u8, 'u' as u8, 'n' as u8],
    ]
}

impl FieldKind {
    /// The least number that the field accepts.
    pub open spec fn spec_min(self) -> int {
        match self {
            FieldKind::Month => 1,
            _ => 0,
        }
    }

    /// The greatest number that the field accepts.
    pub open spec fn spec_max(self) -> int {
        match self {
            FieldKind::Minute => 59,
            FieldKind::Hour => 24,
            FieldKind::DayOfMonth => 31,
            FieldKind::Month => 12,
            FieldKind::DayOfWeek => 7,
        }
    }

    /// The names that the field accepts in place of a number.
    pub open spec fn names(self) -> Seq<Seq<u8>> {
        match self {
            FieldKind::Month => month_names(),
            FieldKind::DayOfWeek => day_names(),
            _ => Seq::empty(),
        }
    }

    /// The least number that the field accepts.
    pub fn min(self) -> (r: i32)
        ensures
            r == self.spec_min(),
    {
        match self {
            FieldKind::Month => 1,
            _ => 0,
        }
    }

    /// The greatest number that the field accepts.
    pub fn max(self) -> (r: i32)
        ensures
            r == self.spec_max(),
    {
        match self {
            FieldKind::Minute => 59,
            FieldKind::Hour => 24,
            FieldKind::DayOfMonth => 31,
            FieldKind::Month => 12,
            FieldKind::DayOfWeek => 7,
        }
    }
}

/// What the bounded integer parser reports on `input`: the input behind the
/// leading digits where they stand for a number from `min` to `max`.
pub open spec fn spec_within_bounds(input: Seq<u8>, min: int, max: int) -> OutcomeView {
    let n = run_len(input, ByteClass::Digit) as int;
    let value = digits_value(input.take(n));
    if n == 0 || value > i32::MAX {
        Err(failure(SyntaxErrorView::InvalidNumericValue, input))
    } else if value < min || value > max {
        Err(failure(SyntaxErrorView::ValueOutOfBounds { value: value as int, min, max }, input))
    } else {
        Ok(input.skip(n))
    }
}

/// Parses a decimal number and checks that it lies between `min` and `max`.
pub fn parse_within_bounds<'a>(input: &'a [u8], min: i32, max: i32) -> (r: ParseOutcome<'a>)
    ensures
        outcome_view(r) == spec_within_bounds(input@, min as int, max as int),
{
    proof {
        lemma_run_len(input@, ByteClass::Digit);
    }
    match digit(input) {
        Scan::Done { rest, run } => match decimal_value(run) {
            Some(value) => {
                if value < min || value > max {
                    Err(Diagnostic::at(CrontabSyntaxError::ValueOutOfBounds { value, min, max }, input))
                } else {
                    Ok(rest)
                }
            },
            None => Err(Diagnostic::at(CrontabSyntaxError::InvalidNumericValue, input)),
        },
        Scan::Error | Scan::Incomplete => Err(
            Diagnostic::at(CrontabSyntaxError::InvalidNumericValue, input),
        ),
    }
}

/// The input behind the first of `names` that starts `input`, if one does.
pub open spec fn strip_first_name(input: Seq<u8>, names: Seq<Seq<u8>>) -> Option<Seq<u8>>
    decreases names.len(),
{
    if names.len() == 0 {
        None
    } else if names[0].is_prefix_of(input) {
        Some(input.skip(names[0].len() as int))
    } else {
        strip_first_name(input, names.drop_first())
    }
}

/// Whether `input` starts with `tag`.
pub fn starts_with(input: &[u8], tag: &[u8]) -> (r: bool)
    ensures
        r == tag@.is_prefix_of(input@),
{
    if input.len() < tag.len() {
        return false;
    }
    let mut i: usize = 0;
    while i < tag.len()
        invariant
            i <= tag.len() <= input.len(),
            forall|j: int| 0 <= j < i ==> input@[j] == tag@[j],
        decreases tag.len() - i,
    {
        if input[i] != tag[i] {
            return false;
        }
        i += 1;
    }
    assert(tag@ =~= input@.subrange(0, tag@.len() as int));
    true
}

/// The sequences that a table of three-letter names holds.
pub open spec fn table_view(table: Seq<[u8; 3]>) -> Seq<Seq<u8>> {
    Seq::new(table.len(), |i: int| table[i]@)
}

fn strip_listed<'a>(input: &'a [u8], table: &[[u8; 3]]) -> (r: Option<&'a [u8]>)
    ensures
        r is Some <==> strip_first_name(input@, table_view(table@)) is Some,
        r matches Some(rest) ==> strip_first_name(input@, table_view(table@)) == Some(rest@),
{
    let ghost names = table_view(table@);
    let mut i: usize = 0;
    assert(names.skip(0) =~= names);
    while i < table.len()
        invariant
            i <= table.len(),
            names == table_view(table@),
            strip_first_name(input@, names) == strip_first_name(input@, names.skip(i as int)),
        decreases table.len() - i,
    {
        let name = &table[i];
        proof {
            assert(names.skip(i as int)[0] == name@);
            assert(names.skip(i as int).drop_first() =~= names.skip(i + 1));
        }
        if starts_with(input, name.as_slice()) {
            return Some(skip(input, 3));
        }
        i += 1;
    }
    None
}

/// What the value parser of `kind` reports on `input`: a name of the field
/// is taken where one starts the input, a bounded number otherwise.
pub open spec fn spec_value(input: Seq<u8>, kind: FieldKind) -> OutcomeView {
    match strip_first_name(input, kind.names()) {
        Some(rest) => Ok(rest),
        None => spec_within_bounds(input, kind.spec_min(), kind.spec_max()),
    }
}

/// Parses a minute: a number from 0 to 59.
pub fn minute_value_parser<'a>(input: &'a [u8]) -> (r: ParseOutcome<'a>)
    ensures
        outcome_view(r) == spec_value(input@, FieldKind::Minute),
{
    parse_within_bounds(input, 0, 59)
}

/// Parses an hour: a number from 0 to 24.
pub fn hour_value_parser<'a>(input: &'a [u8]) -> (r: ParseOutcome<'a>)
    ensures
        outcome_view(r) == spec_value(input@, FieldKind::Hour),
{
    parse_within_bounds(input, 0, 24)
}

/// Parses a day of the month: a number from 0 to 31.
pub fn day_of_month_value_parser<'a>(input: &'a [u8]) -> (r: ParseOutcome<'a>)
    ensures
        outcome_view(r) == spec_value(input@, FieldKind::DayOfMonth),
{
    parse_within_bounds(input, 0, 31)
}

/// Parses a month: one of the names `jan` to `dec`, or a number from 1 to 12.
pub fn month_value_parser<'a>(input: &'a [u8]) -> (r: ParseOutcome<'a>)
    ensures
        outcome_view(r) == spec_value(input@, FieldKind::Month),
{
    let table = [
        ['j' as u8, 'a' as u8, 'n' as u8],
        ['f' as u8, 'e' as u8, 'b' as u8],
        ['m' as u8, 'a' as u8, 'r' as u8],
        ['a' as u8, 'p' as u8, 'r' as u8],
        ['m' as u8, 'a' as u8, 'y' as u8],
        ['j' as u8, 'u' as u8, 'n' as u8],
        ['j' as u8, 'u' as u8, 'l' as u8],
        ['a' as u8, 'u' as u8, 'g' as u8],
        ['s' as u8, 'e' as u8, 'p' as u8],
        ['o' as u8, 'c' as u8, 't' as u8],
        ['n' as u8, 'o' as u8, 'v' as u8],
        ['d' as u8, 'e' as u8, 'c' as u8],
    ];
    proof {
        assert forall|i: int| 0 <= i < 12 implies table_view(table@)[i] == #[trigger] month_names()[i] by {
            assert(table@[i]@ =~= month_names()[i]);
        }
        assert(table_view(table@) =~= month_names());
    }
    match strip_listed(input, table.as_slice()) {
        Some(rest) => Ok(rest),
        None => parse_within_bounds(input, 1, 12),
    }
}

/// Parses a day of the week: one of the names `mon` to `sun`, or a number
/// from 0 to 7.
pub fn day_of_week_value_parser<'a>(input: &'a [u8]) -> (r: ParseOutcome<'a>)
    ensures
        outcome_view(r) == spec_value(input@, FieldKind::DayOfWeek),
{
    let table = [
        ['m' as u8, 'o' as u8, 'n' as u8],
        ['t' as u8, 'u' as u8, 'e' as u8],
        ['w' as u8, 'e' as u8, 'd' as u8],
        ['t' as u8, 'h' as u8, 'u' as u8],
        ['f' as u8, 'r' as u8, 'i' as u8],
        ['s' as u8, 'a' as u8, 't' as u8],
        ['s' as u8, 'u' as u8, 'n' as u8],
    ];
    proof {
        assert forall|i: int| 0 <= i < 7 implies table_view(table@)[i] == #[trigger] day_names()[i] by {
            assert(table@[i]@ =~= day_names()[i]);
        }
        assert(table_view(table@) =~= day_names());
    }
    match strip_listed(input, table.as_slice()) {
        Some(rest) => Ok(rest),
        None => parse_within_bounds(input, 0, 7),
    }
}

/// Parses one value of a field of `kind`.
pub fn parse_value<'a>(input: &'a [u8], kind: FieldKind) -> (r: ParseOutcome<'a>)
    ensures
        outcome_view(r) == spec_value(input@, kind),
{
    match kind {
        FieldKind::Minute => minute_value_parser(input),
        FieldKind::Hour => hour_value_parser(input),
        FieldKind::DayOfMonth => day_of_month_value_parser(input),
        FieldKind::Month => month_value_parser(input),
        FieldKind::DayOfWeek => day_of_week_value_parser(input),
    }
}

/// `rest` is what is left of `input` behind a prefix that is not empty.
pub open spec fn is_proper_suffix(rest: Seq<u8>, input: Seq<u8>) -> bool {
    rest.len() < input.len() && rest == input.skip(input.len() - rest.len())
}

/// A name that is taken from the input is one of the names, and the rest
/// follows it.
pub proof fn lemma_strip_first_name(input: Seq<u8>, names: Seq<Seq<u8>>)
    ensures
        strip_first_name(input, names) matches Some(rest) ==> exists|i: int|
            0 <= i < names.len() && (#[trigger] names[i]).is_prefix_of(input) && rest == input.skip(
                names[i].len() as int,
            ),
        strip_first_name(input, names) is None ==> forall|i: int|
            0 <= i < names.len() ==> !(#[trigger] names[i]).is_prefix_of(input),
    decreases names.len(),
{
    if names.len() > 0 && !names[0].is_prefix_of(input) {
        let tail = names.drop_first();
        lemma_strip_first_name(input, tail);
        if let Some(rest) = strip_first_name(input, tail) {
            let i = choose|i: int|
                0 <= i < tail.len() && (#[trigger] tail[i]).is_prefix_of(input) && rest == input.skip(
                    tail[i].len() as int,
                );
            assert(names[i + 1] == tail[i]);
        } else {
            assert forall|i: int| 0 <= i < names.len() implies !(#[trigger] names[i]).is_prefix_of(
                input,
            ) by {
                if i > 0 {
                    assert(names[i] == tail[i - 1]);
                }
            }
        }
    }
}

/// A value that is accepted takes at least one byte from the input.
pub proof fn lemma_value_consumes(input: Seq<u8>, kind: FieldKind)
    ensures
        spec_value(input, kind) matches Ok(rest) ==> is_proper_suffix(rest, input),
{
    lemma_strip_first_name(input, kind.names());
    lemma_run_len(input, ByteClass::Digit);
}

/// What the range parser reports on `input`: one value, and a second one
/// where a `-` follows the first.
pub open spec fn spec_range_or_value(input: Seq<u8>, kind: FieldKind) -> OutcomeView {
    match spec_value(input, kind) {
        Ok(rest) => if rest.len() > 0 && rest[0] == '-' as u8 {
            spec_value(rest.skip(1), kind)
        } else {
            Ok(rest)
        },
        Err(e) => Err(e),
    }
}

/// A range that is accepted takes at least one byte from the input.
pub proof fn lemma_range_consumes(input: Seq<u8>, kind: FieldKind)
    ensures
        spec_range_or_value(input, kind) matches Ok(rest) ==> is_proper_suffix(rest, input),
{
    lemma_value_consumes(input, kind);
    if let Ok(first) = spec_value(input, kind) {
        if first.len() > 0 && first[0] == '-' as u8 {
            lemma_value_consumes(first.skip(1), kind);
            if let Ok(rest) = spec_value(first.skip(1), kind) {
                assert(rest =~= input.skip(input.len() - rest.len()));
            }
        }
    }
}

/// Parses a value, or two values with a `-` between them.
pub fn parse_range_or_value<'a>(input: &'a [u8], kind: FieldKind) -> (r: ParseOutcome<'a>)
    ensures
        outcome_view(r) == spec_range_or_value(input@, kind),
{
    match parse_value(input, kind) {
        Ok(rest) => {
            if rest.len() > 0 && rest[0] == '-' as u8 {
                parse_value(skip(rest, 1), kind)
            } else {
                Ok(rest)
            }
        },
        Err(e) => Err(e),
    }
}

/// What is left of `input` behind a list of ranges with a `,` between
/// each two, or the failure of the range that was refused.
pub open spec fn spec_list(input: Seq<u8>, kind: FieldKind) -> OutcomeView
    decreases input.len(),
{
    match spec_range_or_value(input, kind) {
        Ok(rest) => if rest.len() > 0 && rest[0] == ',' as u8 {
            proof {
                lemma_range_consumes(input, kind);
            }
            spec_list(rest.skip(1), kind)
        } else {
            Ok(rest)
        },
        Err(e) => Err(e),
    }
}

/// What the enumeration parser reports on `input`: the input behind a list
/// of ranges, or `InvalidEnumField` around the failure of the range that
/// was refused.
pub open spec fn spec_enum(input: Seq<u8>, kind: FieldKind) -> OutcomeView {
    match spec_list(input, kind) {
        Ok(rest) => Ok(rest),
        Err(cause) => Err(failure_caused(SyntaxErrorView::InvalidEnumField, input, cause)),
    }
}

/// Parses a list of values and ranges with a `,` between each two.
pub fn parse_enum<'a>(input: &'a [u8], kind: FieldKind) -> (r: ParseOutcome<'a>)
    ensures
        outcome_view(r) == spec_enum(input@, kind),
{
    let mut cur = input;
    loop
        invariant
            spec_list(input@, kind) == spec_list(cur@, kind),
        decreases cur@.len(),
    {
        proof {
            lemma_range_consumes(cur@, kind);
        }
        match parse_range_or_value(cur, kind) {
            Ok(rest) => {
                if rest.len() > 0 && rest[0] == ',' as u8 {
                    cur = skip(rest, 1);
                } else {
                    return Ok(rest);
                }
            },
            Err(cause) => {
                return Err(Diagnostic::caused_by(CrontabSyntaxError::InvalidEnumField, input, cause));
            },
        }
    }
}

/// What the period parser reports on `input`: the input behind a `*`, or
/// behind the step where `/` and a step follow the `*`.
pub open spec fn spec_period(input: Seq<u8>, kind: FieldKind) -> OutcomeView {
    if input.len() == 0 || input[0] != '*' as u8 {
        Err(failure(SyntaxErrorView::InvalidPeriodField, input))
    } else if input.len() >= 2 && input[1] == '/' as u8 {
        match spec_value(input.skip(2), kind) {
            Ok(rest) => Ok(rest),
            Err(cause) => Err(
                failure_caused(SyntaxErrorView::InvalidPeriodField, input.skip(2), cause),
            ),
        }
    } else {
        Ok(input.skip(1))
    }
}

/// Parses `*`, or `*`, `/` and a step.
pub fn parse_period<'a>(input: &'a [u8], kind: FieldKind) -> (r: ParseOutcome<'a>)
    ensures
        outcome_view(r) == spec_period(input@, kind),
{
    if input.len() == 0 || input[0] != '*' as u8 {
        return Err(Diagnostic::at(CrontabSyntaxError::InvalidPeriodField, input));
    }
    let after_star = skip(input, 1);
    if after_star.len() > 0 && after_star[0] == '/' as u8 {
        let step = skip(after_star, 1);
        assert(step@ =~= input@.skip(2));
        match parse_value(step, kind) {
            Ok(rest) => Ok(rest),
            Err(cause) => Err(
                Diagnostic::caused_by(CrontabSyntaxError::InvalidPeriodField, step, cause),
            ),
        }
    } else {
        Ok(after_star)
    }
}

/// What the field parser reports on `input`: a period where the input
/// starts with `*`, an enumeration otherwise.
pub open spec fn spec_field(input: Seq<u8>, kind: FieldKind) -> OutcomeView {
    if input.len() > 0 && input[0] == '*' as u8 {
        spec_period(input, kind)
    } else {
        spec_enum(input, kind)
    }
}

/// Parses one field of a schedule: a period or an enumeration.
pub fn parse_field<'a>(input: &'a [u8], kind: FieldKind) -> (r: ParseOutcome<'a>)
    ensures
        outcome_view(r) == spec_field(input@, kind),
{
    if input.len() > 0 && input[0] == '*' as u8 {
        parse_period(input, kind)
    } else {
        parse_enum(input, kind)
    }
}

} // verus!
