//! The grammar of a whole crontab line: a blank line, a comment, the
//! assignment of a variable, or a schedule with its user and its command.

use vstd::prelude::*;
use crate::bytes::{
    alphanumeric, ascii_chars, is_blank, is_run, lemma_run_len, run_len, skip, space, ByteClass,
    Scan,
};
use crate::error::{
    failure, outcome_view, CrontabSyntaxError, Diagnostic, OutcomeView, ParseOutcome,
    SyntaxErrorView,
};
use crate::field::{parse_field, spec_field, FieldKind};
use crate::text::{from_utf8, is_ascii_bytes, lemma_ascii_is_utf8, str_eq};

verus! {

/// What the line parser is told: the names that the user field may hold.
/// Without a list every name is accepted; with an empty list, none.
pub struct CrontabParserOptions<'a> {
    pub allowed_usernames: Option<&'a [&'a str]>,
}

/// A list of permitted names as a mathematical value.
pub open spec fn names_view(allowed: Option<&[&str]>) -> Option<Seq<Seq<char>>> {
    match allowed {
        Some(names) => Some(Seq::new(names@.len(), |i: int| names@[i]@)),
        None => None,
    }
}

/// Whether `name` is permitted: it is where there is no list, and where the
/// list holds it.
pub open spec fn spec_is_valid_username(name: Seq<char>, allowed: Option<Seq<Seq<char>>>) -> bool {
    match allowed {
        Some(names) => names.contains(name),
        None => true,
    }
}

/// Whether `name` is permitted by `allowed_usernames`.
pub fn is_valid_username(name: &str, allowed_usernames: Option<&[&str]>) -> (r: bool)
    ensures
        r == spec_is_valid_username(name@, names_view(allowed_usernames)),
{
    match allowed_usernames {
        None => true,
        Some(names) => {
            let ghost list = names_view(allowed_usernames).unwrap();
            let mut i: usize = 0;
            while i < names.len()
                invariant
                    i <= names.len(),
                    names_view(allowed_usernames) == Some(list),
                    list.len() == names@.len(),
                    forall|j: int| 0 <= j < list.len() ==> list[j] == names@[j]@,
                    forall|j: int| 0 <= j < i ==> list[j] != name@,
                decreases names.len() - i,
            {
                if str_eq(names[i], name) {
                    assert(list[i as int] == name@);
                    assert(list.contains(name@));
                    return true;
                }
                i += 1;
            }
            false
        },
    }
}

/// What the separator parser reports on `input`: the input behind its
/// leading spaces and tabs, of which there must be one at least.
pub open spec fn spec_field_separator(input: Seq<u8>) -> OutcomeView {
    let n = run_len(input, ByteClass::Space) as int;
    if n == 0 {
        Err(failure(SyntaxErrorView::InvalidFieldSeparator, input))
    } else {
        Ok(input.skip(n))
    }
}

/// Parses the spaces and tabs between two fields.
pub fn parse_field_separator<'a>(input: &'a [u8]) -> (r: ParseOutcome<'a>)
    ensures
        outcome_view(r) == spec_field_separator(input@),
{
    match space(input) {
        Scan::Done { rest, .. } => Ok(rest),
        Scan::Error | Scan::Incomplete => Err(
            Diagnostic::at(CrontabSyntaxError::InvalidFieldSeparator, input),
        ),
    }
}

/// What the user parser reports on `input`: the input behind its leading
/// letters and digits, where there are some and they make a permitted name.
pub open spec fn spec_user(input: Seq<u8>, allowed: Option<Seq<Seq<char>>>) -> OutcomeView {
    let n = run_len(input, ByteClass::Alphanumeric) as int;
    if n > 0 && spec_is_valid_username(ascii_chars(input.take(n)), allowed) {
        Ok(input.skip(n))
    } else {
        Err(failure(SyntaxErrorView::InvalidUsername, input))
    }
}

/// Parses the name of the user that runs the command.
pub fn parse_user<'a>(input: &'a [u8], allowed_usernames: Option<&[&str]>) -> (r: ParseOutcome<'a>)
    ensures
        outcome_view(r) == spec_user(input@, names_view(allowed_usernames)),
{
    proof {
        lemma_run_len(input@, ByteClass::Alphanumeric);
    }
    match alphanumeric(input) {
        Scan::Done { rest, run } => {
            proof {
                assert(is_ascii_bytes(run@)) by {
                    assert forall|i: int| 0 <= i < run@.len() implies #[trigger] run@[i] < 128 by {
                        assert(ByteClass::Alphanumeric.contains(input@[i]));
                    }
                }
                lemma_ascii_is_utf8(run@);
            }
            let valid = match from_utf8(run) {
                Some(name) => is_valid_username(name, allowed_usernames),
                None => false,
            };
            if valid {
                Ok(rest)
            } else {
                Err(Diagnostic::at(CrontabSyntaxError::InvalidUsername, input))
            }
        },
        Scan::Error | Scan::Incomplete => Err(
            Diagnostic::at(CrontabSyntaxError::InvalidUsername, input),
        ),
    }
}

/// The longest command line that is accepted.
pub const MAX_COMMAND_LINE: usize = 999;

/// Why a command line that is too long is refused.
pub open spec fn too_long_reason() -> Seq<char> {
    "command line can not exceed 999 characters"@
}

/// Why a command line that holds a `%` is refused.
pub open spec fn special_char_reason() -> Seq<char> {
    "special char % should not be used"@
}

/// What the command line parser reports on `input`: nothing is left where
/// the input holds no `%` and at most 999 bytes.
pub open spec fn spec_command_line(input: Seq<u8>) -> OutcomeView {
    if input.contains('%' as u8) {
        Err(
            failure(SyntaxErrorView::InvalidCommandLine { reason: special_char_reason() }, input),
        )
    } else if input.len() > MAX_COMMAND_LINE {
        Err(failure(SyntaxErrorView::InvalidCommandLine { reason: too_long_reason() }, input))
    } else {
        Ok(Seq::empty())
    }
}

/// Takes the rest of the line as the command, and checks that it holds no
/// `%` and is not too long.
pub fn parse_command_line<'a>(input: &'a [u8]) -> (r: ParseOutcome<'a>)
    ensures
        outcome_view(r) == spec_command_line(input@),
{
    let mut i: usize = 0;
    while i < input.len()
        invariant
            i <= input.len(),
            forall|j: int| 0 <= j < i ==> input@[j] != '%' as u8,
        decreases input.len() - i,
    {
        if input[i] == '%' as u8 {
            let reason = String::from_str("special char % should not be used");
            return Err(Diagnostic::at(CrontabSyntaxError::InvalidCommandLine { reason }, input));
        }
        i += 1;
    }
    if input.len() > MAX_COMMAND_LINE {
        let reason = String::from_str("command line can not exceed 999 characters");
        return Err(Diagnostic::at(CrontabSyntaxError::InvalidCommandLine { reason }, input));
    }
    let rest = skip(input, input.len());
    assert(rest@ =~= Seq::<u8>::empty());
    Ok(rest)
}

/// Whether every byte of the line is a space or a tab.
pub open spec fn is_blank_line(input: Seq<u8>) -> bool {
    forall|i: int| 0 <= i < input.len() ==> is_blank(#[trigger] input[i])
}

/// Whether a `#` follows the leading spaces and tabs of the line.
pub open spec fn is_comment_line(input: Seq<u8>) -> bool {
    let n = run_len(input, ByteClass::Space) as int;
    n < input.len() && input[n] == '#' as u8
}

/// Whether the line starts with letters and digits that a `=` follows.
pub open spec fn is_assignment_line(input: Seq<u8>) -> bool {
    let n = run_len(input, ByteClass::Alphanumeric) as int;
    0 < n < input.len() && input[n] == '=' as u8
}

/// Takes the whole line where it holds spaces and tabs only.
pub fn parse_empty_line<'a>(input: &'a [u8]) -> (r: Option<&'a [u8]>)
    ensures
        r is Some <==> is_blank_line(input@),
        r matches Some(rest) ==> rest@ == Seq::<u8>::empty(),
{
    let mut i: usize = 0;
    while i < input.len()
        invariant
            i <= input.len(),
            forall|j: int| 0 <= j < i ==> is_blank(#[trigger] input@[j]),
        decreases input.len() - i,
    {
        if !nom::is_space(input[i]) {
            return None;
        }
        i += 1;
    }
    let rest = skip(input, input.len());
    assert(rest@ =~= Seq::<u8>::empty());
    Some(rest)
}

/// Takes the whole line where it is a comment.
pub fn parse_comment<'a>(input: &'a [u8]) -> (r: Option<&'a [u8]>)
    ensures
        r is Some <==> is_comment_line(input@),
        r matches Some(rest) ==> rest@ == Seq::<u8>::empty(),
{
    let mut i: usize = 0;
    while i < input.len() && nom::is_space(input[i])
        invariant
            i <= input.len(),
            forall|j: int| 0 <= j < i ==> is_blank(#[trigger] input@[j]),
        decreases input.len() - i,
    {
        i += 1;
    }
    proof {
        lemma_run_len(input@, ByteClass::Space);
        assert(is_run(input@, ByteClass::Space, i as nat));
    }
    if i < input.len() && input[i] == '#' as u8 {
        let rest = skip(input, input.len());
        assert(rest@ =~= Seq::<u8>::empty());
        Some(rest)
    } else {
        None
    }
}

/// Takes the whole line where it assigns a variable.
pub fn parse_environnment_variable<'a>(input: &'a [u8]) -> (r: Option<&'a [u8]>)
    ensures
        r is Some <==> is_assignment_line(input@),
        r matches Some(rest) ==> rest@ == Seq::<u8>::empty(),
{
    proof {
        lemma_run_len(input@, ByteClass::Alphanumeric);
    }
    match alphanumeric(input) {
        Scan::Done { rest, .. } => {
            if rest.len() > 0 && rest[0] == '=' as u8 {
                let end = skip(input, input.len());
                assert(end@ =~= Seq::<u8>::empty());
                Some(end)
            } else {
                None
            }
        },
        Scan::Error | Scan::Incomplete => None,
    }
}

/// What follows `r` where it is a success: `next` on the input that was left.
pub open spec fn and_then(r: OutcomeView, next: spec_fn(Seq<u8>) -> OutcomeView) -> OutcomeView {
    match r {
        Ok(rest) => next(rest),
        Err(e) => Err(e),
    }
}

/// What the schedule parser reports on `input`: the five fields, the user
/// and the command, each behind a separator, the first failure ending it.
pub open spec fn spec_schedule(input: Seq<u8>, allowed: Option<Seq<Seq<char>>>) -> OutcomeView {
    let r = spec_field(input, FieldKind::Minute);
    let r = and_then(r, |i: Seq<u8>| spec_field_separator(i));
    let r = and_then(r, |i: Seq<u8>| spec_field(i, FieldKind::Hour));
    let r = and_then(r, |i: Seq<u8>| spec_field_separator(i));
    let r = and_then(r, |i: Seq<u8>| spec_field(i, FieldKind::DayOfMonth));
    let r = and_then(r, |i: Seq<u8>| spec_field_separator(i));
    let r = and_then(r, |i: Seq<u8>| spec_field(i, FieldKind::Month));
    let r = and_then(r, |i: Seq<u8>| spec_field_separator(i));
    let r = and_then(r, |i: Seq<u8>| spec_field(i, FieldKind::DayOfWeek));
    let r = and_then(r, |i: Seq<u8>| spec_field_separator(i));
    let r = and_then(r, |i: Seq<u8>| spec_user(i, allowed));
    let r = and_then(r, |i: Seq<u8>| spec_field_separator(i));
    and_then(r, |i: Seq<u8>| spec_command_line(i))
}

/// What the line parser reports on `input`: nothing is left of a blank
/// line, a comment or an assignment; any other line is read as a schedule.
pub open spec fn spec_crontab(input: Seq<u8>, allowed: Option<Seq<Seq<char>>>) -> OutcomeView {
    if is_blank_line(input) || is_comment_line(input) || is_assignment_line(input) {
        Ok(Seq::empty())
    } else {
        spec_schedule(input, allowed)
    }
}

/// Parses the five fields of a schedule, the user and the command.
pub fn parse_schedule<'a>(input: &'a [u8], options: &CrontabParserOptions) -> (r: ParseOutcome<'a>)
    ensures
        outcome_view(r) == spec_schedule(input@, names_view(options.allowed_usernames)),
{
    let rest = match parse_field(input, FieldKind::Minute) {
        Ok(rest) => rest,
        Err(e) => return Err(e),
    };
    let rest = match parse_field_separator(rest) {
        Ok(rest) => rest,
        Err(e) => return Err(e),
    };
    let rest = match parse_field(rest, FieldKind::Hour) {
        Ok(rest) => rest,
        Err(e) => return Err(e),
    };
    let rest = match parse_field_separator(rest) {
        Ok(rest) => rest,
        Err(e) => return Err(e),
    };
    let rest = match parse_field(rest, FieldKind::DayOfMonth) {
        Ok(rest) => rest,
        Err(e) => return Err(e),
    };
    let rest = match parse_field_separator(rest) {
        Ok(rest) => rest,
        Err(e) => return Err(e),
    };
    let rest = match parse_field(rest, FieldKind::Month) {
        Ok(rest) => rest,
        Err(e) => return Err(e),
    };
    let rest = match parse_field_separator(rest) {
        Ok(rest) => rest,
        Err(e) => return Err(e),
    };
    let rest = match parse_field(rest, FieldKind::DayOfWeek) {
        Ok(rest) => rest,
        Err(e) => return Err(e),
    };
    let rest = match parse_field_separator(rest) {
        Ok(rest) => rest,
        Err(e) => return Err(e),
    };
    let rest = match parse_user(rest, options.allowed_usernames) {
        Ok(rest) => rest,
        Err(e) => return Err(e),
    };
    let rest = match parse_field_separator(rest) {
        Ok(rest) => rest,
        Err(e) => return Err(e),
    };
    parse_command_line(rest)
}

/// Parses one line of a crontab. A line that is accepted is taken whole.
pub fn parse_crontab<'a>(input: &'a [u8], options: &CrontabParserOptions) -> (r: ParseOutcome<'a>)
    ensures
        outcome_view(r) == spec_crontab(input@, names_view(options.allowed_usernames)),
        r matches Ok(rest) ==> rest@.len() == 0,
{
    if let Some(rest) = parse_empty_line(input) {
        return Ok(rest);
    }
    if let Some(rest) = parse_comment(input) {
        return Ok(rest);
    }
    if let Some(rest) = parse_environnment_variable(input) {
        return Ok(rest);
    }
    parse_schedule(input, options)
}

} // verus!
