//! Diagnostics as text for a reader.

use vstd::prelude::*;
use vstd::utf8::{decode_utf8, valid_utf8};
use crate::bytes::ascii_chars;
use crate::error::{CrontabSyntaxError, Diagnostic, DiagnosticView, SyntaxErrorView};
use crate::number::{decimal_text, lemma_decimal_digits, to_decimal};
use crate::text::{from_utf8, is_ascii_bytes, lemma_ascii_is_utf8};

verus! {

/// The text of a number.
pub open spec fn number_text(v: int) -> Seq<char> {
    ascii_chars(decimal_text(v))
}

/// What is said of an error.
pub open spec fn message(error: SyntaxErrorView) -> Seq<char> {
    match error {
        SyntaxErrorView::ValueOutOfBounds { value, min, max } => "value "@ + number_text(value)
            + " out of bounds (accepted: "@ + number_text(min) + " to "@ + number_text(max) + ")"@,
        SyntaxErrorView::InvalidEnumField | SyntaxErrorView::InvalidPeriodField =>
            "could not parse the field"@,
        SyntaxErrorView::InvalidNumericValue => "invalid numeric value"@,
        SyntaxErrorView::InvalidFieldSeparator => "expected a field separator (space or tab)"@,
        SyntaxErrorView::InvalidUsername => "invalid username"@,
        SyntaxErrorView::InvalidCommandLine { reason } => "invalid command line: "@ + reason,
    }
}

/// The most characters of the input that a diagnostic shows.
pub const FRAGMENT_LEN: usize = 15;

/// What is shown of the input at the point of failure: its first 15
/// characters, or all of them where they are fewer.
pub open spec fn fragment(position: Seq<u8>) -> Seq<char> {
    if valid_utf8(position) {
        let text = decode_utf8(position);
        if text.len() > FRAGMENT_LEN {
            text.take(FRAGMENT_LEN as int)
        } else {
            text
        }
    } else {
        "(invalid UTF-8)"@
    }
}

/// The text of one diagnostic: what is said of its error, then the input
/// at the point of failure where it was captured, then its cause.
pub open spec fn render(d: DiagnosticView) -> Seq<char>
    decreases d,
{
    message(d.error) + (match d.position {
        Some(p) => " (at '"@ + fragment(p) + "')"@,
        None => Seq::empty(),
    }) + (match d.cause {
        Some(cause) => "\nCaused by: "@ + render(*cause),
        None => Seq::empty(),
    })
}

/// The texts of several diagnostics, with an empty line between each two.
pub open spec fn render_all(ds: Seq<DiagnosticView>) -> Seq<char>
    decreases ds.len(),
{
    if ds.len() == 0 {
        Seq::empty()
    } else if ds.len() == 1 {
        render(ds[0])
    } else {
        render_all(ds.drop_last()) + "\n\n"@ + render(ds.last())
    }
}

/// The diagnostics of a slice as mathematical values.
pub open spec fn views(errs: Seq<Diagnostic>) -> Seq<DiagnosticView> {
    Seq::new(errs.len(), |i: int| errs[i]@)
}

/// The decimal text of `v` as a string.
pub fn number_to_string(v: i32) -> (r: String)
    ensures
        r@ == number_text(v as int),
{
    let digits = to_decimal(v);
    proof {
        if v < 0 {
            lemma_decimal_digits((-v) as nat);
        } else {
            lemma_decimal_digits(v as nat);
        }
        assert(is_ascii_bytes(digits@));
        lemma_ascii_is_utf8(digits@);
    }
    match from_utf8(digits.as_slice()) {
        Some(text) => String::from_str(text),
        None => String::new(),
    }
}

impl CrontabSyntaxError {
    /// What is said of the error.
    pub fn to_string(&self) -> (r: String)
        ensures
            r@ == message(self@),
    {
        match self {
            CrontabSyntaxError::ValueOutOfBounds { value, min, max } => {
                let mut out = String::from_str("value ");
                out.append(number_to_string(*value).as_str());
                out.append(" out of bounds (accepted: ");
                out.append(number_to_string(*min).as_str());
                out.append(" to ");
                out.append(number_to_string(*max).as_str());
                out.append(")");
                out
            },
            CrontabSyntaxError::InvalidEnumField | CrontabSyntaxError::InvalidPeriodField => {
                String::from_str("could not parse the field")
            },
            CrontabSyntaxError::InvalidNumericValue => String::from_str("invalid numeric value"),
            CrontabSyntaxError::InvalidFieldSeparator => String::from_str(
                "expected a field separator (space or tab)",
            ),
            CrontabSyntaxError::InvalidUsername => String::from_str("invalid username"),
            CrontabSyntaxError::InvalidCommandLine { reason } => {
                let mut out = String::from_str("invalid command line: ");
                out.append(reason.as_str());
                out
            },
        }
    }
}

/// What is said of `error`.
pub fn format_error(error: &CrontabSyntaxError) -> (r: String)
    ensures
        r@ == message(error@),
{
    error.to_string()
}

/// What is shown of the input at the point of failure.
pub fn format_position(pos: &[u8]) -> (r: String)
    ensures
        r@ == fragment(pos@),
{
    match from_utf8(pos) {
        Some(text) => {
            let n = text.unicode_len();
            if n > FRAGMENT_LEN {
                String::from_str(text.substring_char(0, FRAGMENT_LEN))
            } else {
                String::from_str(text)
            }
        },
        None => String::from_str("(invalid UTF-8)"),
    }
}

impl<'a> Diagnostic<'a> {
    /// The text of the diagnostic and of its causes.
    pub fn render(&self) -> (r: String)
        ensures
            r@ == render(self@),
        decreases self,
    {
        let mut out = format_error(&self.error);
        if let Some(p) = self.position {
            out.append(" (at '");
            out.append(format_position(p).as_str());
            out.append("')");
        }
        if let Some(cause) = &self.cause {
            out.append("\nCaused by: ");
            out.append(cause.render().as_str());
        }
        out
    }
}

/// The text of `errs` for a reader: each diagnostic with its causes, and an
/// empty line between each two.
pub fn walk_errors(errs: &[Diagnostic]) -> (r: String)
    ensures
        r@ == render_all(views(errs@)),
{
    let mut out = String::new();
    let mut i: usize = 0;
    while i < errs.len()
        invariant
            i <= errs.len(),
            out@ == render_all(views(errs@).take(i as int)),
        decreases errs.len() - i,
    {
        proof {
            let next = views(errs@).take(i + 1);
            assert(next.drop_last() =~= views(errs@).take(i as int));
            assert(next.last() == errs@[i as int]@);
        }
        if i > 0 {
            out.append("\n\n");
        }
        out.append(errs[i].render().as_str());
        i += 1;
    }
    assert(views(errs@).take(i as int) =~= views(errs@));
    out
}

} // verus!
