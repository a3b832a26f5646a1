//! What can be wrong with a crontab line, and the tree of diagnostics that
//! says so.

use vstd::prelude::*;

verus! {

/// The ways in which a crontab line can be malformed.
#[derive(PartialEq, Debug, Clone)]
pub enum CrontabSyntaxError {
    InvalidEnumField,
    ValueOutOfBounds { value: i32, min: i32, max: i32 },
    InvalidNumericValue,
    InvalidPeriodField,
    InvalidFieldSeparator,
    InvalidUsername,
    InvalidCommandLine { reason: String },
}

/// A `CrontabSyntaxError` as a mathematical value.
pub enum SyntaxErrorView {
    InvalidEnumField,
    ValueOutOfBounds { value: int, min: int, max: int },
    InvalidNumericValue,
    InvalidPeriodField,
    InvalidFieldSeparator,
    InvalidUsername,
    InvalidCommandLine { reason: Seq<char> },
}

impl View for CrontabSyntaxError {
    type V = SyntaxErrorView;

    open spec fn view(&self) -> SyntaxErrorView {
        match *self {
            CrontabSyntaxError::InvalidEnumField => SyntaxErrorView::InvalidEnumField,
            CrontabSyntaxError::ValueOutOfBounds { value, min, max } => SyntaxErrorView::ValueOutOfBounds {
                value: value as int,
                min: min as int,
                max: max as int,
            },
            CrontabSyntaxError::InvalidNumericValue => SyntaxErrorView::InvalidNumericValue,
            CrontabSyntaxError::InvalidPeriodField => SyntaxErrorView::InvalidPeriodField,
            CrontabSyntaxError::InvalidFieldSeparator => SyntaxErrorView::InvalidFieldSeparator,
            CrontabSyntaxError::InvalidUsername => SyntaxErrorView::InvalidUsername,
            CrontabSyntaxError::InvalidCommandLine { reason } => SyntaxErrorView::InvalidCommandLine {
                reason: reason@,
            },
        }
    }
}

/// One failure of the grammar: what was wrong, the input at the point of
/// failure where it was captured, and the failure that caused this one,
/// where there is one.
#[derive(PartialEq, Debug)]
pub struct Diagnostic<'a> {
    pub error: CrontabSyntaxError,
    pub position: Option<&'a [u8]>,
    pub cause: Option<Box<Diagnostic<'a>>>,
}

/// A `Diagnostic` as a mathematical value.
pub struct DiagnosticView {
    pub error: SyntaxErrorView,
    pub position: Option<Seq<u8>>,
    pub cause: Option<Box<DiagnosticView>>,
}

impl<'a> Diagnostic<'a> {
    /// The diagnostic and its causes as a mathematical value.
    pub open spec fn model(&self) -> DiagnosticView
        decreases self,
    {
        DiagnosticView {
            error: self.error@,
            position: match self.position {
                Some(p) => Some(p@),
                None => None,
            },
            cause: match self.cause {
                Some(c) => Some(Box::new(c.model())),
                None => None,
            },
        }
    }
}

impl<'a> View for Diagnostic<'a> {
    type V = DiagnosticView;

    open spec fn view(&self) -> DiagnosticView {
        self.model()
    }
}

impl<'a> Diagnostic<'a> {
    /// A failure at `position` that nothing else caused.
    pub fn at(error: CrontabSyntaxError, position: &'a [u8]) -> (d: Diagnostic<'a>)
        ensures
            d@ == failure(error@, position@),
    {
        Diagnostic { error, position: Some(position), cause: None }
    }

    /// A failure at `position` that `cause` explains.
    pub fn caused_by(error: CrontabSyntaxError, position: &'a [u8], cause: Diagnostic<'a>) -> (d:
        Diagnostic<'a>)
        ensures
            d@ == failure_caused(error@, position@, cause@),
    {
        Diagnostic { error, position: Some(position), cause: Some(Box::new(cause)) }
    }
}

/// The diagnostic of a failure at `position` that nothing else caused.
pub open spec fn failure(error: SyntaxErrorView, position: Seq<u8>) -> DiagnosticView {
    DiagnosticView { error, position: Some(position), cause: None }
}

/// The diagnostic of a failure at `position` that `cause` explains.
pub open spec fn failure_caused(
    error: SyntaxErrorView,
    position: Seq<u8>,
    cause: DiagnosticView,
) -> DiagnosticView {
    DiagnosticView { error, position: Some(position), cause: Some(Box::new(cause)) }
}

/// What a parser reports: the input that it left unread, or why it failed.
pub type ParseOutcome<'a> = Result<&'a [u8], Diagnostic<'a>>;

/// A `ParseOutcome` as a mathematical value.
pub type OutcomeView = Result<Seq<u8>, DiagnosticView>;

/// The outcome of a parser that succeeded and left `rest` unread.
pub open spec fn accepted(rest: Seq<u8>) -> OutcomeView {
    Ok(rest)
}

/// The outcome of a parser that failed with `d`.
pub open spec fn refused(d: DiagnosticView) -> OutcomeView {
    Err(d)
}

/// The mathematical value of a `ParseOutcome`.
pub open spec fn outcome_view(r: ParseOutcome) -> OutcomeView {
    match r {
        Ok(rest) => Ok(rest@),
        Err(d) => Err(d@),
    }
}

} // verus!
