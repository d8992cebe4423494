use crate::span::Span;
use vstd::prelude::*;

verus! {

/// What a diagnostic reports.
#[derive(Debug, Clone, Copy, PartialEq, Eq, Structural)]
pub enum ParseErrorKind {
    /// A `{` with no matching `}`.
    MustacheNotClosed,
    /// A `<!--` with no matching `-->`.
    CommentNotClosed,
    MissingWhitespaceAfterConstTag,
    MissingWhitespaceAfterDebugTag,
    MissingWhitespaceAfterHtmlTag,
    MissingWhitespaceAfterIfOpen,
    MissingWhitespaceAfterKeyOpen,
    /// The argument of `@const` is not an assignment.
    InvalidConstArgs,
    /// An argument of `@debug` is not an identifier.
    InvalidDebugArgs,
    /// No script expression could be read where one was expected.
    InvalidExpression,
}

/// A recoverable malformation found while parsing, with the text it concerns.
#[derive(Debug, Clone, Copy, PartialEq, Eq, Structural)]
pub struct ParseError {
    pub kind: ParseErrorKind,
    pub span: Span,
}

impl ParseError {
    pub fn new(kind: ParseErrorKind, span: Span) -> (r: ParseError)
        ensures
            r.kind == kind,
            r.span == span,
    {
        ParseError { kind, span }
    }
}

/// Records diagnostics in the order they are reported.
#[derive(Debug)]
pub struct CollectingErrorReporter {
    errors: Vec<ParseError>,
}

impl View for CollectingErrorReporter {
    type V = Seq<ParseError>;

    closed spec fn view(&self) -> Seq<ParseError> {
        self.errors@
    }
}

impl CollectingErrorReporter {
    pub fn new() -> (r: CollectingErrorReporter)
        ensures
            r@ == Seq::<ParseError>::empty(),
    {
        CollectingErrorReporter { errors: Vec::new() }
    }

    /// Records one diagnostic after those already recorded.
    pub fn report(&mut self, error: ParseError)
        ensures
            final(self)@ == old(self)@.push(error),
    {
        self.errors.push(error);
    }

    /// Whether nothing has been recorded.
    pub fn is_empty(&self) -> (r: bool)
        ensures
            r == (self@.len() == 0),
    {
        self.errors.len() == 0
    }

    /// All recorded diagnostics, in the order they were reported.
    pub fn parse_errors(&self) -> (r: &[ParseError])
        ensures
            r@ == self@,
    {
        self.errors.as_slice()
    }
}

} // verus!
