use vstd::prelude::*;

verus! {

/// A range of positions in the parsed line: `start` inclusive, `end` exclusive.
#[derive(Clone, Copy, Debug, PartialEq, Eq, Structural)]
pub struct Span {
    pub start: usize,
    pub end: usize,
}

/// One thing that would have been accepted where a failure occurred.
#[derive(Clone, Copy, Debug, PartialEq, Eq, Structural)]
pub enum Expected {
    Char(char),
    Digit,
    Letter,
    EndOfInput,
}

/// Why a parse failed.
#[derive(Debug, PartialEq, Eq)]
pub enum Reason {
    /// The next character, or the end of the line, matches no rule.
    Unexpected,
    /// A delimiter opened at `span` was never closed.
    Unclosed { span: Span, delimiter: char },
    /// A message chosen by a rule.
    Custom(String),
}

/// A failure to parse a line: where, in which rule, why, what would have been
/// accepted there, and what was found instead (`None` at the end of the line).
#[derive(Debug, PartialEq, Eq)]
pub struct ParseFailure {
    pub span: Span,
    pub label: Option<String>,
    pub reason: Reason,
    pub expected: Vec<Expected>,
    pub found: Option<char>,
}

/// The mathematical content of a [`Reason`].
pub enum ReasonView {
    Unexpected,
    Unclosed { span: Span, delimiter: char },
    Custom(Seq<char>),
}

/// The mathematical content of a [`ParseFailure`].
pub struct FailureView {
    pub span: Span,
    pub label: Option<Seq<char>>,
    pub reason: ReasonView,
    pub expected: Seq<Expected>,
    pub found: Option<char>,
}

impl View for Reason {
    type V = ReasonView;

    open spec fn view(&self) -> ReasonView {
        match self {
            Reason::Unexpected => ReasonView::Unexpected,
            Reason::Unclosed { span, delimiter } => ReasonView::Unclosed {
                span: *span,
                delimiter: *delimiter,
            },
            Reason::Custom(m) => ReasonView::Custom(m@),
        }
    }
}

impl View for ParseFailure {
    type V = FailureView;

    open spec fn view(&self) -> FailureView {
        FailureView {
            span: self.span,
            label: match self.label {
                Some(l) => Some(l@),
                None => None,
            },
            reason: self.reason@,
            expected: self.expected@,
            found: self.found,
        }
    }
}

} // verus!
