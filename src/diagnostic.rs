use crate::failure::{Expected, FailureView, ParseFailure, Reason, ReasonView, Span};
use vstd::prelude::*;

verus! {

/// A message anchored at a span of the line.
#[derive(Debug, PartialEq, Eq)]
pub struct Label {
    pub span: Span,
    pub message: String,
}

/// What is shown for one failure: a headline, a primary label under the
/// offending span, and, for an unclosed delimiter, a secondary label under the
/// place where it was opened.
#[derive(Debug, PartialEq, Eq)]
pub struct Diagnostic {
    pub message: String,
    pub primary: Label,
    pub secondary: Option<Label>,
}

pub struct LabelView {
    pub span: Span,
    pub message: Seq<char>,
}

pub struct DiagnosticView {
    pub message: Seq<char>,
    pub primary: LabelView,
    pub secondary: Option<LabelView>,
}

impl View for Label {
    type V = LabelView;

    open spec fn view(&self) -> LabelView {
        LabelView { span: self.span, message: self.message@ }
    }
}

impl View for Diagnostic {
    type V = DiagnosticView;

    open spec fn view(&self) -> DiagnosticView {
        DiagnosticView {
            message: self.message@,
            primary: self.primary@,
            secondary: match self.secondary {
                Some(l) => Some(l@),
                None => None,
            },
        }
    }
}

/// How one expected item is named: a character as itself, a class in words.
pub open spec fn describe_text(e: Expected) -> Seq<char> {
    match e {
        Expected::Char(c) => seq![c],
        Expected::Digit => "a digit"@,
        Expected::Letter => "a letter"@,
        Expected::EndOfInput => "end of input"@,
    }
}

/// The names of `es`, joined by ", ".
pub open spec fn joined(es: Seq<Expected>) -> Seq<char>
    decreases es.len(),
{
    if es.len() == 0 {
        Seq::empty()
    } else if es.len() == 1 {
        describe_text(es[0])
    } else {
        joined(es.drop_last()) + ", "@ + describe_text(es.last())
    }
}

/// The list of what was expected, or "something else" when nothing is listed.
pub open spec fn expected_text(es: Seq<Expected>) -> Seq<char> {
    if es.len() == 0 {
        "something else"@
    } else {
        joined(es)
    }
}

/// The headline: a custom reason as it stands; otherwise what was met, the rule
/// that was active if one is named, and what was expected.
pub open spec fn headline(f: FailureView) -> Seq<char> {
    match f.reason {
        ReasonView::Custom(m) => m,
        _ => (if f.found is Some {
            "Unexpected token"@
        } else {
            "Unexpected end of input"@
        }) + match f.label {
            Some(l) => " while parsing "@ + l,
            None => Seq::empty(),
        } + ", expected "@ + expected_text(f.expected),
    }
}

/// The text under the offending span.
pub open spec fn primary_text(f: FailureView) -> Seq<char> {
    match f.reason {
        ReasonView::Custom(m) => m,
        _ => match f.found {
            Some(c) => "Unexpected token "@ + seq![c],
            None => "Unexpected end of input"@,
        },
    }
}

/// The diagnostic for a failure.
pub open spec fn diagnostic_of(f: FailureView) -> DiagnosticView {
    DiagnosticView {
        message: headline(f),
        primary: LabelView { span: f.span, message: primary_text(f) },
        secondary: match f.reason {
            ReasonView::Unclosed { span, delimiter } => Some(
                LabelView { span, message: "Unclosed delimiter "@ + seq![delimiter] },
            ),
            _ => None,
        },
    }
}

/// Relies on std's `ToString` for `char`: the string holding just that character.
#[verifier::external_body]
fn char_text(c: char) -> (r: String)
    ensures
        r@ == seq![c],
{
    c.to_string()
}

fn describe(e: Expected) -> (r: String)
    ensures
        r@ == describe_text(e),
{
    match e {
        Expected::Char(c) => char_text(c),
        Expected::Digit => "a digit".to_owned(),
        Expected::Letter => "a letter".to_owned(),
        Expected::EndOfInput => "end of input".to_owned(),
    }
}

fn expected_list(es: &Vec<Expected>) -> (r: String)
    ensures
        r@ == expected_text(es@),
{
    if es.len() == 0 {
        return "something else".to_owned();
    }
    let mut r = describe(es[0]);
    assert(es@.subrange(0, 1) =~= seq![es@[0]]);
    let mut i: usize = 1;
    while i < es.len()
        invariant
            1 <= i <= es.len(),
            r@ == joined(es@.subrange(0, i as int)),
        decreases es.len() - i,
    {
        r.append(", ");
        let next = describe(es[i]);
        r.append(next.as_str());
        assert(es@.subrange(0, i + 1).drop_last() =~= es@.subrange(0, i as int));
        i = i + 1;
    }
    assert(es@.subrange(0, i as int) =~= es@);
    r
}

/// The diagnostic that presents `f`.
pub fn render(f: &ParseFailure) -> (d: Diagnostic)
    ensures
        d@ == diagnostic_of(f@),
{
    let (message, primary) = match &f.reason {
        Reason::Custom(m) => (m.clone(), m.clone()),
        _ => {
            let mut message = if f.found.is_some() {
                "Unexpected token".to_owned()
            } else {
                "Unexpected end of input".to_owned()
            };
            match &f.label {
                Some(l) => {
                    message.append(" while parsing ");
                    message.append(l.as_str());
                },
                None => {},
            }
            message.append(", expected ");
            let list = expected_list(&f.expected);
            message.append(list.as_str());
            let primary = match f.found {
                Some(c) => {
                    let mut t = "Unexpected token ".to_owned();
                    let ct = char_text(c);
                    t.append(ct.as_str());
                    t
                },
                None => "Unexpected end of input".to_owned(),
            };
            (message, primary)
        },
    };
    let secondary = match &f.reason {
        Reason::Unclosed { span, delimiter } => {
            let mut t = "Unclosed delimiter ".to_owned();
            let ct = char_text(*delimiter);
            t.append(ct.as_str());
            Some(Label { span: *span, message: t })
        },
        _ => None,
    };
    let d = Diagnostic { message, primary: Label { span: f.span, message: primary }, secondary };
    proof {
        assert(d@.message =~= headline(f@));
    }
    d
}

/// Rendering is repeatable: two renderings of the same failure are the same
/// diagnostic.
pub proof fn render_is_repeatable(f: ParseFailure, first: Diagnostic, second: Diagnostic)
    requires
        first@ == diagnostic_of(f@),
        second@ == diagnostic_of(f@),
    ensures
        first@ == second@,
{
}

} // verus!
