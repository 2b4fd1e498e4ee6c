use laterite::{parser, render, Expected, ParseFailure, Reason, Span};

fn first_failure(line: &str) -> ParseFailure {
    parser(line).unwrap_err().remove(0)
}

#[test]
fn rendering_is_repeatable() {
    let f = first_failure("(1+2");
    assert_eq!(render(&f), render(&f));
    let f = first_failure("1+2 extra");
    assert_eq!(render(&f), render(&f));
}

#[test]
fn unexpected_token_is_described() {
    let d = render(&first_failure("1+)"));
    assert_eq!(d.message, "Unexpected token, expected a letter, a digit, -, @, (");
    assert_eq!(d.primary.message, "Unexpected token )");
    assert_eq!(d.primary.span, Span { start: 2, end: 3 });
    assert_eq!(d.secondary, None);
}

#[test]
fn end_of_input_is_described() {
    let d = render(&first_failure("2*"));
    assert_eq!(d.message, "Unexpected end of input, expected a letter, a digit, -, @, (");
    assert_eq!(d.primary.message, "Unexpected end of input");
}

#[test]
fn unclosed_delimiter_has_second_label() {
    let d = render(&first_failure("(1+2"));
    assert_eq!(d.message, "Unexpected end of input, expected *, /, +, -, )");
    let second = d.secondary.unwrap();
    assert_eq!(second.span, Span { start: 0, end: 1 });
    assert_eq!(second.message, "Unclosed delimiter (");
}

#[test]
fn trailing_input_mentions_end_of_input() {
    let d = render(&first_failure("1 2"));
    assert_eq!(d.message, "Unexpected token, expected *, /, +, -, end of input");
    assert_eq!(d.primary.message, "Unexpected token 2");
}

#[test]
fn custom_reason_is_shown_as_is() {
    let f = ParseFailure {
        span: Span { start: 1, end: 2 },
        label: None,
        reason: Reason::Custom("too many arguments".to_string()),
        expected: vec![Expected::Char(')')],
        found: Some(','),
    };
    let d = render(&f);
    assert_eq!(d.message, "too many arguments");
    assert_eq!(d.primary.message, "too many arguments");
    assert_eq!(d.secondary, None);
}

#[test]
fn label_and_empty_expectation_are_described() {
    let f = ParseFailure {
        span: Span { start: 0, end: 1 },
        label: Some("a function call".to_string()),
        reason: Reason::Unexpected,
        expected: vec![],
        found: Some('?'),
    };
    let d = render(&f);
    assert_eq!(d.message, "Unexpected token while parsing a function call, expected something else");
    assert_eq!(d.primary.message, "Unexpected token ?");
}
