use laterite::{parser, Expected, Expression, ParseFailure, Reason, Span};
use malachite::Rational;

fn num(n: i64, d: i64) -> Box<Expression> {
    Box::new(Expression::Rational(Rational::from_signeds(n, d)))
}

fn var(name: &str) -> Box<Expression> {
    Box::new(Expression::Variable(name.to_string()))
}

fn add(l: Box<Expression>, r: Box<Expression>) -> Box<Expression> {
    Box::new(Expression::Add(l, r))
}

fn sub(l: Box<Expression>, r: Box<Expression>) -> Box<Expression> {
    Box::new(Expression::Sub(l, r))
}

fn mul(l: Box<Expression>, r: Box<Expression>) -> Box<Expression> {
    Box::new(Expression::Mul(l, r))
}

fn div(l: Box<Expression>, r: Box<Expression>) -> Box<Expression> {
    Box::new(Expression::Div(l, r))
}

fn call(name: &str, arguments: Vec<Box<Expression>>) -> Box<Expression> {
    Box::new(Expression::Call { name: name.to_string(), arguments })
}

fn only_failure(line: &str) -> ParseFailure {
    let mut failures = parser(line).unwrap_err();
    assert_eq!(failures.len(), 1);
    failures.remove(0)
}

fn operators_and(extra: &[Expected]) -> Vec<Expected> {
    let mut v = vec![
        Expected::Char('*'),
        Expected::Char('/'),
        Expected::Char('+'),
        Expected::Char('-'),
    ];
    v.extend_from_slice(extra);
    v
}

#[test]
fn numerals_are_exact_rationals() {
    assert_eq!(parser("0").unwrap(), num(0, 1));
    assert_eq!(parser("3.25").unwrap(), num(13, 4));
    assert_eq!(parser("-3.25").unwrap(), num(-13, 4));
    assert_eq!(parser("1.25").unwrap(), num(5, 4));
    assert_eq!(parser("12.5").unwrap(), num(25, 2));
    assert_eq!(parser("42").unwrap(), num(42, 1));
    assert_eq!(parser("007").unwrap(), num(7, 1));
}

#[test]
fn short_decimals_are_not_approximated() {
    assert_eq!(parser("0.1").unwrap(), num(1, 10));
    assert_eq!(parser("0.333").unwrap(), num(333, 1000));
    assert_eq!(parser("2.50").unwrap(), num(5, 2));
}

#[test]
fn large_numerals_keep_every_digit() {
    let expected = Rational::from_signeds(123456789012345678i64, 1) * Rational::from(1000000000000i64)
        + Rational::from(345678901234i64);
    assert_eq!(
        parser("123456789012345678345678901234").unwrap(),
        Box::new(Expression::Rational(expected))
    );
}

#[test]
fn subtraction_is_left_associative() {
    assert_eq!(parser("1-2-3").unwrap(), sub(sub(num(1, 1), num(2, 1)), num(3, 1)));
}

#[test]
fn division_and_product_fold_left() {
    assert_eq!(parser("8/2*3").unwrap(), mul(div(num(8, 1), num(2, 1)), num(3, 1)));
}

#[test]
fn product_binds_tighter_than_sum() {
    assert_eq!(parser("2+3*4").unwrap(), add(num(2, 1), mul(num(3, 1), num(4, 1))));
}

#[test]
fn parentheses_override_precedence() {
    assert_eq!(parser("(2+3)*4").unwrap(), mul(add(num(2, 1), num(3, 1)), num(4, 1)));
}

#[test]
fn names_and_calls_have_their_shape() {
    assert_eq!(parser("x").unwrap(), var("x"));
    assert_eq!(parser("@f(x,y)").unwrap(), call("f", vec![var("x"), var("y")]));
    assert_eq!(
        parser("@sin(1+x)*y").unwrap(),
        mul(call("sin", vec![add(num(1, 1), var("x"))]), var("y"))
    );
}

#[test]
fn negative_numerals_follow_operators() {
    assert_eq!(parser("1--2").unwrap(), sub(num(1, 1), num(-2, 1)));
    assert_eq!(parser("2*-3").unwrap(), mul(num(2, 1), num(-3, 1)));
}

#[test]
fn calls_take_one_or_two_arguments() {
    assert!(parser("@f()").is_err());
    assert!(parser("@f(x,y,z)").is_err());
    assert!(parser("@f(x)").is_ok());
    assert!(parser("@f(x,y)").is_ok());
}

#[test]
fn third_argument_is_reported_at_its_comma() {
    let f = only_failure("@f(x,y,z)");
    assert_eq!(f.span, Span { start: 6, end: 7 });
    assert_eq!(f.reason, Reason::Unexpected);
    assert_eq!(f.found, Some(','));
    assert_eq!(f.expected, operators_and(&[Expected::Char(')')]));
}

#[test]
fn unclosed_parenthesis_points_at_its_opening() {
    let f = only_failure("(1+2");
    assert_eq!(f.span, Span { start: 4, end: 4 });
    assert_eq!(f.reason, Reason::Unclosed { span: Span { start: 0, end: 1 }, delimiter: '(' });
    assert_eq!(f.found, None);
    assert_eq!(f.expected, operators_and(&[Expected::Char(')')]));
}

#[test]
fn unclosed_call_points_at_its_parenthesis() {
    let f = only_failure("@f(x");
    assert_eq!(f.reason, Reason::Unclosed { span: Span { start: 2, end: 3 }, delimiter: '(' });
    assert_eq!(f.expected, operators_and(&[Expected::Char(','), Expected::Char(')')]));
}

#[test]
fn whitespace_is_insignificant() {
    let plain = parser("1+2").unwrap();
    assert_eq!(parser("1 + 2").unwrap(), plain);
    assert_eq!(parser(" 1+2 ").unwrap(), plain);
    assert_eq!(parser("\t1 +\t2\t").unwrap(), plain);
    assert_eq!(parser("@ f ( x , y )").unwrap(), parser("@f(x,y)").unwrap());
}

#[test]
fn trailing_input_is_rejected() {
    let f = only_failure("1+2 extra");
    assert_eq!(f.span, Span { start: 4, end: 5 });
    assert_eq!(f.found, Some('e'));
    assert_eq!(f.expected, operators_and(&[Expected::EndOfInput]));
}

#[test]
fn empty_line_is_unexpected_end() {
    let f = only_failure("");
    assert_eq!(f.span, Span { start: 0, end: 0 });
    assert_eq!(f.found, None);
    assert_eq!(
        f.expected,
        vec![
            Expected::Letter,
            Expected::Digit,
            Expected::Char('-'),
            Expected::Char('@'),
            Expected::Char('('),
        ]
    );
}

#[test]
fn malformed_numerals_want_digits() {
    let f = only_failure("-x");
    assert_eq!(f.span, Span { start: 1, end: 2 });
    assert_eq!(f.expected, vec![Expected::Digit]);
    let f = only_failure("1.");
    assert_eq!(f.span, Span { start: 2, end: 2 });
    assert_eq!(f.expected, vec![Expected::Digit]);
}

#[test]
fn malformed_calls_name_what_is_missing() {
    assert_eq!(only_failure("@(x)").expected, vec![Expected::Letter]);
    assert_eq!(only_failure("@f x").expected, vec![Expected::Char('(')]);
}

#[test]
fn upper_case_is_not_an_identifier() {
    let f = only_failure("X");
    assert_eq!(f.found, Some('X'));
    assert_eq!(f.span, Span { start: 0, end: 1 });
}

#[test]
fn spans_count_bytes() {
    let f = only_failure("é+1");
    assert_eq!(f.found, Some('é'));
    assert_eq!(f.span, Span { start: 0, end: 2 });
    let f = only_failure("(é");
    assert_eq!(f.span, Span { start: 1, end: 3 });
    let f = only_failure("(\u{20AC}1");
    assert!(matches!(f.reason, Reason::Unexpected));
    assert_eq!(f.span, Span { start: 1, end: 4 });
    let f = only_failure("(1 ");
    assert_eq!(f.span, Span { start: 3, end: 3 });
    let f = only_failure("\u{20AC}(");
    assert_eq!(f.span, Span { start: 0, end: 3 });
}
