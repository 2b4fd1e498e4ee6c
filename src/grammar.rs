use crate::expression::Expr;
use crate::failure::{Expected, FailureView, ReasonView, Span};
use crate::numeral::{all_digits, exact_rational, is_digit, is_numeral, is_unsigned_numeral};
use vstd::prelude::*;
use vstd::utf8::encode_utf8;

verus! {

/// The classes of characters that make up tokens.
#[derive(Clone, Copy, PartialEq, Eq, Structural)]
pub enum CharClass {
    Space,
    Digit,
    Letter,
}

/// Whitespace that may surround any token.
pub open spec fn is_space(c: char) -> bool {
    c == ' ' || c == '\t' || c == '\n' || c == '\r' || c == '\x0B' || c == '\x0C'
}

/// Identifiers are made of lower-case ASCII letters.
pub open spec fn is_letter(c: char) -> bool {
    'a' <= c <= 'z'
}

pub open spec fn in_class(c: char, k: CharClass) -> bool {
    match k {
        CharClass::Space => is_space(c),
        CharClass::Digit => is_digit(c),
        CharClass::Letter => is_letter(c),
    }
}

/// How many characters at the start of `s` belong to class `k`.
pub open spec fn run(s: Seq<char>, k: CharClass) -> nat
    decreases s.len(),
{
    if s.len() > 0 && in_class(s[0], k) {
        1 + run(s.drop_first(), k)
    } else {
        0
    }
}

/// The first position at or after `p` that does not start a run of class `k`.
pub open spec fn run_end(cs: Seq<char>, p: int, k: CharClass) -> int {
    p + run(cs.subrange(p, cs.len() as int), k)
}

/// The first position at or after `p` that is not whitespace.
pub open spec fn skip_space(cs: Seq<char>, p: int) -> int {
    run_end(cs, p, CharClass::Space)
}

/// The result of a rule started at some position: the tree and the position
/// after it and after the whitespace that follows it, or a failure.
pub type Parsed = Result<(Expr, int), FailureView>;

/// The binary operators, in the order in which a failure lists them.
pub open spec fn operators() -> Seq<Expected> {
    seq![Expected::Char('*'), Expected::Char('/'), Expected::Char('+'), Expected::Char('-')]
}

/// What may start an operand.
pub open spec fn operand_start() -> Seq<Expected> {
    seq![
        Expected::Letter,
        Expected::Digit,
        Expected::Char('-'),
        Expected::Char('@'),
        Expected::Char('('),
    ]
}

/// What may follow a complete operand inside a delimited list: an operator, or
/// `,` (where a second argument may come) and `)`.
pub open spec fn closers(comma: bool) -> Seq<Expected> {
    if comma {
        operators() + seq![Expected::Char(','), Expected::Char(')')]
    } else {
        operators() + seq![Expected::Char(')')]
    }
}

/// The character at `q`, or `None` at the end of the line.
pub open spec fn found_at(cs: Seq<char>, q: int) -> Option<char> {
    if 0 <= q < cs.len() {
        Some(cs[q])
    } else {
        None
    }
}

/// The failure at `q`, where none of `expected` was found.
pub open spec fn unexpected(cs: Seq<char>, q: int, expected: Seq<Expected>) -> FailureView {
    FailureView {
        span: Span { start: q as usize, end: (if q < cs.len() { q + 1 } else { q }) as usize },
        label: None,
        reason: ReasonView::Unexpected,
        expected,
        found: found_at(cs, q),
    }
}

/// The failure at `q`, where the `(` at `open` should have been closed: at the end
/// of the line it is an unclosed delimiter.
pub open spec fn missing_close(cs: Seq<char>, q: int, open: int, comma: bool) -> FailureView {
    if q < cs.len() {
        unexpected(cs, q, closers(comma))
    } else {
        FailureView {
            span: Span { start: q as usize, end: q as usize },
            label: None,
            reason: ReasonView::Unclosed {
                span: Span { start: open as usize, end: (open + 1) as usize },
                delimiter: '(',
            },
            expected: closers(comma),
            found: None,
        }
    }
}

/// A numeral at `q`: `-`? digits (`.` digits)?.
pub open spec fn spec_number(cs: Seq<char>, q: int) -> Parsed {
    let a = if cs[q] == '-' { q + 1 } else { q };
    if !(a < cs.len() && is_digit(cs[a])) {
        Err(unexpected(cs, a, seq![Expected::Digit]))
    } else {
        let d = run_end(cs, a, CharClass::Digit);
        if d < cs.len() && cs[d] == '.' {
            if d + 1 < cs.len() && is_digit(cs[d + 1]) {
                let e = run_end(cs, d + 1, CharClass::Digit);
                Ok((Expr::Rational(exact_rational(cs.subrange(q, e))), skip_space(cs, e)))
            } else {
                Err(unexpected(cs, d + 1, seq![Expected::Digit]))
            }
        } else {
            Ok((Expr::Rational(exact_rational(cs.subrange(q, d))), skip_space(cs, d)))
        }
    }
}

/// A call at `q`, where `cs[q]` is `@`: a name, then one or two arguments
/// between parentheses, separated by a comma.
pub open spec fn spec_call(cs: Seq<char>, q: int) -> Parsed
    decreases cs.len() - q, 0int,
{
    let i = skip_space(cs, q + 1);
    if !(q < cs.len() && i < cs.len() && is_letter(cs[i])) {
        Err(unexpected(cs, i, seq![Expected::Letter]))
    } else {
        let e = run_end(cs, i, CharClass::Letter);
        let name = cs.subrange(i, e);
        let o = skip_space(cs, e);
        if !(o < cs.len() && cs[o] == '(') {
            Err(unexpected(cs, o, seq![Expected::Char('(')]))
        } else {
            match spec_addend(cs, o + 1) {
                Err(f) => Err(f),
                Ok((a1, r)) => {
                    if r < cs.len() && cs[r] == ')' {
                        Ok((Expr::Call { name, arguments: seq![a1] }, skip_space(cs, r + 1)))
                    } else if o < r < cs.len() && cs[r] == ',' {
                        match spec_addend(cs, r + 1) {
                            Err(f) => Err(f),
                            Ok((a2, r2)) => {
                                if r2 < cs.len() && cs[r2] == ')' {
                                    Ok(
                                        (
                                            Expr::Call { name, arguments: seq![a1, a2] },
                                            skip_space(cs, r2 + 1),
                                        ),
                                    )
                                } else {
                                    Err(missing_close(cs, r2, o, false))
                                }
                            },
                        }
                    } else {
                        Err(missing_close(cs, r, o, true))
                    }
                },
            }
        }
    }
}

/// An operand at `p`: a name, a numeral, a call, or an expression in parentheses.
pub open spec fn spec_factor(cs: Seq<char>, p: int) -> Parsed
    decreases cs.len() - p, 1int,
{
    let q = skip_space(cs, p);
    if !(q < cs.len()) {
        Err(unexpected(cs, q, operand_start()))
    } else if is_letter(cs[q]) {
        let e = run_end(cs, q, CharClass::Letter);
        Ok((Expr::Variable(cs.subrange(q, e)), skip_space(cs, e)))
    } else if is_digit(cs[q]) || cs[q] == '-' {
        spec_number(cs, q)
    } else if cs[q] == '@' {
        spec_call(cs, q)
    } else if cs[q] == '(' {
        match spec_addend(cs, q + 1) {
            Err(f) => Err(f),
            Ok((x, r)) => {
                if r < cs.len() && cs[r] == ')' {
                    Ok((x, skip_space(cs, r + 1)))
                } else {
                    Err(missing_close(cs, r, q, false))
                }
            },
        }
    } else {
        Err(unexpected(cs, q, operand_start()))
    }
}

/// Operands joined by `*` and `/`, folded to the left onto `acc`, from `q` on.
/// (Every rule that succeeds moves forward; the guards only make that visible
/// to the termination check.)
pub open spec fn spec_term_rest(cs: Seq<char>, q: int, acc: Expr) -> Parsed
    decreases cs.len() - q, 2int,
{
    if 0 <= q < cs.len() && (cs[q] == '*' || cs[q] == '/') {
        match spec_factor(cs, q + 1) {
            Err(f) => Err(f),
            Ok((y, r)) => {
                if q < r <= cs.len() {
                    let node = if cs[q] == '*' {
                        Expr::Mul(Box::new(acc), Box::new(y))
                    } else {
                        Expr::Div(Box::new(acc), Box::new(y))
                    };
                    spec_term_rest(cs, r, node)
                } else {
                    Err(unexpected(cs, q, seq![]))
                }
            },
        }
    } else {
        Ok((acc, q))
    }
}

/// A product: an operand, then any number of `*` or `/` and an operand.
pub open spec fn spec_term(cs: Seq<char>, p: int) -> Parsed
    decreases cs.len() - p, 3int,
{
    match spec_factor(cs, p) {
        Err(f) => Err(f),
        Ok((x, q)) => {
            if p < q <= cs.len() {
                spec_term_rest(cs, q, x)
            } else {
                Err(unexpected(cs, p, seq![]))
            }
        },
    }
}

/// Products joined by `+` and `-`, folded to the left onto `acc`, from `q` on.
pub open spec fn spec_addend_rest(cs: Seq<char>, q: int, acc: Expr) -> Parsed
    decreases cs.len() - q, 4int,
{
    if 0 <= q < cs.len() && (cs[q] == '+' || cs[q] == '-') {
        match spec_term(cs, q + 1) {
            Err(f) => Err(f),
            Ok((y, r)) => {
                if q < r <= cs.len() {
                    let node = if cs[q] == '+' {
                        Expr::Add(Box::new(acc), Box::new(y))
                    } else {
                        Expr::Sub(Box::new(acc), Box::new(y))
                    };
                    spec_addend_rest(cs, r, node)
                } else {
                    Err(unexpected(cs, q, seq![]))
                }
            },
        }
    } else {
        Ok((acc, q))
    }
}

/// A sum: a product, then any number of `+` or `-` and a product.
pub open spec fn spec_addend(cs: Seq<char>, p: int) -> Parsed
    decreases cs.len() - p, 5int,
{
    match spec_term(cs, p) {
        Err(f) => Err(f),
        Ok((x, q)) => {
            if p < q <= cs.len() {
                spec_addend_rest(cs, q, x)
            } else {
                Err(unexpected(cs, p, seq![]))
            }
        },
    }
}

/// A whole line: a sum that reaches the end of the line.
pub open spec fn spec_line(cs: Seq<char>) -> Result<Expr, FailureView> {
    match spec_addend(cs, 0) {
        Err(f) => Err(f),
        Ok((x, q)) => {
            if q >= cs.len() {
                Ok(x)
            } else {
                Err(unexpected(cs, q, operators().push(Expected::EndOfInput)))
            }
        },
    }
}

/// The byte offset in the UTF-8 text of `cs` at which character `i` starts.
pub open spec fn byte_offset(cs: Seq<char>, i: int) -> int {
    encode_utf8(cs.subrange(0, i)).len() as int
}

/// A span over characters, as a span over the bytes of the line.
pub open spec fn span_in_bytes(cs: Seq<char>, s: Span) -> Span {
    Span {
        start: byte_offset(cs, s.start as int) as usize,
        end: byte_offset(cs, s.end as int) as usize,
    }
}

/// A failure located by characters, located by bytes of the line instead.
pub open spec fn failure_in_bytes(cs: Seq<char>, f: FailureView) -> FailureView {
    FailureView {
        span: span_in_bytes(cs, f.span),
        reason: match f.reason {
            ReasonView::Unclosed { span, delimiter } => ReasonView::Unclosed {
                span: span_in_bytes(cs, span),
                delimiter,
            },
            r => r,
        },
        ..f
    }
}

/// What parsing a line gives: the tree of the grammar, or its failure with
/// spans in bytes.
pub open spec fn spec_parse(cs: Seq<char>) -> Result<Expr, FailureView> {
    match spec_line(cs) {
        Ok(e) => Ok(e),
        Err(f) => Err(failure_in_bytes(cs, f)),
    }
}

/// A run of class `k` is exactly as long as the prefix of `t` whose characters
/// belong to `k`, when the character after it does not.
proof fn lemma_run_is(t: Seq<char>, k: CharClass, m: int)
    requires
        0 <= m <= t.len(),
        forall|i: int| 0 <= i < m ==> in_class(#[trigger] t[i], k),
        m < t.len() ==> !in_class(t[m], k),
    ensures
        run(t, k) == m,
    decreases m,
{
    if m > 0 {
        let r = t.drop_first();
        assert forall|i: int| 0 <= i < m - 1 implies in_class(#[trigger] r[i], k) by {
            assert(in_class(t[i + 1], k));
        }
        lemma_run_is(r, k, m - 1);
    }
}

/// A line that is just a numeral parses to the exact rational it denotes.
pub proof fn numeral_line_is_exact(s: Seq<char>)
    requires
        is_numeral(s),
    ensures
        spec_line(s) == Ok::<Expr, FailureView>(Expr::Rational(exact_rational(s))),
        spec_parse(s) == Ok::<Expr, FailureView>(Expr::Rational(exact_rational(s))),
{
    let n = s.len() as int;
    let a: int = if s.len() > 0 && s[0] == '-' { 1 } else { 0 };
    let u = s.subrange(a, n);
    assert(u =~= if s.len() > 0 && s[0] == '-' { s.drop_first() } else { s });
    assert(is_unsigned_numeral(u));
    assert(u.len() > 0);
    assert(!is_space(s[0]) && !is_letter(s[0]) && (is_digit(s[0]) || s[0] == '-')) by {
        if a == 0 {
            assert(is_digit(u[0]));
        }
    }
    lemma_run_is(s.subrange(0, n), CharClass::Space, 0);
    assert(skip_space(s, 0) == 0);
    lemma_run_is(s.subrange(n, n), CharClass::Space, 0);
    assert(skip_space(s, n) == n);
    if all_digits(u) {
        lemma_run_is(u, CharClass::Digit, n - a);
        assert(run_end(s, a, CharClass::Digit) == n);
        assert(s.subrange(0, n) =~= s);
        assert(spec_number(s, 0) == Ok::<(Expr, int), FailureView>(
            (Expr::Rational(exact_rational(s)), n),
        ));
    } else {
        let k = choose|k: int|
            0 < k < u.len() - 1 && #[trigger] u[k] == '.' && all_digits(u.subrange(0, k))
                && all_digits(u.subrange(k + 1, u.len() as int));
        assert forall|i: int| 0 <= i < k implies in_class(#[trigger] u[i], CharClass::Digit) by {
            assert(is_digit(u.subrange(0, k)[i]));
        }
        lemma_run_is(u, CharClass::Digit, k);
        let d = a + k;
        assert(run_end(s, a, CharClass::Digit) == d);
        assert(s[d] == '.');
        assert(is_digit(s[d + 1])) by {
            assert(is_digit(u.subrange(k + 1, u.len() as int)[0]));
        }
        let w = s.subrange(d + 1, n);
        assert forall|i: int| 0 <= i < n - d - 1 implies in_class(#[trigger] w[i], CharClass::Digit) by {
            assert(is_digit(u.subrange(k + 1, u.len() as int)[i]));
        }
        lemma_run_is(w, CharClass::Digit, n - d - 1);
        assert(run_end(s, d + 1, CharClass::Digit) == n);
        assert(s.subrange(0, n) =~= s);
        assert(spec_number(s, 0) == Ok::<(Expr, int), FailureView>(
            (Expr::Rational(exact_rational(s)), n),
        ));
    }
    assert(spec_factor(s, 0) == spec_number(s, 0));
    assert(spec_term(s, 0) == Ok::<(Expr, int), FailureView>(
        (Expr::Rational(exact_rational(s)), n),
    ));
    assert(spec_addend(s, 0) == Ok::<(Expr, int), FailureView>(
        (Expr::Rational(exact_rational(s)), n),
    ));
}

} // verus!
